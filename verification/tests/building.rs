use modelfile::message::Message;
use modelfile::modelfile::error::ModelfileError;
use modelfile::modelfile::instruction::Adapter;
use modelfile::modelfile::instruction::Template;
use modelfile::modelfile::parameter::Parameter;
use modelfile::modelfile::render::Renderer;
use modelfile::modelfile::Instruction;
use modelfile::modelfile::Multiline;
use modelfile::modelfile::TensorFile;
use modelfile::number::Float;
use modelfile::Modelfile;
use modelfile::ModelfileBuilder;

fn builder_detail(r: Result<ModelfileBuilder, ModelfileError>) -> String {
    match r {
        Err(ModelfileError::Builder(detail)) => detail,
        other => panic!("expected a builder error, got {:?}", other),
    }
}

#[test]
fn build_needs_a_base_model() {
    match ModelfileBuilder::default().build() {
        Err(ModelfileError::Builder(detail)) => {
            assert_eq!(detail, "Modelfile requires a FROM instruction")
        }
        other => panic!("expected a builder error, got {:?}", other),
    }
    let error = ModelfileBuilder::default()
        .system("hello")
        .expect("first system message")
        .build()
        .expect_err("no base model");
    assert_eq!(error.summary(), "error building Modelfile from parts");
    assert_eq!(error.detail(), "Modelfile requires a FROM instruction");
    assert_eq!(
        ModelfileError::Parse("x".to_string()).summary(),
        "unable to parse Modelfile"
    );
}

#[test]
fn a_full_modelfile_is_rendered_in_a_fixed_order() {
    let modelfile = ModelfileBuilder::default()
        .license("MIT")
        .message(Message::User("hi".to_string()))
        .parameter(Parameter::Temperature(Float::parse("0.25").expect("a literal")))
        .template(Template::new("{{ .Prompt }}"))
        .expect("first template")
        .system("Be kind.\nBe brief.")
        .expect("first system message")
        .adapter(Adapter::new(TensorFile::from_path("lora")))
        .expect("first adapter")
        .message(Message::Assistant("hello".to_string()))
        .parameter(Parameter::NumCtx(2048))
        .from("llama3.2")
        .expect("first base model")
        .license("Apache-2.0")
        .build()
        .expect("should build");
    let expected = "# This file was generated by the Ollama-CLI client\n\
FROM llama3.2\n\
\n\
ADAPTER lora\n\
\n\
SYSTEM \"\"\"Be kind.\nBe brief.\"\"\"\n\
\n\
TEMPLATE \"\"\"{{ .Prompt }}\"\"\"\n\
\n\
PARAMETER temperature 0.25\n\
PARAMETER num_ctx 2048\n\
\n\
MESSAGE user: hi\n\
MESSAGE assistant: hello\n\
\n\
LICENSE \"\"\"MIT\nApache-2.0\"\"\"\n\
\n";
    assert_eq!(modelfile.render(), expected);
    assert_eq!(Modelfile::parse(expected).expect("should parse"), modelfile);
}

#[test]
fn setters_that_take_one_value_fail_the_second_time() {
    let builder = ModelfileBuilder::default()
        .from("a")
        .expect("first base model")
        .template(Template::new("t"))
        .expect("first template")
        .system("s")
        .expect("first system message")
        .adapter(Adapter::new(TensorFile::from_path("x.gguf")))
        .expect("first adapter");
    assert_eq!(
        builder_detail(builder.clone().from("b")),
        "Modelfile can only have one FROM instruction: b"
    );
    assert_eq!(
        builder_detail(builder.clone().template(Template::new("u"))),
        "Modelfile can only have one TEMPLATE instruction: \"\"\"u\"\"\""
    );
    assert_eq!(
        builder_detail(builder.clone().system("v")),
        "Modelfile can only have one SYSTEM instruction: v"
    );
    assert_eq!(
        builder_detail(builder.clone().adapter(Adapter::new(TensorFile::from_path("y")))),
        "Modelfile can only have one ADAPTER instruction: y"
    );
    let built = builder.build().expect("should build");
    assert_eq!(built.from().as_str(), "a");
    assert_eq!(built.template().expect("a template").as_str(), "t");
    assert_eq!(built.system().expect("a system message").as_str(), "s");
    assert_eq!(built.adapter().expect("an adapter").path(), "x.gguf");
}

#[test]
fn instructions_are_folded_in_order() {
    let builder = ModelfileBuilder::from_instructions(vec![
        Instruction::Skip,
        Instruction::License("one".to_string()),
        Instruction::From("base".to_string()),
        Instruction::Parameter(Parameter::Seed(1)),
        Instruction::Skip,
        Instruction::Message(Message::System("s".to_string())),
        Instruction::License("two".to_string()),
        Instruction::Template("t".to_string()),
        Instruction::System("sys".to_string()),
        Instruction::Adapter(TensorFile::Safetensor("dir".to_string())),
        Instruction::Parameter(Parameter::Seed(2)),
    ])
    .expect("should fold");
    assert_eq!(builder.from.as_ref().expect("a base model").as_str(), "base");
    assert_eq!(builder.license.as_ref().expect("a license").as_str(), "one\ntwo");
    assert_eq!(builder.parameters.0, vec![Parameter::Seed(1), Parameter::Seed(2)]);
    assert_eq!(builder.messages.0, vec![Message::System("s".to_string())]);
    let failed = ModelfileBuilder::from_instructions(vec![
        Instruction::System("a".to_string()),
        Instruction::System("b".to_string()),
        Instruction::From("x".to_string()),
        Instruction::From("y".to_string()),
    ]);
    assert_eq!(
        builder_detail(failed),
        "Modelfile can only have one SYSTEM instruction: b"
    );
    let one = ModelfileBuilder::default()
        .instruction(Instruction::Skip)
        .expect("nothing happens")
        .instruction(Instruction::From("m".to_string()))
        .expect("first base model");
    assert_eq!(builder_detail(one.instruction(Instruction::From("n".to_string()))),
        "Modelfile can only have one FROM instruction: n");
}

#[test]
fn building_on_a_modelfile_keeps_all_it_holds() {
    let text = "FROM a\nSYSTEM s\nTEMPLATE t\nADAPTER d\nLICENSE l\nPARAMETER seed 3\nMESSAGE user: u\n";
    let modelfile = Modelfile::parse(text).expect("should parse");
    let builder = modelfile.clone().build_on();
    assert_eq!(builder.from.as_ref().expect("a base model").as_str(), "a");
    assert_eq!(builder.clone().build().expect("should build"), modelfile);
    assert_eq!(
        builder_detail(builder.clone().from("b")),
        "Modelfile can only have one FROM instruction: b"
    );
    let more = builder
        .license("m")
        .parameter(Parameter::Seed(4))
        .build()
        .expect("should build");
    assert_eq!(more.license().expect("a license").as_str(), "l\nm");
    assert_eq!(more.parameters().0, vec![Parameter::Seed(3), Parameter::Seed(4)]);
}

#[test]
fn multiline_text_is_extended_after_a_line_feed() {
    let text = Multiline::new("first");
    let more = text.extend("second");
    assert_eq!(more.as_str(), "first\nsecond");
    assert_eq!(text.as_str(), "first");
    assert_eq!(more.to_text(), "\"\"\"first\nsecond\"\"\"");
    assert_eq!(Multiline::new("").extend("").as_str(), "\n");
}

#[test]
fn the_renderer_writes_lines_and_groups() {
    let mut renderer = Renderer::default();
    renderer.push_raw("# head\n");
    renderer.push("FROM", "x");
    renderer.newline();
    renderer.push_opt("SYSTEM", None);
    renderer.push_opt("ADAPTER", Some("a"));
    renderer.push_vec("PARAMETER", &vec![]);
    renderer.push_vec("MESSAGE", &vec!["user: 1".to_string(), "user: 2".to_string()]);
    assert_eq!(
        renderer.finalize(),
        "# head\nFROM x\n\nADAPTER a\n\nMESSAGE user: 1\nMESSAGE user: 2\n\n"
    );
}

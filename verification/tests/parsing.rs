use modelfile::message::Message;
use modelfile::message::MessageRole;
use modelfile::modelfile::error::ModelfileError;
use modelfile::modelfile::parameter::Parameter;
use modelfile::modelfile::parameter::ParameterName;
use modelfile::modelfile::parser::instructions;
use modelfile::modelfile::Instruction;
use modelfile::modelfile::TensorFile;
use modelfile::number::Float;
use modelfile::Modelfile;

fn llama() -> &'static str {
    "# Modelfile generated by \"ollama show\"\n\
# To build a new Modelfile based on this, replace FROM with:\n\
# FROM llama3.2:latest\n\
\n\
FROM /usr/share/ollama/.ollama/models/blobs/sha256-dde5aa3fc5ffc17176b5e8bdc82f587b24b2678c6c66101bf7da77af9f7ccdff\n\
TEMPLATE \"\"\"<|start_header_id|>system<|end_header_id|>\n\
\n\
{{ if .System }}{{ .System }}{{- end }}<|eot_id|>\n\
\"\"\"\n\
PARAMETER stop <|start_header_id|>\n\
PARAMETER stop <|end_header_id|>\n\
PARAMETER stop <|eot_id|>\n\
LICENSE \"\"\"LLAMA 3.2 COMMUNITY LICENSE AGREEMENT\n\
Llama 3.2 Version Release Date: September 25, 2024\n\
\n\
\"Agreement\" means the terms and conditions for use.\n\
\"\"\"\n"
}

fn mistral() -> &'static str {
    "FROM mistral:latest\n\
PARAMETER temperature 0.8\n\
PARAMETER num_ctx 4096\n\
PARAMETER mirostat 2\n\
PARAMETER mirostat_eta 0.1\n\
PARAMETER mirostat_tau 5.0\n\
PARAMETER repeat_last_n 64\n\
PARAMETER repeat_penalty 1.1\n\
PARAMETER seed 42\n\
PARAMETER stop [INST]\n\
PARAMETER stop [/INST]\n\
PARAMETER tfs_z 1\n\
PARAMETER num_predict 128\n\
PARAMETER top_k 40\n\
PARAMETER top_p 0.9\n\
PARAMETER min_p 0.05\n\
SYSTEM You are a helpful assistant.\n\
ADAPTER ./adapters/lora.gguf\n\
MESSAGE user: Is Toronto in Canada?\n\
MESSAGE assistant: yes\n\
MESSAGE system: be brief\n"
}

fn float(text: &str) -> Float {
    Float::parse(text).expect("a floating-point literal")
}

fn parse_detail(text: &str) -> String {
    match Modelfile::parse(text) {
        Err(ModelfileError::Parse(detail)) => detail,
        other => panic!("expected a parse error, got {:?}", other),
    }
}

fn builder_detail(text: &str) -> String {
    match Modelfile::parse(text) {
        Err(ModelfileError::Builder(detail)) => detail,
        other => panic!("expected a builder error, got {:?}", other),
    }
}

#[test]
fn modelfiles_are_parsed() {
    for case in [llama(), mistral(), "FROM llama3.2", "FROM a\r\nSYSTEM b\r\n"] {
        let modelfile: Modelfile = case
            .parse::<Modelfile>()
            .expect("should be able to parse Modelfile");
        assert!(!modelfile.from().as_str().is_empty());
    }
}

#[test]
fn snapshot_render() {
    let modelfile: Modelfile = llama().parse().expect("should be able to parse test data");

    let render = modelfile.render();

    let again: Modelfile = render
        .parse()
        .expect("should be able to parse rendered Modelfile");
    assert_eq!(again, modelfile);

    let expected = "# This file was generated by the Ollama-CLI client\n\
FROM /usr/share/ollama/.ollama/models/blobs/sha256-dde5aa3fc5ffc17176b5e8bdc82f587b24b2678c6c66101bf7da77af9f7ccdff\n\
\n\
TEMPLATE \"\"\"<|start_header_id|>system<|end_header_id|>\n\
\n\
{{ if .System }}{{ .System }}{{- end }}<|eot_id|>\n\
\"\"\"\n\
\n\
PARAMETER stop <|start_header_id|>\n\
PARAMETER stop <|end_header_id|>\n\
PARAMETER stop <|eot_id|>\n\
\n\
LICENSE \"\"\"LLAMA 3.2 COMMUNITY LICENSE AGREEMENT\n\
Llama 3.2 Version Release Date: September 25, 2024\n\
\n\
\"Agreement\" means the terms and conditions for use.\n\
\"\"\"\n\
\n";
    assert_eq!(render, expected);
}

#[test]
fn snapshot_parameters() {
    let param = Parameter::Stop("<eos>".into());

    assert_eq!(param.to_text(), "stop <eos>");
}

#[test]
fn every_parameter_is_read_with_its_kind_of_value() {
    let modelfile = Modelfile::parse(mistral()).expect("should parse");
    let expected = vec![
        Parameter::Temperature(float("0.8")),
        Parameter::NumCtx(4096),
        Parameter::Mirostat(2),
        Parameter::MirostatEta(float("0.1")),
        Parameter::MirostatTau(float("5.0")),
        Parameter::RepeatLastN(64),
        Parameter::RepeatPenalty(float("1.1")),
        Parameter::Seed(42),
        Parameter::Stop("[INST]".to_string()),
        Parameter::Stop("[/INST]".to_string()),
        Parameter::TfsZ(float("1")),
        Parameter::NumPredict(128),
        Parameter::TopK(40),
        Parameter::TopP(float("0.9")),
        Parameter::MinP(float("0.05")),
    ];
    assert_eq!(modelfile.parameters().0, expected);
    assert_eq!(modelfile.from().as_str(), "mistral:latest");
    assert_eq!(modelfile.system().expect("a system message").as_str(), "You are a helpful assistant.");
    assert_eq!(
        modelfile.adapter().expect("an adapter").0,
        TensorFile::Gguf("./adapters/lora.gguf".to_string())
    );
    assert_eq!(
        modelfile.messages().0,
        vec![
            Message::User("Is Toronto in Canada?".to_string()),
            Message::Assistant("yes".to_string()),
            Message::System("be brief".to_string()),
        ]
    );
    assert!(modelfile.template().is_none());
    assert!(modelfile.license().is_none());
}

#[test]
fn rendering_then_parsing_gives_the_same_modelfile() {
    for case in [llama(), mistral(), "FROM x", "FROM x\nLICENSE a\nLICENSE b\n"] {
        let first = Modelfile::parse(case).expect("should parse");
        let second = Modelfile::parse(&first.render()).expect("should parse what was rendered");
        assert_eq!(first, second);
        assert_eq!(first.render(), second.render());
    }
}

#[test]
fn text_without_from_is_a_builder_error() {
    assert_eq!(builder_detail(""), "Modelfile requires a FROM instruction");
    assert_eq!(
        builder_detail("# only a comment\n\nSYSTEM hello\n"),
        "Modelfile requires a FROM instruction"
    );
    assert_eq!(
        builder_detail("PARAMETER seed 1"),
        "Modelfile requires a FROM instruction"
    );
}

#[test]
fn from_alone_gives_an_otherwise_empty_modelfile() {
    let modelfile = Modelfile::parse("FROM llama3.2:latest").expect("should parse");
    assert_eq!(modelfile.from().as_str(), "llama3.2:latest");
    assert!(modelfile.parameters().0.is_empty());
    assert!(modelfile.template().is_none());
    assert!(modelfile.system().is_none());
    assert!(modelfile.adapter().is_none());
    assert!(modelfile.license().is_none());
    assert!(modelfile.messages().0.is_empty());
    assert_eq!(
        modelfile.render(),
        "# This file was generated by the Ollama-CLI client\nFROM llama3.2:latest\n\n"
    );
}

#[test]
fn an_instruction_that_may_occur_once_fails_the_second_time() {
    assert_eq!(
        builder_detail("FROM a\nFROM b\n"),
        "Modelfile can only have one FROM instruction: b"
    );
    assert_eq!(
        builder_detail("FROM a\nTEMPLATE one\nTEMPLATE two\n"),
        "Modelfile can only have one TEMPLATE instruction: \"\"\"two\"\"\""
    );
    assert_eq!(
        builder_detail("FROM a\nSYSTEM one\nSYSTEM \"\"\"two\nlines\"\"\"\n"),
        "Modelfile can only have one SYSTEM instruction: two\nlines"
    );
    assert_eq!(
        builder_detail("FROM a\nADAPTER one.gguf\nADAPTER two\n"),
        "Modelfile can only have one ADAPTER instruction: two"
    );
}

#[test]
fn license_texts_add_up() {
    let modelfile = Modelfile::parse("FROM a\nLICENSE first\nLICENSE second\n").expect("should parse");
    assert_eq!(modelfile.license().expect("a license").as_str(), "first\nsecond");
    let three = Modelfile::parse("LICENSE \"\"\"a\nb\"\"\"\nFROM x\nLICENSE c\nLICENSE d")
        .expect("should parse");
    assert_eq!(three.license().expect("a license").as_str(), "a\nb\nc\nd");
    assert_eq!(
        three.render(),
        "# This file was generated by the Ollama-CLI client\nFROM x\n\nLICENSE \"\"\"a\nb\nc\nd\"\"\"\n\n"
    );
}

#[test]
fn temperature_is_a_float_and_is_rendered_as_it_was_written() {
    let modelfile = Modelfile::parse("FROM a\nPARAMETER temperature 0.8\n").expect("should parse");
    let parameter = &modelfile.parameters().0[0];
    assert_eq!(parameter.name(), ParameterName::Temperature);
    match parameter {
        Parameter::Temperature(value) => {
            assert_eq!(value.as_str(), "0.8");
            assert_eq!(value.as_str().parse::<f32>().expect("a number"), 0.8f32);
        }
        other => panic!("expected a temperature, got {:?}", other),
    }
    assert_eq!(parameter.to_text(), "temperature 0.8");
    assert!(modelfile.render().contains("PARAMETER temperature 0.8\n"));
    let stop = Modelfile::parse("FROM a\nPARAMETER stop <eos>\n").expect("should parse");
    assert_eq!(stop.parameters().0[0].to_text(), "stop <eos>");
    assert!(stop.render().contains("PARAMETER stop <eos>\n"));
}

#[test]
fn a_message_has_its_role_and_content() {
    let modelfile = Modelfile::parse("FROM a\nMESSAGE user: hello\n").expect("should parse");
    let message = &modelfile.messages().0[0];
    assert_eq!(*message, Message::User("hello".to_string()));
    assert_eq!(message.role(), "user");
    assert_eq!(message.kind(), MessageRole::User);
    assert_eq!(message.content(), "hello");
    assert_eq!(message.to_text(), "user: hello");
    assert_eq!(Message::Assistant("x".to_string()).role(), "assistant");
    assert_eq!(Message::System("x".to_string()).role(), "system");
    assert_eq!(Message::new(MessageRole::System, "y"), Message::System("y".to_string()));
}

#[test]
fn parameters_keep_their_order_and_their_repetitions() {
    let built = Modelfile::parse("FROM a")
        .expect("should parse")
        .build_on()
        .parameter(Parameter::Stop("A".to_string()))
        .parameter(Parameter::TopK(7))
        .parameter(Parameter::Stop("A".to_string()))
        .build()
        .expect("should build");
    let again = Modelfile::parse(&built.render()).expect("should parse what was rendered");
    assert_eq!(
        again.parameters().0,
        vec![
            Parameter::Stop("A".to_string()),
            Parameter::TopK(7),
            Parameter::Stop("A".to_string()),
        ]
    );
    assert_eq!(again, built);
}

#[test]
fn unknown_names_are_parse_errors() {
    assert_eq!(
        parse_detail("FROM a\nPARAMETER top_q 1\n"),
        "unknown parameter: top_q"
    );
    assert_eq!(
        parse_detail("FROM a\nMESSAGE robot: hello\n"),
        "unknown message role: robot"
    );
    assert_eq!(
        parse_detail("FROM a\nMESSAGE User: hello\n"),
        "unknown message role: User"
    );
    assert_eq!(
        parse_detail("FROM a\nPARAMETER Temperature 1\n"),
        "unknown parameter: Temperature"
    );
}

#[test]
fn each_fault_is_described() {
    assert_eq!(
        parse_detail("FROM a\nINCLUDE b\n"),
        "parser did not consume all input: INCLUDE b"
    );
    assert_eq!(
        parse_detail(" FROM a\n"),
        "parser did not consume all input:  FROM a"
    );
    assert_eq!(parse_detail("from a"), "parser did not consume all input: from a");
    assert_eq!(parse_detail("FROMa"), "parser did not consume all input: FROMa");
    assert_eq!(parse_detail("FROM"), "missing value for FROM");
    assert_eq!(parse_detail("FROM   \n"), "missing value for FROM");
    assert_eq!(parse_detail("FROM a\nADAPTER \n"), "missing value for ADAPTER");
    assert_eq!(parse_detail("FROM a\nSYSTEM\n"), "missing value for SYSTEM");
    assert_eq!(parse_detail("PARAMETER"), "missing value for PARAMETER");
    assert_eq!(parse_detail("PARAMETER seed"), "missing value for seed");
    assert_eq!(
        parse_detail("PARAMETER seed -1"),
        "invalid value for parameter: seed -1"
    );
    assert_eq!(
        parse_detail("PARAMETER temperature hot"),
        "invalid value for parameter: temperature hot"
    );
    assert_eq!(
        parse_detail("PARAMETER num_ctx 340282366920938463463374607431768211456"),
        "invalid value for parameter: num_ctx 340282366920938463463374607431768211456"
    );
    assert_eq!(
        parse_detail("MESSAGE user hello"),
        "missing `:` after the role of a message: user hello"
    );
    assert_eq!(
        parse_detail("FROM a\nTEMPLATE \"\"\"never closed\nFROM b\n"),
        "missing closing quotes: TEMPLATE \"\"\"never closed"
    );
    assert_eq!(
        parse_detail("LICENSE \"\"\"a\"\"\" b\nFROM c"),
        "unexpected text after closing quotes:  b"
    );
}

#[test]
fn blocks_may_hold_empty_lines_and_keywords() {
    let text = "FROM a\nSYSTEM \"\"\"one\n\nFROM inside\n# no comment\n\"\"\"   \nPARAMETER seed 7";
    let modelfile = Modelfile::parse(text).expect("should parse");
    assert_eq!(
        modelfile.system().expect("a system message").as_str(),
        "one\n\nFROM inside\n# no comment\n"
    );
    assert_eq!(modelfile.parameters().0, vec![Parameter::Seed(7)]);
    let empty = Modelfile::parse("FROM a\nTEMPLATE \"\"\"\"\"\"").expect("should parse");
    assert_eq!(empty.template().expect("a template").as_str(), "");
}

#[test]
fn blanks_and_comments_say_nothing() {
    let list = instructions("\n   \n\t# a comment\n#another\r\nFROM  \t a b \t\r\n\n").expect("should parse");
    assert_eq!(list, vec![Instruction::From("a b".to_string())]);
    assert_eq!(instructions("").expect("should parse"), vec![]);
    let many = instructions("MESSAGE user:hi\nMESSAGE assistant:   \nADAPTER dir/\n").expect("should parse");
    assert_eq!(
        many,
        vec![
            Instruction::Message(Message::User("hi".to_string())),
            Instruction::Message(Message::Assistant("".to_string())),
            Instruction::Adapter(TensorFile::Safetensor("dir/".to_string())),
        ]
    );
}

#[test]
fn unsigned_values_are_decimal_numerals() {
    let list = instructions("PARAMETER seed 007\nPARAMETER top_k 0\n").expect("should parse");
    assert_eq!(
        list,
        vec![
            Instruction::Parameter(Parameter::Seed(7)),
            Instruction::Parameter(Parameter::TopK(0)),
        ]
    );
    assert_eq!(Parameter::Seed(7).to_text(), "seed 7");
    assert_eq!(Parameter::NumCtx(0).to_text(), "num_ctx 0");
    assert_eq!(Parameter::NumPredict(1234567890).to_text(), "num_predict 1234567890");
    let max = format!("PARAMETER seed {}", usize::MAX);
    assert_eq!(
        instructions(&max).expect("should parse"),
        vec![Instruction::Parameter(Parameter::Seed(usize::MAX))]
    );
    assert_eq!(Parameter::Seed(usize::MAX).to_text(), format!("seed {}", usize::MAX));
    assert!(instructions("PARAMETER seed +7").is_err());
    assert!(instructions("PARAMETER seed 7.0").is_err());
    assert!(instructions("PARAMETER seed 1 2").is_err());
}

#[test]
fn float_literals_are_those_that_the_standard_library_reads() {
    for good in [
        "0.8", "3.14", "-3.14", "2.5E10", "2.5e10", "2.5E-10", "5.", ".5", "0", "+1", "inf",
        "-inf", "+infinity", "NaN", "nan", "INFINITY", "1e+5", "007.5",
    ] {
        let value = Float::parse(good);
        assert!(value.is_some(), "{good} is a literal");
        assert_eq!(value.expect("a literal").as_str(), good);
        assert!(good.parse::<f32>().is_ok(), "{good} is read by the standard library");
    }
    for bad in [
        "", ".", "+", "-", "e5", "1e", "1e+", "0x1", "1.2.3", " 1", "1 ", "1f", "infinit", "na",
        "1_000", "--1", "1e5.0", ".e1",
    ] {
        assert!(Float::parse(bad).is_none(), "{bad} is no literal");
        assert!(bad.parse::<f32>().is_err(), "{bad} is not read by the standard library");
    }
}

#[test]
fn a_tensor_file_is_told_by_its_extension() {
    assert_eq!(TensorFile::from_path("model.gguf"), TensorFile::Gguf("model.gguf".to_string()));
    assert_eq!(
        TensorFile::from_path("/a/b.c/model.Q4.gguf"),
        TensorFile::Gguf("/a/b.c/model.Q4.gguf".to_string())
    );
    assert_eq!(TensorFile::from_path(".gguf"), TensorFile::Safetensor(".gguf".to_string()));
    assert_eq!(TensorFile::from_path("dir/.gguf"), TensorFile::Safetensor("dir/.gguf".to_string()));
    assert_eq!(TensorFile::from_path("model.GGUF"), TensorFile::Safetensor("model.GGUF".to_string()));
    assert_eq!(TensorFile::from_path("model.gguf/"), TensorFile::Safetensor("model.gguf/".to_string()));
    assert_eq!(TensorFile::from_path("gguf"), TensorFile::Safetensor("gguf".to_string()));
    assert_eq!(
        TensorFile::from_path("weights/model.safetensors"),
        TensorFile::Safetensor("weights/model.safetensors".to_string())
    );
    assert_eq!(TensorFile::from_path("a.gguf").path(), "a.gguf");
}

#[test]
fn quotes_inside_a_block_are_not_escaped() {
    let first = Modelfile::parse("FROM a\nSYSTEM say \"\"\"hi\"\"\" twice\n").expect("should parse");
    assert_eq!(
        first.system().expect("a system message").as_str(),
        "say \"\"\"hi\"\"\" twice"
    );
    assert!(Modelfile::parse(&first.render()).is_err());
}

#[test]
fn names_are_read_back_from_their_text() {
    for name in [
        ParameterName::Mirostat,
        ParameterName::MirostatEta,
        ParameterName::MirostatTau,
        ParameterName::NumCtx,
        ParameterName::RepeatLastN,
        ParameterName::RepeatPenalty,
        ParameterName::Temperature,
        ParameterName::Seed,
        ParameterName::Stop,
        ParameterName::TfsZ,
        ParameterName::NumPredict,
        ParameterName::TopK,
        ParameterName::TopP,
        ParameterName::MinP,
    ] {
        assert_eq!(ParameterName::from_str(name.as_str()), Some(name));
    }
    assert_eq!(ParameterName::NumCtx.as_str(), "num_ctx");
    assert_eq!(ParameterName::from_str("mirostat_"), None);
    for role in [MessageRole::Assistant, MessageRole::User, MessageRole::System] {
        assert_eq!(MessageRole::from_str(role.as_str()), Some(role));
    }
    assert_eq!(MessageRole::from_str("tool"), None);
}

#[test]
fn a_block_that_ends_with_a_quote_is_not_read_back() {
    let first = Modelfile::parse("FROM a\nSYSTEM say \"hi\"\n").expect("should parse");
    assert_eq!(first.system().expect("a system message").as_str(), "say \"hi\"");
    assert_eq!(
        first.render(),
        "# This file was generated by the Ollama-CLI client\nFROM a\n\nSYSTEM \"\"\"say \"hi\"\"\"\"\n\n"
    );
    assert_eq!(
        parse_detail(&first.render()),
        "unexpected text after closing quotes: \""
    );
}

#[test]
fn a_fault_on_a_later_line_fails_the_whole_text() {
    assert_eq!(
        parse_detail("FROM a\nSYSTEM \"\"\"one\ntwo\"\"\"\n\nPARAMETER seed 1\nPARAMETER bogus 2\nFROM b\n"),
        "unknown parameter: bogus"
    );
    assert_eq!(
        parse_detail("PARAMETER bogus 1"),
        "unknown parameter: bogus"
    );
}

#[test]
fn a_float_is_copied_and_compared_by_its_literal() {
    let value = float("1.50");
    let copy = value.clone();
    assert_eq!(copy, value);
    assert_eq!(copy.as_str(), "1.50");
    assert_ne!(float("1.5"), value);
    assert_eq!(Parameter::TopP(value).to_text(), "top_p 1.50");
}

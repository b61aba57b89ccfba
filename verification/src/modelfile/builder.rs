//! Putting a [`Modelfile`] together from its parts.
//!
//! [`Modelfile::build_on`] gives a builder that starts from an existing
//! Modelfile.

use vstd::prelude::*;
use crate::message::Message;
use crate::message::MessageView;
use crate::modelfile::block;
use crate::modelfile::error::ErrorView;
use crate::modelfile::error::ModelfileError;
use crate::modelfile::Instruction;
use crate::modelfile::instruction::Adapter;
use crate::modelfile::instruction::BaseModel;
use crate::modelfile::instruction::License;
use crate::modelfile::instruction::Messages;
use crate::modelfile::instruction::Parameters;
use crate::modelfile::instruction::SystemMessage;
use crate::modelfile::instruction::Template;
use crate::modelfile::InstructionView;
use crate::modelfile::Modelfile;
use crate::modelfile::ModelfileView;
use crate::modelfile::Multiline;
use crate::modelfile::parameter::Parameter;
use crate::modelfile::parameter::ParameterView;
use crate::modelfile::TensorFileView;

verus! {

/// What is said of an instruction that occurs a second time and may not.
pub open spec fn duplicate_detail(keyword: Seq<char>, value: Seq<char>) -> Seq<char> {
    "Modelfile can only have one "@ + keyword + " instruction: "@ + value
}

/// What is said where the base model is missing.
pub open spec fn missing_from_detail() -> Seq<char> {
    "Modelfile requires a FROM instruction"@
}

/// The parts of a Modelfile that have been given so far.
#[derive(Clone, Debug, PartialEq, Eq)]
pub struct ModelfileBuilder {
    pub from: Option<BaseModel>,
    pub parameters: Parameters,
    pub template: Option<Template>,
    pub system: Option<SystemMessage>,
    pub adapter: Option<Adapter>,
    pub license: Option<License>,
    pub messages: Messages,
}

/// What a [`ModelfileBuilder`] stands for.
pub struct BuilderView {
    pub from: Option<Seq<char>>,
    pub parameters: Seq<ParameterView>,
    pub template: Option<Seq<char>>,
    pub system: Option<Seq<char>>,
    pub adapter: Option<TensorFileView>,
    pub license: Option<Seq<char>>,
    pub messages: Seq<MessageView>,
}

impl View for ModelfileBuilder {
    type V = BuilderView;

    open spec fn view(&self) -> BuilderView {
        BuilderView {
            from: match self.from {
                Some(model) => Some(model@),
                None => None,
            },
            parameters: self.parameters@,
            template: match self.template {
                Some(text) => Some(text@),
                None => None,
            },
            system: match self.system {
                Some(text) => Some(text@),
                None => None,
            },
            adapter: match self.adapter {
                Some(file) => Some(file@),
                None => None,
            },
            license: match self.license {
                Some(text) => Some(text@),
                None => None,
            },
            messages: self.messages@,
        }
    }
}

impl BuilderView {
    /// The builder to which nothing has been given.
    pub open spec fn empty() -> BuilderView {
        BuilderView {
            from: None,
            parameters: Seq::empty(),
            template: None,
            system: None,
            adapter: None,
            license: None,
            messages: Seq::empty(),
        }
    }

    /// The base model may be given once.
    pub open spec fn with_from(self, model: Seq<char>) -> Result<BuilderView, ErrorView> {
        if self.from is Some {
            Err(ErrorView::Builder(duplicate_detail("FROM"@, model)))
        } else {
            Ok(BuilderView { from: Some(model), ..self })
        }
    }

    /// Parameters add up, in the order in which they are given.
    pub open spec fn with_parameter(self, parameter: ParameterView) -> BuilderView {
        BuilderView { parameters: self.parameters.push(parameter), ..self }
    }

    /// The template may be given once.
    pub open spec fn with_template(self, text: Seq<char>) -> Result<BuilderView, ErrorView> {
        if self.template is Some {
            Err(ErrorView::Builder(duplicate_detail("TEMPLATE"@, block(text))))
        } else {
            Ok(BuilderView { template: Some(text), ..self })
        }
    }

    /// The system message may be given once.
    pub open spec fn with_system(self, text: Seq<char>) -> Result<BuilderView, ErrorView> {
        if self.system is Some {
            Err(ErrorView::Builder(duplicate_detail("SYSTEM"@, text)))
        } else {
            Ok(BuilderView { system: Some(text), ..self })
        }
    }

    /// The adapter may be given once.
    pub open spec fn with_adapter(self, file: TensorFileView) -> Result<BuilderView, ErrorView> {
        if self.adapter is Some {
            Err(ErrorView::Builder(duplicate_detail("ADAPTER"@, file.path())))
        } else {
            Ok(BuilderView { adapter: Some(file), ..self })
        }
    }

    /// The first license text is taken as it is; each further one is added
    /// to what is there, after a line feed.
    pub open spec fn with_license(self, text: Seq<char>) -> BuilderView {
        match self.license {
            Some(existing) => BuilderView {
                license: Some(existing + seq!['\n'] + text),
                ..self
            },
            None => BuilderView { license: Some(text), ..self },
        }
    }

    /// Messages add up, in the order in which they are given.
    pub open spec fn with_message(self, message: MessageView) -> BuilderView {
        BuilderView { messages: self.messages.push(message), ..self }
    }

    /// The builder after one instruction.
    pub open spec fn apply(self, instruction: InstructionView) -> Result<BuilderView, ErrorView> {
        match instruction {
            InstructionView::Skip => Ok(self),
            InstructionView::From(model) => self.with_from(model),
            InstructionView::Parameter(parameter) => Ok(self.with_parameter(parameter)),
            InstructionView::Template(text) => self.with_template(text),
            InstructionView::System(text) => self.with_system(text),
            InstructionView::Adapter(file) => self.with_adapter(file),
            InstructionView::License(text) => Ok(self.with_license(text)),
            InstructionView::Message(message) => Ok(self.with_message(message)),
        }
    }

    /// The builder after the instructions, one after the other, up to the
    /// first that fails.
    pub open spec fn fold(self, instructions: Seq<InstructionView>) -> Result<
        BuilderView,
        ErrorView,
    >
        decreases instructions.len(),
    {
        if instructions.len() == 0 {
            Ok(self)
        } else {
            match self.apply(instructions[0]) {
                Ok(next) => next.fold(instructions.drop_first()),
                Err(error) => Err(error),
            }
        }
    }

    /// The Modelfile of what has been given: there is one where the base
    /// model has been given.
    pub open spec fn built(self) -> Result<ModelfileView, ErrorView> {
        match self.from {
            Some(model) => Ok(
                ModelfileView {
                    from: model,
                    parameters: self.parameters,
                    template: self.template,
                    system: self.system,
                    adapter: self.adapter,
                    license: self.license,
                    messages: self.messages,
                },
            ),
            None => Err(ErrorView::Builder(missing_from_detail())),
        }
    }
}

/// The error for an instruction that occurs a second time and may not.
fn duplicate(keyword: &str, value: &str) -> (error: ModelfileError)
    ensures
        error@ == ErrorView::Builder(duplicate_detail(keyword@, value@)),
{
    let mut detail = "Modelfile can only have one ".to_owned();
    detail.append(keyword);
    detail.append(" instruction: ");
    detail.append(value);
    ModelfileError::Builder(detail)
}

impl Default for ModelfileBuilder {
    fn default() -> (builder: ModelfileBuilder)
        ensures
            builder@ == BuilderView::empty(),
    {
        ModelfileBuilder {
            from: None,
            parameters: Parameters::new(),
            template: None,
            system: None,
            adapter: None,
            license: None,
            messages: Messages::new(),
        }
    }
}

impl ModelfileBuilder {
    /// The Modelfile of what has been given. Fails where no base model has
    /// been given.
    pub fn build(self) -> (r: Result<Modelfile, ModelfileError>)
        ensures
            match self@.built() {
                Ok(modelfile) => r is Ok && r->Ok_0@ == modelfile,
                Err(error) => r is Err && r->Err_0@ == error,
            },
    {
        match Modelfile::assemble(self) {
            Some(modelfile) => Ok(modelfile),
            None => Err(ModelfileError::Builder("Modelfile requires a FROM instruction".to_owned())),
        }
    }

    /// Gives the builder one instruction.
    pub fn instruction(self, instruction: Instruction) -> (r: Result<Self, ModelfileError>)
        ensures
            match self@.apply(instruction@) {
                Ok(next) => r is Ok && r->Ok_0@ == next,
                Err(error) => r is Err && r->Err_0@ == error,
            },
    {
        match instruction {
            Instruction::From(model) => self.from(model.as_str()),
            Instruction::Parameter(parameter) => Ok(self.parameter(parameter)),
            Instruction::Template(text) => self.template(Template(Multiline(text))),
            Instruction::System(text) => self.system(text.as_str()),
            Instruction::Adapter(file) => self.adapter(Adapter(file)),
            Instruction::License(text) => Ok(self.license(text.as_str())),
            Instruction::Message(message) => Ok(self.message(message)),
            Instruction::Skip => Ok(self),
        }
    }

    /// Gives the base model. Fails where one has been given.
    pub fn from(self, input: &str) -> (r: Result<Self, ModelfileError>)
        ensures
            match self@.with_from(input@) {
                Ok(next) => r is Ok && r->Ok_0@ == next,
                Err(error) => r is Err && r->Err_0@ == error,
            },
    {
        if self.from.is_some() {
            Err(duplicate("FROM", input))
        } else {
            let mut builder = self;
            builder.from = Some(BaseModel::new(input));
            Ok(builder)
        }
    }

    /// Adds a parameter.
    pub fn parameter(self, parameter: Parameter) -> (r: Self)
        ensures
            r@ == self@.with_parameter(parameter@),
    {
        let mut builder = self;
        builder.parameters.push(parameter);
        builder
    }

    /// Gives the template. Fails where one has been given.
    pub fn template(self, template: Template) -> (r: Result<Self, ModelfileError>)
        ensures
            match self@.with_template(template@) {
                Ok(next) => r is Ok && r->Ok_0@ == next,
                Err(error) => r is Err && r->Err_0@ == error,
            },
    {
        if self.template.is_some() {
            let shown = template.0.to_text();
            Err(duplicate("TEMPLATE", shown.as_str()))
        } else {
            let mut builder = self;
            builder.template = Some(template);
            Ok(builder)
        }
    }

    /// Gives the system message. Fails where one has been given.
    pub fn system(self, system: &str) -> (r: Result<Self, ModelfileError>)
        ensures
            match self@.with_system(system@) {
                Ok(next) => r is Ok && r->Ok_0@ == next,
                Err(error) => r is Err && r->Err_0@ == error,
            },
    {
        if self.system.is_some() {
            Err(duplicate("SYSTEM", system))
        } else {
            let mut builder = self;
            builder.system = Some(SystemMessage::new(system));
            Ok(builder)
        }
    }

    /// Gives the adapter. Fails where one has been given.
    pub fn adapter(self, adapter: Adapter) -> (r: Result<Self, ModelfileError>)
        ensures
            match self@.with_adapter(adapter@) {
                Ok(next) => r is Ok && r->Ok_0@ == next,
                Err(error) => r is Err && r->Err_0@ == error,
            },
    {
        if self.adapter.is_some() {
            Err(duplicate("ADAPTER", adapter.path()))
        } else {
            let mut builder = self;
            builder.adapter = Some(adapter);
            Ok(builder)
        }
    }

    /// Gives license text: the first is taken as it is, each further one is
    /// added to what is there.
    pub fn license(self, license: &str) -> (r: Self)
        ensures
            r@ == self@.with_license(license@),
    {
        let mut builder = self;
        let merged = match &builder.license {
            Some(existing) => License(existing.0.extend(license)),
            None => License::new(license),
        };
        builder.license = Some(merged);
        builder
    }

    /// Adds a message.
    pub fn message(self, message: Message) -> (r: Self)
        ensures
            r@ == self@.with_message(message@),
    {
        let mut builder = self;
        builder.messages.push(message);
        builder
    }

    /// A builder that has been given the instructions, one after the other.
    /// Fails with the error of the first instruction that fails.
    pub fn from_instructions(instructions: Vec<Instruction>) -> (r: Result<Self, ModelfileError>)
        ensures
            match BuilderView::empty().fold(instructions@.map_values(|i: Instruction| i@)) {
                Ok(builder) => r is Ok && r->Ok_0@ == builder,
                Err(error) => r is Err && r->Err_0@ == error,
            },
    {
        let ghost items = instructions@;
        let ghost all = items.map_values(|i: Instruction| i@);
        let mut builder = ModelfileBuilder::default();
        assert(all.skip(0) =~= all);
        for instruction in it: instructions
            invariant
                it.seq() == items,
                all == items.map_values(|i: Instruction| i@),
                BuilderView::empty().fold(all) == builder@.fold(all.skip(it.index() as int)),
        {
            proof {
                let rest = all.skip(it.index() as int);
                assert(rest[0] == instruction@);
                assert(rest.drop_first() =~= all.skip(it.index() + 1));
            }
            match builder.instruction(instruction) {
                Ok(next) => {
                    builder = next;
                },
                Err(error) => {
                    return Err(error);
                },
            }
        }
        assert(all.skip(all.len() as int) =~= Seq::<InstructionView>::empty());
        Ok(builder)
    }
}

} // verus!

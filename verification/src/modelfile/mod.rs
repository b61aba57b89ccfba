//! The Modelfile itself, and the values that its instructions carry.

use vstd::prelude::*;
use crate::message::Message;
use crate::message::MessageView;
use crate::modelfile::builder::BuilderView;
use crate::modelfile::builder::ModelfileBuilder;
use crate::modelfile::error::ErrorView;
use crate::modelfile::instruction::Adapter;
use crate::modelfile::instruction::BaseModel;
use crate::modelfile::instruction::License;
use crate::modelfile::instruction::Messages;
use crate::modelfile::instruction::Parameters;
use crate::modelfile::instruction::SystemMessage;
use crate::modelfile::instruction::Template;
use crate::modelfile::laws::blocks_close_cleanly;
use crate::modelfile::laws::lemma_round_trip;
use crate::modelfile::laws::well_formed;
use crate::modelfile::parser::parsed;
use crate::modelfile::render::message_texts;
use crate::modelfile::render::parameter_texts;
use crate::modelfile::render::rendered;
use crate::modelfile::render::Renderer;
use crate::text::equals;
use crate::text::to_chars;

pub mod builder;
pub mod error;
pub mod instruction;
pub mod laws;
pub mod parameter;
pub mod parser;
pub mod render;

pub use parameter::Parameter;
pub use parameter::ParameterName;
pub use parameter::ParameterView;

verus! {

/// Three double quotes: what opens and closes a block of text.
pub open spec fn triple_quote() -> Seq<char> {
    seq!['"', '"', '"']
}

/// `text` between triple quotes.
pub open spec fn block(text: Seq<char>) -> Seq<char> {
    triple_quote() + text + triple_quote()
}

/// Text that may run over several lines. In a Modelfile it stands between
/// triple quotes.
#[derive(Clone, Debug, PartialEq, Eq)]
pub struct Multiline(pub String);

impl View for Multiline {
    type V = Seq<char>;

    open spec fn view(&self) -> Seq<char> {
        self.0@
    }
}

impl Multiline {
    pub fn new(text: &str) -> (m: Multiline)
        ensures
            m@ == text@,
    {
        Multiline(text.to_owned())
    }

    pub fn as_str(&self) -> (s: &str)
        ensures
            s@ == self@,
    {
        self.0.as_str()
    }

    /// This text, a line feed, then `more`.
    pub fn extend(&self, more: &str) -> (m: Multiline)
        ensures
            m@ == self@ + seq!['\n'] + more@,
    {
        let mut text = self.0.clone();
        text.push('\n');
        text.append(more);
        assert(text@ =~= self@ + seq!['\n'] + more@);
        Multiline(text)
    }

    /// The text between triple quotes, as it is written in a Modelfile.
    /// Triple quotes inside the text are written as they are.
    pub fn to_text(&self) -> (s: String)
        ensures
            s@ == block(self@),
    {
        let mut s = String::new();
        s.push('"');
        s.push('"');
        s.push('"');
        s.append(self.0.as_str());
        s.push('"');
        s.push('"');
        s.push('"');
        assert(s@ =~= block(self@));
        s
    }
}

/// Whether the file that `path` names has the extension `gguf`: the path ends
/// in `.gguf`, and the file's name does not begin with that dot.
pub open spec fn is_gguf_path(path: Seq<char>) -> bool {
    &&& path.len() > 5
    &&& path.subrange(path.len() - 5, path.len() as int) == ".gguf"@
    &&& path[path.len() - 6] != '/'
}

/// A file of tensors: one packaged GGUF file, or safetensor files.
#[derive(Clone, Debug, PartialEq, Eq)]
pub enum TensorFile {
    Gguf(String),
    Safetensor(String),
}

/// What a [`TensorFile`] stands for.
pub enum TensorFileView {
    Gguf(Seq<char>),
    Safetensor(Seq<char>),
}

impl TensorFileView {
    pub open spec fn path(self) -> Seq<char> {
        match self {
            TensorFileView::Gguf(path) => path,
            TensorFileView::Safetensor(path) => path,
        }
    }

    /// The reference to the file at `path`: a GGUF file where the path has
    /// that extension, safetensor files otherwise.
    pub open spec fn at(path: Seq<char>) -> TensorFileView {
        if is_gguf_path(path) {
            TensorFileView::Gguf(path)
        } else {
            TensorFileView::Safetensor(path)
        }
    }
}

impl View for TensorFile {
    type V = TensorFileView;

    open spec fn view(&self) -> TensorFileView {
        match self {
            TensorFile::Gguf(path) => TensorFileView::Gguf(path@),
            TensorFile::Safetensor(path) => TensorFileView::Safetensor(path@),
        }
    }
}

impl TensorFile {
    /// The reference to the file at `path`, of the kind that the path's
    /// extension tells.
    pub fn from_path(path: &str) -> (file: TensorFile)
        ensures
            file@ == TensorFileView::at(path@),
    {
        let v = to_chars(path);
        let n = v.len();
        if n > 5 && v[n - 6] != '/' && equals(&v, n - 5, n, ".gguf") {
            TensorFile::Gguf(path.to_owned())
        } else {
            TensorFile::Safetensor(path.to_owned())
        }
    }

    /// The path, as it is written in a Modelfile.
    pub fn path(&self) -> (s: &str)
        ensures
            s@ == self@.path(),
    {
        match self {
            TensorFile::Gguf(path) => path.as_str(),
            TensorFile::Safetensor(path) => path.as_str(),
        }
    }
}

/// One instruction of a Modelfile.
#[derive(Clone, Debug, PartialEq, Eq)]
pub enum Instruction {
    /// A part of the file that says nothing: an empty line or a comment.
    Skip,
    /// The model to derive from: a blob, a GGUF file, a directory of
    /// safetensor files, or the `name:version` of an existing model.
    From(String),
    Parameter(Parameter),
    /// The prompt template.
    Template(String),
    /// The system message.
    System(String),
    Adapter(TensorFile),
    License(String),
    Message(Message),
}

/// What an [`Instruction`] stands for.
pub enum InstructionView {
    Skip,
    From(Seq<char>),
    Parameter(ParameterView),
    Template(Seq<char>),
    System(Seq<char>),
    Adapter(TensorFileView),
    License(Seq<char>),
    Message(MessageView),
}

impl View for Instruction {
    type V = InstructionView;

    open spec fn view(&self) -> InstructionView {
        match self {
            Instruction::Skip => InstructionView::Skip,
            Instruction::From(model) => InstructionView::From(model@),
            Instruction::Parameter(parameter) => InstructionView::Parameter(parameter@),
            Instruction::Template(text) => InstructionView::Template(text@),
            Instruction::System(text) => InstructionView::System(text@),
            Instruction::Adapter(file) => InstructionView::Adapter(file@),
            Instruction::License(text) => InstructionView::License(text@),
            Instruction::Message(message) => InstructionView::Message(message@),
        }
    }
}

/// A Modelfile: the base model and what is set on top of it.
#[derive(Clone, Debug, PartialEq, Eq)]
pub struct Modelfile {
    from: BaseModel,
    parameters: Parameters,
    template: Option<Template>,
    system: Option<SystemMessage>,
    adapter: Option<Adapter>,
    license: Option<License>,
    messages: Messages,
}

/// What a [`Modelfile`] stands for.
pub struct ModelfileView {
    pub from: Seq<char>,
    pub parameters: Seq<ParameterView>,
    pub template: Option<Seq<char>>,
    pub system: Option<Seq<char>>,
    pub adapter: Option<TensorFileView>,
    pub license: Option<Seq<char>>,
    pub messages: Seq<MessageView>,
}

impl ModelfileView {
    /// The builder that holds all that this Modelfile holds.
    pub open spec fn builder(self) -> BuilderView {
        BuilderView {
            from: Some(self.from),
            parameters: self.parameters,
            template: self.template,
            system: self.system,
            adapter: self.adapter,
            license: self.license,
            messages: self.messages,
        }
    }
}

impl View for Modelfile {
    type V = ModelfileView;

    closed spec fn view(&self) -> ModelfileView {
        ModelfileView {
            from: self.from@,
            parameters: self.parameters@,
            template: match self.template {
                Some(text) => Some(text@),
                None => None,
            },
            system: match self.system {
                Some(text) => Some(text@),
                None => None,
            },
            adapter: match self.adapter {
                Some(file) => Some(file@),
                None => None,
            },
            license: match self.license {
                Some(text) => Some(text@),
                None => None,
            },
            messages: self.messages@,
        }
    }
}

impl Modelfile {
    /// The Modelfile that holds what `builder` holds, where it holds a base
    /// model.
    pub(crate) fn assemble(builder: ModelfileBuilder) -> (r: Option<Modelfile>)
        ensures
            match builder@.from {
                Some(_) => r is Some && r->0@.builder() == builder@,
                None => r is None,
            },
    {
        let ModelfileBuilder { from, parameters, template, system, adapter, license, messages } =
            builder;
        match from {
            Some(from) => Some(
                Modelfile { from, parameters, template, system, adapter, license, messages },
            ),
            None => None,
        }
    }

    /// A builder that starts from all that this Modelfile holds, the base
    /// model too.
    pub fn build_on(self) -> (builder: ModelfileBuilder)
        ensures
            builder@ == self@.builder(),
    {
        let Modelfile { from, parameters, template, system, adapter, license, messages } = self;
        ModelfileBuilder {
            from: Some(from),
            parameters,
            template,
            system,
            adapter,
            license,
            messages,
        }
    }

    /// The base model.
    pub fn from(&self) -> (r: &BaseModel)
        ensures
            r@ == self@.from,
    {
        &self.from
    }

    pub fn parameters(&self) -> (r: &Parameters)
        ensures
            r@ == self@.parameters,
    {
        &self.parameters
    }

    pub fn template(&self) -> (r: Option<&Template>)
        ensures
            match r {
                Some(text) => self@.template == Some(text@),
                None => self@.template is None,
            },
    {
        self.template.as_ref()
    }

    pub fn system(&self) -> (r: Option<&SystemMessage>)
        ensures
            match r {
                Some(text) => self@.system == Some(text@),
                None => self@.system is None,
            },
    {
        self.system.as_ref()
    }

    pub fn adapter(&self) -> (r: Option<&Adapter>)
        ensures
            match r {
                Some(file) => self@.adapter == Some(file@),
                None => self@.adapter is None,
            },
    {
        self.adapter.as_ref()
    }

    pub fn license(&self) -> (r: Option<&License>)
        ensures
            match r {
                Some(text) => self@.license == Some(text@),
                None => self@.license is None,
            },
    {
        self.license.as_ref()
    }

    pub fn messages(&self) -> (r: &Messages)
        ensures
            r@ == self@.messages,
    {
        &self.messages
    }
}

impl Modelfile {
    /// The Modelfile as text, in a fixed order of instructions whatever the
    /// order in which they were given.
    pub fn render(&self) -> (text: String)
        ensures
            text@ == rendered(self@),
            well_formed(self@) && blocks_close_cleanly(self@) ==> parsed(text@) == Ok::<
                ModelfileView,
                ErrorView,
            >(self@),
    {
        proof {
            if well_formed(self@) && blocks_close_cleanly(self@) {
                lemma_round_trip(self@);
            }
        }
        let mut renderer = Renderer::default();
        renderer.push_raw("# This file was generated by the Ollama-CLI client\n");
        renderer.push("FROM", self.from.as_str());
        renderer.newline();
        match &self.adapter {
            Some(adapter) => renderer.push_opt("ADAPTER", Some(adapter.path())),
            None => renderer.push_opt("ADAPTER", None),
        }
        match &self.system {
            Some(system) => {
                let shown = system.0.to_text();
                renderer.push_opt("SYSTEM", Some(shown.as_str()));
            },
            None => renderer.push_opt("SYSTEM", None),
        }
        match &self.template {
            Some(template) => {
                let shown = template.0.to_text();
                renderer.push_opt("TEMPLATE", Some(shown.as_str()));
            },
            None => renderer.push_opt("TEMPLATE", None),
        }
        let mut parameters: Vec<String> = Vec::new();
        let mut i: usize = 0;
        while i < self.parameters.len()
            invariant
                i <= self.parameters@.len(),
                parameters@.len() == i,
                forall|k: int| 0 <= k < i ==> parameters@[k]@ == self.parameters@[k].text(),
            decreases self.parameters@.len() - i,
        {
            parameters.push(self.parameters.get(i).to_text());
            i += 1;
        }
        assert(parameters@.map_values(|s: String| s@) =~= parameter_texts(self.parameters@));
        renderer.push_vec("PARAMETER", &parameters);
        let mut messages: Vec<String> = Vec::new();
        let mut j: usize = 0;
        while j < self.messages.len()
            invariant
                j <= self.messages@.len(),
                messages@.len() == j,
                forall|k: int| 0 <= k < j ==> messages@[k]@ == self.messages@[k].text(),
            decreases self.messages@.len() - j,
        {
            messages.push(self.messages.get(j).to_text());
            j += 1;
        }
        assert(messages@.map_values(|s: String| s@) =~= message_texts(self.messages@));
        renderer.push_vec("MESSAGE", &messages);
        match &self.license {
            Some(license) => {
                let shown = license.0.to_text();
                renderer.push_opt("LICENSE", Some(shown.as_str()));
            },
            None => renderer.push_opt("LICENSE", None),
        }
        renderer.finalize()
    }
}

} // verus!

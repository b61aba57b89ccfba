//! The values that a Modelfile's instructions set, each under the name of
//! its instruction.

use vstd::prelude::*;
use crate::message::Message;
use crate::message::MessageView;
use crate::modelfile::Multiline;
use crate::modelfile::parameter::Parameter;
use crate::modelfile::parameter::ParameterView;
use crate::modelfile::TensorFile;
use crate::modelfile::TensorFileView;

verus! {

/// A line that begins with `#`.
#[derive(Clone, Debug, PartialEq, Eq)]
pub struct Comment(pub String);

impl View for Comment {
    type V = Seq<char>;

    open spec fn view(&self) -> Seq<char> {
        self.0@
    }
}

impl Comment {
    pub fn new(text: &str) -> (r: Comment)
        ensures
            r@ == text@,
    {
        Comment(text.to_owned())
    }

    pub fn as_str(&self) -> (s: &str)
        ensures
            s@ == self@,
    {
        self.0.as_str()
    }
}

/// The value of the `FROM` instruction.
#[derive(Clone, Debug, PartialEq, Eq)]
pub struct BaseModel(pub String);

impl View for BaseModel {
    type V = Seq<char>;

    open spec fn view(&self) -> Seq<char> {
        self.0@
    }
}

impl BaseModel {
    pub fn new(model: &str) -> (r: BaseModel)
        ensures
            r@ == model@,
    {
        BaseModel(model.to_owned())
    }

    pub fn as_str(&self) -> (s: &str)
        ensures
            s@ == self@,
    {
        self.0.as_str()
    }
}

/// The values of the `PARAMETER` instructions, in the order in which they
/// were given. A parameter may occur more than once.
#[derive(Clone, Debug, PartialEq, Eq)]
pub struct Parameters(pub Vec<Parameter>);

impl View for Parameters {
    type V = Seq<ParameterView>;

    open spec fn view(&self) -> Seq<ParameterView> {
        self.0@.map_values(|p: Parameter| p@)
    }
}

impl Parameters {
    pub fn new() -> (r: Parameters)
        ensures
            r@ == Seq::<ParameterView>::empty(),
    {
        let r = Parameters(Vec::new());
        assert(r@ =~= Seq::<ParameterView>::empty());
        r
    }

    pub fn len(&self) -> (n: usize)
        ensures
            n == self@.len(),
    {
        self.0.len()
    }

    pub fn get(&self, i: usize) -> (p: &Parameter)
        requires
            i < self@.len(),
        ensures
            p@ == self@[i as int],
    {
        &self.0[i]
    }

    /// Adds `parameter` after those that are there.
    pub fn push(&mut self, parameter: Parameter)
        ensures
            final(self)@ == old(self)@.push(parameter@),
    {
        self.0.push(parameter);
        assert(self@ =~= old(self)@.push(parameter@));
    }
}

impl Default for Parameters {
    fn default() -> (r: Parameters)
        ensures
            r@ == Seq::<ParameterView>::empty(),
    {
        Parameters::new()
    }
}

/// The value of the `TEMPLATE` instruction: a Go template in Ollama's
/// template language.
#[derive(Clone, Debug, PartialEq, Eq)]
pub struct Template(pub Multiline);

impl View for Template {
    type V = Seq<char>;

    open spec fn view(&self) -> Seq<char> {
        self.0@
    }
}

impl Template {
    pub fn new(text: &str) -> (r: Template)
        ensures
            r@ == text@,
    {
        Template(Multiline::new(text))
    }

    pub fn as_str(&self) -> (s: &str)
        ensures
            s@ == self@,
    {
        self.0.as_str()
    }
}

/// The value of the `LICENSE` instructions.
#[derive(Clone, Debug, PartialEq, Eq)]
pub struct License(pub Multiline);

impl View for License {
    type V = Seq<char>;

    open spec fn view(&self) -> Seq<char> {
        self.0@
    }
}

impl License {
    pub fn new(text: &str) -> (r: License)
        ensures
            r@ == text@,
    {
        License(Multiline::new(text))
    }

    pub fn as_str(&self) -> (s: &str)
        ensures
            s@ == self@,
    {
        self.0.as_str()
    }
}

/// The value of the `SYSTEM` instruction.
#[derive(Clone, Debug, PartialEq, Eq)]
pub struct SystemMessage(pub Multiline);

impl View for SystemMessage {
    type V = Seq<char>;

    open spec fn view(&self) -> Seq<char> {
        self.0@
    }
}

impl SystemMessage {
    pub fn new(text: &str) -> (r: SystemMessage)
        ensures
            r@ == text@,
    {
        SystemMessage(Multiline::new(text))
    }

    pub fn as_str(&self) -> (s: &str)
        ensures
            s@ == self@,
    {
        self.0.as_str()
    }
}

/// The value of the `ADAPTER` instruction.
#[derive(Clone, Debug, PartialEq, Eq)]
pub struct Adapter(pub TensorFile);

impl View for Adapter {
    type V = TensorFileView;

    open spec fn view(&self) -> TensorFileView {
        self.0@
    }
}

impl Adapter {
    pub fn new(file: TensorFile) -> (r: Adapter)
        ensures
            r@ == file@,
    {
        Adapter(file)
    }

    pub fn path(&self) -> (s: &str)
        ensures
            s@ == self@.path(),
    {
        self.0.path()
    }
}

/// The values of the `MESSAGE` instructions, in the order in which they were
/// given.
#[derive(Clone, Debug, PartialEq, Eq)]
pub struct Messages(pub Vec<Message>);

impl View for Messages {
    type V = Seq<MessageView>;

    open spec fn view(&self) -> Seq<MessageView> {
        self.0@.map_values(|m: Message| m@)
    }
}

impl Messages {
    pub fn new() -> (r: Messages)
        ensures
            r@ == Seq::<MessageView>::empty(),
    {
        let r = Messages(Vec::new());
        assert(r@ =~= Seq::<MessageView>::empty());
        r
    }

    pub fn len(&self) -> (n: usize)
        ensures
            n == self@.len(),
    {
        self.0.len()
    }

    pub fn get(&self, i: usize) -> (m: &Message)
        requires
            i < self@.len(),
        ensures
            m@ == self@[i as int],
    {
        &self.0[i]
    }

    /// Adds `message` after those that are there.
    pub fn push(&mut self, message: Message)
        ensures
            final(self)@ == old(self)@.push(message@),
    {
        self.0.push(message);
        assert(self@ =~= old(self)@.push(message@));
    }
}

impl Default for Messages {
    fn default() -> (r: Messages)
        ensures
            r@ == Seq::<MessageView>::empty(),
    {
        Messages::new()
    }
}

} // verus!

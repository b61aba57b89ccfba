//! What can go wrong when a Modelfile is read or put together.

use vstd::prelude::*;

verus! {

/// Why a Modelfile could not be read or built. Each error carries a
/// description of the input that caused it.
#[derive(Clone, Debug, PartialEq, Eq)]
pub enum ModelfileError {
    /// The parts do not make a Modelfile: one that may occur once occurs
    /// again, or the base model is missing.
    Builder(String),
    /// The text is no Modelfile.
    Parse(String),
}

/// What a [`ModelfileError`] stands for.
pub enum ErrorView {
    Builder(Seq<char>),
    Parse(Seq<char>),
}

impl View for ModelfileError {
    type V = ErrorView;

    open spec fn view(&self) -> ErrorView {
        match self {
            ModelfileError::Builder(detail) => ErrorView::Builder(detail@),
            ModelfileError::Parse(detail) => ErrorView::Parse(detail@),
        }
    }
}

impl ErrorView {
    pub open spec fn detail(self) -> Seq<char> {
        match self {
            ErrorView::Builder(detail) => detail,
            ErrorView::Parse(detail) => detail,
        }
    }

    /// What the error says of itself, whatever its detail.
    pub open spec fn summary(self) -> Seq<char> {
        match self {
            ErrorView::Builder(_) => "error building Modelfile from parts"@,
            ErrorView::Parse(_) => "unable to parse Modelfile"@,
        }
    }
}

impl ModelfileError {
    /// The description of the offending input.
    pub fn detail(&self) -> (s: &str)
        ensures
            s@ == self@.detail(),
    {
        match self {
            ModelfileError::Builder(detail) => detail.as_str(),
            ModelfileError::Parse(detail) => detail.as_str(),
        }
    }

    /// One line that says which kind of error this is.
    pub fn summary(&self) -> (s: &'static str)
        ensures
            s@ == self@.summary(),
    {
        match self {
            ModelfileError::Builder(_) => "error building Modelfile from parts",
            ModelfileError::Parse(_) => "unable to parse Modelfile",
        }
    }
}

} // verus!

//! The generation parameters that a Modelfile can set.

use vstd::prelude::*;
use crate::number::decimal_text;
use crate::number::decimal_value;
use crate::number::Float;
use crate::number::is_float;
use crate::number::is_float_text;
use crate::number::is_unsigned_text;
use crate::number::parse_unsigned;
use crate::number::push_decimal;
use crate::text::equals;
use crate::text::to_chars;
use crate::text::to_string;

verus! {

/// What kind of value a parameter takes.
#[derive(Clone, Copy, Debug, PartialEq, Eq, Structural)]
pub enum ValueKind {
    Unsigned,
    Float,
    Text,
}

/// The parameters, by name.
#[derive(Clone, Copy, Debug, PartialEq, Eq, Structural)]
pub enum ParameterName {
    Mirostat,
    MirostatEta,
    MirostatTau,
    NumCtx,
    RepeatLastN,
    RepeatPenalty,
    Temperature,
    Seed,
    Stop,
    TfsZ,
    NumPredict,
    TopK,
    TopP,
    MinP,
}

impl ParameterName {
    /// The keyword that stands for the parameter in a Modelfile.
    pub open spec fn keyword(self) -> Seq<char> {
        match self {
            ParameterName::Mirostat => "mirostat"@,
            ParameterName::MirostatEta => "mirostat_eta"@,
            ParameterName::MirostatTau => "mirostat_tau"@,
            ParameterName::NumCtx => "num_ctx"@,
            ParameterName::RepeatLastN => "repeat_last_n"@,
            ParameterName::RepeatPenalty => "repeat_penalty"@,
            ParameterName::Temperature => "temperature"@,
            ParameterName::Seed => "seed"@,
            ParameterName::Stop => "stop"@,
            ParameterName::TfsZ => "tfs_z"@,
            ParameterName::NumPredict => "num_predict"@,
            ParameterName::TopK => "top_k"@,
            ParameterName::TopP => "top_p"@,
            ParameterName::MinP => "min_p"@,
        }
    }

    /// The kind of value that the parameter takes.
    pub open spec fn kind(self) -> ValueKind {
        match self {
            ParameterName::Mirostat => ValueKind::Unsigned,
            ParameterName::MirostatEta => ValueKind::Float,
            ParameterName::MirostatTau => ValueKind::Float,
            ParameterName::NumCtx => ValueKind::Unsigned,
            ParameterName::RepeatLastN => ValueKind::Unsigned,
            ParameterName::RepeatPenalty => ValueKind::Float,
            ParameterName::Temperature => ValueKind::Float,
            ParameterName::Seed => ValueKind::Unsigned,
            ParameterName::Stop => ValueKind::Text,
            ParameterName::TfsZ => ValueKind::Float,
            ParameterName::NumPredict => ValueKind::Unsigned,
            ParameterName::TopK => ValueKind::Unsigned,
            ParameterName::TopP => ValueKind::Float,
            ParameterName::MinP => ValueKind::Float,
        }
    }

    /// The parameter that `keyword` stands for. Keywords are matched exactly.
    pub open spec fn named(keyword: Seq<char>) -> Option<ParameterName> {
        if keyword == "mirostat"@ {
            Some(ParameterName::Mirostat)
        } else if keyword == "mirostat_eta"@ {
            Some(ParameterName::MirostatEta)
        } else if keyword == "mirostat_tau"@ {
            Some(ParameterName::MirostatTau)
        } else if keyword == "num_ctx"@ {
            Some(ParameterName::NumCtx)
        } else if keyword == "repeat_last_n"@ {
            Some(ParameterName::RepeatLastN)
        } else if keyword == "repeat_penalty"@ {
            Some(ParameterName::RepeatPenalty)
        } else if keyword == "temperature"@ {
            Some(ParameterName::Temperature)
        } else if keyword == "seed"@ {
            Some(ParameterName::Seed)
        } else if keyword == "stop"@ {
            Some(ParameterName::Stop)
        } else if keyword == "tfs_z"@ {
            Some(ParameterName::TfsZ)
        } else if keyword == "num_predict"@ {
            Some(ParameterName::NumPredict)
        } else if keyword == "top_k"@ {
            Some(ParameterName::TopK)
        } else if keyword == "top_p"@ {
            Some(ParameterName::TopP)
        } else if keyword == "min_p"@ {
            Some(ParameterName::MinP)
        } else {
            None
        }
    }

    pub fn as_str(self) -> (s: &'static str)
        ensures
            s@ == self.keyword(),
    {
        match self {
            ParameterName::Mirostat => "mirostat",
            ParameterName::MirostatEta => "mirostat_eta",
            ParameterName::MirostatTau => "mirostat_tau",
            ParameterName::NumCtx => "num_ctx",
            ParameterName::RepeatLastN => "repeat_last_n",
            ParameterName::RepeatPenalty => "repeat_penalty",
            ParameterName::Temperature => "temperature",
            ParameterName::Seed => "seed",
            ParameterName::Stop => "stop",
            ParameterName::TfsZ => "tfs_z",
            ParameterName::NumPredict => "num_predict",
            ParameterName::TopK => "top_k",
            ParameterName::TopP => "top_p",
            ParameterName::MinP => "min_p",
        }
    }

    pub fn value_kind(self) -> (k: ValueKind)
        ensures
            k == self.kind(),
    {
        match self {
            ParameterName::Mirostat => ValueKind::Unsigned,
            ParameterName::MirostatEta => ValueKind::Float,
            ParameterName::MirostatTau => ValueKind::Float,
            ParameterName::NumCtx => ValueKind::Unsigned,
            ParameterName::RepeatLastN => ValueKind::Unsigned,
            ParameterName::RepeatPenalty => ValueKind::Float,
            ParameterName::Temperature => ValueKind::Float,
            ParameterName::Seed => ValueKind::Unsigned,
            ParameterName::Stop => ValueKind::Text,
            ParameterName::TfsZ => ValueKind::Float,
            ParameterName::NumPredict => ValueKind::Unsigned,
            ParameterName::TopK => ValueKind::Unsigned,
            ParameterName::TopP => ValueKind::Float,
            ParameterName::MinP => ValueKind::Float,
        }
    }

    /// The parameter that the characters `v[from..to]` name.
    pub fn from_chars(v: &Vec<char>, from: usize, to: usize) -> (r: Option<ParameterName>)
        requires
            from <= to <= v@.len(),
        ensures
            r == ParameterName::named(v@.subrange(from as int, to as int)),
    {
        if equals(v, from, to, "mirostat") {
            Some(ParameterName::Mirostat)
        } else if equals(v, from, to, "mirostat_eta") {
            Some(ParameterName::MirostatEta)
        } else if equals(v, from, to, "mirostat_tau") {
            Some(ParameterName::MirostatTau)
        } else if equals(v, from, to, "num_ctx") {
            Some(ParameterName::NumCtx)
        } else if equals(v, from, to, "repeat_last_n") {
            Some(ParameterName::RepeatLastN)
        } else if equals(v, from, to, "repeat_penalty") {
            Some(ParameterName::RepeatPenalty)
        } else if equals(v, from, to, "temperature") {
            Some(ParameterName::Temperature)
        } else if equals(v, from, to, "seed") {
            Some(ParameterName::Seed)
        } else if equals(v, from, to, "stop") {
            Some(ParameterName::Stop)
        } else if equals(v, from, to, "tfs_z") {
            Some(ParameterName::TfsZ)
        } else if equals(v, from, to, "num_predict") {
            Some(ParameterName::NumPredict)
        } else if equals(v, from, to, "top_k") {
            Some(ParameterName::TopK)
        } else if equals(v, from, to, "top_p") {
            Some(ParameterName::TopP)
        } else if equals(v, from, to, "min_p") {
            Some(ParameterName::MinP)
        } else {
            None
        }
    }

    /// The parameter that `keyword` stands for.
    pub fn from_str(keyword: &str) -> (r: Option<ParameterName>)
        ensures
            r == ParameterName::named(keyword@),
    {
        let v = to_chars(keyword);
        assert(v@.subrange(0, v@.len() as int) =~= v@);
        ParameterName::from_chars(&v, 0, v.len())
    }
}

/// A generation parameter with its value.
#[derive(Clone, Debug, PartialEq, Eq)]
pub enum Parameter {
    /// Enable Mirostat sampling for controlling perplexity.
    Mirostat(usize),
    /// How quickly Mirostat responds to feedback from the generated text.
    MirostatEta(Float),
    /// The balance between coherence and diversity of the output.
    MirostatTau(Float),
    /// The size of the context window used to generate the next token.
    NumCtx(usize),
    /// How far back the model looks to prevent repetition.
    RepeatLastN(usize),
    /// How strongly repetitions are penalized.
    RepeatPenalty(Float),
    /// The temperature of the model: higher answers more creatively.
    Temperature(Float),
    /// The random number seed to use for generation.
    Seed(usize),
    /// A stop sequence: when it is met the model stops generating.
    Stop(String),
    /// Tail free sampling: reduces the impact of less probable tokens.
    TfsZ(Float),
    /// The maximum number of tokens to predict.
    NumPredict(usize),
    /// Reduces the probability of generating nonsense.
    TopK(usize),
    /// Works together with top-k: higher gives more diverse text.
    TopP(Float),
    /// The minimum probability for a token to be considered.
    MinP(Float),
}

/// The value of a parameter. A floating-point value is the literal that
/// denotes it.
pub enum ParameterValue {
    Unsigned(nat),
    Float(Seq<char>),
    Text(Seq<char>),
}

impl ParameterValue {
    pub open spec fn kind(self) -> ValueKind {
        match self {
            ParameterValue::Unsigned(_) => ValueKind::Unsigned,
            ParameterValue::Float(_) => ValueKind::Float,
            ParameterValue::Text(_) => ValueKind::Text,
        }
    }

    /// The value as it is written in a Modelfile.
    pub open spec fn text(self) -> Seq<char> {
        match self {
            ParameterValue::Unsigned(n) => decimal_text(n),
            ParameterValue::Float(literal) => literal,
            ParameterValue::Text(text) => text,
        }
    }

    /// The value of kind `kind` that `text` denotes, if it denotes one.
    pub open spec fn read(kind: ValueKind, text: Seq<char>) -> Option<ParameterValue> {
        match kind {
            ValueKind::Unsigned => if is_unsigned_text(text) {
                Some(ParameterValue::Unsigned(decimal_value(text)))
            } else {
                None
            },
            ValueKind::Float => if is_float_text(text) {
                Some(ParameterValue::Float(text))
            } else {
                None
            },
            ValueKind::Text => Some(ParameterValue::Text(text)),
        }
    }
}

/// What a [`Parameter`] stands for.
pub struct ParameterView {
    pub name: ParameterName,
    pub value: ParameterValue,
}

impl ParameterView {
    /// The value is of the kind that the parameter takes, fits the machine,
    /// and a floating-point value is a literal.
    pub open spec fn well_formed(self) -> bool {
        &&& self.value.kind() == self.name.kind()
        &&& match self.value {
            ParameterValue::Unsigned(n) => n <= usize::MAX,
            ParameterValue::Float(literal) => is_float_text(literal),
            ParameterValue::Text(_) => true,
        }
    }

    /// The parameter as it is written after the `PARAMETER` keyword: its
    /// keyword, a space, its value.
    pub open spec fn text(self) -> Seq<char> {
        self.name.keyword() + seq![' '] + self.value.text()
    }
}

impl View for Parameter {
    type V = ParameterView;

    open spec fn view(&self) -> ParameterView {
        match self {
            Parameter::Mirostat(x) => ParameterView { name: ParameterName::Mirostat, value: ParameterValue::Unsigned(*x as nat) },
            Parameter::MirostatEta(x) => ParameterView { name: ParameterName::MirostatEta, value: ParameterValue::Float(x@) },
            Parameter::MirostatTau(x) => ParameterView { name: ParameterName::MirostatTau, value: ParameterValue::Float(x@) },
            Parameter::NumCtx(x) => ParameterView { name: ParameterName::NumCtx, value: ParameterValue::Unsigned(*x as nat) },
            Parameter::RepeatLastN(x) => ParameterView { name: ParameterName::RepeatLastN, value: ParameterValue::Unsigned(*x as nat) },
            Parameter::RepeatPenalty(x) => ParameterView { name: ParameterName::RepeatPenalty, value: ParameterValue::Float(x@) },
            Parameter::Temperature(x) => ParameterView { name: ParameterName::Temperature, value: ParameterValue::Float(x@) },
            Parameter::Seed(x) => ParameterView { name: ParameterName::Seed, value: ParameterValue::Unsigned(*x as nat) },
            Parameter::Stop(x) => ParameterView { name: ParameterName::Stop, value: ParameterValue::Text(x@) },
            Parameter::TfsZ(x) => ParameterView { name: ParameterName::TfsZ, value: ParameterValue::Float(x@) },
            Parameter::NumPredict(x) => ParameterView { name: ParameterName::NumPredict, value: ParameterValue::Unsigned(*x as nat) },
            Parameter::TopK(x) => ParameterView { name: ParameterName::TopK, value: ParameterValue::Unsigned(*x as nat) },
            Parameter::TopP(x) => ParameterView { name: ParameterName::TopP, value: ParameterValue::Float(x@) },
            Parameter::MinP(x) => ParameterView { name: ParameterName::MinP, value: ParameterValue::Float(x@) },
        }
    }
}

impl Parameter {
    /// Which parameter this is.
    pub fn name(&self) -> (n: ParameterName)
        ensures
            n == self@.name,
    {
        match self {
            Parameter::Mirostat(_) => ParameterName::Mirostat,
            Parameter::MirostatEta(_) => ParameterName::MirostatEta,
            Parameter::MirostatTau(_) => ParameterName::MirostatTau,
            Parameter::NumCtx(_) => ParameterName::NumCtx,
            Parameter::RepeatLastN(_) => ParameterName::RepeatLastN,
            Parameter::RepeatPenalty(_) => ParameterName::RepeatPenalty,
            Parameter::Temperature(_) => ParameterName::Temperature,
            Parameter::Seed(_) => ParameterName::Seed,
            Parameter::Stop(_) => ParameterName::Stop,
            Parameter::TfsZ(_) => ParameterName::TfsZ,
            Parameter::NumPredict(_) => ParameterName::NumPredict,
            Parameter::TopK(_) => ParameterName::TopK,
            Parameter::TopP(_) => ParameterName::TopP,
            Parameter::MinP(_) => ParameterName::MinP,
        }
    }

    /// The parameter `name` with an unsigned value.
    pub fn unsigned(name: ParameterName, value: usize) -> (p: Parameter)
        requires
            name.kind() == ValueKind::Unsigned,
        ensures
            p@ == (ParameterView { name, value: ParameterValue::Unsigned(value as nat) }),
    {
        match name {
            ParameterName::Mirostat => Parameter::Mirostat(value),
            ParameterName::NumCtx => Parameter::NumCtx(value),
            ParameterName::RepeatLastN => Parameter::RepeatLastN(value),
            ParameterName::Seed => Parameter::Seed(value),
            ParameterName::NumPredict => Parameter::NumPredict(value),
            ParameterName::TopK => Parameter::TopK(value),
            _ => Parameter::Seed(value),
        }
    }

    /// The parameter `name` with a floating-point value.
    pub fn float(name: ParameterName, value: Float) -> (p: Parameter)
        requires
            name.kind() == ValueKind::Float,
        ensures
            p@ == (ParameterView { name, value: ParameterValue::Float(value@) }),
    {
        match name {
            ParameterName::MirostatEta => Parameter::MirostatEta(value),
            ParameterName::MirostatTau => Parameter::MirostatTau(value),
            ParameterName::RepeatPenalty => Parameter::RepeatPenalty(value),
            ParameterName::Temperature => Parameter::Temperature(value),
            ParameterName::TfsZ => Parameter::TfsZ(value),
            ParameterName::TopP => Parameter::TopP(value),
            ParameterName::MinP => Parameter::MinP(value),
            _ => Parameter::Temperature(value),
        }
    }

    /// The parameter `name` with a value that is text.
    pub fn text(name: ParameterName, value: String) -> (p: Parameter)
        requires
            name.kind() == ValueKind::Text,
        ensures
            p@ == (ParameterView { name, value: ParameterValue::Text(value@) }),
    {
        Parameter::Stop(value)
    }

    /// The parameter `name` with the value that the characters `v[from..to]`
    /// denote, if they denote a value of the kind that `name` takes.
    pub fn read(name: ParameterName, v: &Vec<char>, from: usize, to: usize) -> (r: Option<Parameter>)
        requires
            from <= to <= v@.len(),
        ensures
            match ParameterValue::read(name.kind(), v@.subrange(from as int, to as int)) {
                Some(value) => r is Some && r->0@ == (ParameterView { name, value }),
                None => r is None,
            },
    {
        match name.value_kind() {
            ValueKind::Unsigned => match parse_unsigned(v, from, to) {
                Some(n) => Some(Parameter::unsigned(name, n)),
                None => None,
            },
            ValueKind::Float => {
                if is_float(v, from, to) {
                    let literal = to_string(v, from, to);
                    match Float::parse(literal.as_str()) {
                        Some(value) => Some(Parameter::float(name, value)),
                        None => None,
                    }
                } else {
                    None
                }
            },
            ValueKind::Text => Some(Parameter::text(name, to_string(v, from, to))),
        }
    }

    /// Appends the value, as it is written in a Modelfile, to `out`.
    fn push_value(&self, out: &mut String)
        ensures
            final(out)@ == old(out)@ + self@.value.text(),
            self@.well_formed(),
    {
        match self {
            Parameter::Mirostat(x) => push_decimal(out, *x),
            Parameter::MirostatEta(x) => out.append(x.as_str()),
            Parameter::MirostatTau(x) => out.append(x.as_str()),
            Parameter::NumCtx(x) => push_decimal(out, *x),
            Parameter::RepeatLastN(x) => push_decimal(out, *x),
            Parameter::RepeatPenalty(x) => out.append(x.as_str()),
            Parameter::Temperature(x) => out.append(x.as_str()),
            Parameter::Seed(x) => push_decimal(out, *x),
            Parameter::Stop(x) => out.append(x.as_str()),
            Parameter::TfsZ(x) => out.append(x.as_str()),
            Parameter::NumPredict(x) => push_decimal(out, *x),
            Parameter::TopK(x) => push_decimal(out, *x),
            Parameter::TopP(x) => out.append(x.as_str()),
            Parameter::MinP(x) => out.append(x.as_str()),
        }
    }

    /// The parameter as it is written after the `PARAMETER` keyword.
    pub fn to_text(&self) -> (s: String)
        ensures
            s@ == self@.text(),
            self@.well_formed(),
    {
        let mut s = self.name().as_str().to_owned();
        s.push(' ');
        self.push_value(&mut s);
        assert(s@ =~= self@.text());
        s
    }

    /// A copy of this parameter.
    pub fn duplicate(&self) -> (p: Parameter)
        ensures
            p@ == self@,
    {
        match self {
            Parameter::Mirostat(x) => Parameter::Mirostat(*x),
            Parameter::MirostatEta(x) => Parameter::MirostatEta(x.clone()),
            Parameter::MirostatTau(x) => Parameter::MirostatTau(x.clone()),
            Parameter::NumCtx(x) => Parameter::NumCtx(*x),
            Parameter::RepeatLastN(x) => Parameter::RepeatLastN(*x),
            Parameter::RepeatPenalty(x) => Parameter::RepeatPenalty(x.clone()),
            Parameter::Temperature(x) => Parameter::Temperature(x.clone()),
            Parameter::Seed(x) => Parameter::Seed(*x),
            Parameter::Stop(x) => Parameter::Stop(x.clone()),
            Parameter::TfsZ(x) => Parameter::TfsZ(x.clone()),
            Parameter::NumPredict(x) => Parameter::NumPredict(*x),
            Parameter::TopK(x) => Parameter::TopK(*x),
            Parameter::TopP(x) => Parameter::TopP(x.clone()),
            Parameter::MinP(x) => Parameter::MinP(x.clone()),
        }
    }
}

/// A character of a parameter's keyword: a small letter or an underscore.
pub open spec fn is_name_char(c: char) -> bool {
    ('a' <= c <= 'z') || c == '_'
}

impl ParameterName {
    /// Each parameter is the one that its own keyword stands for, and its
    /// keyword is made of small letters and underscores.
    pub proof fn lemma_named_keyword(self)
        ensures
            ParameterName::named(self.keyword()) == Some(self),
            self.keyword().len() > 0,
            forall|i: int|
                0 <= i < self.keyword().len() ==> is_name_char(#[trigger] self.keyword()[i]),
    {
        reveal_strlit("mirostat");
        reveal_strlit("mirostat_eta");
        reveal_strlit("mirostat_tau");
        reveal_strlit("num_ctx");
        reveal_strlit("repeat_last_n");
        reveal_strlit("repeat_penalty");
        reveal_strlit("temperature");
        reveal_strlit("seed");
        reveal_strlit("stop");
        reveal_strlit("tfs_z");
        reveal_strlit("num_predict");
        reveal_strlit("top_k");
        reveal_strlit("top_p");
        reveal_strlit("min_p");
        assert("mirostat"@.len() != "mirostat_eta"@.len());
        assert("mirostat"@.len() != "mirostat_tau"@.len());
        assert("mirostat"@.len() != "num_ctx"@.len());
        assert("mirostat"@.len() != "repeat_last_n"@.len());
        assert("mirostat"@.len() != "repeat_penalty"@.len());
        assert("mirostat"@.len() != "temperature"@.len());
        assert("mirostat"@.len() != "seed"@.len());
        assert("mirostat"@.len() != "stop"@.len());
        assert("mirostat"@.len() != "tfs_z"@.len());
        assert("mirostat"@.len() != "num_predict"@.len());
        assert("mirostat"@.len() != "top_k"@.len());
        assert("mirostat"@.len() != "top_p"@.len());
        assert("mirostat"@.len() != "min_p"@.len());
        assert("mirostat_eta"@[9] != "mirostat_tau"@[9]);
        assert("mirostat_eta"@.len() != "num_ctx"@.len());
        assert("mirostat_eta"@.len() != "repeat_last_n"@.len());
        assert("mirostat_eta"@.len() != "repeat_penalty"@.len());
        assert("mirostat_eta"@.len() != "temperature"@.len());
        assert("mirostat_eta"@.len() != "seed"@.len());
        assert("mirostat_eta"@.len() != "stop"@.len());
        assert("mirostat_eta"@.len() != "tfs_z"@.len());
        assert("mirostat_eta"@.len() != "num_predict"@.len());
        assert("mirostat_eta"@.len() != "top_k"@.len());
        assert("mirostat_eta"@.len() != "top_p"@.len());
        assert("mirostat_eta"@.len() != "min_p"@.len());
        assert("mirostat_tau"@.len() != "num_ctx"@.len());
        assert("mirostat_tau"@.len() != "repeat_last_n"@.len());
        assert("mirostat_tau"@.len() != "repeat_penalty"@.len());
        assert("mirostat_tau"@.len() != "temperature"@.len());
        assert("mirostat_tau"@.len() != "seed"@.len());
        assert("mirostat_tau"@.len() != "stop"@.len());
        assert("mirostat_tau"@.len() != "tfs_z"@.len());
        assert("mirostat_tau"@.len() != "num_predict"@.len());
        assert("mirostat_tau"@.len() != "top_k"@.len());
        assert("mirostat_tau"@.len() != "top_p"@.len());
        assert("mirostat_tau"@.len() != "min_p"@.len());
        assert("num_ctx"@.len() != "repeat_last_n"@.len());
        assert("num_ctx"@.len() != "repeat_penalty"@.len());
        assert("num_ctx"@.len() != "temperature"@.len());
        assert("num_ctx"@.len() != "seed"@.len());
        assert("num_ctx"@.len() != "stop"@.len());
        assert("num_ctx"@.len() != "tfs_z"@.len());
        assert("num_ctx"@.len() != "num_predict"@.len());
        assert("num_ctx"@.len() != "top_k"@.len());
        assert("num_ctx"@.len() != "top_p"@.len());
        assert("num_ctx"@.len() != "min_p"@.len());
        assert("repeat_last_n"@.len() != "repeat_penalty"@.len());
        assert("repeat_last_n"@.len() != "temperature"@.len());
        assert("repeat_last_n"@.len() != "seed"@.len());
        assert("repeat_last_n"@.len() != "stop"@.len());
        assert("repeat_last_n"@.len() != "tfs_z"@.len());
        assert("repeat_last_n"@.len() != "num_predict"@.len());
        assert("repeat_last_n"@.len() != "top_k"@.len());
        assert("repeat_last_n"@.len() != "top_p"@.len());
        assert("repeat_last_n"@.len() != "min_p"@.len());
        assert("repeat_penalty"@.len() != "temperature"@.len());
        assert("repeat_penalty"@.len() != "seed"@.len());
        assert("repeat_penalty"@.len() != "stop"@.len());
        assert("repeat_penalty"@.len() != "tfs_z"@.len());
        assert("repeat_penalty"@.len() != "num_predict"@.len());
        assert("repeat_penalty"@.len() != "top_k"@.len());
        assert("repeat_penalty"@.len() != "top_p"@.len());
        assert("repeat_penalty"@.len() != "min_p"@.len());
        assert("temperature"@.len() != "seed"@.len());
        assert("temperature"@.len() != "stop"@.len());
        assert("temperature"@.len() != "tfs_z"@.len());
        assert("temperature"@[0] != "num_predict"@[0]);
        assert("temperature"@.len() != "top_k"@.len());
        assert("temperature"@.len() != "top_p"@.len());
        assert("temperature"@.len() != "min_p"@.len());
        assert("seed"@[1] != "stop"@[1]);
        assert("seed"@.len() != "tfs_z"@.len());
        assert("seed"@.len() != "num_predict"@.len());
        assert("seed"@.len() != "top_k"@.len());
        assert("seed"@.len() != "top_p"@.len());
        assert("seed"@.len() != "min_p"@.len());
        assert("stop"@.len() != "tfs_z"@.len());
        assert("stop"@.len() != "num_predict"@.len());
        assert("stop"@.len() != "top_k"@.len());
        assert("stop"@.len() != "top_p"@.len());
        assert("stop"@.len() != "min_p"@.len());
        assert("tfs_z"@.len() != "num_predict"@.len());
        assert("tfs_z"@[1] != "top_k"@[1]);
        assert("tfs_z"@[1] != "top_p"@[1]);
        assert("tfs_z"@[0] != "min_p"@[0]);
        assert("num_predict"@.len() != "top_k"@.len());
        assert("num_predict"@.len() != "top_p"@.len());
        assert("num_predict"@.len() != "min_p"@.len());
        assert("top_k"@[4] != "top_p"@[4]);
        assert("top_k"@[0] != "min_p"@[0]);
        assert("top_p"@[0] != "min_p"@[0]);
    }
}

} // verus!

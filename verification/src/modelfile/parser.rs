//! The grammar of a Modelfile.
//!
//! A Modelfile is read line by line. A line ends at a line feed or at the
//! end of the text. Spaces, tabs and carriage returns are blanks. A line
//! that holds only blanks, or whose first character that is no blank is `#`,
//! says nothing. Any other line begins with a keyword in capitals, followed
//! by a blank and a value; the value is what is left of the line without the
//! blanks at its ends. The value of `TEMPLATE`, `SYSTEM` and `LICENSE` may
//! instead stand between triple quotes, and may then run over several
//! lines: it ends before the next triple quotes, after which the line holds
//! only blanks. Keywords, parameter names and message roles are matched
//! exactly, capitals and small letters apart.

use vstd::prelude::*;
use crate::message::Message;
use crate::message::MessageRole;
use crate::message::MessageView;
use crate::modelfile::builder::BuilderView;
use crate::modelfile::builder::ModelfileBuilder;
use crate::modelfile::error::ErrorView;
use crate::modelfile::error::ModelfileError;
use crate::modelfile::Instruction;
use crate::modelfile::InstructionView;
use crate::modelfile::laws::lemma_parsed_is_well_formed;
use crate::modelfile::laws::well_formed;
use crate::modelfile::Modelfile;
use crate::modelfile::ModelfileView;
use crate::modelfile::parameter::Parameter;
use crate::modelfile::parameter::ParameterName;
use crate::modelfile::parameter::ParameterValue;
use crate::modelfile::parameter::ParameterView;
use crate::modelfile::TensorFile;
use crate::modelfile::TensorFileView;
use crate::modelfile::triple_quote;
use crate::text::blank_prefix_len;
use crate::text::first_triple;
use crate::text::is_blank;
use crate::text::lemma_first_triple_none;
use crate::text::lemma_first_triple_some;
use crate::text::lemma_prefix_before;
use crate::text::lemma_word_len;
use crate::text::line_end;
use crate::text::line_len;
use crate::text::prefix_before;
use crate::text::skip_blanks;
use crate::text::skip_blanks_back;
use crate::text::starts_with;
use crate::text::to_chars;
use crate::text::to_string;
use crate::text::trim;
use crate::text::trim_start;
use crate::text::triple_at;
use crate::text::word_len;

verus! {

/// The ways in which a line can fail to be an instruction.
#[derive(Clone, Copy, Debug, PartialEq, Eq, Structural)]
pub enum FaultKind {
    /// The line begins with no keyword.
    Unrecognized,
    /// A keyword, or a parameter's name, with nothing after it.
    MissingValue,
    /// `PARAMETER` with a name that names no parameter.
    UnknownParameter,
    /// A parameter's value that is not of the kind that the parameter takes.
    BadValue,
    /// `MESSAGE` without a colon after the role.
    MissingColon,
    /// `MESSAGE` with a role that is none of the roles.
    UnknownRole,
    /// Triple quotes that are never closed.
    Unterminated,
    /// Something other than blanks after closing triple quotes.
    TrailingText,
}

impl FaultKind {
    /// What is said of a fault of this kind, before the text at fault.
    pub open spec fn text(self) -> Seq<char> {
        match self {
            FaultKind::Unrecognized => "parser did not consume all input: "@,
            FaultKind::MissingValue => "missing value for "@,
            FaultKind::UnknownParameter => "unknown parameter: "@,
            FaultKind::BadValue => "invalid value for parameter: "@,
            FaultKind::MissingColon => "missing `:` after the role of a message: "@,
            FaultKind::UnknownRole => "unknown message role: "@,
            FaultKind::Unterminated => "missing closing quotes: "@,
            FaultKind::TrailingText => "unexpected text after closing quotes: "@,
        }
    }

    pub fn as_str(self) -> (s: &'static str)
        ensures
            s@ == self.text(),
    {
        match self {
            FaultKind::Unrecognized => "parser did not consume all input: ",
            FaultKind::MissingValue => "missing value for ",
            FaultKind::UnknownParameter => "unknown parameter: ",
            FaultKind::BadValue => "invalid value for parameter: ",
            FaultKind::MissingColon => "missing `:` after the role of a message: ",
            FaultKind::UnknownRole => "unknown message role: ",
            FaultKind::Unterminated => "missing closing quotes: ",
            FaultKind::TrailingText => "unexpected text after closing quotes: ",
        }
    }
}

/// The description of a fault: its kind, then the text at fault.
pub open spec fn fault(kind: FaultKind, fragment: Seq<char>) -> Seq<char> {
    kind.text() + fragment
}

/// The error for a fault in the text `fragment`.
fn fault_error(kind: FaultKind, fragment: &str) -> (error: ModelfileError)
    ensures
        error@ == ErrorView::Parse(fault(kind, fragment@)),
{
    let mut detail = kind.as_str().to_owned();
    detail.append(fragment);
    ModelfileError::Parse(detail)
}

/// The error for a fault in the text `v[from..to]`.
fn fault_at(kind: FaultKind, v: &Vec<char>, from: usize, to: usize) -> (error: ModelfileError)
    requires
        from <= to <= v@.len(),
    ensures
        error@ == ErrorView::Parse(fault(kind, v@.subrange(from as int, to as int))),
{
    let fragment = to_string(v, from, to);
    fault_error(kind, fragment.as_str())
}

/// Whether `line` begins with `keyword` and then ends or goes on with a
/// blank.
pub open spec fn keyword_at(line: Seq<char>, keyword: Seq<char>) -> bool {
    &&& keyword.is_prefix_of(line)
    &&& (line.len() == keyword.len() || is_blank(line[keyword.len() as int]))
}

/// What stands on `line` after `keyword`, without the blanks at its ends.
pub open spec fn argument(line: Seq<char>, keyword: Seq<char>) -> Seq<char> {
    trim(line.skip(keyword.len() as int))
}

/// The length of a line of `n` characters at the start of `s`, with its line
/// feed where it has one.
pub open spec fn with_feed(s: Seq<char>, n: nat) -> nat {
    if n < s.len() {
        n + 1
    } else {
        n
    }
}

/// The instruction `FROM` with the value `arg`.
pub open spec fn read_from(arg: Seq<char>) -> Result<InstructionView, Seq<char>> {
    if arg.len() == 0 {
        Err(fault(FaultKind::MissingValue, "FROM"@))
    } else {
        Ok(InstructionView::From(arg))
    }
}

/// The instruction `ADAPTER` with the value `arg`.
pub open spec fn read_adapter(arg: Seq<char>) -> Result<InstructionView, Seq<char>> {
    if arg.len() == 0 {
        Err(fault(FaultKind::MissingValue, "ADAPTER"@))
    } else {
        Ok(InstructionView::Adapter(TensorFileView::at(arg)))
    }
}

/// The instruction `PARAMETER` with the value `arg`: a parameter's name,
/// blanks, and a value of the kind that the parameter takes.
pub open spec fn read_parameter(arg: Seq<char>) -> Result<InstructionView, Seq<char>> {
    let n = word_len(arg);
    let word = arg.take(n as int);
    let value = trim_start(arg.skip(n as int));
    if arg.len() == 0 {
        Err(fault(FaultKind::MissingValue, "PARAMETER"@))
    } else {
        match ParameterName::named(word) {
            None => Err(fault(FaultKind::UnknownParameter, word)),
            Some(name) => if value.len() == 0 {
                Err(fault(FaultKind::MissingValue, word))
            } else {
                match ParameterValue::read(name.kind(), value) {
                    Some(value) => Ok(InstructionView::Parameter(ParameterView { name, value })),
                    None => Err(fault(FaultKind::BadValue, arg)),
                }
            },
        }
    }
}

/// The instruction `MESSAGE` with the value `arg`: a role, a colon, and the
/// content, which begins after the blanks that follow the colon.
pub open spec fn read_message(arg: Seq<char>) -> Result<InstructionView, Seq<char>> {
    let n = prefix_before(arg, ':');
    let word = arg.take(n as int);
    if n == arg.len() {
        Err(fault(FaultKind::MissingColon, arg))
    } else {
        match MessageRole::named(word) {
            None => Err(fault(FaultKind::UnknownRole, word)),
            Some(role) => Ok(
                InstructionView::Message(
                    MessageView { role, content: trim_start(arg.skip(n as int + 1)) },
                ),
            ),
        }
    }
}

fn parse_from(v: &Vec<char>, from: usize, to: usize) -> (r: Result<Instruction, ModelfileError>)
    requires
        from <= to <= v@.len(),
    ensures
        match read_from(v@.subrange(from as int, to as int)) {
            Ok(instruction) => r is Ok && r->Ok_0@ == instruction,
            Err(detail) => r is Err && r->Err_0@ == ErrorView::Parse(detail),
        },
{
    if from == to {
        Err(fault_error(FaultKind::MissingValue, "FROM"))
    } else {
        Ok(Instruction::From(to_string(v, from, to)))
    }
}

fn parse_adapter(v: &Vec<char>, from: usize, to: usize) -> (r: Result<Instruction, ModelfileError>)
    requires
        from <= to <= v@.len(),
    ensures
        match read_adapter(v@.subrange(from as int, to as int)) {
            Ok(instruction) => r is Ok && r->Ok_0@ == instruction,
            Err(detail) => r is Err && r->Err_0@ == ErrorView::Parse(detail),
        },
{
    if from == to {
        Err(fault_error(FaultKind::MissingValue, "ADAPTER"))
    } else {
        let path = to_string(v, from, to);
        Ok(Instruction::Adapter(TensorFile::from_path(path.as_str())))
    }
}

/// The index of the first blank at or after `from` and before `to`, or `to`.
fn word_end(v: &Vec<char>, from: usize, to: usize) -> (e: usize)
    requires
        from <= to <= v@.len(),
    ensures
        from <= e <= to,
        e - from == word_len(v@.subrange(from as int, to as int)),
{
    let mut e: usize = from;
    while e < to && !(v[e] == ' ' || v[e] == '\t' || v[e] == '\r')
        invariant
            from <= e <= to <= v@.len(),
            forall|k: int| from <= k < e ==> !is_blank(v@[k]),
        decreases to - e,
    {
        e += 1;
    }
    proof {
        lemma_word_len(v@.subrange(from as int, to as int), e - from);
    }
    e
}

/// The index of the first `c` at or after `from` and before `to`, or `to`.
fn find(v: &Vec<char>, from: usize, to: usize, c: char) -> (e: usize)
    requires
        from <= to <= v@.len(),
    ensures
        from <= e <= to,
        e - from == prefix_before(v@.subrange(from as int, to as int), c),
{
    let mut e: usize = from;
    while e < to && v[e] != c
        invariant
            from <= e <= to <= v@.len(),
            forall|k: int| from <= k < e ==> v@[k] != c,
        decreases to - e,
    {
        e += 1;
    }
    proof {
        lemma_prefix_before(v@.subrange(from as int, to as int), c, e - from);
    }
    e
}

fn parse_parameter(v: &Vec<char>, from: usize, to: usize) -> (r: Result<
    Instruction,
    ModelfileError,
>)
    requires
        from <= to <= v@.len(),
    ensures
        match read_parameter(v@.subrange(from as int, to as int)) {
            Ok(instruction) => r is Ok && r->Ok_0@ == instruction,
            Err(detail) => r is Err && r->Err_0@ == ErrorView::Parse(detail),
        },
{
    let ghost arg = v@.subrange(from as int, to as int);
    if from == to {
        return Err(fault_error(FaultKind::MissingValue, "PARAMETER"));
    }
    let e = word_end(v, from, to);
    let p = skip_blanks(v, e, to);
    proof {
        assert(arg.take(e - from) =~= v@.subrange(from as int, e as int));
        assert(arg.skip(e - from) =~= v@.subrange(e as int, to as int));
    }
    match ParameterName::from_chars(v, from, e) {
        None => Err(fault_at(FaultKind::UnknownParameter, v, from, e)),
        Some(name) => {
            if p == to {
                Err(fault_at(FaultKind::MissingValue, v, from, e))
            } else {
                match Parameter::read(name, v, p, to) {
                    Some(parameter) => Ok(Instruction::Parameter(parameter)),
                    None => Err(fault_at(FaultKind::BadValue, v, from, to)),
                }
            }
        },
    }
}

fn parse_message(v: &Vec<char>, from: usize, to: usize) -> (r: Result<Instruction, ModelfileError>)
    requires
        from <= to <= v@.len(),
    ensures
        match read_message(v@.subrange(from as int, to as int)) {
            Ok(instruction) => r is Ok && r->Ok_0@ == instruction,
            Err(detail) => r is Err && r->Err_0@ == ErrorView::Parse(detail),
        },
{
    let ghost arg = v@.subrange(from as int, to as int);
    let e = find(v, from, to, ':');
    if e == to {
        return Err(fault_at(FaultKind::MissingColon, v, from, to));
    }
    proof {
        assert(arg.take(e - from) =~= v@.subrange(from as int, e as int));
        assert(arg.skip(e - from + 1) =~= v@.subrange(e + 1, to as int));
    }
    match MessageRole::from_chars(v, from, e) {
        None => Err(fault_at(FaultKind::UnknownRole, v, from, e)),
        Some(role) => {
            let p = skip_blanks(v, e + 1, to);
            let content = to_string(v, p, to);
            Ok(Instruction::Message(Message::new(role, content.as_str())))
        },
    }
}

/// The value of an instruction whose value may stand between triple quotes,
/// read at the start of `s`, and the number of characters that the
/// instruction takes up. `keyword` stands at the start of `s`.
pub open spec fn read_block(s: Seq<char>, keyword: Seq<char>) -> Result<(Seq<char>, nat), Seq<char>> {
    let n = line_len(s);
    let line = s.take(n as int);
    let start = keyword.len() + blank_prefix_len(line.skip(keyword.len() as int));
    if triple_quote().is_prefix_of(line.skip(start as int)) {
        let inner = s.skip(start as int + 3);
        match first_triple(inner) {
            None => Err(fault(FaultKind::Unterminated, line)),
            Some(q) => {
                let after = inner.skip(q + 3);
                let m = line_len(after);
                if trim_start(after.take(m as int)).len() != 0 {
                    Err(fault(FaultKind::TrailingText, after.take(m as int)))
                } else {
                    Ok((inner.take(q), (start + 3 + q + 3 + with_feed(after, m)) as nat))
                }
            },
        }
    } else {
        let arg = argument(line, keyword);
        if arg.len() == 0 {
            Err(fault(FaultKind::MissingValue, keyword))
        } else {
            Ok((arg, with_feed(s, n)))
        }
    }
}

/// An instruction that stands on one line of `n` characters, feed included.
pub open spec fn on_line(r: Result<InstructionView, Seq<char>>, n: nat) -> Result<
    (InstructionView, nat),
    Seq<char>,
> {
    match r {
        Ok(instruction) => Ok((instruction, n)),
        Err(detail) => Err(detail),
    }
}

/// The instruction at the start of `s`, which is not empty, and the number
/// of characters that it takes up; or the description of what is wrong with
/// it.
#[verifier::opaque]
pub open spec fn read_line(s: Seq<char>) -> Result<(InstructionView, nat), Seq<char>> {
    let n = line_len(s);
    let line = s.take(n as int);
    let next = with_feed(s, n);
    let body = trim_start(line);
    if body.len() == 0 || body[0] == '#' {
        Ok((InstructionView::Skip, next))
    } else if keyword_at(line, "FROM"@) {
        on_line(read_from(argument(line, "FROM"@)), next)
    } else if keyword_at(line, "PARAMETER"@) {
        on_line(read_parameter(argument(line, "PARAMETER"@)), next)
    } else if keyword_at(line, "TEMPLATE"@) {
        match read_block(s, "TEMPLATE"@) {
            Ok((text, k)) => Ok((InstructionView::Template(text), k)),
            Err(detail) => Err(detail),
        }
    } else if keyword_at(line, "SYSTEM"@) {
        match read_block(s, "SYSTEM"@) {
            Ok((text, k)) => Ok((InstructionView::System(text), k)),
            Err(detail) => Err(detail),
        }
    } else if keyword_at(line, "LICENSE"@) {
        match read_block(s, "LICENSE"@) {
            Ok((text, k)) => Ok((InstructionView::License(text), k)),
            Err(detail) => Err(detail),
        }
    } else if keyword_at(line, "ADAPTER"@) {
        on_line(read_adapter(argument(line, "ADAPTER"@)), next)
    } else if keyword_at(line, "MESSAGE"@) {
        on_line(read_message(argument(line, "MESSAGE"@)), next)
    } else {
        Err(fault(FaultKind::Unrecognized, line))
    }
}

/// `first` before `rest`, unless `first` says nothing.
pub open spec fn prepend(first: InstructionView, rest: Seq<InstructionView>) -> Seq<
    InstructionView,
> {
    if first is Skip {
        rest
    } else {
        seq![first] + rest
    }
}

/// The instructions of the text `s`, in order, without those that say
/// nothing; or the description of the first fault. Each instruction takes up
/// one character or more, so the reading comes to the end of the text.
pub open spec fn read_all(s: Seq<char>) -> Result<Seq<InstructionView>, Seq<char>>
    decreases s.len(),
{
    if s.len() == 0 {
        Ok(Seq::empty())
    } else {
        match read_line(s) {
            Err(detail) => Err(detail),
            Ok((first, n)) => if 0 < n <= s.len() {
                match read_all(s.skip(n as int)) {
                    Err(detail) => Err(detail),
                    Ok(rest) => Ok(prepend(first, rest)),
                }
            } else {
                Ok(Seq::empty())
            },
        }
    }
}

/// The index after `keyword`, where the line `v[from..to]` begins with it.
fn after_keyword(v: &Vec<char>, from: usize, to: usize, keyword: &str) -> (r: Option<usize>)
    requires
        from <= to <= v@.len(),
    ensures
        r is Some <==> keyword_at(v@.subrange(from as int, to as int), keyword@),
        r is Some ==> r->0 == from + keyword@.len() && r->0 <= to,
{
    let ghost line = v@.subrange(from as int, to as int);
    if !starts_with(v, from, to, keyword) {
        return None;
    }
    let k = keyword.unicode_len();
    if to - from == k {
        return Some(to);
    }
    let c = v[from + k];
    assert(c == line[k as int]);
    if c == ' ' || c == '\t' || c == '\r' {
        Some(from + k)
    } else {
        None
    }
}

/// The ends of `v[from..to]` without the blanks at its ends.
fn trimmed(v: &Vec<char>, from: usize, to: usize) -> (r: (usize, usize))
    requires
        from <= to <= v@.len(),
    ensures
        from <= r.0 <= r.1 <= to,
        v@.subrange(r.0 as int, r.1 as int) == trim(v@.subrange(from as int, to as int)),
{
    let a = skip_blanks(v, from, to);
    let b = skip_blanks_back(v, a, to);
    (a, b)
}

/// Whether triple quotes stand at `v[p..]`, before `to`.
fn quotes_at(v: &Vec<char>, p: usize, to: usize) -> (r: bool)
    requires
        p <= to <= v@.len(),
    ensures
        r == triple_quote().is_prefix_of(v@.subrange(p as int, to as int)),
        r == triple_at(v@.subrange(p as int, to as int), 0),
{
    let ghost sub = v@.subrange(p as int, to as int);
    if to - p >= 3 && v[p] == '"' && v[p + 1] == '"' && v[p + 2] == '"' {
        assert(triple_quote() =~= sub.subrange(0, 3));
        true
    } else {
        proof {
            if triple_quote().is_prefix_of(sub) {
                let head = sub.subrange(0, 3);
                assert(head[0] == sub[0] && head[1] == sub[1] && head[2] == sub[2]);
                assert(triple_quote()[0] == '"' && triple_quote()[1] == '"' && triple_quote()[2]
                    == '"');
            }
        }
        false
    }
}

/// The index of the first triple quotes at or after `from`.
fn find_quotes(v: &Vec<char>, from: usize) -> (r: Option<usize>)
    requires
        from <= v@.len(),
    ensures
        match r {
            Some(q) => {
                &&& from <= q
                &&& q + 3 <= v.len()
                &&& first_triple(v@.skip(from as int)) == Some(q - from)
            },
            None => first_triple(v@.skip(from as int)) is None,
        },
{
    let ghost s = v@.skip(from as int);
    let n = v.len();
    let mut q: usize = from;
    while n >= 3 && q <= n - 3
        invariant
            from <= q,
            n == v@.len(),
            s == v@.skip(from as int),
            forall|k: int| 0 <= k < q - from ==> !triple_at(s, k),
        decreases n - q,
    {
        if v[q] == '"' && v[q + 1] == '"' && v[q + 2] == '"' {
            proof {
                assert(triple_at(s, q - from));
                lemma_first_triple_some(s, q - from);
            }
            return Some(q);
        }
        assert(!triple_at(s, q - from));
        q += 1;
    }
    proof {
        lemma_first_triple_none(s);
    }
    None
}

/// The index after the line that ends at `e`: after its line feed, where it
/// has one.
fn after_feed(v: &Vec<char>, e: usize) -> (next: usize)
    requires
        e <= v@.len(),
    ensures
        next == if e < v@.len() {
            e + 1
        } else {
            e as int
        },
{
    if e < v.len() {
        e + 1
    } else {
        e
    }
}

/// Reads the value of an instruction whose value may stand between triple
/// quotes. The line starts at `i` and ends at `e`; the keyword ends at `k`.
fn parse_block(v: &Vec<char>, i: usize, k: usize, e: usize, keyword: &str) -> (r: Result<
    (String, usize),
    ModelfileError,
>)
    requires
        i <= k <= e <= v@.len(),
        e - i == line_len(v@.skip(i as int)),
        k - i == keyword@.len(),
    ensures
        match read_block(v@.skip(i as int), keyword@) {
            Ok((text, n)) => {
                &&& r is Ok
                &&& r->Ok_0.0@ == text
                &&& r->Ok_0.1 == i + n
                &&& 0 < n
                &&& i + n <= v@.len()
            },
            Err(detail) => r is Err && r->Err_0@ == ErrorView::Parse(detail),
        },
{
    let ghost s = v@.skip(i as int);
    let ghost line = s.take(e - i);
    let p = skip_blanks(v, k, e);
    assert(line =~= v@.subrange(i as int, e as int));
    assert(line.skip(k - i) =~= v@.subrange(k as int, e as int));
    assert(line.skip(p - i) =~= v@.subrange(p as int, e as int));
    if quotes_at(v, p, e) {
        let ghost inner = s.skip(p - i + 3);
        assert(inner =~= v@.skip(p + 3));
        match find_quotes(v, p + 3) {
            None => Err(fault_at(FaultKind::Unterminated, v, i, e)),
            Some(q) => {
                let ghost after = inner.skip(q - (p + 3) + 3);
                assert(after =~= v@.skip(q + 3));
                let end = line_end(v, q + 3);
                let t = skip_blanks(v, q + 3, end);
                assert(after.take(end - (q + 3)) =~= v@.subrange(q + 3, end as int));
                assert(inner.take(q - (p + 3)) =~= v@.subrange(p + 3, q as int));
                if t != end {
                    Err(fault_at(FaultKind::TrailingText, v, q + 3, end))
                } else {
                    Ok((to_string(v, p + 3, q), after_feed(v, end)))
                }
            },
        }
    } else {
        let (a, b) = trimmed(v, k, e);
        if a == b {
            Err(fault_error(FaultKind::MissingValue, keyword))
        } else {
            Ok((to_string(v, a, b), after_feed(v, e)))
        }
    }
}

/// Puts an instruction that was read from one line together with the index
/// after that line.
fn at_line(r: Result<Instruction, ModelfileError>, next: usize) -> (out: Result<
    (Instruction, usize),
    ModelfileError,
>)
    ensures
        match r {
            Ok(instruction) => out == Ok::<(Instruction, usize), ModelfileError>(
                (instruction, next),
            ),
            Err(error) => out == Err::<(Instruction, usize), ModelfileError>(error),
        },
{
    match r {
        Ok(instruction) => Ok((instruction, next)),
        Err(error) => Err(error),
    }
}

/// Reads the instruction on the line that starts at `i`, and gives the index
/// at which the next one starts.
#[verifier::rlimit(40)]
fn parse_line(v: &Vec<char>, i: usize) -> (r: Result<(Instruction, usize), ModelfileError>)
    requires
        i < v@.len(),
    ensures
        match read_line(v@.skip(i as int)) {
            Ok((instruction, n)) => {
                &&& r is Ok
                &&& r->Ok_0.0@ == instruction
                &&& r->Ok_0.1 == i + n
                &&& 0 < n
                &&& i + n <= v@.len()
            },
            Err(detail) => r is Err && r->Err_0@ == ErrorView::Parse(detail),
        },
{
    proof {
        reveal(read_line);
    }
    let ghost s = v@.skip(i as int);
    let e = line_end(v, i);
    let next = after_feed(v, e);
    let ghost line = s.take(e - i);
    assert(line =~= v@.subrange(i as int, e as int));
    assert(next > i) by {
        if e == i {
            assert(s[0] == v@[i as int]);
        }
    }
    let p = skip_blanks(v, i, e);
    if p == e || v[p] == '#' {
        assert(p < e ==> trim_start(line)[0] == v@[p as int]);
        return Ok((Instruction::Skip, next));
    }
    assert(trim_start(line)[0] == v@[p as int]);
    if let Some(k) = after_keyword(v, i, e, "FROM") {
        assert(line.skip(k - i) =~= v@.subrange(k as int, e as int));
        let (a, b) = trimmed(v, k, e);
        at_line(parse_from(v, a, b), next)
    } else if let Some(k) = after_keyword(v, i, e, "PARAMETER") {
        assert(line.skip(k - i) =~= v@.subrange(k as int, e as int));
        let (a, b) = trimmed(v, k, e);
        at_line(parse_parameter(v, a, b), next)
    } else if let Some(k) = after_keyword(v, i, e, "TEMPLATE") {
        match parse_block(v, i, k, e, "TEMPLATE") {
            Ok((text, after)) => Ok((Instruction::Template(text), after)),
            Err(error) => Err(error),
        }
    } else if let Some(k) = after_keyword(v, i, e, "SYSTEM") {
        match parse_block(v, i, k, e, "SYSTEM") {
            Ok((text, after)) => Ok((Instruction::System(text), after)),
            Err(error) => Err(error),
        }
    } else if let Some(k) = after_keyword(v, i, e, "LICENSE") {
        match parse_block(v, i, k, e, "LICENSE") {
            Ok((text, after)) => Ok((Instruction::License(text), after)),
            Err(error) => Err(error),
        }
    } else if let Some(k) = after_keyword(v, i, e, "ADAPTER") {
        assert(line.skip(k - i) =~= v@.subrange(k as int, e as int));
        let (a, b) = trimmed(v, k, e);
        at_line(parse_adapter(v, a, b), next)
    } else if let Some(k) = after_keyword(v, i, e, "MESSAGE") {
        assert(line.skip(k - i) =~= v@.subrange(k as int, e as int));
        let (a, b) = trimmed(v, k, e);
        at_line(parse_message(v, a, b), next)
    } else {
        Err(fault_at(FaultKind::Unrecognized, v, i, e))
    }
}

/// `done` before what `rest` holds, where `rest` holds instructions.
pub open spec fn after(done: Seq<InstructionView>, rest: Result<Seq<InstructionView>, Seq<char>>)
    -> Result<Seq<InstructionView>, Seq<char>> {
    match rest {
        Ok(rest) => Ok(done + rest),
        Err(detail) => Err(detail),
    }
}

/// The Modelfile that the text `s` denotes: its instructions, given to an
/// empty builder one after the other, and built.
pub open spec fn parsed(s: Seq<char>) -> Result<ModelfileView, ErrorView> {
    match read_all(s) {
        Err(detail) => Err(ErrorView::Parse(detail)),
        Ok(instructions) => match BuilderView::empty().fold(instructions) {
            Err(error) => Err(error),
            Ok(builder) => builder.built(),
        },
    }
}

/// The instructions of the text, in order, without those that say nothing.
/// Fails at the first line that is no instruction.
pub fn instructions(input: &str) -> (r: Result<Vec<Instruction>, ModelfileError>)
    ensures
        match read_all(input@) {
            Ok(list) => r is Ok && r->Ok_0@.map_values(|i: Instruction| i@) == list,
            Err(detail) => r is Err && r->Err_0@ == ErrorView::Parse(detail),
        },
{
    let v = to_chars(input);
    let mut list: Vec<Instruction> = Vec::new();
    let mut i: usize = 0;
    assert(v@.skip(0) =~= v@);
    assert(after(list@.map_values(|i: Instruction| i@), read_all(v@)) == read_all(v@)) by {
        match read_all(v@) {
            Ok(rest) => {
                assert(list@.map_values(|i: Instruction| i@) + rest =~= rest);
            },
            Err(_) => {},
        }
    }
    while i < v.len()
        invariant
            i <= v@.len(),
            v@ == input@,
            read_all(v@) == after(
                list@.map_values(|i: Instruction| i@),
                read_all(v@.skip(i as int)),
            ),
        decreases v@.len() - i,
    {
        let ghost s = v@.skip(i as int);
        let ghost done = list@.map_values(|i: Instruction| i@);
        match parse_line(&v, i) {
            Err(error) => {
                return Err(error);
            },
            Ok((instruction, next)) => {
                let ghost first = instruction@;
                assert(s.skip(next - i) =~= v@.skip(next as int));
                match instruction {
                    Instruction::Skip => {},
                    other => {
                        list.push(other);
                    },
                }
                proof {
                    let now = list@.map_values(|i: Instruction| i@);
                    if first is Skip {
                        assert(now =~= done);
                    } else {
                        assert(now =~= done.push(first));
                    }
                    match read_all(v@.skip(next as int)) {
                        Ok(rest) => {
                            assert(now + rest =~= done + prepend(first, rest));
                        },
                        Err(_) => {},
                    }
                }
                i = next;
            },
        }
    }
    proof {
        let done = list@.map_values(|i: Instruction| i@);
        assert(done + Seq::<InstructionView>::empty() =~= done);
    }
    Ok(list)
}

impl Modelfile {
    /// Reads a Modelfile from text.
    ///
    /// Fails with a `Parse` error where a line is no instruction, and with
    /// a `Builder` error where the instructions do not make a Modelfile: the
    /// base model is missing, or an instruction that may occur once occurs
    /// again.
    pub fn parse(input: &str) -> (r: Result<Modelfile, ModelfileError>)
        ensures
            match parsed(input@) {
                Ok(modelfile) => r is Ok && r->Ok_0@ == modelfile,
                Err(error) => r is Err && r->Err_0@ == error,
            },
            r is Ok ==> well_formed(r->Ok_0@),
    {
        proof {
            if parsed(input@) is Ok {
                lemma_parsed_is_well_formed(input@);
            }
        }
        match instructions(input) {
            Err(error) => Err(error),
            Ok(list) => match ModelfileBuilder::from_instructions(list) {
                Err(error) => Err(error),
                Ok(builder) => builder.build(),
            },
        }
    }
}

impl core::str::FromStr for Modelfile {
    type Err = ModelfileError;

    fn from_str(input: &str) -> (r: Result<Modelfile, ModelfileError>)
        ensures
            match parsed(input@) {
                Ok(modelfile) => r is Ok && r->Ok_0@ == modelfile,
                Err(error) => r is Err && r->Err_0@ == error,
            },
    {
        Modelfile::parse(input)
    }
}

} // verus!

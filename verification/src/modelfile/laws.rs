//! What holds of reading, building and writing taken together.

use vstd::prelude::*;
use crate::message::MessageRole;
use crate::message::MessageView;
use crate::modelfile::block;
use crate::modelfile::builder::BuilderView;
use crate::modelfile::error::ErrorView;
use crate::modelfile::InstructionView;
use crate::modelfile::ModelfileView;
use crate::modelfile::parameter::is_name_char;
use crate::modelfile::parameter::ParameterName;
use crate::modelfile::parameter::ParameterValue;
use crate::modelfile::parameter::ParameterView;
use crate::modelfile::parser::argument;
use crate::modelfile::parser::fault;
use crate::modelfile::parser::FaultKind;
use crate::modelfile::parser::keyword_at;
use crate::modelfile::parser::parsed;
use crate::modelfile::parser::prepend;
use crate::modelfile::parser::read_all;
use crate::modelfile::parser::read_block;
use crate::modelfile::parser::read_line;
use crate::modelfile::parser::read_message;
use crate::modelfile::parser::read_parameter;
use crate::modelfile::parser::with_feed;
use crate::modelfile::render::block_of;
use crate::modelfile::render::group;
use crate::modelfile::render::header;
use crate::modelfile::render::line;
use crate::modelfile::render::lines;
use crate::modelfile::render::message_texts;
use crate::modelfile::render::optional;
use crate::modelfile::render::parameter_texts;
use crate::modelfile::render::path_of;
use crate::modelfile::render::rendered;
use crate::modelfile::TensorFileView;
use crate::modelfile::triple_quote;
use crate::number::is_digit;
use crate::number::lemma_decimal_round_trip;
use crate::number::lemma_float_chars;
use crate::text::blank_prefix_len;
use crate::text::first_triple;
use crate::text::is_blank;
use crate::text::lemma_blank_prefix;
use crate::text::lemma_blank_prefix_bounds;
use crate::text::lemma_first_triple_bounds;
use crate::text::lemma_first_triple_some;
use crate::text::lemma_line_len;
use crate::text::lemma_line_len_bounds;
use crate::text::lemma_prefix_before;
use crate::text::lemma_prefix_before_bounds;
use crate::text::lemma_trim_end;
use crate::text::lemma_trim_end_bounds;
use crate::text::lemma_word_len;
use crate::text::lemma_word_len_bounds;
use crate::text::line_len;
use crate::text::prefix_before;
use crate::text::trim;
use crate::text::trim_end;
use crate::text::trim_start;
use crate::text::triple_at;
use crate::text::word_len;

verus! {

/// Text that can stand on a line as it is: it holds no line feed, and
/// neither begins nor ends with a blank.
pub open spec fn fits_line(text: Seq<char>) -> bool {
    &&& forall|i: int| 0 <= i < text.len() ==> text[i] != '\n'
    &&& text.len() > 0 ==> !is_blank(text[0]) && !is_blank(text.last())
}

/// Text that can be the value of an instruction on one line: it fits the
/// line and is not empty.
pub open spec fn is_value(text: Seq<char>) -> bool {
    text.len() > 0 && fits_line(text)
}

/// Whether `keyword` is made of capital letters, one or more.
pub open spec fn is_capitals(keyword: Seq<char>) -> bool {
    &&& keyword.len() > 0
    &&& forall|i: int| 0 <= i < keyword.len() ==> 'A' <= #[trigger] keyword[i] <= 'Z'
}

/// Text that fits a line is what is left of itself without the blanks at its
/// ends, also after a space.
pub proof fn lemma_trim_fitting(text: Seq<char>)
    requires
        fits_line(text),
    ensures
        trim(seq![' '] + text) == text,
        trim(text) == text,
{
    let padded = seq![' '] + text;
    lemma_blank_prefix(padded, 1);
    lemma_blank_prefix(text, 0);
    assert(padded.skip(1) =~= text);
    assert(text.skip(0) =~= text);
}

/// A line that was written as a keyword, a space and a value is read as that
/// keyword with that value, less the blanks at the value's end, and ends
/// where it was ended.
pub proof fn lemma_line_read(keyword: Seq<char>, value: Seq<char>, rest: Seq<char>)
    requires
        is_capitals(keyword),
        forall|i: int| 0 <= i < value.len() ==> value[i] != '\n',
        value.len() > 0 ==> !is_blank(value[0]),
    ensures
        ({
            let s = line(keyword, value) + rest;
            let n = keyword.len() + 1 + value.len();
            let read = s.take(n as int);
            &&& line_len(s) == n
            &&& read == keyword + seq![' '] + value
            &&& with_feed(s, n) == n + 1
            &&& n + 1 == line(keyword, value).len()
            &&& s.skip(n as int + 1) == rest
            &&& keyword_at(read, keyword)
            &&& argument(read, keyword) == trim_end(value)
            &&& trim_start(read) == read
            &&& read[0] == keyword[0]
        }),
{
    let s = line(keyword, value) + rest;
    let n = keyword.len() + 1 + value.len();
    let read = s.take(n as int);
    let written = keyword + seq![' '] + value;
    assert(read =~= written);
    assert(s[n as int] == '\n');
    assert forall|k: int| 0 <= k < n implies s[k] != '\n' by {
        if k < keyword.len() {
            assert(s[k] == keyword[k]);
        } else if k == keyword.len() {
        } else {
            assert(s[k] == value[k - keyword.len() - 1]);
        }
    }
    lemma_line_len(s, n as int);
    assert(s.skip(n as int + 1) =~= rest);
    assert(keyword =~= read.subrange(0, keyword.len() as int));
    assert(read[keyword.len() as int] == ' ');
    let padded = seq![' '] + value;
    assert(read.skip(keyword.len() as int) =~= padded);
    lemma_blank_prefix(padded, 1);
    assert(padded.skip(1) =~= value);
    assert(read[0] == keyword[0]);
    lemma_blank_prefix(read, 0);
    assert(read.skip(0) =~= read);
}

/// Of the keywords: each is made of capitals, and no two begin alike.
pub proof fn lemma_keywords()
    ensures
        is_capitals("FROM"@),
        is_capitals("PARAMETER"@),
        is_capitals("TEMPLATE"@),
        is_capitals("SYSTEM"@),
        is_capitals("LICENSE"@),
        is_capitals("ADAPTER"@),
        is_capitals("MESSAGE"@),
        "FROM"@[0] == 'F',
        "PARAMETER"@[0] == 'P',
        "TEMPLATE"@[0] == 'T',
        "SYSTEM"@[0] == 'S',
        "LICENSE"@[0] == 'L',
        "ADAPTER"@[0] == 'A',
        "MESSAGE"@[0] == 'M',
{
    reveal_strlit("FROM");
    reveal_strlit("PARAMETER");
    reveal_strlit("TEMPLATE");
    reveal_strlit("SYSTEM");
    reveal_strlit("LICENSE");
    reveal_strlit("ADAPTER");
    reveal_strlit("MESSAGE");
}

/// A line that begins with a keyword begins with the keyword's first letter.
pub proof fn lemma_keyword_first(read: Seq<char>, keyword: Seq<char>)
    requires
        keyword.len() > 0,
        keyword_at(read, keyword),
    ensures
        read.len() > 0,
        read[0] == keyword[0],
{
    assert(read.subrange(0, keyword.len() as int)[0] == read[0]);
}

/// An empty line says nothing.
pub proof fn lemma_read_empty_line(rest: Seq<char>)
    ensures
        read_line(seq!['\n'] + rest) == Ok::<(InstructionView, nat), Seq<char>>(
            (InstructionView::Skip, 1),
        ),
        (seq!['\n'] + rest).skip(1) == rest,
{
    reveal(read_line);
    let s = seq!['\n'] + rest;
    assert(s.take(0) =~= Seq::<char>::empty());
    assert(s.skip(1) =~= rest);
}

/// The comment at the head of a written Modelfile says nothing.
pub proof fn lemma_read_header(rest: Seq<char>)
    ensures
        read_line(header() + rest) == Ok::<(InstructionView, nat), Seq<char>>(
            (InstructionView::Skip, header().len()),
        ),
        header().len() > 0,
        (header() + rest).skip(header().len() as int) == rest,
{
    reveal(read_line);
    reveal_strlit("# This file was generated by the Ollama-CLI client\n");
    let s = header() + rest;
    let n = header().len() - 1;
    assert forall|k: int| 0 <= k < n implies s[k] != '\n' by {
        assert(s[k] == header()[k]);
    }
    assert(s[n] == header()[n]);
    lemma_line_len(s, n);
    let read = s.take(n);
    assert(read[0] == '#');
    lemma_blank_prefix(read, 0);
    assert(read.skip(0) =~= read);
    assert(s.skip(header().len() as int) =~= rest);
}

/// A written `FROM` line is read as it was written.
pub proof fn lemma_read_from(value: Seq<char>, rest: Seq<char>)
    requires
        is_value(value),
    ensures
        read_line(line("FROM"@, value) + rest) == Ok::<(InstructionView, nat), Seq<char>>(
            (InstructionView::From(value), line("FROM"@, value).len()),
        ),
        (line("FROM"@, value) + rest).skip(line("FROM"@, value).len() as int) == rest,
{
    reveal(read_line);
    lemma_keywords();
    lemma_line_read("FROM"@, value, rest);
    lemma_trim_fitting(value);
}

/// A written `ADAPTER` line is read as it was written, where the kind of
/// the file is the kind that its path tells.
pub proof fn lemma_read_adapter(file: TensorFileView, rest: Seq<char>)
    requires
        is_value(file.path()),
        file == TensorFileView::at(file.path()),
    ensures
        read_line(line("ADAPTER"@, file.path()) + rest) == Ok::<(InstructionView, nat), Seq<char>>(
            (InstructionView::Adapter(file), line("ADAPTER"@, file.path()).len()),
        ),
        (line("ADAPTER"@, file.path()) + rest).skip(line("ADAPTER"@, file.path()).len() as int)
            == rest,
{
    reveal(read_line);
    let value = file.path();
    let s = line("ADAPTER"@, value) + rest;
    let read = s.take(line_len(s) as int);
    lemma_keywords();
    lemma_line_read("ADAPTER"@, value, rest);
    lemma_trim_fitting(value);
    if keyword_at(read, "FROM"@) {
        lemma_keyword_first(read, "FROM"@);
    }
    if keyword_at(read, "PARAMETER"@) {
        lemma_keyword_first(read, "PARAMETER"@);
    }
    if keyword_at(read, "TEMPLATE"@) {
        lemma_keyword_first(read, "TEMPLATE"@);
    }
    if keyword_at(read, "SYSTEM"@) {
        lemma_keyword_first(read, "SYSTEM"@);
    }
    if keyword_at(read, "LICENSE"@) {
        lemma_keyword_first(read, "LICENSE"@);
    }
}

/// Text that can stand between triple quotes: with the closing quotes
/// after it, no triple quotes begin inside it. So it holds no triple quotes
/// and does not end with a quote.
pub open spec fn closes_cleanly(text: Seq<char>) -> bool {
    forall|i: int| 0 <= i < text.len() ==> !triple_at(text + triple_quote(), i)
}

/// A value that was written between triple quotes is read as it was
/// written, where it closes cleanly.
pub proof fn lemma_read_block(keyword: Seq<char>, text: Seq<char>, rest: Seq<char>)
    requires
        is_capitals(keyword),
        closes_cleanly(text),
    ensures
        ({
            let unit = line(keyword, block(text));
            let s = unit + rest;
            let read = s.take(line_len(s) as int);
            &&& read_block(s, keyword) == Ok::<(Seq<char>, nat), Seq<char>>((text, unit.len()))
            &&& keyword_at(read, keyword)
            &&& trim_start(read).len() > 0
            &&& trim_start(read)[0] == keyword[0]
            &&& read[0] == keyword[0]
            &&& unit.len() > 0
            &&& s.skip(unit.len() as int) == rest
        }),
{
    let unit = line(keyword, block(text));
    let s = unit + rest;
    let k = keyword.len() as int;
    let n = line_len(s) as int;
    let read = s.take(n);
    assert(s.skip(unit.len() as int) =~= rest);
    // The keyword, the space and the opening quotes stand on the first line.
    assert forall|j: int| 0 <= j < k + 4 implies s[j] != '\n' by {
        if j < k {
            assert(s[j] == keyword[j]);
        }
    }
    lemma_line_len_bounds(s);
    assert(n >= k + 4) by {
        if n < k + 4 {
            assert(s[n] == '\n');
        }
    }
    assert(keyword =~= read.subrange(0, k));
    assert(read[k] == ' ');
    assert(read[0] == keyword[0]);
    lemma_blank_prefix(read, 0);
    assert(read.skip(0) =~= read);
    let tail = read.skip(k);
    assert(tail[0] == ' ');
    assert(tail[1] == '"');
    lemma_blank_prefix(tail, 1);
    let start = k + 1;
    let quoted = read.skip(start);
    assert(quoted[0] == '"' && quoted[1] == '"' && quoted[2] == '"');
    assert(triple_quote() =~= quoted.subrange(0, 3));
    let inner = s.skip(start + 3);
    let closed = text + triple_quote();
    assert(inner =~= closed + (seq!['\n'] + rest));
    let q = text.len() as int;
    assert(triple_at(inner, q));
    assert forall|j: int| 0 <= j < q implies !triple_at(inner, j) by {
        if triple_at(inner, j) {
            assert(inner[j] == closed[j]);
            assert(inner[j + 1] == closed[j + 1]);
            assert(inner[j + 2] == closed[j + 2]);
            assert(triple_at(closed, j));
        }
    }
    lemma_first_triple_some(inner, q);
    assert(inner.take(q) =~= text);
    let after = inner.skip(q + 3);
    assert(after =~= seq!['\n'] + rest);
    assert(line_len(after) == 0);
    assert(after.take(0) =~= Seq::<char>::empty());
    assert(trim_start(after.take(0)).len() == 0);
}

/// A parameter that can be written on a line and read back: its value is of
/// its own kind, and a value that is text can be the value of an
/// instruction.
pub open spec fn parameter_fits(p: ParameterView) -> bool {
    &&& p.well_formed()
    &&& match p.value {
        ParameterValue::Text(text) => is_value(text),
        _ => true,
    }
}

/// A value, as it is written, can be the value of an instruction, and is
/// read as the value that was written.
pub proof fn lemma_value_text(p: ParameterView)
    requires
        parameter_fits(p),
    ensures
        is_value(p.value.text()),
        ParameterValue::read(p.name.kind(), p.value.text()) == Some(p.value),
{
    let text = p.value.text();
    match p.value {
        ParameterValue::Unsigned(n) => {
            lemma_decimal_round_trip(n);
            assert(is_digit(text[0]));
            assert(is_digit(text[text.len() - 1]));
        },
        ParameterValue::Float(literal) => {
            lemma_float_chars(literal);
        },
        ParameterValue::Text(_) => {},
    }
}

/// A parameter, as it is written after its keyword, is read as the
/// parameter that was written.
pub proof fn lemma_parameter_text(p: ParameterView)
    requires
        parameter_fits(p),
    ensures
        is_value(p.text()),
        read_parameter(p.text()) == Ok::<InstructionView, Seq<char>>(InstructionView::Parameter(p)),
{
    let word = p.name.keyword();
    let value = p.value.text();
    let arg = p.text();
    let n = word.len() as int;
    p.name.lemma_named_keyword();
    lemma_value_text(p);
    assert forall|k: int| 0 <= k < n implies !is_blank(arg[k]) by {
        assert(arg[k] == word[k]);
        assert(is_name_char(word[k]));
    }
    assert(arg[n] == ' ');
    lemma_word_len(arg, n);
    assert(arg.take(n) =~= word);
    let padded = seq![' '] + value;
    assert(arg.skip(n) =~= padded);
    lemma_blank_prefix(padded, 1);
    assert(padded.skip(1) =~= value);
    assert forall|i: int| 0 <= i < arg.len() implies arg[i] != '\n' by {
        if i < n {
            assert(arg[i] == word[i]);
            assert(is_name_char(word[i]));
        } else if i > n {
            assert(arg[i] == value[i - n - 1]);
        }
    }
    assert(arg[0] == word[0]);
    assert(is_name_char(word[0]));
    assert(arg.last() == value.last());
}

/// A written `PARAMETER` line is read as it was written.
pub proof fn lemma_read_parameter(p: ParameterView, rest: Seq<char>)
    requires
        parameter_fits(p),
    ensures
        read_line(line("PARAMETER"@, p.text()) + rest) == Ok::<(InstructionView, nat), Seq<char>>(
            (InstructionView::Parameter(p), line("PARAMETER"@, p.text()).len()),
        ),
        (line("PARAMETER"@, p.text()) + rest).skip(line("PARAMETER"@, p.text()).len() as int)
            == rest,
{
    reveal(read_line);
    let s = line("PARAMETER"@, p.text()) + rest;
    let read = s.take(line_len(s) as int);
    lemma_keywords();
    lemma_parameter_text(p);
    lemma_line_read("PARAMETER"@, p.text(), rest);
    lemma_trim_fitting(p.text());
    if keyword_at(read, "FROM"@) {
        lemma_keyword_first(read, "FROM"@);
    }
}

/// A message, as it is written after its keyword, holds no line feed, does
/// not begin with a blank, and is read as the message that was written.
pub proof fn lemma_message_text(m: MessageView)
    requires
        fits_line(m.content),
    ensures
        forall|i: int| 0 <= i < m.text().len() ==> m.text()[i] != '\n',
        m.text().len() > 0,
        !is_blank(m.text()[0]),
        read_message(trim_end(m.text())) == Ok::<InstructionView, Seq<char>>(
            InstructionView::Message(m),
        ),
{
    let role = m.role.name();
    let text = m.text();
    let n = role.len() as int;
    m.role.lemma_named_name();
    assert forall|i: int| 0 <= i < text.len() implies text[i] != '\n' by {
        if i < n {
            assert(text[i] == role[i]);
        } else if i >= n + 2 {
            assert(text[i] == m.content[i - n - 2]);
        }
    }
    assert(text[0] == role[0]);
    let arg = trim_end(text);
    if m.content.len() == 0 {
        lemma_trim_end(text, n + 1);
        assert(arg =~= role + seq![':']);
        assert(arg.skip(n + 1) =~= Seq::<char>::empty());
        lemma_blank_prefix(arg.skip(n + 1), 0);
        assert(trim_start(arg.skip(n + 1)) =~= m.content);
    } else {
        assert(text.last() == m.content.last());
        assert(arg == text);
        let padded = seq![' '] + m.content;
        assert(arg.skip(n + 1) =~= padded);
        lemma_blank_prefix(padded, 1);
        assert(padded.skip(1) =~= m.content);
    }
    assert forall|k: int| 0 <= k < n implies arg[k] != ':' by {
        assert(arg[k] == role[k]);
    }
    assert(arg[n] == ':');
    lemma_prefix_before(arg, ':', n);
    assert(arg.take(n) =~= role);
}

/// A written `MESSAGE` line is read as it was written.
pub proof fn lemma_read_message(m: MessageView, rest: Seq<char>)
    requires
        fits_line(m.content),
    ensures
        read_line(line("MESSAGE"@, m.text()) + rest) == Ok::<(InstructionView, nat), Seq<char>>(
            (InstructionView::Message(m), line("MESSAGE"@, m.text()).len()),
        ),
        (line("MESSAGE"@, m.text()) + rest).skip(line("MESSAGE"@, m.text()).len() as int) == rest,
{
    reveal(read_line);
    let s = line("MESSAGE"@, m.text()) + rest;
    let read = s.take(line_len(s) as int);
    lemma_keywords();
    lemma_message_text(m);
    lemma_line_read("MESSAGE"@, m.text(), rest);
    if keyword_at(read, "FROM"@) {
        lemma_keyword_first(read, "FROM"@);
    }
    if keyword_at(read, "PARAMETER"@) {
        lemma_keyword_first(read, "PARAMETER"@);
    }
    if keyword_at(read, "TEMPLATE"@) {
        lemma_keyword_first(read, "TEMPLATE"@);
    }
    if keyword_at(read, "SYSTEM"@) {
        lemma_keyword_first(read, "SYSTEM"@);
    }
    if keyword_at(read, "LICENSE"@) {
        lemma_keyword_first(read, "LICENSE"@);
    }
    if keyword_at(read, "ADAPTER"@) {
        lemma_keyword_first(read, "ADAPTER"@);
    }
}

/// A written `SYSTEM`, `TEMPLATE` or `LICENSE` instruction is read as it
/// was written, where its text closes cleanly.
pub proof fn lemma_read_blocks(text: Seq<char>, rest: Seq<char>)
    requires
        closes_cleanly(text),
    ensures
        read_line(line("SYSTEM"@, block(text)) + rest) == Ok::<(InstructionView, nat), Seq<char>>(
            (InstructionView::System(text), line("SYSTEM"@, block(text)).len()),
        ),
        read_line(line("TEMPLATE"@, block(text)) + rest) == Ok::<(InstructionView, nat), Seq<char>>(
            (InstructionView::Template(text), line("TEMPLATE"@, block(text)).len()),
        ),
        read_line(line("LICENSE"@, block(text)) + rest) == Ok::<(InstructionView, nat), Seq<char>>(
            (InstructionView::License(text), line("LICENSE"@, block(text)).len()),
        ),
{
    reveal(read_line);
    lemma_keywords();
    {
        let s = line("TEMPLATE"@, block(text)) + rest;
        let read = s.take(line_len(s) as int);
        lemma_read_block("TEMPLATE"@, text, rest);
        if keyword_at(read, "FROM"@) {
            lemma_keyword_first(read, "FROM"@);
        }
        if keyword_at(read, "PARAMETER"@) {
            lemma_keyword_first(read, "PARAMETER"@);
        }
    }
    {
        let s = line("SYSTEM"@, block(text)) + rest;
        let read = s.take(line_len(s) as int);
        lemma_read_block("SYSTEM"@, text, rest);
        if keyword_at(read, "FROM"@) {
            lemma_keyword_first(read, "FROM"@);
        }
        if keyword_at(read, "PARAMETER"@) {
            lemma_keyword_first(read, "PARAMETER"@);
        }
        if keyword_at(read, "TEMPLATE"@) {
            lemma_keyword_first(read, "TEMPLATE"@);
        }
    }
    {
        let s = line("LICENSE"@, block(text)) + rest;
        let read = s.take(line_len(s) as int);
        lemma_read_block("LICENSE"@, text, rest);
        if keyword_at(read, "FROM"@) {
            lemma_keyword_first(read, "FROM"@);
        }
        if keyword_at(read, "PARAMETER"@) {
            lemma_keyword_first(read, "PARAMETER"@);
        }
        if keyword_at(read, "TEMPLATE"@) {
            lemma_keyword_first(read, "TEMPLATE"@);
        }
        if keyword_at(read, "SYSTEM"@) {
            lemma_keyword_first(read, "SYSTEM"@);
        }
    }
}

/// The parameters as instructions.
pub open spec fn parameter_instructions(parameters: Seq<ParameterView>) -> Seq<InstructionView> {
    parameters.map_values(|p: ParameterView| InstructionView::Parameter(p))
}

/// The messages as instructions.
pub open spec fn message_instructions(messages: Seq<MessageView>) -> Seq<InstructionView> {
    messages.map_values(|m: MessageView| InstructionView::Message(m))
}

/// One instruction where there is a value, none where there is none.
pub open spec fn one_or_none(instruction: Option<InstructionView>) -> Seq<InstructionView> {
    match instruction {
        Some(instruction) => seq![instruction],
        None => Seq::empty(),
    }
}

pub open spec fn adapter_instruction(file: Option<TensorFileView>) -> Option<InstructionView> {
    match file {
        Some(file) => Some(InstructionView::Adapter(file)),
        None => None,
    }
}

pub open spec fn system_instruction(text: Option<Seq<char>>) -> Option<InstructionView> {
    match text {
        Some(text) => Some(InstructionView::System(text)),
        None => None,
    }
}

pub open spec fn template_instruction(text: Option<Seq<char>>) -> Option<InstructionView> {
    match text {
        Some(text) => Some(InstructionView::Template(text)),
        None => None,
    }
}

pub open spec fn license_instruction(text: Option<Seq<char>>) -> Option<InstructionView> {
    match text {
        Some(text) => Some(InstructionView::License(text)),
        None => None,
    }
}

/// The instructions that the text of a Modelfile holds, in the order in
/// which they are written.
pub open spec fn instructions_of(m: ModelfileView) -> Seq<InstructionView> {
    seq![InstructionView::From(m.from)] + one_or_none(adapter_instruction(m.adapter))
        + one_or_none(system_instruction(m.system)) + one_or_none(template_instruction(m.template))
        + parameter_instructions(m.parameters) + message_instructions(m.messages) + one_or_none(
        license_instruction(m.license),
    )
}

/// What has been read is followed by what the rest of the text holds.
pub proof fn lemma_read_all_unit(
    unit: Seq<char>,
    rest: Seq<char>,
    first: InstructionView,
    then: Seq<InstructionView>,
)
    requires
        unit.len() > 0,
        read_line(unit + rest) == Ok::<(InstructionView, nat), Seq<char>>((first, unit.len())),
        read_all(rest) == Ok::<Seq<InstructionView>, Seq<char>>(then),
    ensures
        read_all(unit + rest) == Ok::<Seq<InstructionView>, Seq<char>>(prepend(first, then)),
{
    assert((unit + rest).skip(unit.len() as int) =~= rest);
}

/// An instruction that was written with an empty line after it is read as
/// that instruction alone.
pub proof fn lemma_read_all_spaced(
    unit: Seq<char>,
    rest: Seq<char>,
    first: InstructionView,
    then: Seq<InstructionView>,
)
    requires
        unit.len() > 0,
        !(first is Skip),
        read_line(unit + (seq!['\n'] + rest)) == Ok::<(InstructionView, nat), Seq<char>>(
            (first, unit.len()),
        ),
        read_all(rest) == Ok::<Seq<InstructionView>, Seq<char>>(then),
    ensures
        read_all(unit + seq!['\n'] + rest) == Ok::<Seq<InstructionView>, Seq<char>>(
            seq![first] + then,
        ),
{
    lemma_read_empty_line(rest);
    lemma_read_all_unit(seq!['\n'], rest, InstructionView::Skip, then);
    lemma_read_all_unit(unit, seq!['\n'] + rest, first, then);
    assert(unit + seq!['\n'] + rest =~= unit + (seq!['\n'] + rest));
}

/// The written adapter is read back.
pub proof fn lemma_read_all_adapter(
    file: Option<TensorFileView>,
    rest: Seq<char>,
    then: Seq<InstructionView>,
)
    requires
        file is Some ==> is_value(file->0.path()) && file->0 == TensorFileView::at(file->0.path()),
        read_all(rest) == Ok::<Seq<InstructionView>, Seq<char>>(then),
    ensures
        read_all(optional("ADAPTER"@, path_of(file)) + rest) == Ok::<
            Seq<InstructionView>,
            Seq<char>,
        >(one_or_none(adapter_instruction(file)) + then),
{
    match file {
        Some(file) => {
            let unit = line("ADAPTER"@, file.path());
            lemma_read_adapter(file, seq!['\n'] + rest);
            lemma_read_all_spaced(unit, rest, InstructionView::Adapter(file), then);
        },
        None => {
            assert(Seq::<char>::empty() + rest =~= rest);
            assert(Seq::<InstructionView>::empty() + then =~= then);
        },
    }
}

/// The written system message is read back.
pub proof fn lemma_read_all_system(
    text: Option<Seq<char>>,
    rest: Seq<char>,
    then: Seq<InstructionView>,
)
    requires
        text is Some ==> closes_cleanly(text->0),
        read_all(rest) == Ok::<Seq<InstructionView>, Seq<char>>(then),
    ensures
        read_all(optional("SYSTEM"@, block_of(text)) + rest) == Ok::<
            Seq<InstructionView>,
            Seq<char>,
        >(one_or_none(system_instruction(text)) + then),
{
    match text {
        Some(text) => {
            let unit = line("SYSTEM"@, block(text));
            lemma_read_blocks(text, seq!['\n'] + rest);
            lemma_read_all_spaced(unit, rest, InstructionView::System(text), then);
        },
        None => {
            assert(Seq::<char>::empty() + rest =~= rest);
            assert(Seq::<InstructionView>::empty() + then =~= then);
        },
    }
}

/// The written template is read back.
pub proof fn lemma_read_all_template(
    text: Option<Seq<char>>,
    rest: Seq<char>,
    then: Seq<InstructionView>,
)
    requires
        text is Some ==> closes_cleanly(text->0),
        read_all(rest) == Ok::<Seq<InstructionView>, Seq<char>>(then),
    ensures
        read_all(optional("TEMPLATE"@, block_of(text)) + rest) == Ok::<
            Seq<InstructionView>,
            Seq<char>,
        >(one_or_none(template_instruction(text)) + then),
{
    match text {
        Some(text) => {
            let unit = line("TEMPLATE"@, block(text));
            lemma_read_blocks(text, seq!['\n'] + rest);
            lemma_read_all_spaced(unit, rest, InstructionView::Template(text), then);
        },
        None => {
            assert(Seq::<char>::empty() + rest =~= rest);
            assert(Seq::<InstructionView>::empty() + then =~= then);
        },
    }
}

/// The written license is read back.
pub proof fn lemma_read_all_license(
    text: Option<Seq<char>>,
    rest: Seq<char>,
    then: Seq<InstructionView>,
)
    requires
        text is Some ==> closes_cleanly(text->0),
        read_all(rest) == Ok::<Seq<InstructionView>, Seq<char>>(then),
    ensures
        read_all(optional("LICENSE"@, block_of(text)) + rest) == Ok::<
            Seq<InstructionView>,
            Seq<char>,
        >(one_or_none(license_instruction(text)) + then),
{
    match text {
        Some(text) => {
            let unit = line("LICENSE"@, block(text));
            lemma_read_blocks(text, seq!['\n'] + rest);
            lemma_read_all_spaced(unit, rest, InstructionView::License(text), then);
        },
        None => {
            assert(Seq::<char>::empty() + rest =~= rest);
            assert(Seq::<InstructionView>::empty() + then =~= then);
        },
    }
}

/// Written parameter lines are read back, in order.
pub proof fn lemma_read_all_parameter_lines(
    parameters: Seq<ParameterView>,
    rest: Seq<char>,
    then: Seq<InstructionView>,
)
    requires
        forall|i: int| 0 <= i < parameters.len() ==> parameter_fits(parameters[i]),
        read_all(rest) == Ok::<Seq<InstructionView>, Seq<char>>(then),
    ensures
        read_all(lines("PARAMETER"@, parameter_texts(parameters)) + rest) == Ok::<
            Seq<InstructionView>,
            Seq<char>,
        >(parameter_instructions(parameters) + then),
    decreases parameters.len(),
{
    let texts = parameter_texts(parameters);
    if parameters.len() == 0 {
        assert(lines("PARAMETER"@, texts) + rest =~= rest);
        assert(parameter_instructions(parameters) + then =~= then);
    } else {
        let first = parameters[0];
        let others = parameters.drop_first();
        let unit = line("PARAMETER"@, first.text());
        let tail = lines("PARAMETER"@, parameter_texts(others)) + rest;
        assert(texts.drop_first() =~= parameter_texts(others));
        assert(texts[0] == first.text());
        assert(lines("PARAMETER"@, texts) + rest =~= unit + tail);
        assert forall|i: int| 0 <= i < others.len() implies parameter_fits(others[i]) by {
            assert(others[i] == parameters[i + 1]);
        }
        lemma_read_all_parameter_lines(others, rest, then);
        lemma_read_parameter(first, tail);
        lemma_read_all_unit(
            unit,
            tail,
            InstructionView::Parameter(first),
            parameter_instructions(others) + then,
        );
        assert(seq![InstructionView::Parameter(first)] + (parameter_instructions(others) + then)
            =~= parameter_instructions(parameters) + then);
    }
}

/// Written message lines are read back, in order.
pub proof fn lemma_read_all_message_lines(
    messages: Seq<MessageView>,
    rest: Seq<char>,
    then: Seq<InstructionView>,
)
    requires
        forall|i: int| 0 <= i < messages.len() ==> fits_line(messages[i].content),
        read_all(rest) == Ok::<Seq<InstructionView>, Seq<char>>(then),
    ensures
        read_all(lines("MESSAGE"@, message_texts(messages)) + rest) == Ok::<
            Seq<InstructionView>,
            Seq<char>,
        >(message_instructions(messages) + then),
    decreases messages.len(),
{
    let texts = message_texts(messages);
    if messages.len() == 0 {
        assert(lines("MESSAGE"@, texts) + rest =~= rest);
        assert(message_instructions(messages) + then =~= then);
    } else {
        let first = messages[0];
        let others = messages.drop_first();
        let unit = line("MESSAGE"@, first.text());
        let tail = lines("MESSAGE"@, message_texts(others)) + rest;
        assert(texts.drop_first() =~= message_texts(others));
        assert(texts[0] == first.text());
        assert(lines("MESSAGE"@, texts) + rest =~= unit + tail);
        assert forall|i: int| 0 <= i < others.len() implies fits_line(others[i].content) by {
            assert(others[i] == messages[i + 1]);
        }
        lemma_read_all_message_lines(others, rest, then);
        lemma_read_message(first, tail);
        lemma_read_all_unit(
            unit,
            tail,
            InstructionView::Message(first),
            message_instructions(others) + then,
        );
        assert(seq![InstructionView::Message(first)] + (message_instructions(others) + then)
            =~= message_instructions(messages) + then);
    }
}

/// The written group of parameters is read back.
pub proof fn lemma_read_all_parameters(
    parameters: Seq<ParameterView>,
    rest: Seq<char>,
    then: Seq<InstructionView>,
)
    requires
        forall|i: int| 0 <= i < parameters.len() ==> parameter_fits(parameters[i]),
        read_all(rest) == Ok::<Seq<InstructionView>, Seq<char>>(then),
    ensures
        read_all(group("PARAMETER"@, parameter_texts(parameters)) + rest) == Ok::<
            Seq<InstructionView>,
            Seq<char>,
        >(parameter_instructions(parameters) + then),
{
    let texts = parameter_texts(parameters);
    if parameters.len() == 0 {
        assert(group("PARAMETER"@, texts) + rest =~= rest);
        assert(parameter_instructions(parameters) + then =~= then);
    } else {
        lemma_read_empty_line(rest);
        lemma_read_all_unit(seq!['\n'], rest, InstructionView::Skip, then);
        lemma_read_all_parameter_lines(parameters, seq!['\n'] + rest, then);
        assert(group("PARAMETER"@, texts) + rest =~= lines("PARAMETER"@, texts) + (seq!['\n']
            + rest));
    }
}

/// The written group of messages is read back.
pub proof fn lemma_read_all_messages(
    messages: Seq<MessageView>,
    rest: Seq<char>,
    then: Seq<InstructionView>,
)
    requires
        forall|i: int| 0 <= i < messages.len() ==> fits_line(messages[i].content),
        read_all(rest) == Ok::<Seq<InstructionView>, Seq<char>>(then),
    ensures
        read_all(group("MESSAGE"@, message_texts(messages)) + rest) == Ok::<
            Seq<InstructionView>,
            Seq<char>,
        >(message_instructions(messages) + then),
{
    let texts = message_texts(messages);
    if messages.len() == 0 {
        assert(group("MESSAGE"@, texts) + rest =~= rest);
        assert(message_instructions(messages) + then =~= then);
    } else {
        lemma_read_empty_line(rest);
        lemma_read_all_unit(seq!['\n'], rest, InstructionView::Skip, then);
        lemma_read_all_message_lines(messages, seq!['\n'] + rest, then);
        assert(group("MESSAGE"@, texts) + rest =~= lines("MESSAGE"@, texts) + (seq!['\n'] + rest));
    }
}

/// What holds of every Modelfile that was read from text: each value that
/// stands on one line fits its line, each parameter holds a value of its own
/// kind, and the adapter is of the kind that its path tells.
pub open spec fn well_formed(m: ModelfileView) -> bool {
    &&& is_value(m.from)
    &&& m.adapter is Some ==> is_value(m.adapter->0.path()) && m.adapter->0 == TensorFileView::at(
        m.adapter->0.path(),
    )
    &&& forall|i: int| 0 <= i < m.parameters.len() ==> parameter_fits(#[trigger] m.parameters[i])
    &&& forall|i: int| 0 <= i < m.messages.len() ==> fits_line((#[trigger] m.messages[i]).content)
}

/// Whether the system message, the template and the license, as far as they
/// are there, can stand between triple quotes.
pub open spec fn blocks_close_cleanly(m: ModelfileView) -> bool {
    &&& m.system is Some ==> closes_cleanly(m.system->0)
    &&& m.template is Some ==> closes_cleanly(m.template->0)
    &&& m.license is Some ==> closes_cleanly(m.license->0)
}

/// What follows the license in the text of a Modelfile, and before it what
/// follows the messages, and so on: the text from the adapter on.
pub open spec fn rendered_after_from(m: ModelfileView) -> Seq<char> {
    optional("ADAPTER"@, path_of(m.adapter)) + (optional("SYSTEM"@, block_of(m.system)) + (
    optional("TEMPLATE"@, block_of(m.template)) + (group(
        "PARAMETER"@,
        parameter_texts(m.parameters),
    ) + (group("MESSAGE"@, message_texts(m.messages)) + (optional(
        "LICENSE"@,
        block_of(m.license),
    ) + Seq::<char>::empty())))))
}

/// The instructions from the adapter on.
pub open spec fn instructions_after_from(m: ModelfileView) -> Seq<InstructionView> {
    one_or_none(adapter_instruction(m.adapter)) + (one_or_none(system_instruction(m.system)) + (
    one_or_none(template_instruction(m.template)) + (parameter_instructions(m.parameters) + (
    message_instructions(m.messages) + (one_or_none(license_instruction(m.license))
        + Seq::<InstructionView>::empty())))))
}

/// Joining is associative.
proof fn lemma_join<T>(a: Seq<T>, b: Seq<T>, c: Seq<T>)
    ensures
        (a + b) + c == a + (b + c),
{
    assert((a + b) + c =~= a + (b + c));
}

/// The text of a Modelfile, part by part from the left.
proof fn lemma_rendered_parts(m: ModelfileView)
    ensures
        rendered(m) == header() + (line("FROM"@, m.from) + seq!['\n'] + rendered_after_from(m)),
{
    let h = header();
    let f = line("FROM"@, m.from) + seq!['\n'];
    let a = optional("ADAPTER"@, path_of(m.adapter));
    let s = optional("SYSTEM"@, block_of(m.system));
    let t = optional("TEMPLATE"@, block_of(m.template));
    let p = group("PARAMETER"@, parameter_texts(m.parameters));
    let g = group("MESSAGE"@, message_texts(m.messages));
    let c = optional("LICENSE"@, block_of(m.license));
    let none = Seq::<char>::empty();
    assert(c + none =~= c);
    lemma_join(f + a + s + t + p, g, c);
    lemma_join(f + a + s + t, p, g + c);
    lemma_join(f + a + s, t, p + (g + c));
    lemma_join(f + a, s, t + (p + (g + c)));
    lemma_join(f, a, s + (t + (p + (g + c))));
    let rest = a + (s + (t + (p + (g + c))));
    assert(f + a + s + t + p + g + c == f + rest);
    lemma_join(h, line("FROM"@, m.from), seq!['\n']);
    lemma_join(h, f, a);
    lemma_join(h, f + a, s);
    lemma_join(h, f + a + s, t);
    lemma_join(h, f + a + s + t, p);
    lemma_join(h, f + a + s + t + p, g);
    lemma_join(h, f + a + s + t + p + g, c);
}

/// The instructions of a Modelfile, part by part from the left.
proof fn lemma_instruction_parts(m: ModelfileView)
    ensures
        instructions_of(m) == seq![InstructionView::From(m.from)] + instructions_after_from(m),
{
    let f = seq![InstructionView::From(m.from)];
    let a = one_or_none(adapter_instruction(m.adapter));
    let s = one_or_none(system_instruction(m.system));
    let t = one_or_none(template_instruction(m.template));
    let p = parameter_instructions(m.parameters);
    let g = message_instructions(m.messages);
    let c = one_or_none(license_instruction(m.license));
    let none = Seq::<InstructionView>::empty();
    assert(c + none =~= c);
    lemma_join(f + a + s + t + p, g, c);
    lemma_join(f + a + s + t, p, g + c);
    lemma_join(f + a + s, t, p + (g + c));
    lemma_join(f + a, s, t + (p + (g + c)));
    lemma_join(f, a, s + (t + (p + (g + c))));
}

/// What is written after the base model is read back.
proof fn lemma_read_after_from(m: ModelfileView)
    requires
        well_formed(m),
        blocks_close_cleanly(m),
    ensures
        read_all(rendered_after_from(m)) == Ok::<Seq<InstructionView>, Seq<char>>(
            instructions_after_from(m),
        ),
{
    let none = Seq::<InstructionView>::empty();
    let t7 = Seq::<char>::empty();
    let t6 = optional("LICENSE"@, block_of(m.license)) + t7;
    let i6 = one_or_none(license_instruction(m.license)) + none;
    lemma_read_all_license(m.license, t7, none);
    let t5 = group("MESSAGE"@, message_texts(m.messages)) + t6;
    let i5 = message_instructions(m.messages) + i6;
    lemma_read_all_messages(m.messages, t6, i6);
    let t4 = group("PARAMETER"@, parameter_texts(m.parameters)) + t5;
    let i4 = parameter_instructions(m.parameters) + i5;
    lemma_read_all_parameters(m.parameters, t5, i5);
    let t3 = optional("TEMPLATE"@, block_of(m.template)) + t4;
    let i3 = one_or_none(template_instruction(m.template)) + i4;
    lemma_read_all_template(m.template, t4, i4);
    let t2 = optional("SYSTEM"@, block_of(m.system)) + t3;
    let i2 = one_or_none(system_instruction(m.system)) + i3;
    lemma_read_all_system(m.system, t3, i3);
    lemma_read_all_adapter(m.adapter, t2, i2);
}

/// The text of a Modelfile holds its instructions, in the order in which
/// they are written.
pub proof fn lemma_read_rendered(m: ModelfileView)
    requires
        well_formed(m),
        blocks_close_cleanly(m),
    ensures
        read_all(rendered(m)) == Ok::<Seq<InstructionView>, Seq<char>>(instructions_of(m)),
{
    let t1 = rendered_after_from(m);
    let i1 = instructions_after_from(m);
    lemma_read_after_from(m);
    let unit = line("FROM"@, m.from);
    let t0 = unit + seq!['\n'] + t1;
    let i0 = seq![InstructionView::From(m.from)] + i1;
    lemma_read_from(m.from, seq!['\n'] + t1);
    lemma_read_all_spaced(unit, t1, InstructionView::From(m.from), i1);
    lemma_read_header(t0);
    lemma_read_all_unit(header(), t0, InstructionView::Skip, i0);
    lemma_rendered_parts(m);
    lemma_instruction_parts(m);
}

/// Instructions given in two parts are given one part after the other.
pub proof fn lemma_fold_concat(
    b: BuilderView,
    first: Seq<InstructionView>,
    second: Seq<InstructionView>,
)
    ensures
        b.fold(first + second) == match b.fold(first) {
            Ok(next) => next.fold(second),
            Err(error) => Err(error),
        },
    decreases first.len(),
{
    if first.len() == 0 {
        assert(first + second =~= second);
    } else {
        let all = first + second;
        assert(all[0] == first[0]);
        assert(all.drop_first() =~= first.drop_first() + second);
        match b.apply(first[0]) {
            Ok(next) => {
                lemma_fold_concat(next, first.drop_first(), second);
            },
            Err(_) => {},
        }
    }
}

/// One instruction, given alone.
pub proof fn lemma_fold_one(b: BuilderView, instruction: InstructionView)
    ensures
        b.fold(seq![instruction]) == b.apply(instruction),
{
    let one = seq![instruction];
    assert(one.drop_first() =~= Seq::<InstructionView>::empty());
    match b.apply(instruction) {
        Ok(next) => {
            assert(next.fold(one.drop_first()) == Ok::<BuilderView, ErrorView>(next));
        },
        Err(_) => {},
    }
}

/// Parameters never fail, and add up in order.
pub proof fn lemma_fold_parameters(b: BuilderView, parameters: Seq<ParameterView>)
    ensures
        b.fold(parameter_instructions(parameters)) == Ok::<BuilderView, ErrorView>(
            BuilderView { parameters: b.parameters + parameters, ..b },
        ),
    decreases parameters.len(),
{
    let list = parameter_instructions(parameters);
    if parameters.len() == 0 {
        assert(b.parameters + parameters =~= b.parameters);
    } else {
        let next = b.with_parameter(parameters[0]);
        assert(list.drop_first() =~= parameter_instructions(parameters.drop_first()));
        lemma_fold_parameters(next, parameters.drop_first());
        assert(next.parameters + parameters.drop_first() =~= b.parameters + parameters);
    }
}

/// Messages never fail, and add up in order.
pub proof fn lemma_fold_messages(b: BuilderView, messages: Seq<MessageView>)
    ensures
        b.fold(message_instructions(messages)) == Ok::<BuilderView, ErrorView>(
            BuilderView { messages: b.messages + messages, ..b },
        ),
    decreases messages.len(),
{
    let list = message_instructions(messages);
    if messages.len() == 0 {
        assert(b.messages + messages =~= b.messages);
    } else {
        let next = b.with_message(messages[0]);
        assert(list.drop_first() =~= message_instructions(messages.drop_first()));
        lemma_fold_messages(next, messages.drop_first());
        assert(next.messages + messages.drop_first() =~= b.messages + messages);
    }
}

/// The instructions that the text of a Modelfile holds build that
/// Modelfile.
pub proof fn lemma_fold_written(m: ModelfileView)
    ensures
        BuilderView::empty().fold(instructions_of(m)) == Ok::<BuilderView, ErrorView>(m.builder()),
{
    let b0 = BuilderView::empty();
    let l1 = seq![InstructionView::From(m.from)];
    let b1 = BuilderView { from: Some(m.from), ..b0 };
    lemma_fold_one(b0, InstructionView::From(m.from));
    let a = one_or_none(adapter_instruction(m.adapter));
    let l2 = l1 + a;
    let b2 = BuilderView { adapter: m.adapter, ..b1 };
    lemma_fold_concat(b0, l1, a);
    match m.adapter {
        Some(file) => lemma_fold_one(b1, InstructionView::Adapter(file)),
        None => {},
    }
    assert(b0.fold(l2) == Ok::<BuilderView, ErrorView>(b2));
    let sy = one_or_none(system_instruction(m.system));
    let l3 = l2 + sy;
    let b3 = BuilderView { system: m.system, ..b2 };
    lemma_fold_concat(b0, l2, sy);
    match m.system {
        Some(text) => lemma_fold_one(b2, InstructionView::System(text)),
        None => {},
    }
    assert(b0.fold(l3) == Ok::<BuilderView, ErrorView>(b3));
    let t = one_or_none(template_instruction(m.template));
    let l4 = l3 + t;
    let b4 = BuilderView { template: m.template, ..b3 };
    lemma_fold_concat(b0, l3, t);
    match m.template {
        Some(text) => lemma_fold_one(b3, InstructionView::Template(text)),
        None => {},
    }
    assert(b0.fold(l4) == Ok::<BuilderView, ErrorView>(b4));
    let p = parameter_instructions(m.parameters);
    let l5 = l4 + p;
    let b5 = BuilderView { parameters: m.parameters, ..b4 };
    lemma_fold_concat(b0, l4, p);
    lemma_fold_parameters(b4, m.parameters);
    assert(b4.parameters + m.parameters =~= m.parameters);
    assert(b0.fold(l5) == Ok::<BuilderView, ErrorView>(b5));
    let g = message_instructions(m.messages);
    let l6 = l5 + g;
    let b6 = BuilderView { messages: m.messages, ..b5 };
    lemma_fold_concat(b0, l5, g);
    lemma_fold_messages(b5, m.messages);
    assert(b5.messages + m.messages =~= m.messages);
    assert(b0.fold(l6) == Ok::<BuilderView, ErrorView>(b6));
    let c = one_or_none(license_instruction(m.license));
    let b7 = BuilderView { license: m.license, ..b6 };
    lemma_fold_concat(b0, l6, c);
    match m.license {
        Some(text) => lemma_fold_one(b6, InstructionView::License(text)),
        None => {},
    }
    assert(b7 == m.builder());
}

/// Writing a Modelfile and reading what was written gives the Modelfile
/// back, field for field: the parameters and the messages in their order,
/// with their repetitions.
///
/// This holds of a Modelfile whose values fit their lines, as those of every
/// Modelfile that was read from text do, and whose system message, template
/// and license can stand between triple quotes: a text that holds triple
/// quotes, or ends with a quote, is written as it is and not read back.
pub proof fn lemma_round_trip(m: ModelfileView)
    requires
        well_formed(m),
        blocks_close_cleanly(m),
    ensures
        parsed(rendered(m)) == Ok::<ModelfileView, ErrorView>(m),
{
    lemma_read_rendered(m);
    lemma_fold_written(m);
}

/// A text fails to be read with a `Parse` error where one of its lines is
/// at fault, and with no other error.
pub proof fn lemma_parse_errors(s: Seq<char>)
    ensures
        read_all(s) is Err ==> parsed(s) == Err::<ModelfileView, ErrorView>(
            ErrorView::Parse(read_all(s)->Err_0),
        ),
        read_all(s) is Ok ==> !(parsed(s) is Err && parsed(s)->Err_0 is Parse),
{
    if read_all(s) is Ok {
        lemma_fold_errors(BuilderView::empty(), read_all(s)->Ok_0);
    }
}

/// Giving instructions to a builder fails with a `Builder` error, if it
/// fails.
pub proof fn lemma_fold_errors(b: BuilderView, list: Seq<InstructionView>)
    ensures
        b.fold(list) is Err ==> b.fold(list)->Err_0 is Builder,
    decreases list.len(),
{
    if list.len() > 0 {
        match b.apply(list[0]) {
            Ok(next) => lemma_fold_errors(next, list.drop_first()),
            Err(_) => {},
        }
    }
}

/// Without a `FROM` instruction no base model is given.
pub proof fn lemma_fold_without_from(b: BuilderView, list: Seq<InstructionView>)
    requires
        b.from is None,
        forall|k: int| 0 <= k < list.len() ==> !(list[k] is From),
    ensures
        b.fold(list) is Ok ==> b.fold(list)->Ok_0.from is None,
    decreases list.len(),
{
    if list.len() > 0 {
        let rest = list.drop_first();
        assert(!(list[0] is From));
        assert forall|k: int| 0 <= k < rest.len() implies !(rest[k] is From) by {
            assert(rest[k] == list[k + 1]);
        }
        match b.apply(list[0]) {
            Ok(next) => lemma_fold_without_from(next, rest),
            Err(_) => {},
        }
    }
}

/// A text that can be read and holds no `FROM` instruction is no Modelfile:
/// it fails with a `Builder` error.
pub proof fn lemma_from_is_required(s: Seq<char>)
    requires
        read_all(s) is Ok,
        forall|k: int| 0 <= k < read_all(s)->Ok_0.len() ==> !(read_all(s)->Ok_0[k] is From),
    ensures
        parsed(s) is Err,
        parsed(s)->Err_0 is Builder,
{
    let list = read_all(s)->Ok_0;
    lemma_fold_without_from(BuilderView::empty(), list);
    lemma_fold_errors(BuilderView::empty(), list);
}

/// A text that holds one `FROM` instruction and nothing else is the
/// Modelfile with that base model and nothing else.
pub proof fn lemma_from_alone(s: Seq<char>, model: Seq<char>)
    requires
        read_all(s) == Ok::<Seq<InstructionView>, Seq<char>>(seq![InstructionView::From(model)]),
    ensures
        parsed(s) == Ok::<ModelfileView, ErrorView>(
            ModelfileView {
                from: model,
                parameters: Seq::empty(),
                template: None,
                system: None,
                adapter: None,
                license: None,
                messages: Seq::empty(),
            },
        ),
{
    lemma_fold_one(BuilderView::empty(), InstructionView::From(model));
}

/// Whether both instructions set the same thing, of the things that may be
/// set once: the base model, the template, the system message, the
/// adapter.
pub open spec fn set_the_same_once(a: InstructionView, b: InstructionView) -> bool {
    ||| a is From && b is From
    ||| a is Template && b is Template
    ||| a is System && b is System
    ||| a is Adapter && b is Adapter
}

/// Whether the builder has been given what `instruction` sets, where that
/// may be set once.
pub open spec fn has_been_set(b: BuilderView, instruction: InstructionView) -> bool {
    ||| instruction is From && b.from is Some
    ||| instruction is Template && b.template is Some
    ||| instruction is System && b.system is Some
    ||| instruction is Adapter && b.adapter is Some
}

/// What has been given stays given.
pub proof fn lemma_apply_keeps(b: BuilderView, first: InstructionView, later: InstructionView)
    requires
        has_been_set(b, later) || set_the_same_once(first, later),
    ensures
        b.apply(first) is Ok ==> has_been_set(b.apply(first)->Ok_0, later),
{
}

/// Giving again what has been given fails.
pub proof fn lemma_fold_set_again(b: BuilderView, list: Seq<InstructionView>, j: int)
    requires
        0 <= j < list.len(),
        has_been_set(b, list[j]),
    ensures
        b.fold(list) is Err,
    decreases list.len(),
{
    if j > 0 {
        let rest = list.drop_first();
        assert(rest[j - 1] == list[j]);
        match b.apply(list[0]) {
            Ok(next) => {
                lemma_apply_keeps(b, list[0], list[j]);
                lemma_fold_set_again(next, rest, j - 1);
            },
            Err(_) => {},
        }
    }
}

/// Instructions among which one that may be given once is given twice fail,
/// whatever else they hold.
pub proof fn lemma_fold_twice(b: BuilderView, list: Seq<InstructionView>, i: int, j: int)
    requires
        0 <= i < j < list.len(),
        set_the_same_once(list[i], list[j]),
    ensures
        b.fold(list) is Err,
        b.fold(list)->Err_0 is Builder,
    decreases list.len(),
{
    let rest = list.drop_first();
    assert(rest[j - 1] == list[j]);
    match b.apply(list[0]) {
        Ok(next) => {
            if i == 0 {
                lemma_apply_keeps(b, list[0], list[j]);
                lemma_fold_set_again(next, rest, j - 1);
            } else {
                assert(rest[i - 1] == list[i]);
                lemma_fold_twice(next, rest, i - 1, j - 1);
            }
        },
        Err(_) => {},
    }
    lemma_fold_errors(b, list);
}

/// A text with two `FROM` instructions, or two `TEMPLATE`, two `SYSTEM` or
/// two `ADAPTER` instructions, is no Modelfile.
pub proof fn lemma_once_only(s: Seq<char>, i: int, j: int)
    requires
        read_all(s) is Ok,
        0 <= i < j < read_all(s)->Ok_0.len(),
        set_the_same_once(read_all(s)->Ok_0[i], read_all(s)->Ok_0[j]),
    ensures
        parsed(s) is Err,
        parsed(s)->Err_0 is Builder,
{
    lemma_fold_twice(BuilderView::empty(), read_all(s)->Ok_0, i, j);
}

/// The license texts among the instructions, in order.
pub open spec fn license_texts(list: Seq<InstructionView>) -> Seq<Seq<char>>
    decreases list.len(),
{
    if list.len() == 0 {
        Seq::empty()
    } else {
        match list[0] {
            InstructionView::License(text) => seq![text] + license_texts(list.drop_first()),
            _ => license_texts(list.drop_first()),
        }
    }
}

/// The texts, each after the one before it and a line feed, after what is
/// there.
pub open spec fn joined(existing: Option<Seq<char>>, texts: Seq<Seq<char>>) -> Option<Seq<char>>
    decreases texts.len(),
{
    if texts.len() == 0 {
        existing
    } else {
        joined(
            match existing {
                Some(existing) => Some(existing + seq!['\n'] + texts[0]),
                None => Some(texts[0]),
            },
            texts.drop_first(),
        )
    }
}

/// The license that has been built is made of all the license texts that
/// were given, in order, with a line feed between one and the next.
pub proof fn lemma_fold_licenses(b: BuilderView, list: Seq<InstructionView>)
    ensures
        b.fold(list) is Ok ==> b.fold(list)->Ok_0.license == joined(b.license, license_texts(list)),
    decreases list.len(),
{
    if list.len() > 0 {
        let rest = list.drop_first();
        match b.apply(list[0]) {
            Ok(next) => {
                lemma_fold_licenses(next, rest);
                match list[0] {
                    InstructionView::License(text) => {
                        let texts = license_texts(list);
                        assert(texts[0] == text);
                        assert(texts.drop_first() =~= license_texts(rest));
                    },
                    _ => {},
                }
            },
            Err(_) => {},
        }
    }
}

/// The license of a Modelfile that was read from text is made of all the
/// license texts of the text. Of two, it is the first, a line feed, and the
/// second.
pub proof fn lemma_licenses_add_up(s: Seq<char>)
    requires
        parsed(s) is Ok,
    ensures
        parsed(s)->Ok_0.license == joined(None, license_texts(read_all(s)->Ok_0)),
        forall|first: Seq<char>, second: Seq<char>|
            license_texts(read_all(s)->Ok_0) == seq![first, second] ==> parsed(s)->Ok_0.license
                == Some(first + seq!['\n'] + second),
{
    let list = read_all(s)->Ok_0;
    lemma_fold_licenses(BuilderView::empty(), list);
    assert forall|first: Seq<char>, second: Seq<char>|
        license_texts(list) == seq![first, second] implies parsed(s)->Ok_0.license == Some(
        first + seq!['\n'] + second,
    ) by {
        lemma_joined_two(first, second);
    }
}

/// Two texts are joined by a line feed.
pub proof fn lemma_joined_two(first: Seq<char>, second: Seq<char>)
    ensures
        joined(None, seq![first, second]) == Some(first + seq!['\n'] + second),
{
    let texts = seq![first, second];
    let rest = texts.drop_first();
    assert(rest =~= seq![second]);
    assert(rest.drop_first() =~= Seq::<Seq<char>>::empty());
    assert(joined(Some(first + seq!['\n'] + second), rest.drop_first()) == Some(
        first + seq!['\n'] + second,
    ));
    assert(joined(Some(first), rest) == Some(first + seq!['\n'] + second));
}

/// Whether a line starts at index `i` of the text `s`: the text is read
/// without fault up to `i`, and an instruction ends there.
pub open spec fn line_starts_at(s: Seq<char>, i: int) -> bool
    decreases s.len(),
{
    if i == 0 {
        true
    } else if s.len() == 0 {
        false
    } else {
        match read_line(s) {
            Ok((_, n)) => 0 < n <= i && n <= s.len() && line_starts_at(s.skip(n as int), i - n),
            Err(_) => false,
        }
    }
}

/// The first line at fault fails the whole text, with the description of
/// that line's fault: nothing is passed over.
pub proof fn lemma_fault_fails(s: Seq<char>, i: int)
    requires
        0 <= i < s.len(),
        line_starts_at(s, i),
        read_line(s.skip(i)) is Err,
    ensures
        read_all(s) == Err::<Seq<InstructionView>, Seq<char>>(read_line(s.skip(i))->Err_0),
        parsed(s) == Err::<ModelfileView, ErrorView>(
            ErrorView::Parse(read_line(s.skip(i))->Err_0),
        ),
    decreases s.len(),
{
    if i == 0 {
        assert(s.skip(0) =~= s);
    } else {
        match read_line(s) {
            Ok((_, n)) => {
                assert(s.skip(n as int).skip(i - n) =~= s.skip(i));
                lemma_fault_fails(s.skip(n as int), i - n);
            },
            Err(_) => {},
        }
    }
}

/// A `PARAMETER` line whose name names no parameter is at fault.
pub proof fn lemma_unknown_parameter(s: Seq<char>)
    requires
        keyword_at(s.take(line_len(s) as int), "PARAMETER"@),
        argument(s.take(line_len(s) as int), "PARAMETER"@).len() > 0,
        ParameterName::named(
            argument(s.take(line_len(s) as int), "PARAMETER"@).take(
                word_len(argument(s.take(line_len(s) as int), "PARAMETER"@)) as int,
            ),
        ) is None,
    ensures
        read_line(s) == Err::<(InstructionView, nat), Seq<char>>(
            fault(
                FaultKind::UnknownParameter,
                argument(s.take(line_len(s) as int), "PARAMETER"@).take(
                    word_len(argument(s.take(line_len(s) as int), "PARAMETER"@)) as int,
                ),
            ),
        ),
{
    reveal(read_line);
    let read = s.take(line_len(s) as int);
    lemma_keywords();
    lemma_keyword_first(read, "PARAMETER"@);
    lemma_blank_prefix(read, 0);
    assert(read.skip(0) =~= read);
    if keyword_at(read, "FROM"@) {
        lemma_keyword_first(read, "FROM"@);
    }
}

/// A `MESSAGE` line whose role is none of the roles is at fault.
pub proof fn lemma_unknown_role(s: Seq<char>)
    requires
        keyword_at(s.take(line_len(s) as int), "MESSAGE"@),
        prefix_before(argument(s.take(line_len(s) as int), "MESSAGE"@), ':') < argument(
            s.take(line_len(s) as int),
            "MESSAGE"@,
        ).len(),
        MessageRole::named(
            argument(s.take(line_len(s) as int), "MESSAGE"@).take(
                prefix_before(argument(s.take(line_len(s) as int), "MESSAGE"@), ':') as int,
            ),
        ) is None,
    ensures
        read_line(s) == Err::<(InstructionView, nat), Seq<char>>(
            fault(
                FaultKind::UnknownRole,
                argument(s.take(line_len(s) as int), "MESSAGE"@).take(
                    prefix_before(argument(s.take(line_len(s) as int), "MESSAGE"@), ':') as int,
                ),
            ),
        ),
{
    reveal(read_line);
    let read = s.take(line_len(s) as int);
    lemma_keywords();
    lemma_keyword_first(read, "MESSAGE"@);
    lemma_blank_prefix(read, 0);
    assert(read.skip(0) =~= read);
    if keyword_at(read, "FROM"@) {
        lemma_keyword_first(read, "FROM"@);
    }
    if keyword_at(read, "PARAMETER"@) {
        lemma_keyword_first(read, "PARAMETER"@);
    }
    if keyword_at(read, "TEMPLATE"@) {
        lemma_keyword_first(read, "TEMPLATE"@);
    }
    if keyword_at(read, "SYSTEM"@) {
        lemma_keyword_first(read, "SYSTEM"@);
    }
    if keyword_at(read, "LICENSE"@) {
        lemma_keyword_first(read, "LICENSE"@);
    }
    if keyword_at(read, "ADAPTER"@) {
        lemma_keyword_first(read, "ADAPTER"@);
    }
}

/// What is left of a line without the blanks at its ends fits a line.
pub proof fn lemma_trim_fits(text: Seq<char>)
    requires
        forall|i: int| 0 <= i < text.len() ==> text[i] != '\n',
    ensures
        fits_line(trim(text)),
{
    let k = blank_prefix_len(text) as int;
    lemma_blank_prefix_bounds(text);
    let started = text.skip(k);
    lemma_trim_end_bounds(started);
    let trimmed = trim_end(started);
    assert forall|i: int| 0 <= i < trimmed.len() implies trimmed[i] != '\n' by {
        assert(trimmed[i] == started[i]);
        assert(started[i] == text[i + k]);
    }
    if trimmed.len() > 0 {
        assert(trimmed[0] == started[0]);
        assert(started[0] == text[k]);
    }
}

/// What is left of text that fits a line without the blanks at its start
/// fits a line.
pub proof fn lemma_trim_start_fits(text: Seq<char>, from: int)
    requires
        fits_line(text),
        0 <= from <= text.len(),
    ensures
        fits_line(trim_start(text.skip(from))),
{
    let tail = text.skip(from);
    let k = blank_prefix_len(tail) as int;
    lemma_blank_prefix_bounds(tail);
    let started = tail.skip(k);
    assert forall|i: int| 0 <= i < started.len() implies started[i] != '\n' by {
        assert(started[i] == text[i + k + from]);
    }
    if started.len() > 0 {
        assert(started[0] == tail[k]);
        assert(started.last() == text.last());
    }
}

/// An instruction whose values fit their lines.
pub open spec fn instruction_fits(instruction: InstructionView) -> bool {
    match instruction {
        InstructionView::From(model) => is_value(model),
        InstructionView::Adapter(file) => is_value(file.path()) && file == TensorFileView::at(
            file.path(),
        ),
        InstructionView::Parameter(p) => parameter_fits(p),
        InstructionView::Message(m) => fits_line(m.content),
        _ => true,
    }
}

/// The values of an instruction that was read from a line fit their lines.
pub proof fn lemma_read_line_fits(s: Seq<char>)
    requires
        read_line(s) is Ok,
    ensures
        instruction_fits(read_line(s)->Ok_0.0),
{
    reveal(read_line);
    let read = s.take(line_len(s) as int);
    lemma_line_len_bounds(s);
    assert forall|i: int| 0 <= i < read.len() implies read[i] != '\n' by {
        assert(read[i] == s[i]);
    }
    match read_line(s)->Ok_0.0 {
        InstructionView::From(_) => {
            lemma_argument_fits(read, "FROM"@);
        },
        InstructionView::Adapter(_) => {
            lemma_argument_fits(read, "ADAPTER"@);
        },
        InstructionView::Parameter(p) => {
            let arg = argument(read, "PARAMETER"@);
            lemma_argument_fits(read, "PARAMETER"@);
            lemma_word_len_bounds(arg);
            lemma_trim_start_fits(arg, word_len(arg) as int);
        },
        InstructionView::Message(m) => {
            let arg = argument(read, "MESSAGE"@);
            lemma_argument_fits(read, "MESSAGE"@);
            lemma_prefix_before_bounds(arg, ':');
            lemma_trim_start_fits(arg, prefix_before(arg, ':') as int + 1);
        },
        _ => {},
    }
}

/// What stands on a line after a keyword fits a line.
pub proof fn lemma_argument_fits(read: Seq<char>, keyword: Seq<char>)
    requires
        forall|i: int| 0 <= i < read.len() ==> read[i] != '\n',
        keyword.len() <= read.len(),
    ensures
        fits_line(argument(read, keyword)),
{
    let tail = read.skip(keyword.len() as int);
    assert forall|i: int| 0 <= i < tail.len() implies tail[i] != '\n' by {
        assert(tail[i] == read[i + keyword.len()]);
    }
    lemma_trim_fits(tail);
}

/// The values of the instructions that were read from a text fit their
/// lines.
pub proof fn lemma_read_all_fits(s: Seq<char>)
    requires
        read_all(s) is Ok,
    ensures
        forall|k: int|
            0 <= k < read_all(s)->Ok_0.len() ==> instruction_fits(#[trigger] read_all(s)->Ok_0[k]),
    decreases s.len(),
{
    if s.len() > 0 {
        let first = read_line(s)->Ok_0.0;
        let n = read_line(s)->Ok_0.1;
        if 0 < n <= s.len() {
            let rest = read_all(s.skip(n as int))->Ok_0;
            lemma_read_line_fits(s);
            lemma_read_all_fits(s.skip(n as int));
            let list = read_all(s)->Ok_0;
            assert forall|k: int| 0 <= k < list.len() implies instruction_fits(
                #[trigger] list[k],
            ) by {
                if first is Skip {
                } else if k > 0 {
                    assert(list[k] == rest[k - 1]);
                }
            }
        }
    }
}

/// A builder whose values fit their lines.
pub open spec fn builder_fits(b: BuilderView) -> bool {
    &&& b.from is Some ==> is_value(b.from->0)
    &&& b.adapter is Some ==> is_value(b.adapter->0.path()) && b.adapter->0 == TensorFileView::at(
        b.adapter->0.path(),
    )
    &&& forall|i: int| 0 <= i < b.parameters.len() ==> parameter_fits(#[trigger] b.parameters[i])
    &&& forall|i: int| 0 <= i < b.messages.len() ==> fits_line((#[trigger] b.messages[i]).content)
}

/// Instructions whose values fit their lines build what fits.
pub proof fn lemma_fold_fits(b: BuilderView, list: Seq<InstructionView>)
    requires
        builder_fits(b),
        forall|k: int| 0 <= k < list.len() ==> instruction_fits(#[trigger] list[k]),
        b.fold(list) is Ok,
    ensures
        builder_fits(b.fold(list)->Ok_0),
    decreases list.len(),
{
    if list.len() > 0 {
        let next = b.apply(list[0])->Ok_0;
        let rest = list.drop_first();
        assert(instruction_fits(list[0]));
        assert forall|k: int| 0 <= k < rest.len() implies instruction_fits(#[trigger] rest[k]) by {
            assert(rest[k] == list[k + 1]);
        }
        assert(builder_fits(next)) by {
            match list[0] {
                InstructionView::Parameter(p) => {
                    assert forall|i: int| 0 <= i < next.parameters.len() implies parameter_fits(
                        #[trigger] next.parameters[i],
                    ) by {
                        if i < b.parameters.len() {
                            assert(next.parameters[i] == b.parameters[i]);
                        }
                    }
                },
                InstructionView::Message(m) => {
                    assert forall|i: int| 0 <= i < next.messages.len() implies fits_line(
                        (#[trigger] next.messages[i]).content,
                    ) by {
                        if i < b.messages.len() {
                            assert(next.messages[i] == b.messages[i]);
                        }
                    }
                },
                _ => {},
            }
        }
        lemma_fold_fits(next, rest);
    }
}

/// Every Modelfile that was read from text is well formed.
pub proof fn lemma_parsed_is_well_formed(s: Seq<char>)
    requires
        parsed(s) is Ok,
    ensures
        well_formed(parsed(s)->Ok_0),
{
    lemma_read_all_fits(s);
    lemma_fold_fits(BuilderView::empty(), read_all(s)->Ok_0);
}

/// A Modelfile that was read from text, written and read again is the same
/// Modelfile, where its system message, template and license can stand
/// between triple quotes.
pub proof fn lemma_read_write_read(s: Seq<char>)
    requires
        parsed(s) is Ok,
        blocks_close_cleanly(parsed(s)->Ok_0),
    ensures
        parsed(rendered(parsed(s)->Ok_0)) == parsed(s),
{
    lemma_parsed_is_well_formed(s);
    lemma_round_trip(parsed(s)->Ok_0);
}

/// Writing and reading keeps the parameters and the messages: each in its
/// place, those that occur more than once as often as before.
pub proof fn lemma_order_is_kept(m: ModelfileView)
    requires
        well_formed(m),
        blocks_close_cleanly(m),
    ensures
        parsed(rendered(m)) is Ok,
        parsed(rendered(m))->Ok_0.parameters == m.parameters,
        parsed(rendered(m))->Ok_0.messages == m.messages,
{
    lemma_round_trip(m);
}

/// An instruction takes up one character or more, and no more than there
/// are: reading a text comes to its end.
pub proof fn lemma_read_line_advances(s: Seq<char>)
    requires
        s.len() > 0,
        read_line(s) is Ok,
    ensures
        0 < read_line(s)->Ok_0.1 <= s.len(),
{
    reveal(read_line);
    lemma_line_len_bounds(s);
    let read = s.take(line_len(s) as int);
    if keyword_at(read, "TEMPLATE"@) && read_block(s, "TEMPLATE"@) is Ok {
        lemma_read_block_advances(s, "TEMPLATE"@);
    }
    if keyword_at(read, "SYSTEM"@) && read_block(s, "SYSTEM"@) is Ok {
        lemma_read_block_advances(s, "SYSTEM"@);
    }
    if keyword_at(read, "LICENSE"@) && read_block(s, "LICENSE"@) is Ok {
        lemma_read_block_advances(s, "LICENSE"@);
    }
}

/// A value that may stand between triple quotes takes up one character or
/// more, and no more than there are.
pub proof fn lemma_read_block_advances(s: Seq<char>, keyword: Seq<char>)
    requires
        s.len() > 0,
        keyword_at(s.take(line_len(s) as int), keyword),
        read_block(s, keyword) is Ok,
    ensures
        0 < read_block(s, keyword)->Ok_0.1 <= s.len(),
{
    lemma_line_len_bounds(s);
    let n = line_len(s) as int;
    let read = s.take(n);
    let tail = read.skip(keyword.len() as int);
    lemma_blank_prefix_bounds(tail);
    let start = keyword.len() + blank_prefix_len(tail);
    if triple_quote().is_prefix_of(read.skip(start as int)) {
        let inner = s.skip(start as int + 3);
        lemma_first_triple_bounds(inner);
        let q = first_triple(inner)->0;
        lemma_line_len_bounds(inner.skip(q + 3));
    } else {
        lemma_trim_end_bounds(trim_start(tail));
    }
}

} // verus!

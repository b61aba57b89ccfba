//! Writing a Modelfile as text.

use vstd::prelude::*;
use crate::message::MessageView;
use crate::modelfile::block;
use crate::modelfile::ModelfileView;
use crate::modelfile::parameter::ParameterView;
use crate::modelfile::TensorFileView;

verus! {

/// The comment that every written Modelfile begins with.
pub open spec fn header() -> Seq<char> {
    "# This file was generated by the Ollama-CLI client\n"@
}

/// One instruction: the keyword, a space, the value, a line feed.
pub open spec fn line(keyword: Seq<char>, value: Seq<char>) -> Seq<char> {
    keyword + seq![' '] + value + seq!['\n']
}

/// An instruction that may be missing: where it is there, its line and an
/// empty line.
pub open spec fn optional(keyword: Seq<char>, value: Option<Seq<char>>) -> Seq<char> {
    match value {
        Some(value) => line(keyword, value) + seq!['\n'],
        None => Seq::empty(),
    }
}

/// One line for each value, in order.
pub open spec fn lines(keyword: Seq<char>, values: Seq<Seq<char>>) -> Seq<char>
    decreases values.len(),
{
    if values.len() == 0 {
        Seq::empty()
    } else {
        line(keyword, values[0]) + lines(keyword, values.drop_first())
    }
}

/// An instruction that may be repeated: one line for each value and an empty
/// line after the last; nothing where there is no value.
pub open spec fn group(keyword: Seq<char>, values: Seq<Seq<char>>) -> Seq<char> {
    if values.len() == 0 {
        Seq::empty()
    } else {
        lines(keyword, values) + seq!['\n']
    }
}

pub open spec fn block_of(text: Option<Seq<char>>) -> Option<Seq<char>> {
    match text {
        Some(text) => Some(block(text)),
        None => None,
    }
}

pub open spec fn path_of(file: Option<TensorFileView>) -> Option<Seq<char>> {
    match file {
        Some(file) => Some(file.path()),
        None => None,
    }
}

/// The parameters, each as it is written after the `PARAMETER` keyword.
pub open spec fn parameter_texts(parameters: Seq<ParameterView>) -> Seq<Seq<char>> {
    parameters.map_values(|p: ParameterView| p.text())
}

/// The messages, each as it is written after the `MESSAGE` keyword.
pub open spec fn message_texts(messages: Seq<MessageView>) -> Seq<Seq<char>> {
    messages.map_values(|m: MessageView| m.text())
}

/// The text of a Modelfile: the header comment, the base model and an empty
/// line, then the adapter, the system message, the template, the
/// parameters, the messages and the license, each as far as it is there.
pub open spec fn rendered(m: ModelfileView) -> Seq<char> {
    header() + line("FROM"@, m.from) + seq!['\n'] + optional("ADAPTER"@, path_of(m.adapter))
        + optional("SYSTEM"@, block_of(m.system)) + optional("TEMPLATE"@, block_of(m.template))
        + group("PARAMETER"@, parameter_texts(m.parameters)) + group(
        "MESSAGE"@,
        message_texts(m.messages),
    ) + optional("LICENSE"@, block_of(m.license))
}

/// The lines of one value more are the lines of the values, then the line
/// of that value.
pub proof fn lemma_lines_push(keyword: Seq<char>, values: Seq<Seq<char>>, value: Seq<char>)
    ensures
        lines(keyword, values.push(value)) == lines(keyword, values) + line(keyword, value),
    decreases values.len(),
{
    let all = values.push(value);
    if values.len() == 0 {
        assert(all.drop_first() =~= Seq::<Seq<char>>::empty());
        assert(all[0] == value);
        assert(lines(keyword, all.drop_first()) =~= Seq::<char>::empty());
        assert(lines(keyword, all) =~= line(keyword, value));
        assert(lines(keyword, values) + line(keyword, value) =~= line(keyword, value));
    } else {
        lemma_lines_push(keyword, values.drop_first(), value);
        assert(all.drop_first() =~= values.drop_first().push(value));
        assert(all[0] == values[0]);
        assert(line(keyword, values[0]) + (lines(keyword, values.drop_first()) + line(
            keyword,
            value,
        )) =~= lines(keyword, values) + line(keyword, value));
    }
}

/// The text written so far.
pub struct Renderer {
    builder: String,
}

impl View for Renderer {
    type V = Seq<char>;

    closed spec fn view(&self) -> Seq<char> {
        self.builder@
    }
}

impl Default for Renderer {
    fn default() -> (r: Renderer)
        ensures
            r@ == Seq::<char>::empty(),
    {
        Renderer { builder: String::new() }
    }
}

impl Renderer {
    /// Writes `s` as it is.
    pub fn push_raw(&mut self, s: &str)
        ensures
            final(self)@ == old(self)@ + s@,
    {
        self.builder.append(s);
    }

    /// Writes one instruction on a line of its own.
    pub fn push(&mut self, name: &'static str, s: &str)
        ensures
            final(self)@ == old(self)@ + line(name@, s@),
    {
        self.builder.append(name);
        self.builder.push(' ');
        self.builder.append(s);
        self.builder.push('\n');
        assert(self@ =~= old(self)@ + line(name@, s@));
    }

    /// Ends a line.
    pub fn newline(&mut self)
        ensures
            final(self)@ == old(self)@ + seq!['\n'],
    {
        self.builder.push('\n');
        assert(self@ =~= old(self)@ + seq!['\n']);
    }

    /// Writes an instruction that may be missing, with an empty line after
    /// it.
    pub fn push_opt(&mut self, name: &'static str, opt: Option<&str>)
        ensures
            final(self)@ == old(self)@ + optional(
                name@,
                match opt {
                    Some(s) => Some(s@),
                    None => None,
                },
            ),
    {
        match opt {
            Some(s) => {
                self.push(name, s);
                self.newline();
                assert(self@ =~= old(self)@ + (line(name@, s@) + seq!['\n']));
            },
            None => {
                assert(self@ =~= old(self)@ + Seq::<char>::empty());
            },
        }
    }

    /// Writes an instruction once for each value, with an empty line after
    /// the last.
    pub fn push_vec(&mut self, name: &'static str, vec: &Vec<String>)
        ensures
            final(self)@ == old(self)@ + group(name@, vec@.map_values(|s: String| s@)),
    {
        let ghost values = vec@.map_values(|s: String| s@);
        if vec.len() == 0 {
            assert(self@ =~= old(self)@ + Seq::<char>::empty());
            return ;
        }
        let mut i: usize = 0;
        assert(values.take(0) =~= Seq::<Seq<char>>::empty());
        assert(self@ =~= old(self)@ + Seq::<char>::empty());
        while i < vec.len()
            invariant
                i <= vec@.len(),
                values == vec@.map_values(|s: String| s@),
                self@ == old(self)@ + lines(name@, values.take(i as int)),
            decreases vec@.len() - i,
        {
            let ghost before = self@;
            self.push(name, vec[i].as_str());
            proof {
                lemma_lines_push(name@, values.take(i as int), values[i as int]);
                assert(values.take(i + 1) =~= values.take(i as int).push(values[i as int]));
                assert(self@ =~= old(self)@ + lines(name@, values.take(i + 1)));
            }
            i += 1;
        }
        assert(values.take(i as int) =~= values);
        self.newline();
        assert(self@ =~= old(self)@ + (lines(name@, values) + seq!['\n']));
    }

    /// All that was written.
    pub fn finalize(self) -> (s: String)
        ensures
            s@ == self@,
    {
        self.builder
    }
}

} // verus!

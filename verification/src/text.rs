//! Character-level helpers shared by the grammar and the renderer.

use vstd::prelude::*;
use vstd::std_specs::iter::IteratorSpec;

verus! {

/// `String::push` appends one character to the end of the string.
pub assume_specification[ String::push ](s: &mut String, ch: char)
    ensures
        final(s)@ == old(s)@.push(ch),
;

/// Spaces, tabs and carriage returns separate words and are trimmed from values.
pub open spec fn is_blank(c: char) -> bool {
    c == ' ' || c == '\t' || c == '\r'
}

/// The number of characters before the first line feed of `s`.
pub open spec fn line_len(s: Seq<char>) -> nat
    decreases s.len(),
{
    if s.len() == 0 || s[0] == '\n' {
        0
    } else {
        1 + line_len(s.drop_first())
    }
}

/// The number of blank characters `s` begins with.
pub open spec fn blank_prefix_len(s: Seq<char>) -> nat
    decreases s.len(),
{
    if s.len() == 0 || !is_blank(s[0]) {
        0
    } else {
        1 + blank_prefix_len(s.drop_first())
    }
}

/// `s` without its leading blanks.
pub open spec fn trim_start(s: Seq<char>) -> Seq<char> {
    s.skip(blank_prefix_len(s) as int)
}

/// `s` without its trailing blanks.
pub open spec fn trim_end(s: Seq<char>) -> Seq<char>
    decreases s.len(),
{
    if s.len() == 0 || !is_blank(s.last()) {
        s
    } else {
        trim_end(s.drop_last())
    }
}

/// `s` without leading and trailing blanks.
pub open spec fn trim(s: Seq<char>) -> Seq<char> {
    trim_end(trim_start(s))
}

/// The number of characters before the first blank of `s`.
pub open spec fn word_len(s: Seq<char>) -> nat
    decreases s.len(),
{
    if s.len() == 0 || is_blank(s[0]) {
        0
    } else {
        1 + word_len(s.drop_first())
    }
}

/// The number of characters before the first `c` in `s`.
pub open spec fn prefix_before(s: Seq<char>, c: char) -> nat
    decreases s.len(),
{
    if s.len() == 0 || s[0] == c {
        0
    } else {
        1 + prefix_before(s.drop_first(), c)
    }
}

/// Whether three double quotes stand at index `i` of `s`.
pub open spec fn triple_at(s: Seq<char>, i: int) -> bool {
    &&& 0 <= i
    &&& i + 3 <= s.len()
    &&& s[i] == '"'
    &&& s[i + 1] == '"'
    &&& s[i + 2] == '"'
}

/// The index of the first run of three double quotes in `s`, if there is one.
pub open spec fn first_triple(s: Seq<char>) -> Option<int>
    decreases s.len(),
{
    if s.len() < 3 {
        None
    } else if triple_at(s, 0) {
        Some(0)
    } else {
        match first_triple(s.drop_first()) {
            Some(i) => Some(i + 1),
            None => None,
        }
    }
}

/// Where the first `n` characters hold no line feed and a line feed or the
/// end follows, the first line has `n` characters.
pub proof fn lemma_line_len(s: Seq<char>, n: int)
    requires
        0 <= n <= s.len(),
        forall|k: int| 0 <= k < n ==> s[k] != '\n',
        n == s.len() || s[n] == '\n',
    ensures
        line_len(s) == n,
    decreases s.len(),
{
    if n > 0 {
        lemma_line_len(s.drop_first(), n - 1);
    }
}

/// The first line holds no line feed, and ends at a line feed or at the end.
pub proof fn lemma_line_len_bounds(s: Seq<char>)
    ensures
        line_len(s) <= s.len(),
        forall|k: int| 0 <= k < line_len(s) ==> s[k] != '\n',
        line_len(s) == s.len() || s[line_len(s) as int] == '\n',
    decreases s.len(),
{
    if s.len() == 0 || s[0] == '\n' {
    } else {
        let t = s.drop_first();
        lemma_line_len_bounds(t);
        assert forall|k: int| 0 <= k < line_len(s) implies s[k] != '\n' by {
            if k > 0 {
                assert(s[k] == t[k - 1]);
            }
        }
    }
}

/// Where the first `n` characters are blanks and the next is none, `n` blanks
/// stand at the start.
pub proof fn lemma_blank_prefix(s: Seq<char>, n: int)
    requires
        0 <= n <= s.len(),
        forall|k: int| 0 <= k < n ==> is_blank(s[k]),
        n == s.len() || !is_blank(s[n]),
    ensures
        blank_prefix_len(s) == n,
    decreases s.len(),
{
    if n > 0 {
        lemma_blank_prefix(s.drop_first(), n - 1);
    }
}

/// The blanks at the start are blanks, and what follows them is none.
pub proof fn lemma_blank_prefix_bounds(s: Seq<char>)
    ensures
        blank_prefix_len(s) <= s.len(),
        forall|k: int| 0 <= k < blank_prefix_len(s) ==> is_blank(s[k]),
        blank_prefix_len(s) == s.len() || !is_blank(s[blank_prefix_len(s) as int]),
    decreases s.len(),
{
    if s.len() == 0 || !is_blank(s[0]) {
    } else {
        let t = s.drop_first();
        lemma_blank_prefix_bounds(t);
        assert forall|k: int| 0 <= k < blank_prefix_len(s) implies is_blank(s[k]) by {
            if k > 0 {
                assert(s[k] == t[k - 1]);
            }
        }
    }
}

/// Where all from index `n` on are blanks and the one before is none, the
/// first `n` characters are left.
pub proof fn lemma_trim_end(s: Seq<char>, n: int)
    requires
        0 <= n <= s.len(),
        forall|k: int| n <= k < s.len() ==> is_blank(s[k]),
        n == 0 || !is_blank(s[n - 1]),
    ensures
        trim_end(s) == s.take(n),
    decreases s.len(),
{
    if n < s.len() {
        let t = s.drop_last();
        lemma_trim_end(t, n);
        assert(t.take(n) =~= s.take(n));
    } else {
        assert(s.take(n) =~= s);
    }
}

/// Without its trailing blanks, a text is its own start, and does not end
/// with a blank.
pub proof fn lemma_trim_end_bounds(s: Seq<char>)
    ensures
        trim_end(s).len() <= s.len(),
        trim_end(s) == s.take(trim_end(s).len() as int),
        forall|k: int| trim_end(s).len() <= k < s.len() ==> is_blank(s[k]),
        trim_end(s).len() == 0 || !is_blank(trim_end(s).last()),
    decreases s.len(),
{
    if s.len() == 0 || !is_blank(s.last()) {
        assert(s.take(s.len() as int) =~= s);
    } else {
        let t = s.drop_last();
        lemma_trim_end_bounds(t);
        assert(t.take(trim_end(t).len() as int) =~= s.take(trim_end(t).len() as int));
        assert forall|k: int| trim_end(s).len() <= k < s.len() implies is_blank(s[k]) by {
            if k < t.len() {
                assert(s[k] == t[k]);
            }
        }
    }
}

/// Where the first `n` characters are no blanks and a blank or the end
/// follows, the first word has `n` characters.
pub proof fn lemma_word_len(s: Seq<char>, n: int)
    requires
        0 <= n <= s.len(),
        forall|k: int| 0 <= k < n ==> !is_blank(s[k]),
        n == s.len() || is_blank(s[n]),
    ensures
        word_len(s) == n,
    decreases s.len(),
{
    if n > 0 {
        lemma_word_len(s.drop_first(), n - 1);
    }
}

/// The first word is no longer than the text.
pub proof fn lemma_word_len_bounds(s: Seq<char>)
    ensures
        word_len(s) <= s.len(),
    decreases s.len(),
{
    if s.len() > 0 && !is_blank(s[0]) {
        lemma_word_len_bounds(s.drop_first());
    }
}

/// What stands before the first `c` is no longer than the text.
pub proof fn lemma_prefix_before_bounds(s: Seq<char>, c: char)
    ensures
        prefix_before(s, c) <= s.len(),
    decreases s.len(),
{
    if s.len() > 0 && s[0] != c {
        lemma_prefix_before_bounds(s.drop_first(), c);
    }
}

/// Where the first `n` characters are not `c` and `c` or the end follows, `n`
/// characters stand before the first `c`.
pub proof fn lemma_prefix_before(s: Seq<char>, c: char, n: int)
    requires
        0 <= n <= s.len(),
        forall|k: int| 0 <= k < n ==> s[k] != c,
        n == s.len() || s[n] == c,
    ensures
        prefix_before(s, c) == n,
    decreases s.len(),
{
    if n > 0 {
        lemma_prefix_before(s.drop_first(), c, n - 1);
    }
}

/// Where triple quotes stand at `n` and at no index before it, the first
/// triple quotes stand at `n`.
pub proof fn lemma_first_triple_some(s: Seq<char>, n: int)
    requires
        triple_at(s, n),
        forall|k: int| 0 <= k < n ==> !triple_at(s, k),
    ensures
        first_triple(s) == Some(n),
    decreases s.len(),
{
    if n > 0 {
        let t = s.drop_first();
        assert forall|k: int| 0 <= k < n - 1 implies !triple_at(t, k) by {
            assert(!triple_at(s, k + 1));
        }
        lemma_first_triple_some(t, n - 1);
    }
}

/// The first triple quotes are triple quotes, and none stand before them.
pub proof fn lemma_first_triple_bounds(s: Seq<char>)
    requires
        first_triple(s) is Some,
    ensures
        triple_at(s, first_triple(s)->0),
        forall|k: int| 0 <= k < first_triple(s)->0 ==> !triple_at(s, k),
    decreases s.len(),
{
    if s.len() >= 3 && !triple_at(s, 0) {
        let t = s.drop_first();
        lemma_first_triple_bounds(t);
        let q = first_triple(t)->0;
        assert(s[q + 1] == t[q] && s[q + 2] == t[q + 1] && s[q + 3] == t[q + 2]);
        assert forall|k: int| 0 <= k < q + 1 implies !triple_at(s, k) by {
            if k > 0 && triple_at(s, k) {
                assert(t[k - 1] == s[k] && t[k] == s[k + 1] && t[k + 1] == s[k + 2]);
                assert(triple_at(t, k - 1));
            }
        }
    }
}

/// Where triple quotes stand nowhere, there are no first ones.
pub proof fn lemma_first_triple_none(s: Seq<char>)
    requires
        forall|k: int| 0 <= k ==> !triple_at(s, k),
    ensures
        first_triple(s) is None,
    decreases s.len(),
{
    if s.len() >= 3 {
        assert(!triple_at(s, 0));
        let t = s.drop_first();
        assert forall|k: int| 0 <= k implies !triple_at(t, k) by {
            assert(!triple_at(s, k + 1));
        }
        lemma_first_triple_none(t);
    }
}

/// The characters of `s`, in order.
pub fn to_chars(s: &str) -> (v: Vec<char>)
    ensures
        v@ == s@,
{
    let mut v: Vec<char> = Vec::new();
    let mut it = s.chars();
    let ghost mut done: int = 0;
    loop
        invariant
            0 <= done <= s@.len(),
            v@ == s@.take(done),
            it.remaining() == s@.skip(done),
            it.obeys_prophetic_iter_laws(),
        decreases s@.len() - done,
    {
        match it.next() {
            Some(c) => {
                v.push(c);
                proof {
                    assert(s@.take(done + 1) =~= s@.take(done).push(s@[done]));
                    assert(s@.skip(done).drop_first() =~= s@.skip(done + 1));
                    done = done + 1;
                }
            },
            None => {
                assert(s@.take(done) =~= s@);
                return v;
            },
        }
    }
}

/// Appends the characters `v[from..to]` to `out`.
pub fn push_range(out: &mut String, v: &Vec<char>, from: usize, to: usize)
    requires
        from <= to <= v@.len(),
    ensures
        final(out)@ == old(out)@ + v@.subrange(from as int, to as int),
{
    let mut i: usize = from;
    assert(out@ =~= old(out)@ + v@.subrange(from as int, from as int));
    while i < to
        invariant
            from <= i <= to <= v@.len(),
            out@ == old(out)@ + v@.subrange(from as int, i as int),
        decreases to - i,
    {
        out.push(v[i]);
        assert(v@.subrange(from as int, i + 1) =~= v@.subrange(from as int, i as int).push(
            v@[i as int],
        ));
        assert(out@ =~= old(out)@ + v@.subrange(from as int, i + 1));
        i += 1;
    }
}

/// A string holding the characters `v[from..to]`.
pub fn to_string(v: &Vec<char>, from: usize, to: usize) -> (s: String)
    requires
        from <= to <= v@.len(),
    ensures
        s@ == v@.subrange(from as int, to as int),
{
    let mut s = String::new();
    push_range(&mut s, v, from, to);
    assert(s@ =~= v@.subrange(from as int, to as int));
    s
}

/// The index at which the line that starts at `from` ends: that of its line
/// feed, or the length of the text.
pub fn line_end(v: &Vec<char>, from: usize) -> (e: usize)
    requires
        from <= v@.len(),
    ensures
        from <= e <= v@.len(),
        e - from == line_len(v@.skip(from as int)),
{
    let mut e: usize = from;
    while e < v.len() && v[e] != '\n'
        invariant
            from <= e <= v@.len(),
            forall|k: int| from <= k < e ==> v@[k] != '\n',
        decreases v@.len() - e,
    {
        e += 1;
    }
    proof {
        lemma_line_len(v@.skip(from as int), e - from);
    }
    e
}

/// The index of the first character at or after `from` and before `to` that is
/// not blank, or `to`.
pub fn skip_blanks(v: &Vec<char>, from: usize, to: usize) -> (p: usize)
    requires
        from <= to <= v@.len(),
    ensures
        from <= p <= to,
        p - from == blank_prefix_len(v@.subrange(from as int, to as int)),
        v@.subrange(p as int, to as int) == trim_start(v@.subrange(from as int, to as int)),
{
    let mut p: usize = from;
    while p < to && (v[p] == ' ' || v[p] == '\t' || v[p] == '\r')
        invariant
            from <= p <= to <= v@.len(),
            forall|k: int| from <= k < p ==> is_blank(v@[k]),
        decreases to - p,
    {
        p += 1;
    }
    proof {
        let s = v@.subrange(from as int, to as int);
        lemma_blank_prefix(s, p - from);
        assert(v@.subrange(p as int, to as int) =~= s.skip(p - from));
    }
    p
}

/// The index just after the last character before `to` and at or after `from`
/// that is not blank, or `from`.
pub fn skip_blanks_back(v: &Vec<char>, from: usize, to: usize) -> (q: usize)
    requires
        from <= to <= v@.len(),
    ensures
        from <= q <= to,
        v@.subrange(from as int, q as int) == trim_end(v@.subrange(from as int, to as int)),
{
    let mut q: usize = to;
    while q > from && (v[q - 1] == ' ' || v[q - 1] == '\t' || v[q - 1] == '\r')
        invariant
            from <= q <= to <= v@.len(),
            forall|k: int| q <= k < to ==> is_blank(v@[k]),
        decreases q - from,
    {
        q -= 1;
    }
    proof {
        let s = v@.subrange(from as int, to as int);
        lemma_trim_end(s, q - from);
        assert(v@.subrange(from as int, q as int) =~= s.take(q - from));
    }
    q
}

/// Whether the characters `v[from..to]` begin with `word`.
pub fn starts_with(v: &Vec<char>, from: usize, to: usize, word: &str) -> (r: bool)
    requires
        from <= to <= v@.len(),
    ensures
        r == word@.is_prefix_of(v@.subrange(from as int, to as int)),
{
    let n = word.unicode_len();
    if n > to - from {
        return false;
    }
    let ghost s = v@.subrange(from as int, to as int);
    let mut k: usize = 0;
    while k < n
        invariant
            from <= to <= v@.len(),
            k <= n == word@.len() <= to - from,
            s == v@.subrange(from as int, to as int),
            forall|j: int| 0 <= j < k ==> word@[j] == s[j],
        decreases n - k,
    {
        if word.get_char(k) != v[from + k] {
            assert(s[k as int] != word@[k as int]);
            assert(s.subrange(0, n as int)[k as int] == s[k as int]);
            return false;
        }
        k += 1;
    }
    assert(word@ =~= s.subrange(0, n as int));
    true
}

/// Whether the characters `v[from..to]` are exactly `word`.
pub fn equals(v: &Vec<char>, from: usize, to: usize, word: &str) -> (r: bool)
    requires
        from <= to <= v@.len(),
    ensures
        r == (v@.subrange(from as int, to as int) == word@),
{
    let n = word.unicode_len();
    if n != to - from {
        return false;
    }
    let r = starts_with(v, from, to, word);
    proof {
        let s = v@.subrange(from as int, to as int);
        if r {
            assert(s.subrange(0, n as int) =~= s);
        }
    }
    r
}

} // verus!

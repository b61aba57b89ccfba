//! Numbers as they are written in a Modelfile: unsigned integers in decimal,
//! and decimal floating-point literals, which are kept as text.

use vstd::prelude::*;
use crate::text::to_chars;

verus! {

pub open spec fn is_digit(c: char) -> bool {
    '0' <= c <= '9'
}

/// The number a decimal digit stands for.
pub open spec fn digit_value(c: char) -> nat {
    if c == '1' {
        1
    } else if c == '2' {
        2
    } else if c == '3' {
        3
    } else if c == '4' {
        4
    } else if c == '5' {
        5
    } else if c == '6' {
        6
    } else if c == '7' {
        7
    } else if c == '8' {
        8
    } else if c == '9' {
        9
    } else {
        0
    }
}

/// The decimal digit that stands for `d`, for `d` below ten.
pub open spec fn digit_char(d: nat) -> char {
    if d == 1 {
        '1'
    } else if d == 2 {
        '2'
    } else if d == 3 {
        '3'
    } else if d == 4 {
        '4'
    } else if d == 5 {
        '5'
    } else if d == 6 {
        '6'
    } else if d == 7 {
        '7'
    } else if d == 8 {
        '8'
    } else if d == 9 {
        '9'
    } else {
        '0'
    }
}

pub open spec fn all_digits(s: Seq<char>) -> bool {
    forall|i: int| 0 <= i < s.len() ==> is_digit(#[trigger] s[i])
}

/// The number that the digits `s` denote in base ten.
pub open spec fn decimal_value(s: Seq<char>) -> nat
    decreases s.len(),
{
    if s.len() == 0 {
        0
    } else {
        10 * decimal_value(s.drop_last()) + digit_value(s.last())
    }
}

/// Whether `s` is a decimal numeral that a `usize` can hold: one digit or
/// more, nothing else.
pub open spec fn is_unsigned_text(s: Seq<char>) -> bool {
    &&& s.len() > 0
    &&& all_digits(s)
    &&& decimal_value(s) <= usize::MAX
}

/// The shortest decimal numeral for `n`.
pub open spec fn decimal_text(n: nat) -> Seq<char>
    decreases n,
{
    if n < 10 {
        seq![digit_char(n)]
    } else {
        decimal_text(n / 10).push(digit_char(n % 10))
    }
}

/// Reading the numeral written for `n` gives `n` back.
pub proof fn lemma_decimal_round_trip(n: nat)
    ensures
        decimal_text(n).len() > 0,
        all_digits(decimal_text(n)),
        decimal_value(decimal_text(n)) == n,
    decreases n,
{
    if n < 10 {
        let s = seq![digit_char(n)];
        assert(s.drop_last() =~= Seq::<char>::empty());
        assert(decimal_value(s.drop_last()) == 0);
        assert(s.last() == digit_char(n));
    } else {
        lemma_decimal_round_trip(n / 10);
        let t = decimal_text(n / 10);
        let s = t.push(digit_char(n % 10));
        assert(s.drop_last() =~= t);
        assert(s.last() == digit_char(n % 10));
        assert forall|i: int| 0 <= i < s.len() implies is_digit(#[trigger] s[i]) by {
            if i < t.len() {
                assert(s[i] == t[i]);
            }
        }
    }
}

/// The digits at the start of a numeral denote no more than the numeral.
pub proof fn lemma_decimal_prefix(s: Seq<char>, k: int)
    requires
        0 <= k <= s.len(),
    ensures
        decimal_value(s.take(k)) <= decimal_value(s),
    decreases s.len(),
{
    if k == s.len() {
        assert(s.take(k) =~= s);
    } else {
        lemma_decimal_prefix(s.drop_last(), k);
        assert(s.drop_last().take(k) =~= s.take(k));
    }
}

fn digit_of(c: char) -> (d: usize)
    requires
        is_digit(c),
    ensures
        d == digit_value(c),
        d <= 9,
{
    if c == '1' {
        1
    } else if c == '2' {
        2
    } else if c == '3' {
        3
    } else if c == '4' {
        4
    } else if c == '5' {
        5
    } else if c == '6' {
        6
    } else if c == '7' {
        7
    } else if c == '8' {
        8
    } else if c == '9' {
        9
    } else {
        0
    }
}

fn char_of(d: usize) -> (c: char)
    requires
        d < 10,
    ensures
        c == digit_char(d as nat),
{
    if d == 1 {
        '1'
    } else if d == 2 {
        '2'
    } else if d == 3 {
        '3'
    } else if d == 4 {
        '4'
    } else if d == 5 {
        '5'
    } else if d == 6 {
        '6'
    } else if d == 7 {
        '7'
    } else if d == 8 {
        '8'
    } else if d == 9 {
        '9'
    } else {
        '0'
    }
}

/// Reads `v[from..to]` as an unsigned decimal numeral.
pub fn parse_unsigned(v: &Vec<char>, from: usize, to: usize) -> (r: Option<usize>)
    requires
        from <= to <= v@.len(),
    ensures
        r is Some <==> is_unsigned_text(v@.subrange(from as int, to as int)),
        r is Some ==> r->0 == decimal_value(v@.subrange(from as int, to as int)),
{
    let ghost s = v@.subrange(from as int, to as int);
    if from == to {
        return None;
    }
    let mut acc: usize = 0;
    let mut i: usize = from;
    assert(s.take(0) =~= Seq::<char>::empty());
    while i < to
        invariant
            from <= i <= to <= v@.len(),
            s == v@.subrange(from as int, to as int),
            all_digits(s.take(i - from)),
            acc == decimal_value(s.take(i - from)),
        decreases to - i,
    {
        let c = v[i];
        assert(s[i - from] == c);
        if !('0' <= c && c <= '9') {
            return None;
        }
        let d = digit_of(c);
        proof {
            let t = s.take(i - from + 1);
            assert(t.drop_last() =~= s.take(i - from));
            assert(t.last() == c);
            assert forall|j: int| 0 <= j < t.len() implies is_digit(#[trigger] t[j]) by {
                if j < i - from {
                    assert(t[j] == s.take(i - from)[j]);
                }
            }
            lemma_decimal_prefix(s, i - from + 1);
        }
        if acc > (usize::MAX - d) / 10 {
            return None;
        }
        acc = acc * 10 + d;
        i += 1;
    }
    assert(s.take(to - from) =~= s);
    Some(acc)
}

/// Appends the shortest decimal numeral for `n` to `out`.
pub fn push_decimal(out: &mut String, n: usize)
    ensures
        final(out)@ == old(out)@ + decimal_text(n as nat),
    decreases n,
{
    if n >= 10 {
        push_decimal(out, n / 10);
    }
    out.push(char_of(n % 10));
    proof {
        if n >= 10 {
            assert(out@ =~= old(out)@ + decimal_text(n as nat));
        } else {
            assert(out@ =~= old(out)@ + decimal_text(n as nat));
        }
    }
}

/// The number of decimal digits `s` begins with.
pub open spec fn digits_len(s: Seq<char>) -> nat
    decreases s.len(),
{
    if s.len() == 0 || !is_digit(s[0]) {
        0
    } else {
        1 + digits_len(s.drop_first())
    }
}

/// One if `s` begins with a plus or minus sign, else zero.
pub open spec fn sign_len(s: Seq<char>) -> nat {
    if s.len() > 0 && (s[0] == '+' || s[0] == '-') {
        1
    } else {
        0
    }
}

/// Whether `c` is the letter `lower` in either case (`upper` is its capital).
pub open spec fn is_letter(c: char, lower: char, upper: char) -> bool {
    c == lower || c == upper
}

/// `inf`, `infinity` or `nan`, in any mix of cases.
pub open spec fn is_special_text(s: Seq<char>) -> bool {
    ||| {
        &&& s.len() == 3
        &&& is_letter(s[0], 'i', 'I')
        &&& is_letter(s[1], 'n', 'N')
        &&& is_letter(s[2], 'f', 'F')
    }
    ||| {
        &&& s.len() == 8
        &&& is_letter(s[0], 'i', 'I')
        &&& is_letter(s[1], 'n', 'N')
        &&& is_letter(s[2], 'f', 'F')
        &&& is_letter(s[3], 'i', 'I')
        &&& is_letter(s[4], 'n', 'N')
        &&& is_letter(s[5], 'i', 'I')
        &&& is_letter(s[6], 't', 'T')
        &&& is_letter(s[7], 'y', 'Y')
    }
    ||| {
        &&& s.len() == 3
        &&& is_letter(s[0], 'n', 'N')
        &&& is_letter(s[1], 'a', 'A')
        &&& is_letter(s[2], 'n', 'N')
    }
}

/// An exponent: the letter `e`, an optional sign, then one digit or more.
pub open spec fn is_exponent_text(s: Seq<char>) -> bool {
    &&& s.len() > 0
    &&& is_letter(s[0], 'e', 'E')
    &&& {
        let d = s.skip(1 + sign_len(s.skip(1)) as int);
        d.len() > 0 && digits_len(d) == d.len()
    }
}

/// Digits with an optional point among them, at least one digit in all, then
/// an optional exponent.
pub open spec fn is_number_text(s: Seq<char>) -> bool {
    let a = digits_len(s);
    let rest = s.skip(a as int);
    let dot = rest.len() > 0 && rest[0] == '.';
    let b = if dot {
        digits_len(rest.skip(1))
    } else {
        0
    };
    let tail = if dot {
        rest.skip(1 + b as int)
    } else {
        rest
    };
    &&& a + b >= 1
    &&& (tail.len() == 0 || is_exponent_text(tail))
}

/// Whether `s` is a floating-point literal: an optional sign, then a number
/// or one of the special values. This is the form that `str::parse` reads
/// into a floating-point number.
pub open spec fn is_float_text(s: Seq<char>) -> bool {
    let u = s.skip(sign_len(s) as int);
    is_special_text(u) || is_number_text(u)
}

/// Where the first `n` characters are digits and the next is none, `n` digits
/// stand at the start.
pub proof fn lemma_digits_len(s: Seq<char>, n: int)
    requires
        0 <= n <= s.len(),
        forall|k: int| 0 <= k < n ==> is_digit(s[k]),
        n == s.len() || !is_digit(s[n]),
    ensures
        digits_len(s) == n,
    decreases s.len(),
{
    if n > 0 {
        lemma_digits_len(s.drop_first(), n - 1);
    }
}

/// The index of the first character at or after `from` and before `to` that is
/// no digit, or `to`.
fn skip_digits(v: &Vec<char>, from: usize, to: usize) -> (e: usize)
    requires
        from <= to <= v@.len(),
    ensures
        from <= e <= to,
        e - from == digits_len(v@.subrange(from as int, to as int)),
{
    let mut e: usize = from;
    while e < to && '0' <= v[e] && v[e] <= '9'
        invariant
            from <= e <= to <= v@.len(),
            forall|k: int| from <= k < e ==> is_digit(v@[k]),
        decreases to - e,
    {
        e += 1;
    }
    proof {
        lemma_digits_len(v@.subrange(from as int, to as int), e - from);
    }
    e
}

fn letter(c: char, lower: char, upper: char) -> (r: bool)
    ensures
        r == is_letter(c, lower, upper),
{
    c == lower || c == upper
}

fn is_special(v: &Vec<char>, from: usize, to: usize) -> (r: bool)
    requires
        from <= to <= v@.len(),
    ensures
        r == is_special_text(v@.subrange(from as int, to as int)),
{
    let n = to - from;
    if n == 3 {
        (letter(v[from], 'i', 'I') && letter(v[from + 1], 'n', 'N') && letter(v[from + 2], 'f', 'F'))
            || (letter(v[from], 'n', 'N') && letter(v[from + 1], 'a', 'A') && letter(
            v[from + 2],
            'n',
            'N',
        ))
    } else if n == 8 {
        letter(v[from], 'i', 'I') && letter(v[from + 1], 'n', 'N') && letter(v[from + 2], 'f', 'F')
            && letter(v[from + 3], 'i', 'I') && letter(v[from + 4], 'n', 'N') && letter(
            v[from + 5],
            'i',
            'I',
        ) && letter(v[from + 6], 't', 'T') && letter(v[from + 7], 'y', 'Y')
    } else {
        false
    }
}

fn is_exponent(v: &Vec<char>, from: usize, to: usize) -> (r: bool)
    requires
        from <= to <= v@.len(),
    ensures
        r == is_exponent_text(v@.subrange(from as int, to as int)),
{
    let ghost s = v@.subrange(from as int, to as int);
    if from == to || !letter(v[from], 'e', 'E') {
        return false;
    }
    let mut p: usize = from + 1;
    assert(s.skip(1) =~= v@.subrange(from + 1, to as int));
    if p < to && (v[p] == '+' || v[p] == '-') {
        p += 1;
    }
    assert(s.skip(1 + sign_len(s.skip(1)) as int) =~= v@.subrange(p as int, to as int));
    let e = skip_digits(v, p, to);
    p < to && e == to
}

fn is_number(v: &Vec<char>, from: usize, to: usize) -> (r: bool)
    requires
        from <= to <= v@.len(),
    ensures
        r == is_number_text(v@.subrange(from as int, to as int)),
{
    let ghost s = v@.subrange(from as int, to as int);
    let a = skip_digits(v, from, to);
    assert(s.skip(a - from) =~= v@.subrange(a as int, to as int));
    if a < to && v[a] == '.' {
        assert(s.skip(a - from).skip(1) =~= v@.subrange(a + 1, to as int));
        let b = skip_digits(v, a + 1, to);
        assert(s.skip(a - from).skip(1 + (b - (a + 1))) =~= v@.subrange(b as int, to as int));
        (a - from) + (b - (a + 1)) >= 1 && (b == to || is_exponent(v, b, to))
    } else {
        a - from >= 1 && (a == to || is_exponent(v, a, to))
    }
}

/// Whether `v[from..to]` is a floating-point literal.
pub fn is_float(v: &Vec<char>, from: usize, to: usize) -> (r: bool)
    requires
        from <= to <= v@.len(),
    ensures
        r == is_float_text(v@.subrange(from as int, to as int)),
{
    let ghost s = v@.subrange(from as int, to as int);
    let mut p: usize = from;
    if p < to && (v[p] == '+' || v[p] == '-') {
        p += 1;
    }
    assert(s.skip(sign_len(s) as int) =~= v@.subrange(p as int, to as int));
    is_special(v, p, to) || is_number(v, p, to)
}

/// A floating-point value, kept as the literal that denotes it.
#[derive(Debug, PartialEq, Eq)]
pub struct Float {
    text: String,
}

impl View for Float {
    type V = Seq<char>;

    closed spec fn view(&self) -> Seq<char> {
        self.text@
    }
}

impl Float {
    #[verifier::type_invariant]
    closed spec fn well_formed(&self) -> bool {
        is_float_text(self.text@)
    }

    /// The value that `text` denotes, if `text` is a floating-point literal.
    pub fn parse(text: &str) -> (r: Option<Float>)
        ensures
            r is Some <==> is_float_text(text@),
            r is Some ==> r->0@ == text@,
    {
        let v = to_chars(text);
        assert(v@.subrange(0, v@.len() as int) =~= v@);
        if is_float(&v, 0, v.len()) {
            Some(Float { text: text.to_owned() })
        } else {
            None
        }
    }

    /// The literal, as it was written.
    pub fn as_str(&self) -> (s: &str)
        ensures
            s@ == self@,
            is_float_text(s@),
    {
        proof {
            use_type_invariant(self);
        }
        self.text.as_str()
    }

}

impl Clone for Float {
    fn clone(&self) -> (r: Float)
        ensures
            r@ == self@,
    {
        proof {
            use_type_invariant(self);
        }
        Float { text: self.text.clone() }
    }
}

/// A character that can occur in a floating-point literal: a digit, a
/// point, a sign or a letter.
pub open spec fn is_literal_char(c: char) -> bool {
    is_digit(c) || c == '.' || c == '+' || c == '-' || ('a' <= c <= 'z') || ('A' <= c <= 'Z')
}

/// The digits at the start are digits, and no more than there are characters.
pub proof fn lemma_digits_len_bounds(s: Seq<char>)
    ensures
        digits_len(s) <= s.len(),
        forall|k: int| 0 <= k < digits_len(s) ==> is_digit(s[k]),
    decreases s.len(),
{
    if s.len() == 0 || !is_digit(s[0]) {
    } else {
        let t = s.drop_first();
        lemma_digits_len_bounds(t);
        assert forall|k: int| 0 <= k < digits_len(s) implies is_digit(s[k]) by {
            if k > 0 {
                assert(s[k] == t[k - 1]);
            }
        }
    }
}

/// An exponent is made of a letter, a sign and digits.
proof fn lemma_exponent_chars(s: Seq<char>)
    requires
        is_exponent_text(s),
    ensures
        forall|i: int| 0 <= i < s.len() ==> is_literal_char(s[i]),
{
    let sign = sign_len(s.skip(1)) as int;
    let d = s.skip(1 + sign);
    lemma_digits_len_bounds(d);
    assert forall|i: int| 0 <= i < s.len() implies is_literal_char(s[i]) by {
        if i == 0 {
        } else if i < 1 + sign {
            assert(s[i] == s.skip(1)[0]);
        } else {
            assert(s[i] == d[i - 1 - sign]);
        }
    }
}

/// A number is not empty and is made of digits, a point, a letter and signs.
proof fn lemma_number_chars(s: Seq<char>)
    requires
        is_number_text(s),
    ensures
        s.len() > 0,
        forall|i: int| 0 <= i < s.len() ==> is_literal_char(s[i]),
{
    let a = digits_len(s) as int;
    lemma_digits_len_bounds(s);
    let rest = s.skip(a);
    let dot = rest.len() > 0 && rest[0] == '.';
    if dot {
        let b = digits_len(rest.skip(1)) as int;
        lemma_digits_len_bounds(rest.skip(1));
        let tail = rest.skip(1 + b);
        if tail.len() > 0 {
            lemma_exponent_chars(tail);
        }
        assert forall|i: int| 0 <= i < s.len() implies is_literal_char(s[i]) by {
            if i < a {
            } else if i == a {
                assert(s[i] == rest[0]);
            } else if i < a + 1 + b {
                assert(s[i] == rest.skip(1)[i - a - 1]);
            } else {
                assert(s[i] == tail[i - a - 1 - b]);
            }
        }
    } else {
        if rest.len() > 0 {
            lemma_exponent_chars(rest);
        }
        assert forall|i: int| 0 <= i < s.len() implies is_literal_char(s[i]) by {
            if i >= a {
                assert(s[i] == rest[i - a]);
            }
        }
    }
}

/// A floating-point literal is not empty and is made of digits, points,
/// signs and letters: it holds no blank and no line feed.
pub proof fn lemma_float_chars(s: Seq<char>)
    requires
        is_float_text(s),
    ensures
        s.len() > 0,
        forall|i: int| 0 <= i < s.len() ==> is_literal_char(s[i]),
{
    let sign = sign_len(s) as int;
    let u = s.skip(sign);
    if is_special_text(u) {
    } else {
        lemma_number_chars(u);
    }
    assert forall|i: int| 0 <= i < s.len() implies is_literal_char(s[i]) by {
        if i >= sign {
            assert(s[i] == u[i - sign]);
        }
    }
}

} // verus!

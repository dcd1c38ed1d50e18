//! Numeric fields. A coordinate or colour component is kept as the decimal
//! literal that stands in the text, so that nothing is lost or rounded between
//! reading a line and writing it again. The literals accepted are exactly the
//! ones that the standard library reads as a 64-bit floating-point number.

use vstd::prelude::*;
use vstd::string::StringExecFns;
use vstd::string::StrSliceExecFns;
use crate::integer::{all_digits, digit_of, has_sign, is_digit, is_integer, unsigned_part};
use crate::prefix::{leading, lemma_leading_bounds, lemma_leading_is};
use crate::text::{chars_of, is_whitespace, is_word, Span};

verus! {

/// Length of the longest prefix of `s` made of decimal digits.
pub open spec fn digit_run(s: Seq<char>) -> nat {
    leading(s, |c: char| is_digit(c))
}

/// `s` is the word `lower`, each letter in either case.
pub open spec fn spells(s: Seq<char>, lower: Seq<char>, upper: Seq<char>) -> bool {
    &&& s.len() == lower.len()
    &&& forall|i: int| 0 <= i < s.len() ==> #[trigger] s[i] == lower[i] || s[i] == upper[i]
}

/// The names of the values that are not finite numbers: `inf`, `infinity`
/// and `nan`, in any mix of upper and lower case.
pub open spec fn is_special(s: Seq<char>) -> bool {
    ||| spells(s, seq!['i', 'n', 'f'], seq!['I', 'N', 'F'])
    ||| spells(
        s,
        seq!['i', 'n', 'f', 'i', 'n', 'i', 't', 'y'],
        seq!['I', 'N', 'F', 'I', 'N', 'I', 'T', 'Y'],
    )
    ||| spells(s, seq!['n', 'a', 'n'], seq!['N', 'A', 'N'])
}

/// An exponent: `e` or `E`, then integer text.
pub open spec fn is_exponent(s: Seq<char>) -> bool {
    &&& s.len() > 0
    &&& (s[0] == 'e' || s[0] == 'E')
    &&& is_integer(s.drop_first())
}

/// What follows the integer digits of a decimal: nothing, a fraction, an
/// exponent, or a fraction and then an exponent. `int_digits` says how many
/// digits came before; with none, the fraction must hold at least one.
pub open spec fn is_decimal_tail(s: Seq<char>, int_digits: nat) -> bool {
    if s.len() > 0 && s[0] == '.' {
        let frac = s.drop_first();
        let rest = frac.skip(digit_run(frac) as int);
        int_digits + digit_run(frac) > 0 && (rest.len() == 0 || is_exponent(rest))
    } else {
        int_digits > 0 && (s.len() == 0 || is_exponent(s))
    }
}

/// An unsigned decimal: digits with an optional point among, before or after
/// them, and an optional exponent.
pub open spec fn is_decimal(s: Seq<char>) -> bool {
    is_decimal_tail(s.skip(digit_run(s) as int), digit_run(s))
}

/// A numeric literal: an optional sign, then a decimal or the name of a
/// special value.
pub open spec fn is_number(s: Seq<char>) -> bool {
    is_special(unsigned_part(s)) || is_decimal(unsigned_part(s))
}

/// The characters that a numeric literal can be made of.
pub open spec fn is_number_char(c: char) -> bool {
    ||| is_digit(c)
    ||| c == '+'
    ||| c == '-'
    ||| c == '.'
    ||| ('a' <= c <= 'z')
    ||| ('A' <= c <= 'Z')
}

/// The leading run of digits lies inside the text, holds digits only, and
/// ends before a character that is no digit.
pub proof fn lemma_digit_run_bounds(s: Seq<char>)
    ensures
        digit_run(s) <= s.len(),
        forall|i: int| 0 <= i < digit_run(s) ==> is_digit(#[trigger] s[i]),
        digit_run(s) < s.len() ==> !is_digit(s[digit_run(s) as int]),
{
    lemma_leading_bounds(s, |c: char| is_digit(c));
}

/// A stretch of digits that ends at another character, or at the end of the
/// text, is exactly the leading run of digits.
pub proof fn lemma_digit_run_is(s: Seq<char>, k: int)
    requires
        0 <= k <= s.len(),
        forall|i: int| 0 <= i < k ==> is_digit(#[trigger] s[i]),
        k < s.len() ==> !is_digit(s[k]),
    ensures
        digit_run(s) == k,
{
    lemma_leading_is(s, |c: char| is_digit(c), k);
}

/// Text is all digits exactly when its leading run of digits is all of it.
pub proof fn lemma_all_digits_run(s: Seq<char>)
    ensures
        all_digits(s) <==> digit_run(s) == s.len(),
{
    lemma_digit_run_bounds(s);
    if all_digits(s) {
        lemma_digit_run_is(s, s.len() as int);
    }
}

/// Integer text holds only characters of numeric literals.
proof fn lemma_integer_chars(s: Seq<char>)
    requires
        is_integer(s),
    ensures
        forall|i: int| 0 <= i < s.len() ==> is_number_char(#[trigger] s[i]),
{
    let d = unsigned_part(s);
    assert forall|i: int| 0 <= i < s.len() implies is_number_char(#[trigger] s[i]) by {
        if has_sign(s) {
            if i > 0 {
                assert(s[i] == d[i - 1]);
            }
        } else {
            assert(s[i] == d[i]);
        }
    }
}

/// An exponent holds only characters of numeric literals.
proof fn lemma_exponent_chars(s: Seq<char>)
    requires
        is_exponent(s),
    ensures
        forall|i: int| 0 <= i < s.len() ==> is_number_char(#[trigger] s[i]),
{
    let t = s.drop_first();
    lemma_integer_chars(t);
    assert forall|i: int| 0 <= i < s.len() implies is_number_char(#[trigger] s[i]) by {
        if i > 0 {
            assert(s[i] == t[i - 1]);
        }
    }
}

/// A decimal is not empty and holds only characters of numeric literals.
proof fn lemma_decimal_chars(s: Seq<char>)
    requires
        is_decimal(s),
    ensures
        s.len() > 0,
        forall|i: int| 0 <= i < s.len() ==> is_number_char(#[trigger] s[i]),
{
    lemma_digit_run_bounds(s);
    let n = digit_run(s) as int;
    let tail = s.skip(n);
    assert forall|i: int| 0 <= i < s.len() implies is_number_char(#[trigger] s[i]) by {
        if i < n {
        } else if tail.len() > 0 && tail[0] == '.' {
            let frac = tail.drop_first();
            lemma_digit_run_bounds(frac);
            let f = digit_run(frac) as int;
            let rest = frac.skip(f);
            if i == n {
                assert(s[i] == tail[0]);
            } else if i < n + 1 + f {
                assert(s[i] == frac[i - n - 1]);
            } else {
                lemma_exponent_chars(rest);
                assert(s[i] == rest[i - n - 1 - f]);
            }
        } else {
            lemma_exponent_chars(tail);
            assert(s[i] == tail[i - n]);
        }
    }
    if tail.len() > 0 && tail[0] == '.' {
    } else {
        assert(n > 0);
    }
}

/// A numeric literal is one word, and holds only digits, signs, a point and
/// ASCII letters.
pub proof fn lemma_number_is_word(s: Seq<char>)
    requires
        is_number(s),
    ensures
        is_word(s),
        forall|i: int| 0 <= i < s.len() ==> is_number_char(#[trigger] s[i]),
{
    let body = unsigned_part(s);
    if is_decimal(body) {
        lemma_decimal_chars(body);
    }
    assert(body.len() > 0);
    assert forall|i: int| 0 <= i < body.len() implies is_number_char(#[trigger] body[i]) by {
        if is_decimal(body) {
        } else {
            let c = body[i];
            assert(('a' <= c <= 'z') || ('A' <= c <= 'Z'));
        }
    }
    assert forall|i: int| 0 <= i < s.len() implies is_number_char(#[trigger] s[i]) by {
        if has_sign(s) {
            if i > 0 {
                assert(s[i] == body[i - 1]);
            }
        } else {
            assert(s[i] == body[i]);
        }
    }
    assert forall|i: int| 0 <= i < s.len() implies !is_whitespace(#[trigger] s[i]) by {
        assert(is_number_char(s[i]));
    }
}

/// The position of the first character at or after `from` that is not a
/// digit, or `end` if there is none before it.
fn skip_digits(chars: &Vec<char>, from: usize, end: usize) -> (r: usize)
    requires
        from <= end <= chars@.len(),
    ensures
        from <= r <= end,
        r - from == digit_run(chars@.subrange(from as int, end as int)),
{
    let ghost s = chars@.subrange(from as int, end as int);
    let mut i = from;
    while i < end && digit_of(chars[i]).is_some()
        invariant
            from <= i <= end <= chars@.len(),
            s == chars@.subrange(from as int, end as int),
            forall|k: int| 0 <= k < i - from ==> is_digit(#[trigger] s[k]),
        decreases end - i,
    {
        i += 1;
    }
    proof {
        lemma_digit_run_is(s, i - from);
    }
    i
}

/// Whether the character at `at` is `lower` or `upper`.
fn letter_at(chars: &Vec<char>, at: usize, lower: char, upper: char) -> (r: bool)
    requires
        at < chars@.len(),
    ensures
        r == (chars@[at as int] == lower || chars@[at as int] == upper),
{
    chars[at] == lower || chars[at] == upper
}

/// Whether the stretch from `from` to `end` names a special value.
fn check_special(chars: &Vec<char>, from: usize, end: usize) -> (r: bool)
    requires
        from <= end <= chars@.len(),
    ensures
        r == is_special(chars@.subrange(from as int, end as int)),
{
    let ghost s = chars@.subrange(from as int, end as int);
    assert(forall|i: int| 0 <= i < s.len() ==> #[trigger] s[i] == chars@[from + i]);
    if end - from == 3 {
        let inf = letter_at(chars, from, 'i', 'I') && letter_at(chars, from + 1, 'n', 'N')
            && letter_at(chars, from + 2, 'f', 'F');
        let nan = letter_at(chars, from, 'n', 'N') && letter_at(chars, from + 1, 'a', 'A')
            && letter_at(chars, from + 2, 'n', 'N');
        proof {
            let lo = seq!['i', 'n', 'f'];
            let up = seq!['I', 'N', 'F'];
            assert(inf == spells(s, lo, up)) by {
                if !inf {
                    assert(!(s[0] == lo[0] || s[0] == up[0]) || !(s[1] == lo[1] || s[1] == up[1])
                        || !(s[2] == lo[2] || s[2] == up[2]));
                }
            }
            let lo = seq!['n', 'a', 'n'];
            let up = seq!['N', 'A', 'N'];
            assert(nan == spells(s, lo, up)) by {
                if !nan {
                    assert(!(s[0] == lo[0] || s[0] == up[0]) || !(s[1] == lo[1] || s[1] == up[1])
                        || !(s[2] == lo[2] || s[2] == up[2]));
                }
            }
        }
        inf || nan
    } else if end - from == 8 {
        let r = letter_at(chars, from, 'i', 'I') && letter_at(chars, from + 1, 'n', 'N')
            && letter_at(chars, from + 2, 'f', 'F') && letter_at(chars, from + 3, 'i', 'I')
            && letter_at(chars, from + 4, 'n', 'N') && letter_at(chars, from + 5, 'i', 'I')
            && letter_at(chars, from + 6, 't', 'T') && letter_at(chars, from + 7, 'y', 'Y');
        proof {
            let lo = seq!['i', 'n', 'f', 'i', 'n', 'i', 't', 'y'];
            let up = seq!['I', 'N', 'F', 'I', 'N', 'I', 'T', 'Y'];
            assert(r == spells(s, lo, up)) by {
                if !r {
                    assert(!(s[0] == lo[0] || s[0] == up[0]) || !(s[1] == lo[1] || s[1] == up[1])
                        || !(s[2] == lo[2] || s[2] == up[2]) || !(s[3] == lo[3] || s[3] == up[3])
                        || !(s[4] == lo[4] || s[4] == up[4]) || !(s[5] == lo[5] || s[5] == up[5])
                        || !(s[6] == lo[6] || s[6] == up[6]) || !(s[7] == lo[7] || s[7]
                        == up[7]));
                }
            }
        }
        r
    } else {
        false
    }
}

/// Whether the stretch from `from` to `end` is an exponent.
fn check_exponent(chars: &Vec<char>, from: usize, end: usize) -> (r: bool)
    requires
        from <= end <= chars@.len(),
    ensures
        r == is_exponent(chars@.subrange(from as int, end as int)),
{
    let ghost s = chars@.subrange(from as int, end as int);
    if from == end {
        return false;
    }
    assert(s[0] == chars@[from as int]);
    if chars[from] != 'e' && chars[from] != 'E' {
        return false;
    }
    let ghost t = s.drop_first();
    assert(t =~= chars@.subrange(from + 1, end as int));
    let mut i = from + 1;
    if i < end && (chars[i] == '+' || chars[i] == '-') {
        assert(t[0] == chars@[i as int]);
        i += 1;
    } else if i < end {
        assert(t[0] == chars@[i as int]);
    }
    let ghost d = chars@.subrange(i as int, end as int);
    assert(d =~= unsigned_part(t));
    let stop = skip_digits(chars, i, end);
    proof {
        lemma_all_digits_run(d);
    }
    i < end && stop == end
}

/// Whether the stretch `span` of `chars` is a numeric literal.
pub fn check_number(chars: &Vec<char>, span: Span) -> (r: bool)
    requires
        span.fits(chars@.len()),
    ensures
        r == is_number(span.of(chars@)),
{
    let ghost s = span.of(chars@);
    let end = span.end;
    let mut i = span.start;
    if i < end {
        assert(s[0] == chars@[i as int]);
        if chars[i] == '+' || chars[i] == '-' {
            i += 1;
        }
    }
    let ghost body = chars@.subrange(i as int, end as int);
    assert(body =~= unsigned_part(s));
    if check_special(chars, i, end) {
        return true;
    }
    let int_end = skip_digits(chars, i, end);
    let int_digits = int_end - i;
    let ghost tail = body.skip(int_digits as int);
    assert(tail =~= chars@.subrange(int_end as int, end as int));
    if int_end < end && chars[int_end] == '.' {
        assert(tail[0] == chars@[int_end as int]);
        let ghost frac = tail.drop_first();
        assert(frac =~= chars@.subrange(int_end + 1, end as int));
        let frac_end = skip_digits(chars, int_end + 1, end);
        let frac_digits = frac_end - (int_end + 1);
        let ghost rest = frac.skip(frac_digits as int);
        assert(rest =~= chars@.subrange(frac_end as int, end as int));
        if int_digits == 0 && frac_digits == 0 {
            return false;
        }
        frac_end == end || check_exponent(chars, frac_end, end)
    } else {
        if int_end < end {
            assert(tail[0] == chars@[int_end as int]);
        }
        int_digits > 0 && (int_end == end || check_exponent(chars, int_end, end))
    }
}

/// A numeric field: a numeric literal, kept as written.
#[derive(Debug, PartialEq, Eq)]
pub struct Number {
    text: String,
}

impl Clone for Number {
    fn clone(&self) -> (r: Self)
        ensures
            r@ == self@,
    {
        proof {
            use_type_invariant(self);
        }
        Number { text: self.text.clone() }
    }
}

impl View for Number {
    type V = Seq<char>;

    closed spec fn view(&self) -> Seq<char> {
        self.text@
    }
}

impl Number {
    #[verifier::type_invariant]
    /// The text held is a numeric literal.
    spec fn well_formed(self) -> bool {
        is_number(self.text@)
    }

    /// Reads a numeric literal. Succeeds exactly on the texts that are one.
    pub fn parse(text: &str) -> (r: Option<Number>)
        ensures
            r is Some <==> is_number(text@),
            r is Some ==> r->0@ == text@,
    {
        let chars = chars_of(text);
        let span = Span { start: 0, end: chars.len() };
        assert(span.of(chars@) =~= text@);
        Number::read(text, &chars, span)
    }

    /// Reads the stretch `span` of `line`, whose characters are `chars`, as a
    /// numeric literal.
    pub(crate) fn read(line: &str, chars: &Vec<char>, span: Span) -> (r: Option<Number>)
        requires
            chars@ == line@,
            span.fits(chars@.len()),
        ensures
            r is Some <==> is_number(span.of(chars@)),
            r is Some ==> r->0@ == span.of(chars@),
    {
        if check_number(chars, span) {
            let text = String::from_str(line.substring_char(span.start, span.end));
            Some(Number { text })
        } else {
            None
        }
    }

    /// Whether the field holds a numeric literal. Every one does.
    pub fn is_literal(&self) -> (r: bool)
        ensures
            r,
            is_number(self@),
    {
        proof {
            use_type_invariant(self);
        }
        true
    }

    /// The literal.
    pub fn as_str(&self) -> (r: &str)
        ensures
            r@ == self@,
            is_number(r@),
    {
        proof {
            use_type_invariant(self);
        }
        self.text.as_str()
    }
}

} // verus!

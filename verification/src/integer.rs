//! Decimal text of integers: which words denote a 64-bit integer, which
//! integer they denote, and the canonical text of each integer.

use vstd::prelude::*;
use vstd::string::StringExecFns;
use crate::text::{chars_of, is_whitespace, is_word, Span};

verus! {

/// A decimal digit.
pub open spec fn is_digit(c: char) -> bool {
    '0' <= c <= '9'
}

/// The value of a decimal digit.
pub open spec fn digit_value(c: char) -> int {
    c as int - '0' as int
}

/// The decimal digit with the value `d`.
pub open spec fn digit_char(d: int) -> char {
    (d + '0' as int) as char
}

/// Every character is a decimal digit.
pub open spec fn all_digits(s: Seq<char>) -> bool {
    forall|i: int| 0 <= i < s.len() ==> is_digit(#[trigger] s[i])
}

/// The number that a run of decimal digits denotes.
pub open spec fn digits_value(s: Seq<char>) -> int
    decreases s.len(),
{
    if s.len() == 0 {
        0
    } else {
        10 * digits_value(s.drop_last()) + digit_value(s.last())
    }
}

/// The text begins with `+` or `-`.
pub open spec fn has_sign(s: Seq<char>) -> bool {
    s.len() > 0 && (s[0] == '+' || s[0] == '-')
}

/// The text without its leading sign, if it has one.
pub open spec fn unsigned_part(s: Seq<char>) -> Seq<char> {
    if has_sign(s) {
        s.drop_first()
    } else {
        s
    }
}

/// Integer text: an optional sign, then one or more decimal digits.
pub open spec fn is_integer(s: Seq<char>) -> bool {
    unsigned_part(s).len() > 0 && all_digits(unsigned_part(s))
}

/// The value of integer text.
pub open spec fn integer_value(s: Seq<char>) -> int {
    if s.len() > 0 && s[0] == '-' {
        -digits_value(unsigned_part(s))
    } else {
        digits_value(unsigned_part(s))
    }
}

/// What a word denotes as a 64-bit integer, if anything: it must be integer
/// text and its value must fit.
pub open spec fn parse_i64_spec(s: Seq<char>) -> Option<i64> {
    if is_integer(s) && i64::MIN <= integer_value(s) <= i64::MAX {
        Some(integer_value(s) as i64)
    } else {
        None
    }
}

/// The decimal digits of a natural number, without leading zeros.
pub open spec fn nat_text(n: nat) -> Seq<char>
    decreases n,
{
    if n < 10 {
        seq![digit_char(n as int)]
    } else {
        nat_text(n / 10).push(digit_char((n % 10) as int))
    }
}

/// The canonical text of an integer: a minus sign if it is negative, then the
/// digits of its magnitude.
pub open spec fn int_text(n: int) -> Seq<char> {
    if n < 0 {
        seq!['-'] + nat_text((-n) as nat)
    } else {
        nat_text(n as nat)
    }
}

/// A digit has the value it was made from, and is neither whitespace nor a
/// separator nor a sign.
pub proof fn lemma_digit_char(d: int)
    requires
        0 <= d < 10,
    ensures
        is_digit(digit_char(d)),
        digit_value(digit_char(d)) == d,
        !is_whitespace(digit_char(d)),
        digit_char(d) != '/',
        digit_char(d) != '-',
        digit_char(d) != '+',
{
}

/// More digits never denote less.
pub proof fn lemma_digits_value_prefix(s: Seq<char>, k: int)
    requires
        all_digits(s),
        0 <= k <= s.len(),
    ensures
        0 <= digits_value(s.take(k)) <= digits_value(s),
    decreases s.len() - k,
{
    if k == s.len() {
        assert(s.take(k) =~= s);
        lemma_digits_value_nonneg(s);
    } else {
        lemma_digits_value_prefix(s, k + 1);
        let t = s.take(k + 1);
        assert(t.drop_last() =~= s.take(k));
        assert(t.last() == s[k]);
        lemma_digits_value_nonneg(s.take(k));
        assert(all_digits(s.take(k)));
    }
}

/// Digits denote no negative number.
pub proof fn lemma_digits_value_nonneg(s: Seq<char>)
    requires
        all_digits(s),
    ensures
        0 <= digits_value(s),
    decreases s.len(),
{
    if s.len() > 0 {
        lemma_digits_value_nonneg(s.drop_last());
    }
}

/// The digits of a natural number denote it.
pub proof fn lemma_nat_text(n: nat)
    ensures
        nat_text(n).len() > 0,
        all_digits(nat_text(n)),
        digits_value(nat_text(n)) == n,
    decreases n,
{
    if n < 10 {
        lemma_digit_char(n as int);
        let s = nat_text(n);
        assert(s.drop_last() =~= Seq::<char>::empty());
        assert(digits_value(s.drop_last()) == 0);
    } else {
        lemma_nat_text(n / 10);
        lemma_digit_char((n % 10) as int);
        let s = nat_text(n);
        assert(s.drop_last() =~= nat_text(n / 10));
    }
}

/// The canonical text of an integer is integer text, and denotes it.
pub proof fn lemma_int_text(n: int)
    ensures
        is_integer(int_text(n)),
        integer_value(int_text(n)) == n,
{
    if n < 0 {
        lemma_nat_text((-n) as nat);
        assert(int_text(n).drop_first() =~= nat_text((-n) as nat));
    } else {
        lemma_nat_text(n as nat);
        let s = nat_text(n as nat);
        assert(is_digit(s[0]));
    }
}

/// Reading the canonical text of a 64-bit integer gives the integer back.
pub proof fn lemma_parse_int_text(n: i64)
    ensures
        parse_i64_spec(int_text(n as int)) == Some(n),
{
    lemma_int_text(n as int);
}

/// The canonical text of an integer is one word, made of digits and at most
/// a leading minus sign; in particular it holds no `/`.
pub proof fn lemma_int_text_chars(n: int)
    ensures
        is_word(int_text(n)),
        forall|i: int| 0 <= i < int_text(n).len() ==> #[trigger] int_text(n)[i] != '/',
{
    let s = int_text(n);
    if n < 0 {
        lemma_nat_text((-n) as nat);
        let d = nat_text((-n) as nat);
        assert forall|i: int| 0 <= i < s.len() implies !is_whitespace(#[trigger] s[i]) && s[i]
            != '/' by {
            if i > 0 {
                assert(s[i] == d[i - 1]);
                assert(is_digit(d[i - 1]));
            }
        }
    } else {
        lemma_nat_text(n as nat);
        assert forall|i: int| 0 <= i < s.len() implies !is_whitespace(#[trigger] s[i]) && s[i]
            != '/' by {
            assert(is_digit(s[i]));
        }
    }
}

/// The value of a decimal digit, or `None` for any other character.
pub fn digit_of(c: char) -> (r: Option<u64>)
    ensures
        r is Some <==> is_digit(c),
        r is Some ==> r->0 == digit_value(c),
{
    match c {
        '0' => Some(0),
        '1' => Some(1),
        '2' => Some(2),
        '3' => Some(3),
        '4' => Some(4),
        '5' => Some(5),
        '6' => Some(6),
        '7' => Some(7),
        '8' => Some(8),
        '9' => Some(9),
        _ => None,
    }
}

/// Reads the stretch `span` of `chars` as a 64-bit integer.
pub fn parse_i64(chars: &Vec<char>, span: Span) -> (r: Option<i64>)
    requires
        span.fits(chars@.len()),
    ensures
        r == parse_i64_spec(span.of(chars@)),
{
    let ghost s = span.of(chars@);
    let end = span.end;
    let mut i = span.start;
    if i == end {
        return None;
    }
    let first = chars[i];
    assert(first == s[0]);
    let negative = first == '-';
    if first == '-' || first == '+' {
        i += 1;
    }
    let from = i;
    let ghost d = chars@.subrange(from as int, end as int);
    assert(d =~= unsigned_part(s));
    if i == end {
        return None;
    }
    let limit: u64 = 9223372036854775808;
    let mut acc: u64 = 0;
    assert(d.take(0) =~= Seq::<char>::empty());
    while i < end
        invariant
            from <= i <= end <= chars@.len(),
            s == span.of(chars@),
            s.len() > 0,
            negative == (s[0] == '-'),
            d == chars@.subrange(from as int, end as int),
            d == unsigned_part(s),
            all_digits(d.take(i - from)),
            acc == digits_value(d.take(i - from)),
            acc <= limit,
            limit == 9223372036854775808,
        decreases end - i,
    {
        let ghost k = i - from;
        assert(d[k] == chars@[i as int]);
        let ghost next = d.take(k + 1);
        assert(next.drop_last() =~= d.take(k));
        assert(next.last() == d[k]);
        match digit_of(chars[i]) {
            None => {
                return None;
            },
            Some(v) => {
                if acc > (limit - v) / 10 {
                    proof {
                        if all_digits(d) {
                            lemma_digits_value_prefix(d, k + 1);
                        }
                    }
                    return None;
                }
                acc = acc * 10 + v;
                assert forall|j: int| 0 <= j < next.len() implies is_digit(#[trigger] next[j]) by {
                    if j < k {
                        assert(next[j] == d.take(k)[j]);
                    }
                }
            },
        }
        i += 1;
    }
    assert(d.take(end - from) =~= d);
    if negative {
        if acc == limit {
            Some(i64::MIN)
        } else {
            Some(-(acc as i64))
        }
    } else {
        if acc == limit {
            None
        } else {
            Some(acc as i64)
        }
    }
}

/// Reads a whole text as a 64-bit integer.
pub fn parse(text: &str) -> (r: Option<i64>)
    ensures
        r == parse_i64_spec(text@),
{
    let chars = chars_of(text);
    let span = Span { start: 0, end: chars.len() };
    assert(span.of(chars@) =~= text@);
    parse_i64(&chars, span)
}

/// Appends one decimal digit.
fn append_digit(out: &mut String, d: u64)
    requires
        d < 10,
    ensures
        final(out)@ == old(out)@.push(digit_char(d as int)),
{
    proof {
        reveal_strlit("0");
        reveal_strlit("1");
        reveal_strlit("2");
        reveal_strlit("3");
        reveal_strlit("4");
        reveal_strlit("5");
        reveal_strlit("6");
        reveal_strlit("7");
        reveal_strlit("8");
        reveal_strlit("9");
    }
    let text = match d {
        0 => "0",
        1 => "1",
        2 => "2",
        3 => "3",
        4 => "4",
        5 => "5",
        6 => "6",
        7 => "7",
        8 => "8",
        _ => "9",
    };
    assert(text@ =~= seq![digit_char(d as int)]);
    out.append(text);
    assert(final(out)@ =~= old(out)@.push(digit_char(d as int)));
}

/// Appends the decimal digits of `n`.
fn append_nat(out: &mut String, n: u64)
    ensures
        final(out)@ == old(out)@ + nat_text(n as nat),
    decreases n,
{
    if n < 10 {
        append_digit(out, n);
        assert(final(out)@ =~= old(out)@ + nat_text(n as nat));
    } else {
        append_nat(out, n / 10);
        append_digit(out, n % 10);
        assert(final(out)@ =~= old(out)@ + nat_text(n as nat));
    }
}

/// Appends the canonical text of `n`.
pub fn append_i64(out: &mut String, n: i64)
    ensures
        final(out)@ == old(out)@ + int_text(n as int),
{
    if n < 0 {
        proof {
            reveal_strlit("-");
        }
        out.append("-");
        let magnitude: u64 = if n == i64::MIN {
            9223372036854775808
        } else {
            (-n) as u64
        };
        append_nat(out, magnitude);
        assert(final(out)@ =~= old(out)@ + int_text(n as int));
    } else {
        append_nat(out, n as u64);
    }
}

} // verus!

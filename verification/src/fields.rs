//! Reading the fields that follow the leading token of a line. Both formats
//! share the three shapes here: free text, numeric literals and integers.

use vstd::prelude::*;
use vstd::string::StringExecFns;
use crate::error::ParseError;
use crate::integer::{parse_i64, parse_i64_spec};
use crate::number::{is_number, Number};
use crate::prefix::{leading, lemma_leading_is};
use crate::text::{
    append_space, chars_of, is_word, join, join_words, lemma_join_few, lemma_join_push,
    lemma_tokens_are_words,
    spans_fit, spans_of, tokens, Span,
};

verus! {

/// The fields of a line: its tokens but the first.
pub open spec fn fields_of(spans: Seq<Span>, chars: Seq<char>) -> Seq<Seq<char>> {
    spans_of(spans, chars).drop_first()
}

/// Numeric fields: there must be at least `min` and at most `max` of them, and
/// each must be a numeric literal. Of several malformed fields the first is
/// reported.
pub open spec fn lex_numbers(args: Seq<Seq<char>>, min: nat, max: nat) -> Result<
    Seq<Seq<char>>,
    ParseError,
> {
    let good = leading(args, |a: Seq<char>| is_number(a));
    if !(min <= args.len() <= max) {
        Err(ParseError::WrongArity { found: args.len() as usize })
    } else if good < args.len() {
        Err(ParseError::MalformedNumber { field: good as usize })
    } else {
        Ok(args)
    }
}

/// Integer fields: any number of them, each the decimal text of a 64-bit
/// integer. Of several malformed fields the first is reported.
pub open spec fn lex_integers(args: Seq<Seq<char>>) -> Result<Seq<i64>, ParseError> {
    let good = leading(args, |a: Seq<char>| parse_i64_spec(a) is Some);
    if good < args.len() {
        Err(ParseError::MalformedInteger { field: good as usize })
    } else {
        Ok(Seq::new(args.len(), |i: int| parse_i64_spec(args[i])->0))
    }
}

/// The literals of a list of numeric fields.
pub open spec fn literals(numbers: Seq<Number>) -> Seq<Seq<char>> {
    Seq::new(numbers.len(), |i: int| numbers[i]@)
}

/// Whether the stretch `span` of `chars` is the word `word`.
pub fn word_is(chars: &Vec<char>, span: Span, word: &str) -> (r: bool)
    requires
        span.fits(chars@.len()),
    ensures
        r == (span.of(chars@) == word@),
{
    let letters = chars_of(word);
    let n = letters.len();
    if span.end - span.start != n {
        return false;
    }
    let ghost s = span.of(chars@);
    let mut i: usize = 0;
    while i < n
        invariant
            i <= n,
            n == letters@.len(),
            letters@ == word@,
            span.fits(chars@.len()),
            span.end - span.start == n,
            s == span.of(chars@),
            forall|k: int| 0 <= k < i ==> s[k] == letters@[k],
        decreases n - i,
    {
        assert(s[i as int] == chars@[span.start + i]);
        if chars[span.start + i] != letters[i] {
            return false;
        }
        i += 1;
    }
    assert(s =~= letters@);
    true
}

/// The fields of a line as one text, with single spaces between them.
pub fn read_text(line: &str, chars: &Vec<char>, spans: &Vec<Span>) -> (r: String)
    requires
        chars@ == line@,
        spans_fit(spans@, chars@.len()),
        spans@.len() >= 1,
    ensures
        r@ == join(fields_of(spans@, chars@)),
{
    assert(spans_of(spans@, chars@).skip(1) =~= fields_of(spans@, chars@));
    join_words(line, chars, spans, 1)
}

/// The fields of a line as numeric literals, `min` to `max` of them.
pub fn read_numbers(
    line: &str,
    chars: &Vec<char>,
    spans: &Vec<Span>,
    min: usize,
    max: usize,
) -> (r: Result<Vec<Number>, ParseError>)
    requires
        chars@ == line@,
        spans_fit(spans@, chars@.len()),
        spans@.len() >= 1,
    ensures
        match r {
            Ok(numbers) => lex_numbers(fields_of(spans@, chars@), min as nat, max as nat) == Ok::<
                Seq<Seq<char>>,
                ParseError,
            >(literals(numbers@)),
            Err(e) => lex_numbers(fields_of(spans@, chars@), min as nat, max as nat) == Err::<
                Seq<Seq<char>>,
                ParseError,
            >(e),
        },
{
    let ghost args = fields_of(spans@, chars@);
    let ghost good = |a: Seq<char>| is_number(a);
    let n = spans.len();
    let found = n - 1;
    if found < min || found > max {
        return Err(ParseError::WrongArity { found });
    }
    let mut numbers: Vec<Number> = Vec::new();
    let mut i: usize = 1;
    while i < n
        invariant
            1 <= i <= n,
            n == spans@.len(),
            chars@ == line@,
            spans_fit(spans@, chars@.len()),
            args == fields_of(spans@, chars@),
            good == |a: Seq<char>| is_number(a),
            min <= args.len() <= max,
            numbers@.len() == i - 1,
            forall|k: int| 0 <= k < i - 1 ==> good(#[trigger] args[k]),
            forall|k: int| 0 <= k < i - 1 ==> (#[trigger] numbers@[k])@ == args[k],
        decreases n - i,
    {
        let span = spans[i];
        assert(span.fits(chars@.len()));
        assert(args[i - 1] == span.of(chars@));
        match Number::read(line, chars, span) {
            Some(number) => {
                numbers.push(number);
            },
            None => {
                proof {
                    lemma_leading_is(args, good, i - 1);
                }
                return Err(ParseError::MalformedNumber { field: i - 1 });
            },
        }
        i += 1;
    }
    proof {
        lemma_leading_is(args, good, args.len() as int);
        assert(literals(numbers@) =~= args);
    }
    Ok(numbers)
}

/// The fields of a line as 64-bit integers.
pub fn read_integers(chars: &Vec<char>, spans: &Vec<Span>) -> (r: Result<Vec<i64>, ParseError>)
    requires
        spans_fit(spans@, chars@.len()),
        spans@.len() >= 1,
    ensures
        match r {
            Ok(values) => lex_integers(fields_of(spans@, chars@)) == Ok::<Seq<i64>, ParseError>(
                values@,
            ),
            Err(e) => lex_integers(fields_of(spans@, chars@)) == Err::<Seq<i64>, ParseError>(e),
        },
{
    let ghost args = fields_of(spans@, chars@);
    let ghost good = |a: Seq<char>| parse_i64_spec(a) is Some;
    let n = spans.len();
    let mut values: Vec<i64> = Vec::new();
    let mut i: usize = 1;
    while i < n
        invariant
            1 <= i <= n,
            n == spans@.len(),
            spans_fit(spans@, chars@.len()),
            args == fields_of(spans@, chars@),
            good == |a: Seq<char>| parse_i64_spec(a) is Some,
            values@.len() == i - 1,
            forall|k: int| 0 <= k < i - 1 ==> good(#[trigger] args[k]),
            forall|k: int| 0 <= k < i - 1 ==> Some(#[trigger] values@[k]) == parse_i64_spec(args[k]),
        decreases n - i,
    {
        let span = spans[i];
        assert(span.fits(chars@.len()));
        assert(args[i - 1] == span.of(chars@));
        match parse_i64(chars, span) {
            Some(value) => {
                values.push(value);
            },
            None => {
                proof {
                    lemma_leading_is(args, good, i - 1);
                }
                return Err(ParseError::MalformedInteger { field: i - 1 });
            },
        }
        i += 1;
    }
    proof {
        lemma_leading_is(args, good, args.len() as int);
        assert(values@ =~= Seq::new(args.len(), |i: int| parse_i64_spec(args[i])->0));
    }
    Ok(values)
}

/// The fields of a tokenised line are words.
pub proof fn lemma_fields_are_words(line: Seq<char>)
    requires
        tokens(line).len() > 0,
    ensures
        forall|i: int|
            0 <= i < tokens(line).drop_first().len() ==> is_word(
                #[trigger] tokens(line).drop_first()[i],
            ),
{
    lemma_tokens_are_words(line);
    let args = tokens(line).drop_first();
    assert forall|i: int| 0 <= i < args.len() implies is_word(#[trigger] args[i]) by {
        assert(args[i] == tokens(line)[i + 1]);
    }
}

/// The literal of an optional numeric field.
pub open spec fn optional_view(n: Option<Number>) -> Option<Seq<char>> {
    match n {
        Some(n) => Some(n@),
        None => None,
    }
}

/// One field if the value is there, none if it is not.
pub open spec fn optional_field(n: Option<Seq<char>>) -> Seq<Seq<char>> {
    match n {
        Some(n) => seq![n],
        None => Seq::empty(),
    }
}

/// Appends a token, a space and one field of text.
pub fn append_text(out: &mut String, token: &str, text: &str)
    ensures
        final(out)@ == old(out)@ + (token@ + seq![' '] + join(seq![text@])),
{
    out.append(token);
    append_space(out);
    out.append(text);
    assert(final(out)@ =~= old(out)@ + (token@ + seq![' '] + join(seq![text@])));
}

/// Appends a token, a space, and two to four numeric fields with single
/// spaces between them.
pub fn append_numbers(
    out: &mut String,
    token: &str,
    a: &Number,
    b: &Number,
    c: Option<&Number>,
    d: Option<&Number>,
)
    ensures
        final(out)@ == old(out)@ + (token@ + seq![' '] + join(
            seq![a@, b@] + optional_field(optional_ref_view(c)) + optional_field(
                optional_ref_view(d),
            ),
        )),
{
    let ghost fields = seq![a@, b@] + optional_field(optional_ref_view(c)) + optional_field(
        optional_ref_view(d),
    );
    out.append(token);
    append_space(out);
    out.append(a.as_str());
    append_space(out);
    out.append(b.as_str());
    let ghost mut written = seq![a@, b@];
    proof {
        lemma_join_few(a@, b@, a@, a@);
    }
    assert(out@ =~= old(out)@ + (token@ + seq![' '] + join(written)));
    if let Some(c) = c {
        append_space(out);
        out.append(c.as_str());
        proof {
            lemma_join_push(written, c@);
            written = written.push(c@);
        }
        assert(out@ =~= old(out)@ + (token@ + seq![' '] + join(written)));
    }
    if let Some(d) = d {
        append_space(out);
        out.append(d.as_str());
        proof {
            lemma_join_push(written, d@);
            written = written.push(d@);
        }
        assert(out@ =~= old(out)@ + (token@ + seq![' '] + join(written)));
    }
    assert(written =~= fields);
}

/// The literal of an optional, borrowed numeric field.
pub open spec fn optional_ref_view(n: Option<&Number>) -> Option<Seq<char>> {
    match n {
        Some(n) => Some(n@),
        None => None,
    }
}

} // verus!

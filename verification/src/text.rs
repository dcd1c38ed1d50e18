//! Words and separators: how a line falls apart into whitespace-separated
//! tokens, and how tokens go back together with single spaces between them.

use vstd::prelude::*;
use vstd::string::StringExecFns;
use vstd::string::StrSliceExecFns;
use crate::prefix::{leading, lemma_leading_bounds, lemma_leading_is};

verus! {

/// The characters that separate tokens: the code points with the Unicode
/// property `White_Space`.
pub open spec fn is_whitespace(c: char) -> bool {
    let u = c as u32;
    ||| 0x09 <= u <= 0x0d
    ||| u == 0x20
    ||| u == 0x85
    ||| u == 0xa0
    ||| u == 0x1680
    ||| 0x2000 <= u <= 0x200a
    ||| u == 0x2028
    ||| u == 0x2029
    ||| u == 0x202f
    ||| u == 0x205f
    ||| u == 0x3000
}

/// A word is a non-empty run of characters none of which is whitespace.
pub open spec fn is_word(s: Seq<char>) -> bool {
    &&& s.len() > 0
    &&& forall|i: int| 0 <= i < s.len() ==> !is_whitespace(#[trigger] s[i])
}

/// Length of the longest whitespace-free prefix of `s`.
pub open spec fn word_len(s: Seq<char>) -> nat {
    leading(s, |c: char| !is_whitespace(c))
}

/// The tokens of a line: its maximal whitespace-free runs, in order.
pub open spec fn tokens(s: Seq<char>) -> Seq<Seq<char>>
    decreases s.len(),
    via tokens_decreases
{
    if s.len() == 0 {
        Seq::empty()
    } else if is_whitespace(s[0]) {
        tokens(s.drop_first())
    } else {
        seq![s.take(word_len(s) as int)] + tokens(s.skip(word_len(s) as int))
    }
}

/// The first word of a text that begins with one is not empty, so what
/// follows it is shorter than the text.
#[via_fn]
proof fn tokens_decreases(s: Seq<char>) {
    lemma_word_len_bounds(s);
}

/// The tokens written out again, with one space between neighbours.
pub open spec fn join(ts: Seq<Seq<char>>) -> Seq<char>
    decreases ts.len(),
{
    if ts.len() == 0 {
        Seq::empty()
    } else if ts.len() == 1 {
        ts[0]
    } else {
        ts[0] + seq![' '] + join(ts.drop_first())
    }
}

/// Text that tokenising and re-joining leaves unchanged: words separated by
/// single spaces, with no whitespace at either end.
pub open spec fn is_normalized(s: Seq<char>) -> bool {
    join(tokens(s)) == s
}

/// The first word lies inside the text, holds no whitespace, and ends before
/// whitespace or at the end of the text.
pub proof fn lemma_word_len_bounds(s: Seq<char>)
    ensures
        word_len(s) <= s.len(),
        s.len() > 0 && !is_whitespace(s[0]) ==> word_len(s) >= 1,
        forall|i: int| 0 <= i < word_len(s) ==> !is_whitespace(#[trigger] s[i]),
        word_len(s) < s.len() ==> is_whitespace(s[word_len(s) as int]),
{
    lemma_leading_bounds(s, |c: char| !is_whitespace(c));
}

/// A whitespace-free stretch that ends at whitespace, or at the end of the
/// text, is exactly the first word.
pub proof fn lemma_word_len_is(s: Seq<char>, k: int)
    requires
        0 <= k <= s.len(),
        forall|i: int| 0 <= i < k ==> !is_whitespace(#[trigger] s[i]),
        k < s.len() ==> is_whitespace(s[k]),
    ensures
        word_len(s) == k,
{
    lemma_leading_is(s, |c: char| !is_whitespace(c), k);
}

/// Every token is a word.
pub proof fn lemma_tokens_are_words(s: Seq<char>)
    ensures
        forall|i: int| 0 <= i < tokens(s).len() ==> is_word(#[trigger] tokens(s)[i]),
    decreases s.len(),
{
    if s.len() == 0 {
        assert(tokens(s).len() == 0);
    } else if is_whitespace(s[0]) {
        lemma_tokens_are_words(s.drop_first());
        assert(tokens(s) == tokens(s.drop_first()));
    } else {
        lemma_word_len_bounds(s);
        let n = word_len(s) as int;
        lemma_tokens_are_words(s.skip(n));
        let rest = tokens(s.skip(n));
        assert(tokens(s) == seq![s.take(n)] + rest);
        assert forall|i: int| 0 <= i < tokens(s).len() implies is_word(#[trigger] tokens(s)[i]) by {
            if i == 0 {
                let w = s.take(n);
                assert(tokens(s)[0] == w);
                assert forall|j: int| 0 <= j < w.len() implies !is_whitespace(#[trigger] w[j]) by {
                    assert(w[j] == s[j]);
                }
            } else {
                assert(tokens(s)[i] == rest[i - 1]);
            }
        }
    }
}

/// A word, one whitespace character and more text: the word is the first
/// token, and the rest tokenises on its own.
pub proof fn lemma_tokens_word_then(w: Seq<char>, sep: char, rest: Seq<char>)
    requires
        is_word(w),
        is_whitespace(sep),
    ensures
        tokens(w + seq![sep] + rest) == seq![w] + tokens(rest),
{
    let s = w + seq![sep] + rest;
    let n = w.len() as int;
    assert forall|i: int| 0 <= i < n implies !is_whitespace(#[trigger] s[i]) by {
        assert(s[i] == w[i]);
    }
    assert(s[n] == sep);
    lemma_word_len_is(s, n);
    assert(s.take(n) =~= w);
    let t = s.skip(n);
    assert(t[0] == sep);
    assert(t.drop_first() =~= rest);
    assert(tokens(t) == tokens(rest));
    assert(!is_whitespace(s[0])) by {
        assert(s[0] == w[0]);
    }
    assert(tokens(s) == seq![s.take(n)] + tokens(t));
}

/// A word alone is its own single token.
pub proof fn lemma_tokens_word(w: Seq<char>)
    requires
        is_word(w),
    ensures
        tokens(w) == seq![w],
{
    lemma_word_len_is(w, w.len() as int);
    assert(w.take(w.len() as int) =~= w);
    assert(w.skip(w.len() as int) =~= Seq::<char>::empty());
    assert(tokens(w.skip(w.len() as int)) =~= Seq::<Seq<char>>::empty());
    assert(tokens(w) =~= seq![w]);
}

/// Joining words with single spaces and tokenising again gives the words back.
pub proof fn lemma_tokens_join(ts: Seq<Seq<char>>)
    requires
        forall|i: int| 0 <= i < ts.len() ==> is_word(#[trigger] ts[i]),
    ensures
        tokens(join(ts)) == ts,
    decreases ts.len(),
{
    if ts.len() == 0 {
        assert(tokens(join(ts)) =~= ts);
    } else if ts.len() == 1 {
        lemma_tokens_word(ts[0]);
        assert(seq![ts[0]] =~= ts);
    } else {
        let rest = ts.drop_first();
        assert forall|i: int| 0 <= i < rest.len() implies is_word(#[trigger] rest[i]) by {
            assert(rest[i] == ts[i + 1]);
        }
        lemma_tokens_join(rest);
        lemma_tokens_word_then(ts[0], ' ', join(rest));
        assert(seq![ts[0]] + rest =~= ts);
    }
}

/// Joining distributes over appending one more word.
pub proof fn lemma_join_push(ts: Seq<Seq<char>>, w: Seq<char>)
    ensures
        join(ts.push(w)) == if ts.len() == 0 {
            w
        } else {
            join(ts) + seq![' '] + w
        },
    decreases ts.len(),
{
    if ts.len() == 0 {
        assert(ts.push(w)[0] == w);
    } else if ts.len() == 1 {
        let p = ts.push(w);
        assert(p.drop_first() =~= seq![w]);
        assert(join(p.drop_first()) == w);
    } else {
        let p = ts.push(w);
        assert(p.drop_first() =~= ts.drop_first().push(w));
        lemma_join_push(ts.drop_first(), w);
        assert(join(p) =~= join(ts) + seq![' '] + w);
    }
}

/// Whether `c` separates tokens.
pub fn is_space(c: char) -> (r: bool)
    ensures
        r == is_whitespace(c),
{
    ('\u{9}' <= c && c <= '\u{d}') || c == ' ' || c == '\u{85}' || c == '\u{a0}' || c
        == '\u{1680}' || ('\u{2000}' <= c && c <= '\u{200a}') || c == '\u{2028}' || c
        == '\u{2029}' || c == '\u{202f}' || c == '\u{205f}' || c == '\u{3000}'
}

/// The characters of `s`, one by one.
pub fn chars_of(s: &str) -> (r: Vec<char>)
    ensures
        r@ == s@,
{
    let mut out: Vec<char> = Vec::new();
    for c in it: s.chars()
        invariant
            it.seq() == s@,
            out@ == it.seq().take(it.index() as int),
    {
        out.push(c);
    }
    out
}

/// A stretch of a line, by the positions of its first character and of the
/// character after its last.
#[derive(Debug, Clone, Copy, PartialEq, Eq)]
pub struct Span {
    pub start: usize,
    pub end: usize,
}

impl Span {
    /// The span lies inside a text of `len` characters.
    pub open spec fn fits(self, len: nat) -> bool {
        self.start <= self.end <= len
    }

    /// The characters of `chars` that the span covers.
    pub open spec fn of(self, chars: Seq<char>) -> Seq<char> {
        chars.subrange(self.start as int, self.end as int)
    }
}

/// All spans lie inside a text of `len` characters.
pub open spec fn spans_fit(spans: Seq<Span>, len: nat) -> bool {
    forall|i: int| 0 <= i < spans.len() ==> (#[trigger] spans[i]).fits(len)
}

/// The stretches of `chars` that the spans cover, in order.
pub open spec fn spans_of(spans: Seq<Span>, chars: Seq<char>) -> Seq<Seq<char>> {
    Seq::new(spans.len(), |i: int| spans[i].of(chars))
}

/// Finds the tokens of a line.
pub fn scan_tokens(chars: &Vec<char>) -> (spans: Vec<Span>)
    ensures
        spans_fit(spans@, chars@.len()),
        spans_of(spans@, chars@) == tokens(chars@),
{
    let n = chars.len();
    let mut spans: Vec<Span> = Vec::new();
    let mut i: usize = 0;
    proof {
        assert(chars@.skip(0) =~= chars@);
        assert(spans_of(spans@, chars@) + tokens(chars@) =~= tokens(chars@));
    }
    while i < n
        invariant
            n == chars@.len(),
            i <= n,
            spans_fit(spans@, chars@.len()),
            tokens(chars@) == spans_of(spans@, chars@) + tokens(chars@.skip(i as int)),
        decreases n - i,
    {
        let ghost rest = chars@.skip(i as int);
        if is_space(chars[i]) {
            proof {
                assert(rest.drop_first() =~= chars@.skip(i + 1));
                assert(tokens(rest) == tokens(rest.drop_first()));
            }
            i += 1;
        } else {
            let start = i;
            i += 1;
            while i < n && !is_space(chars[i])
                invariant
                    n == chars@.len(),
                    start < i <= n,
                    forall|k: int| start <= k < i ==> !is_whitespace(#[trigger] chars@[k]),
                decreases n - i,
            {
                i += 1;
            }
            let span = Span { start, end: i };
            proof {
                let k = i - start;
                assert forall|j: int| 0 <= j < k implies !is_whitespace(#[trigger] rest[j]) by {
                    assert(rest[j] == chars@[start + j]);
                }
                lemma_word_len_is(rest, k);
                assert(rest.take(k) =~= span.of(chars@));
                assert(rest.skip(k) =~= chars@.skip(i as int));
                assert(tokens(rest) == seq![rest.take(k)] + tokens(rest.skip(k)));
                assert(spans_of(spans@.push(span), chars@) =~= spans_of(spans@, chars@) + seq![
                    span.of(chars@),
                ]);
            }
            spans.push(span);
        }
    }
    proof {
        assert(tokens(chars@.skip(i as int)) =~= Seq::<Seq<char>>::empty());
        assert(spans_of(spans@, chars@) + Seq::<Seq<char>>::empty() =~= spans_of(
            spans@,
            chars@,
        ));
    }
    spans
}

/// The stretches of a line from the one at `from` on, as one text with single
/// spaces between them.
pub fn join_words(line: &str, chars: &Vec<char>, spans: &Vec<Span>, from: usize) -> (r: String)
    requires
        chars@ == line@,
        spans_fit(spans@, chars@.len()),
        from <= spans@.len(),
    ensures
        r@ == join(spans_of(spans@, chars@).skip(from as int)),
{
    let ghost words = spans_of(spans@, chars@).skip(from as int);
    let n = spans.len();
    let mut out = String::new();
    let mut i: usize = from;
    assert(words.take(0) =~= Seq::<Seq<char>>::empty());
    while i < n
        invariant
            from <= i <= n,
            n == spans@.len(),
            chars@ == line@,
            spans_fit(spans@, chars@.len()),
            words == spans_of(spans@, chars@).skip(from as int),
            out@ == join(words.take(i - from)),
        decreases n - i,
    {
        if i > from {
            append_space(&mut out);
        }
        let span = spans[i];
        assert(span.fits(chars@.len()));
        out.append(line.substring_char(span.start, span.end));
        proof {
            assert(words[i - from] == span.of(chars@));
            lemma_join_push(words.take(i - from), words[i - from]);
            assert(words.take(i - from).push(words[i - from]) =~= words.take(i - from + 1));
        }
        assert(out@ =~= join(words.take(i - from + 1)));
        i += 1;
    }
    assert(words.take(n - from) =~= words);
    out
}

/// The words of `text` with single spaces between them: the normalized text
/// that reads as `text` does.
pub fn normalize(text: &str) -> (r: String)
    ensures
        r@ == join(tokens(text@)),
        is_normalized(r@),
        tokens(r@) == tokens(text@),
{
    let chars = chars_of(text);
    let spans = scan_tokens(&chars);
    proof {
        assert(spans_of(spans@, chars@).skip(0) =~= spans_of(spans@, chars@));
        lemma_tokens_are_words(text@);
        lemma_tokens_join(tokens(text@));
    }
    join_words(text, &chars, &spans, 0)
}

/// Whether `text` is normalized.
pub fn check_normalized(text: &str) -> (r: bool)
    ensures
        r == is_normalized(text@),
{
    let normal = normalize(text);
    let ours = chars_of(normal.as_str());
    let theirs = chars_of(text);
    let n = ours.len();
    if theirs.len() != n {
        return false;
    }
    let mut i: usize = 0;
    while i < n
        invariant
            i <= n,
            n == ours@.len(),
            n == theirs@.len(),
            ours@ == join(tokens(text@)),
            theirs@ == text@,
            forall|k: int| 0 <= k < i ==> ours@[k] == theirs@[k],
        decreases n - i,
    {
        if ours[i] != theirs[i] {
            return false;
        }
        i += 1;
    }
    assert(ours@ =~= theirs@);
    true
}

/// Appends the space that separates two fields.
pub fn append_space(out: &mut String)
    ensures
        final(out)@ == old(out)@ + seq![' '],
{
    proof {
        reveal_strlit(" ");
    }
    out.append(" ");
    assert(" "@ =~= seq![' ']);
}

/// Joining one, two, three or four fields, written out.
pub proof fn lemma_join_few(a: Seq<char>, b: Seq<char>, c: Seq<char>, d: Seq<char>)
    ensures
        join(seq![a]) == a,
        join(seq![a, b]) == a + seq![' '] + b,
        join(seq![a, b, c]) == a + seq![' '] + b + seq![' '] + c,
        join(seq![a, b, c, d]) == a + seq![' '] + b + seq![' '] + c + seq![' '] + d,
{
    assert(seq![a].push(b) =~= seq![a, b]);
    assert(seq![a, b].push(c) =~= seq![a, b, c]);
    assert(seq![a, b, c].push(d) =~= seq![a, b, c, d]);
    lemma_join_push(seq![a], b);
    lemma_join_push(seq![a, b], c);
    lemma_join_push(seq![a, b, c], d);
}

} // verus!

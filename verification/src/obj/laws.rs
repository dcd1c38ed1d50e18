//! What holds of the geometry codec as a whole: reading undoes writing, a
//! written line begins with the token of its kind, and a line whose leading
//! token names no kind is refused.

use vstd::prelude::*;
use crate::error::ParseError;
use crate::fields::{lemma_fields_are_words, lex_numbers};
use crate::integer::{int_text, lemma_int_text_chars, lemma_parse_int_text, parse_i64_spec};
use crate::number::{is_number, lemma_number_is_word};
use crate::obj::entity::{parse_face_vertex, part_len, split_parts, EntityView, FaceVertex};
use crate::obj::read_lexer::lex;
use crate::prefix::lemma_leading_is;
use crate::text::{
    is_whitespace, is_word, join, lemma_tokens_join, lemma_tokens_word_then, tokens,
};

verus! {

/// The tokens of the geometry format, one for each kind of entity.
pub open spec fn known_tokens() -> Seq<Seq<char>> {
    seq!["#"@, "o"@, "g"@, "s"@, "mtllib"@, "usemtl"@, "v"@, "vn"@, "vt"@, "f"@, "l"@]
}

/// Makes the characters of every token known.
pub proof fn lemma_reveal_tokens()
    ensures
        "#"@ == seq!['#'],
        "o"@ == seq!['o'],
        "g"@ == seq!['g'],
        "s"@ == seq!['s'],
        "mtllib"@ == seq!['m', 't', 'l', 'l', 'i', 'b'],
        "usemtl"@ == seq!['u', 's', 'e', 'm', 't', 'l'],
        "v"@ == seq!['v'],
        "vn"@ == seq!['v', 'n'],
        "vt"@ == seq!['v', 't'],
        "f"@ == seq!['f'],
        "l"@ == seq!['l'],
{
    reveal_strlit("#");
    reveal_strlit("o");
    reveal_strlit("g");
    reveal_strlit("s");
    reveal_strlit("mtllib");
    reveal_strlit("usemtl");
    reveal_strlit("v");
    reveal_strlit("vn");
    reveal_strlit("vt");
    reveal_strlit("f");
    reveal_strlit("l");
    assert("#"@ =~= seq!['#']);
    assert("o"@ =~= seq!['o']);
    assert("g"@ =~= seq!['g']);
    assert("s"@ =~= seq!['s']);
    assert("mtllib"@ =~= seq!['m', 't', 'l', 'l', 'i', 'b']);
    assert("usemtl"@ =~= seq!['u', 's', 'e', 'm', 't', 'l']);
    assert("v"@ =~= seq!['v']);
    assert("vn"@ =~= seq!['v', 'n']);
    assert("vt"@ =~= seq!['v', 't']);
    assert("f"@ =~= seq!['f']);
    assert("l"@ =~= seq!['l']);
}

/// Every kind of entity has a token of the table, the token is a word, and
/// entities of different kinds have different tokens.
pub proof fn lemma_token_table(a: EntityView, b: EntityView)
    ensures
        known_tokens().contains(a.token()),
        is_word(a.token()),
        known_tokens().no_duplicates(),
        a.token() == b.token() <==> same_kind(a, b),
{
    lemma_reveal_tokens();
    let table = known_tokens();
    assert(table[0] == "#"@ && table[1] == "o"@ && table[2] == "g"@ && table[3] == "s"@
        && table[4] == "mtllib"@ && table[5] == "usemtl"@ && table[6] == "v"@ && table[7]
        == "vn"@ && table[8] == "vt"@ && table[9] == "f"@ && table[10] == "l"@);
    assert forall|i: int, j: int| 0 <= i < table.len() && 0 <= j < table.len() && i != j implies table[i] != table[j] by {
        assert(table[i].len() != table[j].len() || table[i][0] != table[j][0] || table[i][1]
            != table[j][1]);
    }
    let t = a.token();
    assert(t.len() != b.token().len() || t[0] != b.token()[0] || t[1] != b.token()[1]
        || same_kind(a, b));
}

/// Two entities are of the same kind.
pub open spec fn same_kind(a: EntityView, b: EntityView) -> bool {
    match (a, b) {
        (EntityView::Comment { .. }, EntityView::Comment { .. }) => true,
        (EntityView::Object { .. }, EntityView::Object { .. }) => true,
        (EntityView::Group { .. }, EntityView::Group { .. }) => true,
        (EntityView::SmoothingGroup { .. }, EntityView::SmoothingGroup { .. }) => true,
        (EntityView::Mtllib { .. }, EntityView::Mtllib { .. }) => true,
        (EntityView::Usemtl { .. }, EntityView::Usemtl { .. }) => true,
        (EntityView::Vertex { .. }, EntityView::Vertex { .. }) => true,
        (EntityView::VertexNormal { .. }, EntityView::VertexNormal { .. }) => true,
        (EntityView::VertexTexture { .. }, EntityView::VertexTexture { .. }) => true,
        (EntityView::Face { .. }, EntityView::Face { .. }) => true,
        (EntityView::Line { .. }, EntityView::Line { .. }) => true,
        _ => false,
    }
}

/// A written line begins with the token of the entity's kind and one space.
pub proof fn lemma_token_fidelity(e: EntityView)
    ensures
        (e.token() + seq![' ']).is_prefix_of(e.line()),
        e.line().subrange(0, e.token().len() as int) == e.token(),
        e.line()[e.token().len() as int] == ' ',
{
    let head = e.token() + seq![' '];
    assert(e.line() == head + join(e.fields()));
    assert(e.line().subrange(0, head.len() as int) =~= head);
    assert(e.line().subrange(0, e.token().len() as int) =~= e.token());
}

/// A line is refused as naming no entity exactly when it has a leading token
/// and that token is not in the table.
pub proof fn lemma_unknown_token(line: Seq<char>)
    ensures
        lex(line) == Err::<EntityView, ParseError>(ParseError::UnknownEntity) <==> tokens(
            line,
        ).len() > 0 && !known_tokens().contains(tokens(line)[0]),
{
    let table = known_tokens();
    assert(table[0] == "#"@ && table[1] == "o"@ && table[2] == "g"@ && table[3] == "s"@
        && table[4] == "mtllib"@ && table[5] == "usemtl"@ && table[6] == "v"@ && table[7]
        == "vn"@ && table[8] == "vt"@ && table[9] == "f"@ && table[10] == "l"@);
}

/// A word without `/` is its own single part.
proof fn lemma_split_whole(w: Seq<char>)
    requires
        forall|i: int| 0 <= i < w.len() ==> #[trigger] w[i] != '/',
    ensures
        part_len(w) == w.len(),
        split_parts(w) == seq![w],
{
    lemma_leading_is(w, |c: char| c != '/', w.len() as int);
}

/// A stretch without `/`, then `/`, then more: the stretch is the first part,
/// and the rest splits on its own.
proof fn lemma_split_first(w: Seq<char>, rest: Seq<char>)
    requires
        forall|i: int| 0 <= i < w.len() ==> #[trigger] w[i] != '/',
    ensures
        split_parts(w + seq!['/'] + rest) == seq![w] + split_parts(rest),
{
    let s = w + seq!['/'] + rest;
    let n = w.len() as int;
    assert forall|i: int| 0 <= i < n implies (|c: char| c != '/')(#[trigger] s[i]) by {
        assert(s[i] == w[i]);
    }
    assert(s[n] == '/');
    lemma_leading_is(s, |c: char| c != '/', n);
    assert(s.take(n) =~= w);
    assert(s.skip(n + 1) =~= rest);
}

/// The text of a corner is one word, and denotes the corner.
pub proof fn lemma_face_vertex_text(v: FaceVertex)
    ensures
        is_word(v.text()),
        parse_face_vertex(v.text()) == Some(v),
{
    let a = int_text(v.vertex as int);
    let empty = Seq::<char>::empty();
    lemma_int_text_chars(v.vertex as int);
    lemma_parse_int_text(v.vertex);
    lemma_split_whole(empty);
    let s = v.text();
    match (v.texture, v.normal) {
        (None, None) => {
            assert(s =~= a);
            lemma_split_whole(a);
        },
        (Some(t), None) => {
            let b = int_text(t as int);
            lemma_int_text_chars(t as int);
            lemma_parse_int_text(t);
            lemma_split_whole(b);
            lemma_split_first(a, b);
            assert(s =~= a + seq!['/'] + b);
            assert(split_parts(s) =~= seq![a, b]);
        },
        (None, Some(n)) => {
            let c = int_text(n as int);
            lemma_int_text_chars(n as int);
            lemma_parse_int_text(n);
            lemma_split_whole(c);
            lemma_split_first(empty, c);
            lemma_split_first(a, empty + seq!['/'] + c);
            assert(s =~= a + seq!['/'] + (empty + seq!['/'] + c));
            assert(split_parts(s) =~= seq![a, empty, c]);
        },
        (Some(t), Some(n)) => {
            let b = int_text(t as int);
            let c = int_text(n as int);
            lemma_int_text_chars(t as int);
            lemma_parse_int_text(t);
            lemma_int_text_chars(n as int);
            lemma_parse_int_text(n);
            lemma_split_whole(c);
            lemma_split_first(b, c);
            lemma_split_first(a, b + seq!['/'] + c);
            assert(s =~= a + seq!['/'] + (b + seq!['/'] + c));
            assert(split_parts(s) =~= seq![a, b, c]);
        },
    }
    assert forall|i: int| 0 <= i < s.len() implies !is_whitespace(#[trigger] s[i]) by {
        let parts = split_parts(s);
        if i < a.len() {
            assert(s[i] == a[i]);
        } else {
            match (v.texture, v.normal) {
                (None, None) => {},
                (Some(t), None) => {
                    let b = int_text(t as int);
                    if i > a.len() {
                        assert(s[i] == b[i - a.len() - 1]);
                    }
                },
                (None, Some(n)) => {
                    let c = int_text(n as int);
                    if i > a.len() + 1 {
                        assert(s[i] == c[i - a.len() - 2]);
                    }
                },
                (Some(t), Some(n)) => {
                    let b = int_text(t as int);
                    let c = int_text(n as int);
                    if a.len() < i <= a.len() + b.len() {
                        assert(s[i] == b[i - a.len() - 1]);
                    } else if i > a.len() + b.len() + 1 {
                        assert(s[i] == c[i - a.len() - b.len() - 2]);
                    }
                },
            }
        }
    }
}

/// Numeric literals, joined and tokenised, come back as fields that pass as
/// numeric fields.
pub proof fn lemma_numbers_round_trip(fields: Seq<Seq<char>>, min: nat, max: nat)
    requires
        min <= fields.len() <= max,
        forall|i: int| 0 <= i < fields.len() ==> is_number(#[trigger] fields[i]),
    ensures
        tokens(join(fields)) == fields,
        lex_numbers(fields, min, max) == Ok::<Seq<Seq<char>>, ParseError>(fields),
{
    assert forall|i: int| 0 <= i < fields.len() implies is_word(#[trigger] fields[i]) by {
        lemma_number_is_word(fields[i]);
    }
    lemma_tokens_join(fields);
    lemma_leading_is(fields, |a: Seq<char>| is_number(a), fields.len() as int);
}

/// Reading undoes writing: the line of a well-formed entity denotes that
/// entity.
pub proof fn lemma_round_trip(e: EntityView)
    requires
        e.wf(),
    ensures
        lex(e.line()) == Ok::<EntityView, ParseError>(e),
{
    lemma_token_table(e, e);
    lemma_reveal_tokens();
    let head = e.token();
    let fields = e.fields();
    lemma_tokens_word_then(head, ' ', join(fields));
    let ts = tokens(e.line());
    assert(ts[0] == head);
    assert(ts.drop_first() =~= tokens(join(fields)));
    let args = ts.drop_first();
    match e {
        EntityView::Vertex { x, y, z, w } => {
            lemma_numbers_round_trip(fields, 3, 4);
        },
        EntityView::VertexNormal { x, y, z } => {
            lemma_numbers_round_trip(fields, 3, 3);
        },
        EntityView::VertexTexture { x, y, z } => {
            lemma_numbers_round_trip(fields, 2, 3);
        },
        EntityView::Face { vertices } => {
            assert forall|i: int| 0 <= i < fields.len() implies is_word(#[trigger] fields[i])
                && parse_face_vertex(fields[i]) == Some(vertices[i]) by {
                lemma_face_vertex_text(vertices[i]);
            }
            lemma_tokens_join(fields);
            lemma_leading_is(
                fields,
                |a: Seq<char>| parse_face_vertex(a) is Some,
                fields.len() as int,
            );
            assert(Seq::new(fields.len(), |i: int| parse_face_vertex(fields[i])->0)
                =~= vertices);
        },
        EntityView::Line { vertices } => {
            assert forall|i: int| 0 <= i < fields.len() implies is_word(#[trigger] fields[i])
                && parse_i64_spec(fields[i]) == Some(vertices[i]) by {
                lemma_int_text_chars(vertices[i] as int);
                lemma_parse_int_text(vertices[i]);
            }
            lemma_tokens_join(fields);
            lemma_leading_is(
                fields,
                |a: Seq<char>| parse_i64_spec(a) is Some,
                fields.len() as int,
            );
            assert(Seq::new(fields.len(), |i: int| parse_i64_spec(fields[i])->0) =~= vertices);
        },
        _ => {
            assert(join(fields) == fields[0]);
        },
    }
}

/// Writing what a line denotes, and reading that, gives what the line
/// denotes.
pub proof fn lemma_reread(line: Seq<char>)
    requires
        lex(line) is Ok,
    ensures
        lex(lex(line)->Ok_0.line()) == lex(line),
{
    lemma_lex_wf(line);
    lemma_round_trip(lex(line)->Ok_0);
}

/// Whatever a line denotes is well formed.
pub proof fn lemma_lex_wf(line: Seq<char>)
    ensures
        lex(line) is Ok ==> lex(line)->Ok_0.wf(),
{
    if tokens(line).len() > 0 {
        lemma_fields_are_words(line);
        let args = tokens(line).drop_first();
        lemma_tokens_join(args);
        lemma_leading_bounds_numbers(args);
    }
}

/// Where all fields pass as numeric fields, each is a numeric literal.
proof fn lemma_leading_bounds_numbers(args: Seq<Seq<char>>)
    ensures
        forall|min: nat, max: nat, i: int|
            #![trigger lex_numbers(args, min, max), args[i]]
            lex_numbers(args, min, max) is Ok && 0 <= i < args.len() ==> is_number(args[i]),
{
    crate::prefix::lemma_leading_bounds(args, |a: Seq<char>| is_number(a));
}

} // verus!

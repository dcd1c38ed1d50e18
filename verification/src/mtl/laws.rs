//! What holds of the material codec as a whole: reading undoes writing, a
//! written line begins with the token of its kind, and a line whose leading
//! token names no kind is refused.

use vstd::prelude::*;
use crate::error::ParseError;
use crate::fields::{lemma_fields_are_words, lex_numbers};
use crate::integer::{lemma_int_text_chars, lemma_parse_int_text};
use crate::mtl::entity::{EntityView, IllumMode};
use crate::mtl::lexer::lex;
use crate::number::{is_number, lemma_number_is_word};
use crate::prefix::{lemma_leading_bounds, lemma_leading_is};
use crate::text::{is_word, join, lemma_tokens_join, lemma_tokens_word_then, tokens};

verus! {

/// The tokens of the material format, one for each kind of entity.
pub open spec fn known_tokens() -> Seq<Seq<char>> {
    seq![
        "#"@,
        "newmtl"@,
        "Ka"@,
        "Kd"@,
        "Ks"@,
        "Ns"@,
        "Ni"@,
        "d"@,
        "Tr"@,
        "illum"@,
        "map_Ka"@,
        "map_Kd"@,
        "Tf"@,
        "map_Ks"@,
        "map_Ns"@,
        "map_d"@,
        "bump"@,
        "disp"@,
        "decal"@,
        "refl"@,
    ]
}

/// The second name under which a bump map is read.
pub open spec fn bump_alias() -> Seq<char> {
    "map_bump"@
}

/// Makes the characters of every token known.
pub proof fn lemma_reveal_tokens()
    ensures
        "#"@ == seq!['#'],
        "newmtl"@ == seq!['n', 'e', 'w', 'm', 't', 'l'],
        "Ka"@ == seq!['K', 'a'],
        "Kd"@ == seq!['K', 'd'],
        "Ks"@ == seq!['K', 's'],
        "Ns"@ == seq!['N', 's'],
        "Ni"@ == seq!['N', 'i'],
        "d"@ == seq!['d'],
        "Tr"@ == seq!['T', 'r'],
        "illum"@ == seq!['i', 'l', 'l', 'u', 'm'],
        "map_Ka"@ == seq!['m', 'a', 'p', '_', 'K', 'a'],
        "map_Kd"@ == seq!['m', 'a', 'p', '_', 'K', 'd'],
        "Tf"@ == seq!['T', 'f'],
        "map_Ks"@ == seq!['m', 'a', 'p', '_', 'K', 's'],
        "map_Ns"@ == seq!['m', 'a', 'p', '_', 'N', 's'],
        "map_d"@ == seq!['m', 'a', 'p', '_', 'd'],
        "bump"@ == seq!['b', 'u', 'm', 'p'],
        "map_bump"@ == seq!['m', 'a', 'p', '_', 'b', 'u', 'm', 'p'],
        "disp"@ == seq!['d', 'i', 's', 'p'],
        "decal"@ == seq!['d', 'e', 'c', 'a', 'l'],
        "refl"@ == seq!['r', 'e', 'f', 'l'],
{
    reveal_strlit("#");
    reveal_strlit("newmtl");
    reveal_strlit("Ka");
    reveal_strlit("Kd");
    reveal_strlit("Ks");
    reveal_strlit("Ns");
    reveal_strlit("Ni");
    reveal_strlit("d");
    reveal_strlit("Tr");
    reveal_strlit("illum");
    reveal_strlit("map_Ka");
    reveal_strlit("map_Kd");
    reveal_strlit("Tf");
    reveal_strlit("map_Ks");
    reveal_strlit("map_Ns");
    reveal_strlit("map_d");
    reveal_strlit("bump");
    reveal_strlit("map_bump");
    reveal_strlit("disp");
    reveal_strlit("decal");
    reveal_strlit("refl");
    assert("#"@ =~= seq!['#']);
    assert("newmtl"@ =~= seq!['n', 'e', 'w', 'm', 't', 'l']);
    assert("Ka"@ =~= seq!['K', 'a']);
    assert("Kd"@ =~= seq!['K', 'd']);
    assert("Ks"@ =~= seq!['K', 's']);
    assert("Ns"@ =~= seq!['N', 's']);
    assert("Ni"@ =~= seq!['N', 'i']);
    assert("d"@ =~= seq!['d']);
    assert("Tr"@ =~= seq!['T', 'r']);
    assert("illum"@ =~= seq!['i', 'l', 'l', 'u', 'm']);
    assert("map_Ka"@ =~= seq!['m', 'a', 'p', '_', 'K', 'a']);
    assert("map_Kd"@ =~= seq!['m', 'a', 'p', '_', 'K', 'd']);
    assert("Tf"@ =~= seq!['T', 'f']);
    assert("map_Ks"@ =~= seq!['m', 'a', 'p', '_', 'K', 's']);
    assert("map_Ns"@ =~= seq!['m', 'a', 'p', '_', 'N', 's']);
    assert("map_d"@ =~= seq!['m', 'a', 'p', '_', 'd']);
    assert("bump"@ =~= seq!['b', 'u', 'm', 'p']);
    assert("map_bump"@ =~= seq!['m', 'a', 'p', '_', 'b', 'u', 'm', 'p']);
    assert("disp"@ =~= seq!['d', 'i', 's', 'p']);
    assert("decal"@ =~= seq!['d', 'e', 'c', 'a', 'l']);
    assert("refl"@ =~= seq!['r', 'e', 'f', 'l']);
}

/// The position of an entity's kind in the table of tokens.
pub open spec fn kind_index(e: EntityView) -> int {
    match e {
        EntityView::Comment { .. } => 0,
        EntityView::MaterialName { .. } => 1,
        EntityView::AmbientColor { .. } => 2,
        EntityView::DiffuseColor { .. } => 3,
        EntityView::SpecularColor { .. } => 4,
        EntityView::SpecularHighlights { .. } => 5,
        EntityView::OpticalDensity { .. } => 6,
        EntityView::Dissolve { .. } => 7,
        EntityView::InvertedDissolve { .. } => 8,
        EntityView::Illum { .. } => 9,
        EntityView::TextureMapAmbient { .. } => 10,
        EntityView::TextureMapDiffuse { .. } => 11,
        EntityView::TransmissionFilterColorRGB { .. } => 12,
        EntityView::TextureMapSpecular { .. } => 13,
        EntityView::TextureMapHighlight { .. } => 14,
        EntityView::TextureMapAlpha { .. } => 15,
        EntityView::BumpMap { .. } => 16,
        EntityView::DisplacementMap { .. } => 17,
        EntityView::StencilDecalTextureMap { .. } => 18,
        EntityView::SphericalReflectionMap { .. } => 19,
    }
}

/// The table holds twenty different words, the second name of the bump map is
/// none of them, and the token of each kind of entity stands in the table at
/// the position of that kind.
pub proof fn lemma_token_table(e: EntityView)
    ensures
        known_tokens().len() == 20,
        known_tokens().no_duplicates(),
        !known_tokens().contains(bump_alias()),
        forall|i: int| 0 <= i < 20 ==> is_word(#[trigger] known_tokens()[i]),
        0 <= kind_index(e) < 20,
        known_tokens()[kind_index(e)] == e.token(),
        known_tokens().contains(e.token()),
        is_word(e.token()),
{
    lemma_reveal_tokens();
    let table = known_tokens();
    assert forall|i: int, j: int| 0 <= i < table.len() && 0 <= j < table.len() && i != j implies table[i] != table[j] by {
        lemma_tokens_differ(i, j);
    }
    assert forall|i: int| 0 <= i < 20 implies bump_alias() != #[trigger] table[i] by {
        assert(table[i].len() != 8);
    }
    assert forall|i: int| 0 <= i < 20 implies is_word(#[trigger] table[i]) by {
        lemma_table_word(i);
    }
    assert(is_word(table[kind_index(e)]));
}

/// Each token of the table is a word.
proof fn lemma_table_word(i: int)
    requires
        0 <= i < 20,
    ensures
        is_word(known_tokens()[i]),
{
    lemma_reveal_tokens();
}

/// Two places of the table hold two different tokens.
proof fn lemma_tokens_differ(i: int, j: int)
    requires
        0 <= i < 20,
        0 <= j < 20,
        i != j,
    ensures
        known_tokens()[i] != known_tokens()[j],
{
    lemma_reveal_tokens();
    let a = known_tokens()[i];
    let b = known_tokens()[j];
    assert(a.len() != b.len() || a[0] != b[0] || a[1] != b[1] || a[4] != b[4] || a[5] != b[5]);
}

/// Entities of different kinds have different tokens.
pub proof fn lemma_tokens_injective(a: EntityView, b: EntityView)
    ensures
        a.token() == b.token() <==> kind_index(a) == kind_index(b),
{
    lemma_token_table(a);
    lemma_token_table(b);
}

/// A written line begins with the token of the entity's kind and one space.
pub proof fn lemma_token_fidelity(e: EntityView)
    ensures
        (e.token() + seq![' ']).is_prefix_of(e.line()),
        e.line().subrange(0, e.token().len() as int) == e.token(),
        e.line()[e.token().len() as int] == ' ',
{
    let head = e.token() + seq![' '];
    assert(e.line() == head + join(e.fields()));
    assert(e.line().subrange(0, head.len() as int) =~= head);
    assert(e.line().subrange(0, e.token().len() as int) =~= e.token());
}

/// A line is refused as naming no entity exactly when it has a leading token
/// and that token is neither in the table nor the second name of the bump
/// map.
pub proof fn lemma_unknown_token(line: Seq<char>)
    ensures
        lex(line) == Err::<EntityView, ParseError>(ParseError::UnknownEntity) <==> tokens(
            line,
        ).len() > 0 && !known_tokens().contains(tokens(line)[0]) && tokens(line)[0]
            != bump_alias(),
{
    let table = known_tokens();
    assert(table[0] == "#"@ && table[1] == "newmtl"@ && table[2] == "Ka"@ && table[3] == "Kd"@
        && table[4] == "Ks"@ && table[5] == "Ns"@ && table[6] == "Ni"@ && table[7] == "d"@
        && table[8] == "Tr"@ && table[9] == "illum"@ && table[10] == "map_Ka"@ && table[11]
        == "map_Kd"@ && table[12] == "Tf"@ && table[13] == "map_Ks"@ && table[14] == "map_Ns"@
        && table[15] == "map_d"@ && table[16] == "bump"@ && table[17] == "disp"@ && table[18]
        == "decal"@ && table[19] == "refl"@);
}

/// Numeric literals, joined and tokenised, come back as fields that pass as
/// numeric fields.
proof fn lemma_numbers_round_trip(fields: Seq<Seq<char>>, min: nat, max: nat)
    requires
        min <= fields.len() <= max,
        forall|i: int| 0 <= i < fields.len() ==> is_number(#[trigger] fields[i]),
    ensures
        tokens(join(fields)) == fields,
        lex_numbers(fields, min, max) == Ok::<Seq<Seq<char>>, ParseError>(fields),
{
    assert forall|i: int| 0 <= i < fields.len() implies is_word(#[trigger] fields[i]) by {
        lemma_number_is_word(fields[i]);
    }
    lemma_tokens_join(fields);
    lemma_leading_is(fields, |a: Seq<char>| is_number(a), fields.len() as int);
}

/// Reading undoes writing: the line of a well-formed entity denotes that
/// entity.
pub proof fn lemma_round_trip(e: EntityView)
    requires
        e.wf(),
    ensures
        lex(e.line()) == Ok::<EntityView, ParseError>(e),
{
    lemma_token_table(e);
    lemma_reveal_tokens();
    let head = e.token();
    let fields = e.fields();
    lemma_tokens_word_then(head, ' ', join(fields));
    let ts = tokens(e.line());
    assert(ts[0] == head);
    assert(ts.drop_first() =~= tokens(join(fields)));
    match e {
        EntityView::AmbientColor { .. }
        | EntityView::DiffuseColor { .. }
        | EntityView::SpecularColor { .. }
        | EntityView::TransmissionFilterColorRGB { .. } => {
            lemma_numbers_round_trip(fields, 3, 3);
        },
        EntityView::SpecularHighlights { .. }
        | EntityView::OpticalDensity { .. }
        | EntityView::Dissolve { .. }
        | EntityView::InvertedDissolve { .. } => {
            lemma_numbers_round_trip(fields, 1, 1);
        },
        EntityView::Illum { mode } => {
            lemma_int_text_chars(mode.code_of() as int);
            lemma_parse_int_text(mode.code_of());
            lemma_tokens_join(fields);
            assert(IllumMode::with_code(mode.code_of()) == Some(mode));
        },
        _ => {
            assert(join(fields) == fields[0]);
        },
    }
}

/// Writing what a line denotes, and reading that, gives what the line
/// denotes.
pub proof fn lemma_reread(line: Seq<char>)
    requires
        lex(line) is Ok,
    ensures
        lex(lex(line)->Ok_0.line()) == lex(line),
{
    lemma_lex_wf(line);
    lemma_round_trip(lex(line)->Ok_0);
}

/// Whatever a line denotes is well formed.
pub proof fn lemma_lex_wf(line: Seq<char>)
    ensures
        lex(line) is Ok ==> lex(line)->Ok_0.wf(),
{
    if tokens(line).len() > 0 {
        lemma_fields_are_words(line);
        let args = tokens(line).drop_first();
        lemma_tokens_join(args);
        lemma_leading_bounds(args, |a: Seq<char>| is_number(a));
    }
}

} // verus!

//! Reading material entities from text.

use vstd::prelude::*;
use crate::error::ParseError;
use crate::fields::{fields_of, lex_numbers, literals, read_numbers, read_text, word_is};
use crate::integer::{parse_i64, parse_i64_spec};
use crate::mtl::entity::{Entity, EntityView, IllumMode};
use crate::mtl::laws::lemma_lex_wf;
use crate::number::Number;
use crate::text::{chars_of, join, scan_tokens, spans_fit, tokens, Span};

verus! {

/// Reads material entities.
pub struct Lexer {}

/// The three components of a colour.
pub open spec fn lex_color(args: Seq<Seq<char>>) -> Result<
    (Seq<char>, Seq<char>, Seq<char>),
    ParseError,
> {
    match lex_numbers(args, 3, 3) {
        Ok(n) => Ok((n[0], n[1], n[2])),
        Err(e) => Err(e),
    }
}

/// A single numeric value.
pub open spec fn lex_value(args: Seq<Seq<char>>) -> Result<Seq<char>, ParseError> {
    match lex_numbers(args, 1, 1) {
        Ok(n) => Ok(n[0]),
        Err(e) => Err(e),
    }
}

/// An illumination model: exactly one field, which must be an integer, which
/// must be the code of a model.
pub open spec fn lex_illum(args: Seq<Seq<char>>) -> Result<IllumMode, ParseError> {
    if args.len() != 1 {
        Err(ParseError::WrongArity { found: args.len() as usize })
    } else {
        match parse_i64_spec(args[0]) {
            None => Err(ParseError::MalformedInteger { field: 0 }),
            Some(code) => match IllumMode::with_code(code) {
                None => Err(ParseError::UnknownIllumMode { code }),
                Some(mode) => Ok(mode),
            },
        }
    }
}

/// The entity that a leading token and the fields after it denote. The
/// leading token alone decides the kind; a token that names no kind is an
/// error. A bump map may be named `bump` or `map_bump`.
pub open spec fn lex_entity(head: Seq<char>, args: Seq<Seq<char>>) -> Result<
    EntityView,
    ParseError,
> {
    if head == "#"@ {
        Ok(EntityView::Comment { content: join(args) })
    } else if head == "newmtl"@ {
        Ok(EntityView::MaterialName { name: join(args) })
    } else if head == "Ka"@ {
        match lex_color(args) {
            Ok(c) => Ok(EntityView::AmbientColor { r: c.0, g: c.1, b: c.2 }),
            Err(e) => Err(e),
        }
    } else if head == "Kd"@ {
        match lex_color(args) {
            Ok(c) => Ok(EntityView::DiffuseColor { r: c.0, g: c.1, b: c.2 }),
            Err(e) => Err(e),
        }
    } else if head == "Ks"@ {
        match lex_color(args) {
            Ok(c) => Ok(EntityView::SpecularColor { r: c.0, g: c.1, b: c.2 }),
            Err(e) => Err(e),
        }
    } else if head == "Ns"@ {
        match lex_value(args) {
            Ok(value) => Ok(EntityView::SpecularHighlights { value }),
            Err(e) => Err(e),
        }
    } else if head == "Ni"@ {
        match lex_value(args) {
            Ok(value) => Ok(EntityView::OpticalDensity { value }),
            Err(e) => Err(e),
        }
    } else if head == "d"@ {
        match lex_value(args) {
            Ok(value) => Ok(EntityView::Dissolve { value }),
            Err(e) => Err(e),
        }
    } else if head == "Tr"@ {
        match lex_value(args) {
            Ok(value) => Ok(EntityView::InvertedDissolve { value }),
            Err(e) => Err(e),
        }
    } else if head == "illum"@ {
        match lex_illum(args) {
            Ok(mode) => Ok(EntityView::Illum { mode }),
            Err(e) => Err(e),
        }
    } else if head == "map_Ka"@ {
        Ok(EntityView::TextureMapAmbient { file: join(args) })
    } else if head == "map_Kd"@ {
        Ok(EntityView::TextureMapDiffuse { file: join(args) })
    } else if head == "Tf"@ {
        match lex_color(args) {
            Ok(c) => Ok(EntityView::TransmissionFilterColorRGB { r: c.0, g: c.1, b: c.2 }),
            Err(e) => Err(e),
        }
    } else if head == "map_Ks"@ {
        Ok(EntityView::TextureMapSpecular { file: join(args) })
    } else if head == "map_Ns"@ {
        Ok(EntityView::TextureMapHighlight { file: join(args) })
    } else if head == "map_d"@ {
        Ok(EntityView::TextureMapAlpha { file: join(args) })
    } else if head == "bump"@ || head == "map_bump"@ {
        Ok(EntityView::BumpMap { file: join(args) })
    } else if head == "disp"@ {
        Ok(EntityView::DisplacementMap { file: join(args) })
    } else if head == "decal"@ {
        Ok(EntityView::StencilDecalTextureMap { file: join(args) })
    } else if head == "refl"@ {
        Ok(EntityView::SphericalReflectionMap { file: join(args) })
    } else {
        Err(ParseError::UnknownEntity)
    }
}

/// The entity that a line denotes: the line is cut into tokens at runs of
/// whitespace, the first token names the kind, the others are the fields.
pub open spec fn lex(line: Seq<char>) -> Result<EntityView, ParseError> {
    if tokens(line).len() == 0 {
        Err(ParseError::EmptyLine)
    } else {
        lex_entity(tokens(line)[0], tokens(line).drop_first())
    }
}

/// What reading a line gave, as a mathematical value.
pub open spec fn outcome(r: Result<Entity, ParseError>) -> Result<EntityView, ParseError> {
    match r {
        Ok(e) => Ok(e@),
        Err(e) => Err(e),
    }
}

/// The fields of a line as the three components of a colour.
fn read_color(line: &str, chars: &Vec<char>, spans: &Vec<Span>) -> (r: Result<
    (Number, Number, Number),
    ParseError,
>)
    requires
        chars@ == line@,
        spans_fit(spans@, chars@.len()),
        spans@.len() >= 1,
    ensures
        match r {
            Ok(c) => lex_color(fields_of(spans@, chars@)) == Ok::<
                (Seq<char>, Seq<char>, Seq<char>),
                ParseError,
            >((c.0@, c.1@, c.2@)),
            Err(e) => lex_color(fields_of(spans@, chars@)) == Err::<
                (Seq<char>, Seq<char>, Seq<char>),
                ParseError,
            >(e),
        },
{
    match read_numbers(line, chars, spans, 3, 3) {
        Ok(mut numbers) => {
            let ghost all = literals(numbers@);
            let b = numbers.pop().unwrap();
            let g = numbers.pop().unwrap();
            let r = numbers.pop().unwrap();
            assert(r@ == all[0] && g@ == all[1] && b@ == all[2]);
            Ok((r, g, b))
        },
        Err(e) => Err(e),
    }
}

/// The fields of a line as a single numeric value.
fn read_value(line: &str, chars: &Vec<char>, spans: &Vec<Span>) -> (r: Result<Number, ParseError>)
    requires
        chars@ == line@,
        spans_fit(spans@, chars@.len()),
        spans@.len() >= 1,
    ensures
        match r {
            Ok(v) => lex_value(fields_of(spans@, chars@)) == Ok::<Seq<char>, ParseError>(v@),
            Err(e) => lex_value(fields_of(spans@, chars@)) == Err::<Seq<char>, ParseError>(e),
        },
{
    match read_numbers(line, chars, spans, 1, 1) {
        Ok(mut numbers) => {
            let ghost all = literals(numbers@);
            let value = numbers.pop().unwrap();
            assert(value@ == all[0]);
            Ok(value)
        },
        Err(e) => Err(e),
    }
}

/// The fields of a line as an illumination model.
fn read_illum(chars: &Vec<char>, spans: &Vec<Span>) -> (r: Result<IllumMode, ParseError>)
    requires
        spans_fit(spans@, chars@.len()),
        spans@.len() >= 1,
    ensures
        r == lex_illum(fields_of(spans@, chars@)),
{
    if spans.len() != 2 {
        return Err(ParseError::WrongArity { found: spans.len() - 1 });
    }
    let span = spans[1];
    assert(span.fits(chars@.len()));
    assert(fields_of(spans@, chars@)[0] == span.of(chars@));
    match parse_i64(chars, span) {
        None => Err(ParseError::MalformedInteger { field: 0 }),
        Some(code) => match IllumMode::from_code(code) {
            None => Err(ParseError::UnknownIllumMode { code }),
            Some(mode) => Ok(mode),
        },
    }
}

impl Lexer {
    /// Reads one line as one entity.
    pub fn read_line(line: &str) -> (r: Result<Entity, ParseError>)
        ensures
            outcome(r) == lex(line@),
            r is Ok ==> r->Ok_0@.wf(),
    {
        proof {
            lemma_lex_wf(line@);
        }
        let chars = chars_of(line);
        let spans = scan_tokens(&chars);
        if spans.len() == 0 {
            return Err(ParseError::EmptyLine);
        }
        let head = spans[0];
        assert(head.fits(chars@.len()));
        assert(head.of(chars@) == tokens(line@)[0]);
        let ghost args = fields_of(spans@, chars@);
        assert(args == tokens(line@).drop_first());
        if word_is(&chars, head, "#") {
            Ok(Entity::Comment { content: read_text(line, &chars, &spans) })
        } else if word_is(&chars, head, "newmtl") {
            Ok(Entity::MaterialName { name: read_text(line, &chars, &spans) })
        } else if word_is(&chars, head, "Ka") {
            match read_color(line, &chars, &spans) {
                Ok((r, g, b)) => Ok(Entity::AmbientColor { r, g, b }),
                Err(e) => Err(e),
            }
        } else if word_is(&chars, head, "Kd") {
            match read_color(line, &chars, &spans) {
                Ok((r, g, b)) => Ok(Entity::DiffuseColor { r, g, b }),
                Err(e) => Err(e),
            }
        } else if word_is(&chars, head, "Ks") {
            match read_color(line, &chars, &spans) {
                Ok((r, g, b)) => Ok(Entity::SpecularColor { r, g, b }),
                Err(e) => Err(e),
            }
        } else if word_is(&chars, head, "Ns") {
            match read_value(line, &chars, &spans) {
                Ok(value) => Ok(Entity::SpecularHighlights { value }),
                Err(e) => Err(e),
            }
        } else if word_is(&chars, head, "Ni") {
            match read_value(line, &chars, &spans) {
                Ok(value) => Ok(Entity::OpticalDensity { value }),
                Err(e) => Err(e),
            }
        } else if word_is(&chars, head, "d") {
            match read_value(line, &chars, &spans) {
                Ok(value) => Ok(Entity::Dissolve { value }),
                Err(e) => Err(e),
            }
        } else if word_is(&chars, head, "Tr") {
            match read_value(line, &chars, &spans) {
                Ok(value) => Ok(Entity::InvertedDissolve { value }),
                Err(e) => Err(e),
            }
        } else if word_is(&chars, head, "illum") {
            match read_illum(&chars, &spans) {
                Ok(mode) => Ok(Entity::Illum { mode }),
                Err(e) => Err(e),
            }
        } else if word_is(&chars, head, "map_Ka") {
            Ok(Entity::TextureMapAmbient { file: read_text(line, &chars, &spans) })
        } else if word_is(&chars, head, "map_Kd") {
            Ok(Entity::TextureMapDiffuse { file: read_text(line, &chars, &spans) })
        } else if word_is(&chars, head, "Tf") {
            match read_color(line, &chars, &spans) {
                Ok((r, g, b)) => Ok(Entity::TransmissionFilterColorRGB { r, g, b }),
                Err(e) => Err(e),
            }
        } else if word_is(&chars, head, "map_Ks") {
            Ok(Entity::TextureMapSpecular { file: read_text(line, &chars, &spans) })
        } else if word_is(&chars, head, "map_Ns") {
            Ok(Entity::TextureMapHighlight { file: read_text(line, &chars, &spans) })
        } else if word_is(&chars, head, "map_d") {
            Ok(Entity::TextureMapAlpha { file: read_text(line, &chars, &spans) })
        } else if word_is(&chars, head, "bump") || word_is(&chars, head, "map_bump") {
            Ok(Entity::BumpMap { file: read_text(line, &chars, &spans) })
        } else if word_is(&chars, head, "disp") {
            Ok(Entity::DisplacementMap { file: read_text(line, &chars, &spans) })
        } else if word_is(&chars, head, "decal") {
            Ok(Entity::StencilDecalTextureMap { file: read_text(line, &chars, &spans) })
        } else if word_is(&chars, head, "refl") {
            Ok(Entity::SphericalReflectionMap { file: read_text(line, &chars, &spans) })
        } else {
            Err(ParseError::UnknownEntity)
        }
    }
}

} // verus!

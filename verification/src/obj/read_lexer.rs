//! Reading geometry entities from text.

use vstd::prelude::*;
use crate::error::ParseError;
use crate::fields::{
    fields_of, lex_integers, lex_numbers, literals, optional_view, read_integers, read_numbers,
    read_text, word_is,
};
use crate::integer::parse_i64;
use crate::obj::laws::lemma_lex_wf;
use crate::obj::entity::{
    optional_index, parse_face_vertex, part_len, split_parts, Entity,
    EntityView, FaceVertex,
};
use crate::prefix::{leading, lemma_leading_is};
use crate::text::{chars_of, join, scan_tokens, spans_fit, tokens, Span};

verus! {

/// Reads geometry entities.
pub struct ReadLexer {}

/// The corners of a face: any number of fields, each of which denotes a
/// corner. Of several malformed fields the first is reported.
pub open spec fn lex_face(args: Seq<Seq<char>>) -> Result<Seq<FaceVertex>, ParseError> {
    let good = leading(args, |a: Seq<char>| parse_face_vertex(a) is Some);
    if good < args.len() {
        Err(ParseError::MalformedInteger { field: good as usize })
    } else {
        Ok(Seq::new(args.len(), |i: int| parse_face_vertex(args[i])->0))
    }
}

/// The entity that a leading token and the fields after it denote. The
/// leading token alone decides the kind; a token that names no kind is an
/// error.
pub open spec fn lex_entity(head: Seq<char>, args: Seq<Seq<char>>) -> Result<
    EntityView,
    ParseError,
> {
    if head == "#"@ {
        Ok(EntityView::Comment { content: join(args) })
    } else if head == "o"@ {
        Ok(EntityView::Object { name: join(args) })
    } else if head == "g"@ {
        Ok(EntityView::Group { name: join(args) })
    } else if head == "s"@ {
        Ok(EntityView::SmoothingGroup { name: join(args) })
    } else if head == "mtllib"@ {
        Ok(EntityView::Mtllib { name: join(args) })
    } else if head == "usemtl"@ {
        Ok(EntityView::Usemtl { name: join(args) })
    } else if head == "v"@ {
        match lex_numbers(args, 3, 4) {
            Ok(n) => Ok(
                EntityView::Vertex {
                    x: n[0],
                    y: n[1],
                    z: n[2],
                    w: if n.len() == 4 {
                        Some(n[3])
                    } else {
                        None
                    },
                },
            ),
            Err(e) => Err(e),
        }
    } else if head == "vn"@ {
        match lex_numbers(args, 3, 3) {
            Ok(n) => Ok(EntityView::VertexNormal { x: n[0], y: n[1], z: n[2] }),
            Err(e) => Err(e),
        }
    } else if head == "vt"@ {
        match lex_numbers(args, 2, 3) {
            Ok(n) => Ok(
                EntityView::VertexTexture {
                    x: n[0],
                    y: n[1],
                    z: if n.len() == 3 {
                        Some(n[2])
                    } else {
                        None
                    },
                },
            ),
            Err(e) => Err(e),
        }
    } else if head == "f"@ {
        match lex_face(args) {
            Ok(vertices) => Ok(EntityView::Face { vertices }),
            Err(e) => Err(e),
        }
    } else if head == "l"@ {
        match lex_integers(args) {
            Ok(vertices) => Ok(EntityView::Line { vertices }),
            Err(e) => Err(e),
        }
    } else {
        Err(ParseError::UnknownEntity)
    }
}

/// The entity that a line denotes: the line is cut into tokens at runs of
/// whitespace, the first token names the kind, the others are the fields.
pub open spec fn lex(line: Seq<char>) -> Result<EntityView, ParseError> {
    if tokens(line).len() == 0 {
        Err(ParseError::EmptyLine)
    } else {
        lex_entity(tokens(line)[0], tokens(line).drop_first())
    }
}

/// What reading a line gave, as a mathematical value.
pub open spec fn outcome(r: Result<Entity, ParseError>) -> Result<EntityView, ParseError> {
    match r {
        Ok(e) => Ok(e@),
        Err(e) => Err(e),
    }
}

/// The position of the first `/` at or after `from`, or `end` if there is
/// none before it.
fn find_slash(chars: &Vec<char>, from: usize, end: usize) -> (r: usize)
    requires
        from <= end <= chars@.len(),
    ensures
        from <= r <= end,
        r - from == part_len(chars@.subrange(from as int, end as int)),
{
    let ghost s = chars@.subrange(from as int, end as int);
    let mut i = from;
    while i < end && chars[i] != '/'
        invariant
            from <= i <= end <= chars@.len(),
            s == chars@.subrange(from as int, end as int),
            forall|k: int| 0 <= k < i - from ==> #[trigger] s[k] != '/',
        decreases end - i,
    {
        i += 1;
    }
    proof {
        lemma_leading_is(s, |c: char| c != '/', i - from);
    }
    i
}

/// Reads a part that may be empty as an index that may be left out.
fn read_optional_index(chars: &Vec<char>, span: Span) -> (r: Option<Option<i64>>)
    requires
        span.fits(chars@.len()),
    ensures
        r == optional_index(span.of(chars@)),
{
    if span.start == span.end {
        Some(None)
    } else {
        match parse_i64(chars, span) {
            Some(index) => Some(Some(index)),
            None => None,
        }
    }
}

/// Reads the stretch `span` of `chars` as one corner of a face.
pub fn read_face_vertex(chars: &Vec<char>, span: Span) -> (r: Option<FaceVertex>)
    requires
        span.fits(chars@.len()),
    ensures
        r == parse_face_vertex(span.of(chars@)),
{
    let ghost s = span.of(chars@);
    let end = span.end;
    let first = find_slash(chars, span.start, end);
    let vertex_span = Span { start: span.start, end: first };
    assert(vertex_span.of(chars@) =~= s.take(part_len(s) as int));
    let mut texture_span = Span { start: end, end };
    let mut normal_span = Span { start: end, end };
    assert(texture_span.of(chars@) =~= Seq::<char>::empty());
    if first == end {
        assert(s.take(part_len(s) as int) =~= s);
        assert(split_parts(s) =~= seq![s]);
    } else {
        let ghost s1 = s.skip(part_len(s) as int + 1);
        assert(s1 =~= chars@.subrange(first + 1, end as int));
        let second = find_slash(chars, first + 1, end);
        texture_span = Span { start: first + 1, end: second };
        assert(texture_span.of(chars@) =~= s1.take(part_len(s1) as int));
        if second == end {
            assert(s1.take(part_len(s1) as int) =~= s1);
            assert(split_parts(s1) =~= seq![s1]);
            assert(split_parts(s) =~= seq![vertex_span.of(chars@), s1]);
        } else {
            let ghost s2 = s1.skip(part_len(s1) as int + 1);
            assert(s2 =~= chars@.subrange(second + 1, end as int));
            let third = find_slash(chars, second + 1, end);
            normal_span = Span { start: second + 1, end: third };
            assert(normal_span.of(chars@) =~= s2.take(part_len(s2) as int));
            if third == end {
                assert(s2.take(part_len(s2) as int) =~= s2);
                assert(split_parts(s2) =~= seq![s2]);
                assert(split_parts(s1) =~= seq![texture_span.of(chars@), s2]);
                assert(split_parts(s) =~= seq![
                    vertex_span.of(chars@),
                    texture_span.of(chars@),
                    s2,
                ]);
            } else {
                let ghost s3 = s2.skip(part_len(s2) as int + 1);
                assert(split_parts(s2).len() == 1 + split_parts(s3).len());
                assert(split_parts(s1).len() == 1 + split_parts(s2).len());
                assert(split_parts(s).len() == 1 + split_parts(s1).len());
                assert(split_parts(s3).len() >= 1);
                return None;
            }
        }
    }
    let vertex = parse_i64(chars, vertex_span);
    let texture = read_optional_index(chars, texture_span);
    let normal = read_optional_index(chars, normal_span);
    match (vertex, texture, normal) {
        (Some(vertex), Some(texture), Some(normal)) => Some(
            FaceVertex { vertex, normal, texture },
        ),
        _ => None,
    }
}

/// The fields of a line as the corners of a face.
fn read_face(chars: &Vec<char>, spans: &Vec<Span>) -> (r: Result<Vec<FaceVertex>, ParseError>)
    requires
        spans_fit(spans@, chars@.len()),
        spans@.len() >= 1,
    ensures
        match r {
            Ok(vertices) => lex_face(fields_of(spans@, chars@)) == Ok::<
                Seq<FaceVertex>,
                ParseError,
            >(vertices@),
            Err(e) => lex_face(fields_of(spans@, chars@)) == Err::<Seq<FaceVertex>, ParseError>(e),
        },
{
    let ghost args = fields_of(spans@, chars@);
    let ghost good = |a: Seq<char>| parse_face_vertex(a) is Some;
    let n = spans.len();
    let mut vertices: Vec<FaceVertex> = Vec::new();
    let mut i: usize = 1;
    while i < n
        invariant
            1 <= i <= n,
            n == spans@.len(),
            spans_fit(spans@, chars@.len()),
            args == fields_of(spans@, chars@),
            good == |a: Seq<char>| parse_face_vertex(a) is Some,
            vertices@.len() == i - 1,
            forall|k: int| 0 <= k < i - 1 ==> good(#[trigger] args[k]),
            forall|k: int|
                0 <= k < i - 1 ==> Some(#[trigger] vertices@[k]) == parse_face_vertex(args[k]),
        decreases n - i,
    {
        let span = spans[i];
        assert(span.fits(chars@.len()));
        assert(args[i - 1] == span.of(chars@));
        match read_face_vertex(chars, span) {
            Some(vertex) => {
                vertices.push(vertex);
            },
            None => {
                proof {
                    lemma_leading_is(args, good, i - 1);
                }
                return Err(ParseError::MalformedInteger { field: i - 1 });
            },
        }
        i += 1;
    }
    proof {
        lemma_leading_is(args, good, args.len() as int);
        assert(vertices@ =~= Seq::new(args.len(), |i: int| parse_face_vertex(args[i])->0));
    }
    Ok(vertices)
}

impl ReadLexer {
    /// Reads one line as one entity.
    pub fn read_line(line: &str) -> (r: Result<Entity, ParseError>)
        ensures
            outcome(r) == lex(line@),
            r is Ok ==> r->Ok_0@.wf(),
    {
        proof {
            lemma_lex_wf(line@);
        }
        let chars = chars_of(line);
        let spans = scan_tokens(&chars);
        if spans.len() == 0 {
            return Err(ParseError::EmptyLine);
        }
        let head = spans[0];
        assert(head.fits(chars@.len()));
        assert(head.of(chars@) == tokens(line@)[0]);
        let ghost args = fields_of(spans@, chars@);
        assert(args == tokens(line@).drop_first());
        if word_is(&chars, head, "#") {
            Ok(Entity::Comment { content: read_text(line, &chars, &spans) })
        } else if word_is(&chars, head, "o") {
            Ok(Entity::Object { name: read_text(line, &chars, &spans) })
        } else if word_is(&chars, head, "g") {
            Ok(Entity::Group { name: read_text(line, &chars, &spans) })
        } else if word_is(&chars, head, "s") {
            Ok(Entity::SmoothingGroup { name: read_text(line, &chars, &spans) })
        } else if word_is(&chars, head, "mtllib") {
            Ok(Entity::Mtllib { name: read_text(line, &chars, &spans) })
        } else if word_is(&chars, head, "usemtl") {
            Ok(Entity::Usemtl { name: read_text(line, &chars, &spans) })
        } else if word_is(&chars, head, "v") {
            match read_numbers(line, &chars, &spans, 3, 4) {
                Ok(mut numbers) => {
                    let ghost all = literals(numbers@);
                    let w = if numbers.len() == 4 {
                        numbers.pop()
                    } else {
                        None
                    };
                    let z = numbers.pop().unwrap();
                    let y = numbers.pop().unwrap();
                    let x = numbers.pop().unwrap();
                    assert(x@ == all[0] && y@ == all[1] && z@ == all[2]);
                    assert(optional_view(w) == if all.len() == 4 {
                        Some(all[3])
                    } else {
                        None
                    });
                    Ok(Entity::Vertex { x, y, z, w })
                },
                Err(e) => Err(e),
            }
        } else if word_is(&chars, head, "vn") {
            match read_numbers(line, &chars, &spans, 3, 3) {
                Ok(mut numbers) => {
                    let ghost all = literals(numbers@);
                    let z = numbers.pop().unwrap();
                    let y = numbers.pop().unwrap();
                    let x = numbers.pop().unwrap();
                    assert(x@ == all[0] && y@ == all[1] && z@ == all[2]);
                    Ok(Entity::VertexNormal { x, y, z })
                },
                Err(e) => Err(e),
            }
        } else if word_is(&chars, head, "vt") {
            match read_numbers(line, &chars, &spans, 2, 3) {
                Ok(mut numbers) => {
                    let ghost all = literals(numbers@);
                    let z = if numbers.len() == 3 {
                        numbers.pop()
                    } else {
                        None
                    };
                    let y = numbers.pop().unwrap();
                    let x = numbers.pop().unwrap();
                    assert(x@ == all[0] && y@ == all[1]);
                    assert(optional_view(z) == if all.len() == 3 {
                        Some(all[2])
                    } else {
                        None
                    });
                    Ok(Entity::VertexTexture { x, y, z })
                },
                Err(e) => Err(e),
            }
        } else if word_is(&chars, head, "f") {
            match read_face(&chars, &spans) {
                Ok(vertices) => Ok(Entity::Face { vertices }),
                Err(e) => Err(e),
            }
        } else if word_is(&chars, head, "l") {
            match read_integers(&chars, &spans) {
                Ok(vertices) => Ok(Entity::Line { vertices }),
                Err(e) => Err(e),
            }
        } else {
            Err(ParseError::UnknownEntity)
        }
    }
}

} // verus!

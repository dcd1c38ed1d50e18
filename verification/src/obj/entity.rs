//! The entities of the geometry format, and the text of each.

use vstd::prelude::*;
use crate::integer::{int_text, parse_i64_spec};
use crate::prefix::leading;
use crate::error::ParseError;
use crate::obj::laws::lemma_round_trip;
use crate::fields::{optional_field, optional_view};
use crate::number::{is_number, Number};
use crate::obj::format_writer::FormatWriter;
use crate::obj::read_lexer::{lex, outcome, ReadLexer};
use crate::text::{check_normalized, is_normalized, join};

verus! {

/// A line of text.
pub type Format = String;

/// One statement of a geometry file.
#[allow(inconsistent_fields)]
#[derive(Debug, Clone, PartialEq)]
pub enum Entity {
    Comment { content: String },
    Object { name: String },
    Group { name: String },
    SmoothingGroup { name: String },
    Mtllib { name: String },
    Usemtl { name: String },
    /// A point in space. The weight `w` is optional: `v 0.1 1.2 2.3 3.4` or
    /// `v 0.1 1.2 2.3`.
    Vertex { x: Number, y: Number, z: Number, w: Option<Number> },
    /// A normal vector, which need not have unit length: `vn 0.1 1.2 2.3`.
    VertexNormal { x: Number, y: Number, z: Number },
    /// A texture coordinate. The depth `z` is optional: `vt 0.1 1.2 2.3` or
    /// `vt 0.1 1.2`.
    VertexTexture { x: Number, y: Number, z: Option<Number> },
    /// A polygon, by its corners: `f 1 4 7`, `f 1/2 4/5 7/8` (with texture),
    /// `f 1//3 4//6 7//9` (with normal) or `f 1/2/3 4/5/6 7/8/9` (with both).
    Face { vertices: Vec<FaceVertex> },
    /// A path, by the indices of the vertices along it.
    Line { vertices: Vec<i64> },
}

/// One corner of a face.
#[derive(Debug, Clone, Copy, PartialEq, Eq)]
pub struct FaceVertex {
    /// Index of the vertex itself.
    pub vertex: i64,
    /// Index of the normal at the corner, if it has one.
    pub normal: Option<i64>,
    /// Index of the texture coordinate at the corner, if it has one.
    pub texture: Option<i64>,
}

impl FaceVertex {
    /// A corner with neither normal nor texture coordinate.
    pub fn new(vertex: i64) -> (r: Self)
        ensures
            r == (FaceVertex { vertex, normal: None, texture: None }),
    {
        Self { vertex, normal: None, texture: None }
    }

    /// A corner with the given normal and texture coordinate.
    pub fn new2(vertex: i64, normal: Option<i64>, texture: Option<i64>) -> (r: Self)
        ensures
            r == (FaceVertex { vertex, normal, texture }),
    {
        Self { vertex, normal, texture }
    }

    /// The text of a corner: the vertex index, then `/` and the texture index,
    /// then `/` and the normal index. Without a normal the second `/` is left
    /// out; without a texture index its place stays empty.
    pub open spec fn text(self) -> Seq<char> {
        int_text(self.vertex as int) + match (self.texture, self.normal) {
            (None, None) => Seq::empty(),
            (Some(t), None) => seq!['/'] + int_text(t as int),
            (None, Some(n)) => seq!['/', '/'] + int_text(n as int),
            (Some(t), Some(n)) => seq!['/'] + int_text(t as int) + seq!['/'] + int_text(n as int),
        }
    }
}

/// Number of characters before the first `/`.
pub open spec fn part_len(s: Seq<char>) -> nat {
    leading(s, |c: char| c != '/')
}

/// The parts into which `/` cuts a word. Between two neighbouring `/` lies an
/// empty part.
pub open spec fn split_parts(s: Seq<char>) -> Seq<Seq<char>>
    decreases s.len(),
{
    if part_len(s) >= s.len() {
        seq![s]
    } else {
        seq![s.take(part_len(s) as int)] + split_parts(s.skip(part_len(s) as int + 1))
    }
}

/// An index that may be left out: an empty part stands for none, any other
/// part must be an integer.
pub open spec fn optional_index(s: Seq<char>) -> Option<Option<i64>> {
    if s.len() == 0 {
        Some(None)
    } else if parse_i64_spec(s) is Some {
        Some(parse_i64_spec(s))
    } else {
        None
    }
}

/// The corner that a word denotes, if any: at most three parts, of which the
/// first is the vertex index, the second the texture index and the third the
/// normal index. The vertex index must be there.
pub open spec fn parse_face_vertex(s: Seq<char>) -> Option<FaceVertex> {
    let parts = split_parts(s);
    let vertex = parse_i64_spec(parts[0]);
    let texture = if parts.len() >= 2 {
        optional_index(parts[1])
    } else {
        Some(None)
    };
    let normal = if parts.len() >= 3 {
        optional_index(parts[2])
    } else {
        Some(None)
    };
    if parts.len() <= 3 && vertex is Some && texture is Some && normal is Some {
        Some(FaceVertex { vertex: vertex->0, normal: normal->0, texture: texture->0 })
    } else {
        None
    }
}

/// An entity as a mathematical value: text is a sequence of characters, and a
/// numeric field is the sequence of characters of its literal.
#[allow(inconsistent_fields)]
pub enum EntityView {
    Comment { content: Seq<char> },
    Object { name: Seq<char> },
    Group { name: Seq<char> },
    SmoothingGroup { name: Seq<char> },
    Mtllib { name: Seq<char> },
    Usemtl { name: Seq<char> },
    Vertex { x: Seq<char>, y: Seq<char>, z: Seq<char>, w: Option<Seq<char>> },
    VertexNormal { x: Seq<char>, y: Seq<char>, z: Seq<char> },
    VertexTexture { x: Seq<char>, y: Seq<char>, z: Option<Seq<char>> },
    Face { vertices: Seq<FaceVertex> },
    Line { vertices: Seq<i64> },
}

impl View for Entity {
    type V = EntityView;

    open spec fn view(&self) -> EntityView {
        match *self {
            Entity::Comment { content } => EntityView::Comment { content: content@ },
            Entity::Object { name } => EntityView::Object { name: name@ },
            Entity::Group { name } => EntityView::Group { name: name@ },
            Entity::SmoothingGroup { name } => EntityView::SmoothingGroup { name: name@ },
            Entity::Mtllib { name } => EntityView::Mtllib { name: name@ },
            Entity::Usemtl { name } => EntityView::Usemtl { name: name@ },
            Entity::Vertex { x, y, z, w } => EntityView::Vertex {
                x: x@,
                y: y@,
                z: z@,
                w: optional_view(w),
            },
            Entity::VertexNormal { x, y, z } => EntityView::VertexNormal { x: x@, y: y@, z: z@ },
            Entity::VertexTexture { x, y, z } => EntityView::VertexTexture {
                x: x@,
                y: y@,
                z: optional_view(z),
            },
            Entity::Face { vertices } => EntityView::Face { vertices: vertices@ },
            Entity::Line { vertices } => EntityView::Line { vertices: vertices@ },
        }
    }
}

impl EntityView {
    /// The token that names the entity's kind. No two kinds share one.
    pub open spec fn token(self) -> Seq<char> {
        match self {
            EntityView::Comment { .. } => "#"@,
            EntityView::Object { .. } => "o"@,
            EntityView::Group { .. } => "g"@,
            EntityView::SmoothingGroup { .. } => "s"@,
            EntityView::Mtllib { .. } => "mtllib"@,
            EntityView::Usemtl { .. } => "usemtl"@,
            EntityView::Vertex { .. } => "v"@,
            EntityView::VertexNormal { .. } => "vn"@,
            EntityView::VertexTexture { .. } => "vt"@,
            EntityView::Face { .. } => "f"@,
            EntityView::Line { .. } => "l"@,
        }
    }

    /// The fields that follow the token, in the order in which they are
    /// written.
    pub open spec fn fields(self) -> Seq<Seq<char>> {
        match self {
            EntityView::Comment { content } => seq![content],
            EntityView::Object { name } => seq![name],
            EntityView::Group { name } => seq![name],
            EntityView::SmoothingGroup { name } => seq![name],
            EntityView::Mtllib { name } => seq![name],
            EntityView::Usemtl { name } => seq![name],
            EntityView::Vertex { x, y, z, w } => seq![x, y, z] + optional_field(w),
            EntityView::VertexNormal { x, y, z } => seq![x, y, z],
            EntityView::VertexTexture { x, y, z } => seq![x, y] + optional_field(z),
            EntityView::Face { vertices } => Seq::new(
                vertices.len(),
                |i: int| vertices[i].text(),
            ),
            EntityView::Line { vertices } => Seq::new(
                vertices.len(),
                |i: int| int_text(vertices[i] as int),
            ),
        }
    }

    /// The line that stands for the entity: its token, a space, and its
    /// fields with single spaces between them. There is no line terminator.
    pub open spec fn line(self) -> Seq<char> {
        self.token() + seq![' '] + join(self.fields())
    }

    /// The entities that a line can stand for: text is normalized, and numeric
    /// fields are numeric literals.
    pub open spec fn wf(self) -> bool {
        match self {
            EntityView::Comment { content } => is_normalized(content),
            EntityView::Object { name } => is_normalized(name),
            EntityView::Group { name } => is_normalized(name),
            EntityView::SmoothingGroup { name } => is_normalized(name),
            EntityView::Mtllib { name } => is_normalized(name),
            EntityView::Usemtl { name } => is_normalized(name),
            EntityView::Vertex { x, y, z, w } => {
                &&& is_number(x)
                &&& is_number(y)
                &&& is_number(z)
                &&& w is Some ==> is_number(w->0)
            },
            EntityView::VertexNormal { x, y, z } => is_number(x) && is_number(y) && is_number(z),
            EntityView::VertexTexture { x, y, z } => {
                &&& is_number(x)
                &&& is_number(y)
                &&& z is Some ==> is_number(z->0)
            },
            EntityView::Face { .. } => true,
            EntityView::Line { .. } => true,
        }
    }
}

impl Entity {
    /// The token that names the entity's kind.
    pub fn token(&self) -> (r: &str)
        ensures
            r@ == self@.token(),
    {
        match self {
            Self::Comment { .. } => "#",
            Self::Object { .. } => "o",
            Self::Group { .. } => "g",
            Self::SmoothingGroup { .. } => "s",
            Self::Mtllib { .. } => "mtllib",
            Self::Usemtl { .. } => "usemtl",
            Self::Vertex { .. } => "v",
            Self::VertexNormal { .. } => "vn",
            Self::VertexTexture { .. } => "vt",
            Self::Face { .. } => "f",
            Self::Line { .. } => "l",
        }
    }

    /// Whether the entity is well formed, so that its line reads as the
    /// entity again.
    pub fn is_well_formed(&self) -> (r: bool)
        ensures
            r == self@.wf(),
    {
        match self {
            Self::Comment { content } => check_normalized(content.as_str()),
            Self::Object { name } => check_normalized(name.as_str()),
            Self::Group { name } => check_normalized(name.as_str()),
            Self::SmoothingGroup { name } => check_normalized(name.as_str()),
            Self::Mtllib { name } => check_normalized(name.as_str()),
            Self::Usemtl { name } => check_normalized(name.as_str()),
            Self::Vertex { x, y, z, w } => {
                x.is_literal() && y.is_literal() && z.is_literal() && match w {
                    Some(w) => w.is_literal(),
                    None => true,
                }
            },
            Self::VertexNormal { x, y, z } => x.is_literal() && y.is_literal() && z.is_literal(),
            Self::VertexTexture { x, y, z } => {
                x.is_literal() && y.is_literal() && match z {
                    Some(z) => z.is_literal(),
                    None => true,
                }
            },
            Self::Face { .. } => true,
            Self::Line { .. } => true,
        }
    }

    /// The line that stands for the entity. It begins with the token of the
    /// entity's kind and one space, and if the entity is well formed, the
    /// line reads as the entity again.
    pub fn to_string(&self) -> (r: String)
        ensures
            r@ == self@.line(),
            (self@.token() + seq![' ']).is_prefix_of(r@),
            self@.wf() ==> lex(r@) == Ok::<EntityView, ParseError>(self@),
    {
        proof {
            if self@.wf() {
                lemma_round_trip(self@);
            }
        }
        let mut line = String::new();
        FormatWriter::render(&mut line, self);
        assert(line@ =~= self@.line());
        assert(self@.line().subrange(0, self@.token().len() as int + 1) =~= self@.token() + seq![' ']);
        line
    }

    /// The entity that a line stands for, or why it stands for none.
    pub fn from(input: Format) -> (r: Result<Entity, ParseError>)
        ensures
            outcome(r) == lex(input@),
            r is Ok ==> r->Ok_0@.wf(),
    {
        ReadLexer::read_line(input.as_str())
    }

    /// The line that stands for the entity.
    pub fn into(self) -> (r: Format)
        ensures
            r@ == self@.line(),
    {
        self.to_string()
    }
}

} // verus!

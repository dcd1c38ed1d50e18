//! The entities of the material format, and the text of each.

use vstd::prelude::*;
use crate::error::ParseError;
use crate::mtl::laws::lemma_round_trip;
use crate::integer::int_text;
use crate::mtl::lexer::{lex, outcome, Lexer};
use crate::mtl::writer::Writer;
use crate::number::{is_number, Number};
use crate::text::{check_normalized, is_normalized, join};

verus! {

/// A line of text.
pub type Format = String;

/// The illumination models, each with the integer code that stands for it in
/// a material file.
#[derive(Debug, Clone, Copy, PartialEq, Eq)]
pub enum IllumMode {
    /// Code 0: colour on, ambient off.
    ColorOnAmbientOff,
    /// Code 1: colour on, ambient on.
    ColorOnAmbientOn,
    /// Code 2: highlight on.
    HighlightOn,
    /// Code 3: reflection on, ray trace on.
    ReflectionOnRayTraceOn,
    /// Code 4: transparency (glass) on, reflection by ray trace.
    GlassOnRayTraceOn,
    /// Code 5: Fresnel reflection on, ray trace on.
    FresnelOnRayTraceOn,
    /// Code 6: refraction on, Fresnel off, ray trace on.
    RefractionOnFresnelOffRayTraceOn,
    /// Code 7: refraction on, Fresnel on, ray trace on.
    RefractionOnFresnelOnRayTraceOn,
    /// Code 8: reflection on, ray trace off.
    ReflectionOnRayTraceOff,
    /// Code 9: transparency (glass) on, ray trace off.
    GlassOnRayTraceOff,
    /// Code 10: casts shadows onto invisible surfaces.
    ShadowsOnInvisibleSurfaces,
}

impl IllumMode {
    /// The code of the model.
    pub open spec fn code_of(self) -> i64 {
        match self {
            IllumMode::ColorOnAmbientOff => 0,
            IllumMode::ColorOnAmbientOn => 1,
            IllumMode::HighlightOn => 2,
            IllumMode::ReflectionOnRayTraceOn => 3,
            IllumMode::GlassOnRayTraceOn => 4,
            IllumMode::FresnelOnRayTraceOn => 5,
            IllumMode::RefractionOnFresnelOffRayTraceOn => 6,
            IllumMode::RefractionOnFresnelOnRayTraceOn => 7,
            IllumMode::ReflectionOnRayTraceOff => 8,
            IllumMode::GlassOnRayTraceOff => 9,
            IllumMode::ShadowsOnInvisibleSurfaces => 10,
        }
    }

    /// The model with the given code, if there is one.
    pub open spec fn with_code(code: i64) -> Option<IllumMode> {
        if code == 0 {
            Some(IllumMode::ColorOnAmbientOff)
        } else if code == 1 {
            Some(IllumMode::ColorOnAmbientOn)
        } else if code == 2 {
            Some(IllumMode::HighlightOn)
        } else if code == 3 {
            Some(IllumMode::ReflectionOnRayTraceOn)
        } else if code == 4 {
            Some(IllumMode::GlassOnRayTraceOn)
        } else if code == 5 {
            Some(IllumMode::FresnelOnRayTraceOn)
        } else if code == 6 {
            Some(IllumMode::RefractionOnFresnelOffRayTraceOn)
        } else if code == 7 {
            Some(IllumMode::RefractionOnFresnelOnRayTraceOn)
        } else if code == 8 {
            Some(IllumMode::ReflectionOnRayTraceOff)
        } else if code == 9 {
            Some(IllumMode::GlassOnRayTraceOff)
        } else if code == 10 {
            Some(IllumMode::ShadowsOnInvisibleSurfaces)
        } else {
            None
        }
    }

    /// The code of the model.
    pub fn code(self) -> (r: i64)
        ensures
            r == self.code_of(),
            0 <= r <= 10,
            IllumMode::with_code(r) == Some(self),
    {
        match self {
            IllumMode::ColorOnAmbientOff => 0,
            IllumMode::ColorOnAmbientOn => 1,
            IllumMode::HighlightOn => 2,
            IllumMode::ReflectionOnRayTraceOn => 3,
            IllumMode::GlassOnRayTraceOn => 4,
            IllumMode::FresnelOnRayTraceOn => 5,
            IllumMode::RefractionOnFresnelOffRayTraceOn => 6,
            IllumMode::RefractionOnFresnelOnRayTraceOn => 7,
            IllumMode::ReflectionOnRayTraceOff => 8,
            IllumMode::GlassOnRayTraceOff => 9,
            IllumMode::ShadowsOnInvisibleSurfaces => 10,
        }
    }

    /// The model with the given code. There is one exactly for the codes 0
    /// to 10.
    pub fn from_code(code: i64) -> (r: Option<IllumMode>)
        ensures
            r == IllumMode::with_code(code),
            r is Some <==> 0 <= code <= 10,
            r is Some ==> r->0.code_of() == code,
    {
        match code {
            0 => Some(IllumMode::ColorOnAmbientOff),
            1 => Some(IllumMode::ColorOnAmbientOn),
            2 => Some(IllumMode::HighlightOn),
            3 => Some(IllumMode::ReflectionOnRayTraceOn),
            4 => Some(IllumMode::GlassOnRayTraceOn),
            5 => Some(IllumMode::FresnelOnRayTraceOn),
            6 => Some(IllumMode::RefractionOnFresnelOffRayTraceOn),
            7 => Some(IllumMode::RefractionOnFresnelOnRayTraceOn),
            8 => Some(IllumMode::ReflectionOnRayTraceOff),
            9 => Some(IllumMode::GlassOnRayTraceOff),
            10 => Some(IllumMode::ShadowsOnInvisibleSurfaces),
            _ => None,
        }
    }
}

/// One statement of a material file.
#[allow(inconsistent_fields)]
#[derive(Debug, Clone, PartialEq)]
pub enum Entity {
    Comment { content: String },
    MaterialName { name: String },
    AmbientColor { r: Number, g: Number, b: Number },
    DiffuseColor { r: Number, g: Number, b: Number },
    SpecularColor { r: Number, g: Number, b: Number },
    SpecularHighlights { value: Number },
    OpticalDensity { value: Number },
    Dissolve { value: Number },
    InvertedDissolve { value: Number },
    Illum { mode: IllumMode },
    TextureMapAmbient { file: String },
    TextureMapDiffuse { file: String },
    TransmissionFilterColorRGB { r: Number, g: Number, b: Number },
    TextureMapSpecular { file: String },
    TextureMapHighlight { file: String },
    TextureMapAlpha { file: String },
    BumpMap { file: String },
    DisplacementMap { file: String },
    StencilDecalTextureMap { file: String },
    SphericalReflectionMap { file: String },
}

/// An entity as a mathematical value: text is a sequence of characters, and a
/// numeric field is the sequence of characters of its literal.
#[allow(inconsistent_fields)]
pub enum EntityView {
    Comment { content: Seq<char> },
    MaterialName { name: Seq<char> },
    AmbientColor { r: Seq<char>, g: Seq<char>, b: Seq<char> },
    DiffuseColor { r: Seq<char>, g: Seq<char>, b: Seq<char> },
    SpecularColor { r: Seq<char>, g: Seq<char>, b: Seq<char> },
    SpecularHighlights { value: Seq<char> },
    OpticalDensity { value: Seq<char> },
    Dissolve { value: Seq<char> },
    InvertedDissolve { value: Seq<char> },
    Illum { mode: IllumMode },
    TextureMapAmbient { file: Seq<char> },
    TextureMapDiffuse { file: Seq<char> },
    TransmissionFilterColorRGB { r: Seq<char>, g: Seq<char>, b: Seq<char> },
    TextureMapSpecular { file: Seq<char> },
    TextureMapHighlight { file: Seq<char> },
    TextureMapAlpha { file: Seq<char> },
    BumpMap { file: Seq<char> },
    DisplacementMap { file: Seq<char> },
    StencilDecalTextureMap { file: Seq<char> },
    SphericalReflectionMap { file: Seq<char> },
}

impl View for Entity {
    type V = EntityView;

    open spec fn view(&self) -> EntityView {
        match *self {
            Entity::Comment { content } => EntityView::Comment { content: content@ },
            Entity::MaterialName { name } => EntityView::MaterialName { name: name@ },
            Entity::AmbientColor { r, g, b } => EntityView::AmbientColor { r: r@, g: g@, b: b@ },
            Entity::DiffuseColor { r, g, b } => EntityView::DiffuseColor { r: r@, g: g@, b: b@ },
            Entity::SpecularColor { r, g, b } => EntityView::SpecularColor { r: r@, g: g@, b: b@ },
            Entity::SpecularHighlights { value } => EntityView::SpecularHighlights {
                value: value@,
            },
            Entity::OpticalDensity { value } => EntityView::OpticalDensity { value: value@ },
            Entity::Dissolve { value } => EntityView::Dissolve { value: value@ },
            Entity::InvertedDissolve { value } => EntityView::InvertedDissolve { value: value@ },
            Entity::Illum { mode } => EntityView::Illum { mode },
            Entity::TextureMapAmbient { file } => EntityView::TextureMapAmbient { file: file@ },
            Entity::TextureMapDiffuse { file } => EntityView::TextureMapDiffuse { file: file@ },
            Entity::TransmissionFilterColorRGB { r, g, b } => {
                EntityView::TransmissionFilterColorRGB { r: r@, g: g@, b: b@ }
            },
            Entity::TextureMapSpecular { file } => EntityView::TextureMapSpecular { file: file@ },
            Entity::TextureMapHighlight { file } => EntityView::TextureMapHighlight {
                file: file@,
            },
            Entity::TextureMapAlpha { file } => EntityView::TextureMapAlpha { file: file@ },
            Entity::BumpMap { file } => EntityView::BumpMap { file: file@ },
            Entity::DisplacementMap { file } => EntityView::DisplacementMap { file: file@ },
            Entity::StencilDecalTextureMap { file } => EntityView::StencilDecalTextureMap {
                file: file@,
            },
            Entity::SphericalReflectionMap { file } => EntityView::SphericalReflectionMap {
                file: file@,
            },
        }
    }
}

impl EntityView {
    /// The token that names the entity's kind. No two kinds share one.
    pub open spec fn token(self) -> Seq<char> {
        match self {
            EntityView::Comment { .. } => "#"@,
            EntityView::MaterialName { .. } => "newmtl"@,
            EntityView::AmbientColor { .. } => "Ka"@,
            EntityView::DiffuseColor { .. } => "Kd"@,
            EntityView::SpecularColor { .. } => "Ks"@,
            EntityView::SpecularHighlights { .. } => "Ns"@,
            EntityView::OpticalDensity { .. } => "Ni"@,
            EntityView::Dissolve { .. } => "d"@,
            EntityView::InvertedDissolve { .. } => "Tr"@,
            EntityView::Illum { .. } => "illum"@,
            EntityView::TextureMapAmbient { .. } => "map_Ka"@,
            EntityView::TextureMapDiffuse { .. } => "map_Kd"@,
            EntityView::TransmissionFilterColorRGB { .. } => "Tf"@,
            EntityView::TextureMapSpecular { .. } => "map_Ks"@,
            EntityView::TextureMapHighlight { .. } => "map_Ns"@,
            EntityView::TextureMapAlpha { .. } => "map_d"@,
            EntityView::BumpMap { .. } => "bump"@,
            EntityView::DisplacementMap { .. } => "disp"@,
            EntityView::StencilDecalTextureMap { .. } => "decal"@,
            EntityView::SphericalReflectionMap { .. } => "refl"@,
        }
    }

    /// The fields that follow the token, in the order in which they are
    /// written.
    pub open spec fn fields(self) -> Seq<Seq<char>> {
        match self {
            EntityView::Comment { content } => seq![content],
            EntityView::MaterialName { name } => seq![name],
            EntityView::AmbientColor { r, g, b } => seq![r, g, b],
            EntityView::DiffuseColor { r, g, b } => seq![r, g, b],
            EntityView::SpecularColor { r, g, b } => seq![r, g, b],
            EntityView::SpecularHighlights { value } => seq![value],
            EntityView::OpticalDensity { value } => seq![value],
            EntityView::Dissolve { value } => seq![value],
            EntityView::InvertedDissolve { value } => seq![value],
            EntityView::Illum { mode } => seq![int_text(mode.code_of() as int)],
            EntityView::TextureMapAmbient { file } => seq![file],
            EntityView::TextureMapDiffuse { file } => seq![file],
            EntityView::TransmissionFilterColorRGB { r, g, b } => seq![r, g, b],
            EntityView::TextureMapSpecular { file } => seq![file],
            EntityView::TextureMapHighlight { file } => seq![file],
            EntityView::TextureMapAlpha { file } => seq![file],
            EntityView::BumpMap { file } => seq![file],
            EntityView::DisplacementMap { file } => seq![file],
            EntityView::StencilDecalTextureMap { file } => seq![file],
            EntityView::SphericalReflectionMap { file } => seq![file],
        }
    }

    /// The line that stands for the entity: its token, a space, and its
    /// fields with single spaces between them. There is no line terminator.
    pub open spec fn line(self) -> Seq<char> {
        self.token() + seq![' '] + join(self.fields())
    }

    /// The entities that a line can stand for: text is normalized, and numeric
    /// fields are numeric literals.
    pub open spec fn wf(self) -> bool {
        match self {
            EntityView::Comment { content } => is_normalized(content),
            EntityView::MaterialName { name } => is_normalized(name),
            EntityView::AmbientColor { r, g, b } => is_number(r) && is_number(g) && is_number(b),
            EntityView::DiffuseColor { r, g, b } => is_number(r) && is_number(g) && is_number(b),
            EntityView::SpecularColor { r, g, b } => is_number(r) && is_number(g) && is_number(b),
            EntityView::SpecularHighlights { value } => is_number(value),
            EntityView::OpticalDensity { value } => is_number(value),
            EntityView::Dissolve { value } => is_number(value),
            EntityView::InvertedDissolve { value } => is_number(value),
            EntityView::Illum { .. } => true,
            EntityView::TextureMapAmbient { file } => is_normalized(file),
            EntityView::TextureMapDiffuse { file } => is_normalized(file),
            EntityView::TransmissionFilterColorRGB { r, g, b } => is_number(r) && is_number(g)
                && is_number(b),
            EntityView::TextureMapSpecular { file } => is_normalized(file),
            EntityView::TextureMapHighlight { file } => is_normalized(file),
            EntityView::TextureMapAlpha { file } => is_normalized(file),
            EntityView::BumpMap { file } => is_normalized(file),
            EntityView::DisplacementMap { file } => is_normalized(file),
            EntityView::StencilDecalTextureMap { file } => is_normalized(file),
            EntityView::SphericalReflectionMap { file } => is_normalized(file),
        }
    }
}

impl Entity {
    /// The token that names the entity's kind.
    pub fn token(&self) -> (r: &str)
        ensures
            r@ == self@.token(),
    {
        match self {
            Self::Comment { .. } => "#",
            Self::MaterialName { .. } => "newmtl",
            Self::AmbientColor { .. } => "Ka",
            Self::DiffuseColor { .. } => "Kd",
            Self::SpecularColor { .. } => "Ks",
            Self::SpecularHighlights { .. } => "Ns",
            Self::OpticalDensity { .. } => "Ni",
            Self::Dissolve { .. } => "d",
            Self::InvertedDissolve { .. } => "Tr",
            Self::Illum { .. } => "illum",
            Self::TextureMapAmbient { .. } => "map_Ka",
            Self::TextureMapDiffuse { .. } => "map_Kd",
            Self::TransmissionFilterColorRGB { .. } => "Tf",
            Self::TextureMapSpecular { .. } => "map_Ks",
            Self::TextureMapHighlight { .. } => "map_Ns",
            Self::TextureMapAlpha { .. } => "map_d",
            Self::BumpMap { .. } => "bump",
            Self::DisplacementMap { .. } => "disp",
            Self::StencilDecalTextureMap { .. } => "decal",
            Self::SphericalReflectionMap { .. } => "refl",
        }
    }

    /// Whether the entity is well formed, so that its line reads as the
    /// entity again.
    pub fn is_well_formed(&self) -> (r: bool)
        ensures
            r == self@.wf(),
    {
        match self {
            Self::Comment { content } => check_normalized(content.as_str()),
            Self::MaterialName { name } => check_normalized(name.as_str()),
            Self::AmbientColor { r, g, b } => r.is_literal() && g.is_literal() && b.is_literal(),
            Self::DiffuseColor { r, g, b } => r.is_literal() && g.is_literal() && b.is_literal(),
            Self::SpecularColor { r, g, b } => r.is_literal() && g.is_literal() && b.is_literal(),
            Self::SpecularHighlights { value } => value.is_literal(),
            Self::OpticalDensity { value } => value.is_literal(),
            Self::Dissolve { value } => value.is_literal(),
            Self::InvertedDissolve { value } => value.is_literal(),
            Self::Illum { .. } => true,
            Self::TextureMapAmbient { file } => check_normalized(file.as_str()),
            Self::TextureMapDiffuse { file } => check_normalized(file.as_str()),
            Self::TransmissionFilterColorRGB { r, g, b } => r.is_literal() && g.is_literal()
                && b.is_literal(),
            Self::TextureMapSpecular { file } => check_normalized(file.as_str()),
            Self::TextureMapHighlight { file } => check_normalized(file.as_str()),
            Self::TextureMapAlpha { file } => check_normalized(file.as_str()),
            Self::BumpMap { file } => check_normalized(file.as_str()),
            Self::DisplacementMap { file } => check_normalized(file.as_str()),
            Self::StencilDecalTextureMap { file } => check_normalized(file.as_str()),
            Self::SphericalReflectionMap { file } => check_normalized(file.as_str()),
        }
    }

    /// The line that stands for the entity. It begins with the token of the
    /// entity's kind and one space, and if the entity is well formed, the
    /// line reads as the entity again.
    pub fn to_string(&self) -> (r: String)
        ensures
            r@ == self@.line(),
            (self@.token() + seq![' ']).is_prefix_of(r@),
            self@.wf() ==> lex(r@) == Ok::<EntityView, ParseError>(self@),
    {
        proof {
            if self@.wf() {
                lemma_round_trip(self@);
            }
        }
        let mut line = String::new();
        Writer::render(&mut line, self);
        assert(line@ =~= self@.line());
        assert(self@.line().subrange(0, self@.token().len() as int + 1) =~= self@.token()
            + seq![' ']);
        line
    }

    /// The entity that a line stands for, or why it stands for none.
    pub fn from(input: Format) -> (r: Result<Entity, ParseError>)
        ensures
            outcome(r) == lex(input@),
            r is Ok ==> r->Ok_0@.wf(),
    {
        Lexer::read_line(input.as_str())
    }

    /// The line that stands for the entity.
    pub fn into(self) -> (r: Format)
        ensures
            r@ == self@.line(),
    {
        self.to_string()
    }
}

} // verus!

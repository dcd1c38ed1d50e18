//! Writing material entities as text.

use vstd::prelude::*;
use vstd::string::StringExecFns;
use vstd::utf8::encode_utf8;
use crate::fields::{append_numbers, append_text};
use crate::integer::append_i64;
use crate::mtl::entity::Entity;
use crate::text::append_space;

verus! {

/// Writes material entities.
pub struct Writer {}

impl Writer {
    /// Appends the line of `e` to `out`.
    pub fn render(out: &mut String, e: &Entity)
        ensures
            final(out)@ == old(out)@ + e@.line(),
    {
        let token = e.token();
        match e {
            Entity::Comment { content } => append_text(out, token, content.as_str()),
            Entity::MaterialName { name } => append_text(out, token, name.as_str()),
            Entity::AmbientColor { r, g, b } => {
                append_numbers(out, token, r, g, Some(b), None);
                assert(seq![r@, g@] + seq![b@] + Seq::<Seq<char>>::empty() =~= e@.fields());
            },
            Entity::DiffuseColor { r, g, b } => {
                append_numbers(out, token, r, g, Some(b), None);
                assert(seq![r@, g@] + seq![b@] + Seq::<Seq<char>>::empty() =~= e@.fields());
            },
            Entity::SpecularColor { r, g, b } => {
                append_numbers(out, token, r, g, Some(b), None);
                assert(seq![r@, g@] + seq![b@] + Seq::<Seq<char>>::empty() =~= e@.fields());
            },
            Entity::SpecularHighlights { value } => append_text(out, token, value.as_str()),
            Entity::OpticalDensity { value } => append_text(out, token, value.as_str()),
            Entity::Dissolve { value } => append_text(out, token, value.as_str()),
            Entity::InvertedDissolve { value } => append_text(out, token, value.as_str()),
            Entity::Illum { mode } => {
                out.append(token);
                append_space(out);
                append_i64(out, mode.code());
                assert(final(out)@ =~= old(out)@ + e@.line());
            },
            Entity::TextureMapAmbient { file } => append_text(out, token, file.as_str()),
            Entity::TextureMapDiffuse { file } => append_text(out, token, file.as_str()),
            Entity::TransmissionFilterColorRGB { r, g, b } => {
                append_numbers(out, token, r, g, Some(b), None);
                assert(seq![r@, g@] + seq![b@] + Seq::<Seq<char>>::empty() =~= e@.fields());
            },
            Entity::TextureMapSpecular { file } => append_text(out, token, file.as_str()),
            Entity::TextureMapHighlight { file } => append_text(out, token, file.as_str()),
            Entity::TextureMapAlpha { file } => append_text(out, token, file.as_str()),
            Entity::BumpMap { file } => append_text(out, token, file.as_str()),
            Entity::DisplacementMap { file } => append_text(out, token, file.as_str()),
            Entity::StencilDecalTextureMap { file } => append_text(out, token, file.as_str()),
            Entity::SphericalReflectionMap { file } => append_text(out, token, file.as_str()),
        }
    }

    /// Writes the line of `e` to the byte sink `writer`, in UTF-8 and without
    /// a line terminator.
    pub fn write(writer: &mut Vec<u8>, e: &Entity)
        ensures
            final(writer)@ == old(writer)@ + encode_utf8(e@.line()),
    {
        let mut line = String::new();
        Writer::render(&mut line, e);
        assert(line@ =~= e@.line());
        writer.extend_from_slice(line.as_str().as_bytes());
    }
}

} // verus!

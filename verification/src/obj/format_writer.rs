//! Writing geometry entities as text.

use vstd::prelude::*;
use vstd::string::StringExecFns;
use vstd::utf8::encode_utf8;
use crate::integer::{append_i64, int_text};
use crate::fields::{append_numbers, append_text, optional_field, optional_view};
use crate::obj::entity::{Entity, FaceVertex};
use crate::text::{append_space, join, lemma_join_push};

verus! {

/// Writes geometry entities.
pub struct FormatWriter {}

/// Appends the text of one corner of a face.
pub fn append_face_vertex(out: &mut String, v: &FaceVertex)
    ensures
        final(out)@ == old(out)@ + v.text(),
{
    proof {
        reveal_strlit("/");
    }
    assert("/"@ =~= seq!['/']);
    append_i64(out, v.vertex);
    match (v.texture, v.normal) {
        (None, None) => {},
        (Some(t), None) => {
            out.append("/");
            append_i64(out, t);
        },
        (None, Some(n)) => {
            out.append("/");
            out.append("/");
            append_i64(out, n);
        },
        (Some(t), Some(n)) => {
            out.append("/");
            append_i64(out, t);
            out.append("/");
            append_i64(out, n);
        },
    }
    assert(final(out)@ =~= old(out)@ + v.text());
}

impl FormatWriter {
    /// Appends the line of `e` to `out`.
    pub fn render(out: &mut String, e: &Entity)
        ensures
            final(out)@ == old(out)@ + e@.line(),
    {
        let token = e.token();
        match e {
            Entity::Comment { content } => append_text(out, token, content.as_str()),
            Entity::Object { name } => append_text(out, token, name.as_str()),
            Entity::Group { name } => append_text(out, token, name.as_str()),
            Entity::SmoothingGroup { name } => append_text(out, token, name.as_str()),
            Entity::Mtllib { name } => append_text(out, token, name.as_str()),
            Entity::Usemtl { name } => append_text(out, token, name.as_str()),
            Entity::Vertex { x, y, z, w } => {
                append_numbers(out, token, x, y, Some(z), w.as_ref());
                assert(seq![x@, y@] + seq![z@] + optional_field(optional_view(*w)) =~= e@.fields());
            },
            Entity::VertexNormal { x, y, z } => {
                append_numbers(out, token, x, y, Some(z), None);
                assert(seq![x@, y@] + seq![z@] + Seq::<Seq<char>>::empty() =~= e@.fields());
            },
            Entity::VertexTexture { x, y, z } => {
                append_numbers(out, token, x, y, z.as_ref(), None);
                assert(seq![x@, y@] + optional_field(optional_view(*z)) + Seq::<
                    Seq<char>,
                >::empty() =~= e@.fields());
            },
            Entity::Face { vertices } => {
                out.append(token);
                append_space(out);
                let ghost fields = e@.fields();
                let n = vertices.len();
                let mut i: usize = 0;
                assert(fields.take(0) =~= Seq::<Seq<char>>::empty());
                assert(out@ =~= old(out)@ + (token@ + seq![' '] + join(fields.take(0))));
                while i < n
                    invariant
                        i <= n,
                        n == vertices@.len(),
                        fields.len() == n,
                        forall|k: int| 0 <= k < n ==> #[trigger] fields[k] == vertices@[k].text(),
                        out@ == old(out)@ + (token@ + seq![' '] + join(fields.take(i as int))),
                    decreases n - i,
                {
                    if i > 0 {
                        append_space(out);
                    }
                    append_face_vertex(out, &vertices[i]);
                    proof {
                        lemma_join_push(fields.take(i as int), fields[i as int]);
                        assert(fields.take(i as int).push(fields[i as int]) =~= fields.take(
                            i + 1,
                        ));
                    }
                    assert(out@ =~= old(out)@ + (token@ + seq![' '] + join(fields.take(i + 1))));
                    i += 1;
                }
                assert(fields.take(n as int) =~= fields);
            },
            Entity::Line { vertices } => {
                out.append(token);
                append_space(out);
                let ghost fields = e@.fields();
                let n = vertices.len();
                let mut i: usize = 0;
                assert(fields.take(0) =~= Seq::<Seq<char>>::empty());
                assert(out@ =~= old(out)@ + (token@ + seq![' '] + join(fields.take(0))));
                while i < n
                    invariant
                        i <= n,
                        n == vertices@.len(),
                        fields.len() == n,
                        forall|k: int|
                            0 <= k < n ==> #[trigger] fields[k] == int_text(vertices@[k] as int),
                        out@ == old(out)@ + (token@ + seq![' '] + join(fields.take(i as int))),
                    decreases n - i,
                {
                    if i > 0 {
                        append_space(out);
                    }
                    append_i64(out, vertices[i]);
                    proof {
                        lemma_join_push(fields.take(i as int), fields[i as int]);
                        assert(fields.take(i as int).push(fields[i as int]) =~= fields.take(
                            i + 1,
                        ));
                    }
                    assert(out@ =~= old(out)@ + (token@ + seq![' '] + join(fields.take(i + 1))));
                    i += 1;
                }
                assert(fields.take(n as int) =~= fields);
            },
        }
    }

    /// Writes the line of `e` to the byte sink `writer`, in UTF-8 and without
    /// a line terminator.
    pub fn write(writer: &mut Vec<u8>, e: &Entity)
        ensures
            final(writer)@ == old(writer)@ + encode_utf8(e@.line()),
    {
        let mut line = String::new();
        FormatWriter::render(&mut line, e);
        assert(line@ =~= e@.line());
        writer.extend_from_slice(line.as_str().as_bytes());
    }
}

} // verus!

use wavefront_rs::error::ParseError;
use wavefront_rs::number::Number;
use wavefront_rs::obj::entity::{Entity, FaceVertex};
use wavefront_rs::obj::read_lexer::{read_face_vertex, ReadLexer};
use wavefront_rs::text::Span;

fn num(text: &str) -> Number {
    Number::parse(text).unwrap()
}

fn value(n: &Number) -> f64 {
    n.as_str().parse::<f64>().unwrap()
}

fn corner(text: &str) -> Option<FaceVertex> {
    let chars: Vec<char> = text.chars().collect();
    let end = chars.len();
    read_face_vertex(&chars, Span { start: 0, end })
}

#[test]
fn face_vertex_new_has_no_normal_and_no_texture() {
    let v = FaceVertex::new(7);
    assert_eq!(v.vertex, 7);
    assert_eq!(v.normal, None);
    assert_eq!(v.texture, None);
}

#[test]
fn face_vertex_new2_keeps_what_it_is_given() {
    let v = FaceVertex::new2(1, Some(3), Some(2));
    assert_eq!(v.vertex, 1);
    assert_eq!(v.normal, Some(3));
    assert_eq!(v.texture, Some(2));
    assert_eq!(FaceVertex::new2(5, None, None), FaceVertex::new(5));
}

#[test]
fn lex_comment_keeps_its_words() {
    assert_eq!(
        ReadLexer::read_line("# hello world"),
        Ok(Entity::Comment { content: "hello world".to_string() })
    );
}

#[test]
fn lex_comment_without_words_is_empty() {
    assert_eq!(ReadLexer::read_line("#"), Ok(Entity::Comment { content: String::new() }));
    assert_eq!(ReadLexer::read_line("# "), Ok(Entity::Comment { content: String::new() }));
}

#[test]
fn lex_collapses_runs_of_whitespace_in_text() {
    assert_eq!(
        ReadLexer::read_line("  o \t my   object \r\n"),
        Ok(Entity::Object { name: "my object".to_string() })
    );
    assert_eq!(
        ReadLexer::read_line("g\u{a0}a\u{3000}b"),
        Ok(Entity::Group { name: "a b".to_string() })
    );
}

#[test]
fn lex_names() {
    assert_eq!(ReadLexer::read_line("o cube"), Ok(Entity::Object { name: "cube".to_string() }));
    assert_eq!(ReadLexer::read_line("g side"), Ok(Entity::Group { name: "side".to_string() }));
    assert_eq!(
        ReadLexer::read_line("s off"),
        Ok(Entity::SmoothingGroup { name: "off".to_string() })
    );
    assert_eq!(
        ReadLexer::read_line("mtllib scene.mtl"),
        Ok(Entity::Mtllib { name: "scene.mtl".to_string() })
    );
    assert_eq!(
        ReadLexer::read_line("usemtl red plastic"),
        Ok(Entity::Usemtl { name: "red plastic".to_string() })
    );
}

#[test]
fn lex_names_outside_ascii() {
    assert_eq!(
        ReadLexer::read_line("o Würfel № 5 立方体"),
        Ok(Entity::Object { name: "Würfel № 5 立方体".to_string() })
    );
}

#[test]
fn lex_vertex_without_weight() {
    assert_eq!(
        ReadLexer::read_line("v 0.1 1.2 2.3"),
        Ok(Entity::Vertex { x: num("0.1"), y: num("1.2"), z: num("2.3"), w: None })
    );
}

#[test]
fn lex_vertex_with_weight() {
    let e = ReadLexer::read_line("v 1.0 2.0 3.0 4.0").unwrap();
    match e {
        Entity::Vertex { x, y, z, w } => {
            assert_eq!(value(&x), 1.0);
            assert_eq!(value(&y), 2.0);
            assert_eq!(value(&z), 3.0);
            assert_eq!(value(&w.unwrap()), 4.0);
        },
        other => panic!("not a vertex: {:?}", other),
    }
}

#[test]
fn lex_vertex_missing_z_fails() {
    assert_eq!(ReadLexer::read_line("v 1.0 2.0"), Err(ParseError::WrongArity { found: 2 }));
}

#[test]
fn lex_vertex_with_five_fields_fails() {
    assert_eq!(ReadLexer::read_line("v 1 2 3 4 5"), Err(ParseError::WrongArity { found: 5 }));
    assert_eq!(ReadLexer::read_line("v"), Err(ParseError::WrongArity { found: 0 }));
}

#[test]
fn lex_normal_needs_exactly_three() {
    assert_eq!(ReadLexer::read_line("vn 1.0 2.0"), Err(ParseError::WrongArity { found: 2 }));
    assert_eq!(ReadLexer::read_line("vn 1 2 3 4"), Err(ParseError::WrongArity { found: 4 }));
    assert_eq!(
        ReadLexer::read_line("vn 0 -1 0.5"),
        Ok(Entity::VertexNormal { x: num("0"), y: num("-1"), z: num("0.5") })
    );
}

#[test]
fn lex_texture_with_and_without_depth() {
    assert_eq!(
        ReadLexer::read_line("vt 0.1 1.2"),
        Ok(Entity::VertexTexture { x: num("0.1"), y: num("1.2"), z: None })
    );
    assert_eq!(
        ReadLexer::read_line("vt 0.1 1.2 0"),
        Ok(Entity::VertexTexture { x: num("0.1"), y: num("1.2"), z: Some(num("0")) })
    );
    assert_eq!(ReadLexer::read_line("vt 0.1"), Err(ParseError::WrongArity { found: 1 }));
    assert_eq!(ReadLexer::read_line("vt 1 2 3 4"), Err(ParseError::WrongArity { found: 4 }));
}

#[test]
fn lex_reports_the_first_malformed_number() {
    assert_eq!(ReadLexer::read_line("v 1.0 x 3.0"), Err(ParseError::MalformedNumber { field: 1 }));
    assert_eq!(ReadLexer::read_line("v a b c"), Err(ParseError::MalformedNumber { field: 0 }));
    assert_eq!(
        ReadLexer::read_line("v 1 2 3 1e"),
        Err(ParseError::MalformedNumber { field: 3 })
    );
    assert_eq!(ReadLexer::read_line("vt 1 2,5"), Err(ParseError::MalformedNumber { field: 1 }));
}

#[test]
fn lex_checks_the_count_before_the_fields() {
    assert_eq!(ReadLexer::read_line("v x y"), Err(ParseError::WrongArity { found: 2 }));
}

#[test]
fn lex_face_with_texture_and_normal() {
    assert_eq!(
        ReadLexer::read_line("f 1/2/3 4/5/6 7/8/9"),
        Ok(Entity::Face {
            vertices: vec![
                FaceVertex { vertex: 1, texture: Some(2), normal: Some(3) },
                FaceVertex { vertex: 4, texture: Some(5), normal: Some(6) },
                FaceVertex { vertex: 7, texture: Some(8), normal: Some(9) },
            ],
        })
    );
}

#[test]
fn lex_face_with_normal_only() {
    assert_eq!(
        ReadLexer::read_line("f 1//3 4//6 7//9"),
        Ok(Entity::Face {
            vertices: vec![
                FaceVertex { vertex: 1, texture: None, normal: Some(3) },
                FaceVertex { vertex: 4, texture: None, normal: Some(6) },
                FaceVertex { vertex: 7, texture: None, normal: Some(9) },
            ],
        })
    );
}

#[test]
fn lex_face_with_texture_only_and_bare() {
    assert_eq!(
        ReadLexer::read_line("f 1/2 4/5 7/8"),
        Ok(Entity::Face {
            vertices: vec![
                FaceVertex { vertex: 1, texture: Some(2), normal: None },
                FaceVertex { vertex: 4, texture: Some(5), normal: None },
                FaceVertex { vertex: 7, texture: Some(8), normal: None },
            ],
        })
    );
    assert_eq!(
        ReadLexer::read_line("f 1 -2 3 4"),
        Ok(Entity::Face {
            vertices: vec![
                FaceVertex::new(1),
                FaceVertex::new(-2),
                FaceVertex::new(3),
                FaceVertex::new(4),
            ],
        })
    );
}

#[test]
fn lex_face_may_mix_the_shapes_of_its_corners() {
    assert_eq!(
        ReadLexer::read_line("f 1 2/3 4//5"),
        Ok(Entity::Face {
            vertices: vec![
                FaceVertex::new(1),
                FaceVertex { vertex: 2, texture: Some(3), normal: None },
                FaceVertex { vertex: 4, texture: None, normal: Some(5) },
            ],
        })
    );
}

#[test]
fn lex_face_of_any_length() {
    assert_eq!(ReadLexer::read_line("f"), Ok(Entity::Face { vertices: vec![] }));
    assert_eq!(ReadLexer::read_line("f 1"), Ok(Entity::Face { vertices: vec![FaceVertex::new(1)] }));
}

#[test]
fn lex_face_reports_the_first_malformed_corner() {
    assert_eq!(ReadLexer::read_line("f 1 x 3"), Err(ParseError::MalformedInteger { field: 1 }));
    assert_eq!(ReadLexer::read_line("f /2 1 1"), Err(ParseError::MalformedInteger { field: 0 }));
    assert_eq!(
        ReadLexer::read_line("f 1 2 3/4/5/6"),
        Err(ParseError::MalformedInteger { field: 2 })
    );
    assert_eq!(ReadLexer::read_line("f 1.5 2 3"), Err(ParseError::MalformedInteger { field: 0 }));
    assert_eq!(ReadLexer::read_line("f 1/a 2 3"), Err(ParseError::MalformedInteger { field: 0 }));
    assert_eq!(ReadLexer::read_line("f 1//b 2 3"), Err(ParseError::MalformedInteger { field: 0 }));
}

#[test]
fn corner_parts() {
    assert_eq!(corner("12"), Some(FaceVertex::new(12)));
    assert_eq!(corner("12/"), Some(FaceVertex::new(12)));
    assert_eq!(corner("12//"), Some(FaceVertex::new(12)));
    assert_eq!(corner("12/5/"), Some(FaceVertex::new2(12, None, Some(5))));
    assert_eq!(corner("-1/-2/-3"), Some(FaceVertex::new2(-1, Some(-3), Some(-2))));
    assert_eq!(corner(""), None);
    assert_eq!(corner("/"), None);
    assert_eq!(corner("//3"), None);
    assert_eq!(corner("1///"), None);
    assert_eq!(corner("1/2/3/"), None);
    assert_eq!(corner("9223372036854775808"), None);
}

#[test]
fn corner_inside_a_longer_text() {
    let chars: Vec<char> = "f 10/20/30 4".chars().collect();
    assert_eq!(
        read_face_vertex(&chars, Span { start: 2, end: 10 }),
        Some(FaceVertex::new2(10, Some(30), Some(20)))
    );
}

#[test]
fn lex_line_of_indices() {
    assert_eq!(ReadLexer::read_line("l 1 2 3 -4"), Ok(Entity::Line { vertices: vec![1, 2, 3, -4] }));
    assert_eq!(ReadLexer::read_line("l"), Ok(Entity::Line { vertices: vec![] }));
    assert_eq!(ReadLexer::read_line("l 1 2/3"), Err(ParseError::MalformedInteger { field: 1 }));
    assert_eq!(
        ReadLexer::read_line("l 9223372036854775808"),
        Err(ParseError::MalformedInteger { field: 0 })
    );
}

#[test]
fn lex_empty_line_fails() {
    assert_eq!(ReadLexer::read_line(""), Err(ParseError::EmptyLine));
    assert_eq!(ReadLexer::read_line("   \t \r\n"), Err(ParseError::EmptyLine));
}

#[test]
fn lex_unknown_token_fails() {
    for line in ["x 1 2 3", "#hello", "V 1 2 3", "vp 1 2", "newmtl a", "Kd 1 1 1", "ff 1 2 3", "hello world", "vnn 1 2 3", "O name"] {
        assert_eq!(ReadLexer::read_line(line), Err(ParseError::UnknownEntity), "{:?}", line);
    }
}

#[test]
fn from_is_the_lexer() {
    assert_eq!(
        Entity::from("usemtl wood".to_string()),
        Ok(Entity::Usemtl { name: "wood".to_string() })
    );
    assert_eq!(Entity::from("nothing here".to_string()), Err(ParseError::UnknownEntity));
    assert_eq!(Entity::from(String::new()), Err(ParseError::EmptyLine));
}

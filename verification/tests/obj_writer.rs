use wavefront_rs::number::Number;
use wavefront_rs::obj::entity::{Entity, FaceVertex};
use wavefront_rs::obj::format_writer::{append_face_vertex, FormatWriter};
use wavefront_rs::obj::read_lexer::ReadLexer;

fn num(text: &str) -> Number {
    Number::parse(text).unwrap()
}

fn written(e: &Entity) -> String {
    let mut sink: Vec<u8> = Vec::new();
    FormatWriter::write(&mut sink, e);
    String::from_utf8(sink).unwrap()
}

fn all_kinds() -> Vec<Entity> {
    vec![
        Entity::Comment { content: "a comment".to_string() },
        Entity::Object { name: "cube".to_string() },
        Entity::Group { name: "left side".to_string() },
        Entity::SmoothingGroup { name: "1".to_string() },
        Entity::Mtllib { name: "scene.mtl".to_string() },
        Entity::Usemtl { name: "steel".to_string() },
        Entity::Vertex { x: num("1"), y: num("2"), z: num("3"), w: None },
        Entity::Vertex { x: num("1"), y: num("2"), z: num("3"), w: Some(num("0.5")) },
        Entity::VertexNormal { x: num("0"), y: num("1"), z: num("0") },
        Entity::VertexTexture { x: num("0.25"), y: num("0.75"), z: None },
        Entity::VertexTexture { x: num("0.25"), y: num("0.75"), z: Some(num("1")) },
        Entity::Face { vertices: vec![FaceVertex::new(1), FaceVertex::new(2), FaceVertex::new(3)] },
        Entity::Line { vertices: vec![1, 2] },
    ]
}

#[test]
fn write_comment() {
    let e = Entity::Comment { content: "hello world".to_string() };
    assert_eq!(written(&e), "# hello world");
    assert_eq!(e.to_string(), "# hello world");
}

#[test]
fn write_names() {
    assert_eq!(written(&Entity::Object { name: "cube".to_string() }), "o cube");
    assert_eq!(written(&Entity::Group { name: "g 1".to_string() }), "g g 1");
    assert_eq!(written(&Entity::SmoothingGroup { name: "off".to_string() }), "s off");
    assert_eq!(written(&Entity::Mtllib { name: "a.mtl".to_string() }), "mtllib a.mtl");
    assert_eq!(written(&Entity::Usemtl { name: "red".to_string() }), "usemtl red");
}

#[test]
fn write_empty_text_leaves_token_and_space() {
    assert_eq!(written(&Entity::Comment { content: String::new() }), "# ");
    assert_eq!(written(&Entity::Face { vertices: vec![] }), "f ");
    assert_eq!(written(&Entity::Line { vertices: vec![] }), "l ");
}

#[test]
fn write_vertex_leaves_an_absent_weight_out() {
    let e = Entity::Vertex { x: num("0.1"), y: num("1.2"), z: num("2.3"), w: None };
    assert_eq!(written(&e), "v 0.1 1.2 2.3");
    let e = Entity::Vertex { x: num("0.1"), y: num("1.2"), z: num("2.3"), w: Some(num("3.4")) };
    assert_eq!(written(&e), "v 0.1 1.2 2.3 3.4");
}

#[test]
fn write_normal_and_texture() {
    let e = Entity::VertexNormal { x: num("0"), y: num("-1"), z: num("1e-3") };
    assert_eq!(written(&e), "vn 0 -1 1e-3");
    let e = Entity::VertexTexture { x: num("0.5"), y: num("0.5"), z: None };
    assert_eq!(written(&e), "vt 0.5 0.5");
    let e = Entity::VertexTexture { x: num("0.5"), y: num("0.5"), z: Some(num("0")) };
    assert_eq!(written(&e), "vt 0.5 0.5 0");
}

#[test]
fn write_face_in_each_shape() {
    let bare = Entity::Face {
        vertices: vec![FaceVertex::new(1), FaceVertex::new(4), FaceVertex::new(7)],
    };
    assert_eq!(written(&bare), "f 1 4 7");
    let textured = Entity::Face {
        vertices: vec![
            FaceVertex::new2(1, None, Some(2)),
            FaceVertex::new2(4, None, Some(5)),
            FaceVertex::new2(7, None, Some(8)),
        ],
    };
    assert_eq!(written(&textured), "f 1/2 4/5 7/8");
    let with_normal = Entity::Face {
        vertices: vec![
            FaceVertex::new2(1, Some(3), None),
            FaceVertex::new2(4, Some(6), None),
            FaceVertex::new2(7, Some(9), None),
        ],
    };
    assert_eq!(written(&with_normal), "f 1//3 4//6 7//9");
    let full = Entity::Face {
        vertices: vec![
            FaceVertex::new2(1, Some(3), Some(2)),
            FaceVertex::new2(4, Some(6), Some(5)),
            FaceVertex::new2(7, Some(9), Some(8)),
        ],
    };
    assert_eq!(written(&full), "f 1/2/3 4/5/6 7/8/9");
}

#[test]
fn write_face_read_with_normals_reproduces_the_line() {
    let e = ReadLexer::read_line("f 1//3 4//6 7//9").unwrap();
    assert_eq!(written(&e), "f 1//3 4//6 7//9");
    assert_eq!(e.to_string(), "f 1//3 4//6 7//9");
}

#[test]
fn write_corner_appends() {
    let mut out = String::from("f");
    append_face_vertex(&mut out, &FaceVertex::new2(-1, Some(-3), None));
    assert_eq!(out, "f-1//-3");
}

#[test]
fn write_line_of_indices() {
    assert_eq!(written(&Entity::Line { vertices: vec![1, 2, 3, -4] }), "l 1 2 3 -4");
    assert_eq!(
        written(&Entity::Line { vertices: vec![i64::MIN, i64::MAX] }),
        "l -9223372036854775808 9223372036854775807"
    );
}

#[test]
fn write_appends_to_the_sink_without_terminator() {
    let mut sink: Vec<u8> = b"o a\n".to_vec();
    FormatWriter::write(&mut sink, &Entity::Group { name: "b".to_string() });
    assert_eq!(sink, b"o a\ng b".to_vec());
    FormatWriter::write(&mut sink, &Entity::Line { vertices: vec![1, 2] });
    assert_eq!(sink, b"o a\ng bl 1 2".to_vec());
}

#[test]
fn write_encodes_text_as_utf8() {
    let e = Entity::Object { name: "Würfel 立方体".to_string() };
    let mut sink: Vec<u8> = Vec::new();
    FormatWriter::write(&mut sink, &e);
    assert_eq!(sink, "o Würfel 立方体".as_bytes().to_vec());
}

#[test]
fn render_appends_to_text() {
    let mut out = String::from(">> ");
    FormatWriter::render(&mut out, &Entity::Usemtl { name: "oak".to_string() });
    assert_eq!(out, ">> usemtl oak");
}

#[test]
fn token_of_each_kind() {
    let tokens: Vec<String> = all_kinds().iter().map(|e| e.token().to_string()).collect();
    assert_eq!(
        tokens,
        vec!["#", "o", "g", "s", "mtllib", "usemtl", "v", "v", "vn", "vt", "vt", "f", "l"]
    );
}

#[test]
fn written_line_begins_with_token_and_space() {
    for e in all_kinds() {
        let line = e.to_string();
        let head = format!("{} ", e.token());
        assert!(line.starts_with(&head), "{:?}", line);
        assert!(!line.ends_with('\n'));
    }
}

#[test]
fn into_is_the_written_line() {
    for e in all_kinds() {
        let line = e.to_string();
        assert_eq!(e.into(), line);
    }
}

#[test]
fn reading_undoes_writing_for_each_kind() {
    for e in all_kinds() {
        assert_eq!(ReadLexer::read_line(&e.to_string()), Ok(e.clone()));
        assert_eq!(Entity::from(written(&e)), Ok(e));
    }
}

#[test]
fn reading_undoes_writing_for_each_shape_of_corner() {
    for texture in [None, Some(2), Some(-2)] {
        for normal in [None, Some(3), Some(i64::MIN)] {
            let e = Entity::Face {
                vertices: vec![
                    FaceVertex::new2(1, normal, texture),
                    FaceVertex::new2(i64::MAX, normal, texture),
                    FaceVertex::new2(-7, normal, texture),
                ],
            };
            assert_eq!(ReadLexer::read_line(&e.to_string()), Ok(e));
        }
    }
}

#[test]
fn reading_undoes_writing_for_special_numbers() {
    let e = Entity::Vertex { x: num("inf"), y: num("-Infinity"), z: num("NaN"), w: Some(num("+.5e-7")) };
    assert_eq!(e.to_string(), "v inf -Infinity NaN +.5e-7");
    assert_eq!(ReadLexer::read_line(&e.to_string()), Ok(e));
}

#[test]
fn reading_does_not_undo_writing_of_text_that_is_not_normalized() {
    let e = Entity::Comment { content: "two  spaces".to_string() };
    assert_eq!(e.to_string(), "# two  spaces");
    assert_eq!(
        ReadLexer::read_line(&e.to_string()),
        Ok(Entity::Comment { content: "two spaces".to_string() })
    );
}

#[test]
fn well_formed_entities_of_each_kind() {
    for e in all_kinds() {
        assert!(e.is_well_formed(), "{:?}", e);
    }
    assert!(Entity::Comment { content: String::new() }.is_well_formed());
    assert!(Entity::Face { vertices: vec![] }.is_well_formed());
}

#[test]
fn text_that_is_not_normalized_is_not_well_formed() {
    assert!(!Entity::Comment { content: "two  spaces".to_string() }.is_well_formed());
    assert!(!Entity::Object { name: " lead".to_string() }.is_well_formed());
    assert!(!Entity::Group { name: "trail ".to_string() }.is_well_formed());
    assert!(!Entity::SmoothingGroup { name: "a\tb".to_string() }.is_well_formed());
    assert!(!Entity::Mtllib { name: "a.mtl\n".to_string() }.is_well_formed());
    assert!(!Entity::Usemtl { name: " ".to_string() }.is_well_formed());
}

#[test]
fn what_is_read_is_well_formed() {
    for line in ["#   a   b ", "o  x", "v 1 2 3", "vt .5 .5", "f 1/2/3 4/5/6 7/8/9", "l 1 2"] {
        let e = ReadLexer::read_line(line).unwrap();
        assert!(e.is_well_formed());
        assert_eq!(ReadLexer::read_line(&e.to_string()), Ok(e));
    }
}

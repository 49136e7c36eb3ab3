use gjk::collider::ColliderType;
use gjk::obj::{obj_index_underflows, parse_obj, ObjError};
use gjk::text::{float_literal, parse_index, split_white_space, white_space};

fn chars(s: &str) -> Vec<char> {
    s.chars().collect()
}

fn string(v: &[char]) -> String {
    v.iter().collect()
}

#[test]
fn float_literals_match_std() {
    let cases = [
        "1", "1.5", "-2e10", "+3E-4", ".5", "5.", "inf", "-Infinity", "NaN", "+nan", "e5", "1e",
        "1.2.3", "", ".", "+", "--1", "1e+", "0x10", "1_0", " 1", "1 ", "infin", "1.e3", "-.e3",
        "12345678901234567890e-400",
    ];
    for c in cases {
        assert_eq!(float_literal(&chars(c)), c.parse::<f64>().is_ok(), "case {:?}", c);
    }
}

#[test]
fn indices_match_std() {
    let cases = ["0", "12", "+7", "-1", "", "+", "1a", "18446744073709551615", "18446744073709551616", "007"];
    for c in cases {
        assert_eq!(parse_index(&chars(c)), c.parse::<usize>().ok(), "case {:?}", c);
    }
}

#[test]
fn white_space_matches_std() {
    for c in ['\t', '\n', '\u{b}', '\u{c}', '\r', ' ', '\u{85}', '\u{a0}', '\u{1680}', '\u{2000}',
        '\u{200a}', '\u{2028}', '\u{2029}', '\u{202f}', '\u{205f}', '\u{3000}', 'a', '\u{200b}', '\0'] {
        assert_eq!(white_space(c), c.is_whitespace(), "case {:?}", c);
    }
    let text = " a\tbc\u{3000}d  ";
    let toks: Vec<String> = split_white_space(&chars(text)).iter().map(|t| string(t)).collect();
    let expected: Vec<String> = text.split_whitespace().map(|s| s.to_string()).collect();
    assert_eq!(toks, expected);
}

#[test]
fn obj_reads_vertices_and_faces() {
    let text = "# cube\r\nv 0 0 0\r\nv 1.0 0 0\nv 0 1 -2e1\nvn 0 0 1\nf 1 2 3\nf\t3 2 1\n";
    let m = parse_obj(&chars(text)).ok().unwrap();
    assert_eq!(m.vertices.len(), 3);
    assert_eq!(string(&m.vertices[1].x), "1.0");
    assert_eq!(string(&m.vertices[2].z), "-2e1");
    assert_eq!(m.triangles, vec![[0, 1, 2]]);
}

#[test]
fn obj_errors() {
    match parse_obj(&chars("v 1 2 x 4\nf 1 2 3\n")) {
        Err(ObjError::BadFloat(t)) => assert_eq!(string(&t), "x"),
        _ => panic!("expected a float error"),
    }
    match parse_obj(&chars("v 1 2\r\nf 1 2 3\n")) {
        Err(ObjError::VertexArity { count, line }) => {
            assert_eq!(count, 2);
            assert_eq!(string(&line), "v 1 2");
        }
        _ => panic!("expected a vertex arity error"),
    }
    match parse_obj(&chars("v 1 2 3\nf 1 -2 3\n")) {
        Err(ObjError::BadIndex(t)) => assert_eq!(string(&t), "-2"),
        _ => panic!("expected an index error"),
    }
    match parse_obj(&chars("v 1 2 3\nf 1 2 3 4")) {
        Err(ObjError::FaceArity { count, line }) => {
            assert_eq!(count, 4);
            assert_eq!(string(&line), "f 1 2 3 4");
        }
        _ => panic!("expected a face arity error"),
    }
    assert!(matches!(parse_obj(&chars("f 1 2 3\n")), Err(ObjError::NoVertices)));
    assert!(matches!(parse_obj(&chars("v 1 2 3\n")), Err(ObjError::NoFaces)));
    assert!(matches!(parse_obj(&chars("")), Err(ObjError::NoVertices)));
}

#[test]
fn obj_zero_index_is_found() {
    assert!(obj_index_underflows(&chars("v 1 2 3\nf 0 1 2\n")));
    assert!(!obj_index_underflows(&chars("v 1 2 3\nf 1 1 1\n")));
    // an earlier fault comes first
    assert!(!obj_index_underflows(&chars("v 1 2\nf 0 1 2\n")));
}

#[test]
fn collider_names() {
    assert_eq!(ColliderType::from_name("Sphere"), Some(ColliderType::Sphere));
    assert_eq!(ColliderType::from_name("Capsule"), Some(ColliderType::Capsule));
    assert_eq!(ColliderType::from_name("Cylinder"), Some(ColliderType::Cylinder));
    assert_eq!(ColliderType::from_name("Box"), Some(ColliderType::Box));
    assert_eq!(ColliderType::from_name("Mesh"), Some(ColliderType::Mesh));
    assert_eq!(ColliderType::from_name("sphere"), None);
    assert_eq!(ColliderType::from_name(""), None);
    assert_eq!(ColliderType::from_random_index(0), ColliderType::Sphere);
    assert_eq!(ColliderType::from_random_index(1), ColliderType::Capsule);
    assert_eq!(ColliderType::from_random_index(2), ColliderType::Cylinder);
}

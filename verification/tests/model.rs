use gl_rust::algebra::scalar::Scalar;
use gl_rust::algebra::vector3::Vector3;
use gl_rust::topology::model::space;
use gl_rust::topology::model::Corner;
use gl_rust::topology::model::Item;
use gl_rust::topology::model::Model;
use gl_rust::topology::model::Record;

fn scalar(x: f32) -> Scalar {
    Scalar::from_bits(x.to_bits())
}

fn float(s: Scalar) -> f32 {
    f32::from_bits(s.to_bits())
}

fn vector(x: f32, y: f32, z: f32) -> Vector3 {
    Vector3::create(scalar(x), scalar(y), scalar(z))
}

fn corner(v: usize, t: usize, n: usize) -> Corner {
    Corner { v, t, n }
}

/// The words that a record hands out, with a tag for its kind.
fn told(line: &str) -> Option<(char, Vec<String>)> {
    match Model::record(line) {
        None => None,
        Some(Record::Position(x, y, z)) => Some(('v', vec![x.to_string(), y.to_string(), z.to_string()])),
        Some(Record::Normal(x, y, z)) => Some(('n', vec![x.to_string(), y.to_string(), z.to_string()])),
        Some(Record::Texture(u, v)) => Some(('t', vec![u.to_string(), v.to_string()])),
        Some(Record::Face(a, b, c)) => Some((
            'f',
            vec![
                format!("{} {} {}", a.v, a.t, a.n),
                format!("{} {} {}", b.v, b.t, b.n),
                format!("{} {} {}", c.v, c.t, c.n),
            ],
        )),
        Some(Record::Other) => Some(('-', Vec::new())),
    }
}

fn words(kind: char, list: &[&str]) -> Option<(char, Vec<String>)> {
    Some((kind, list.iter().map(|w| w.to_string()).collect()))
}

#[test]
fn space_is_what_the_standard_library_calls_white_space() {
    for n in 0..=0x10ffffu32 {
        if let Some(c) = char::from_u32(n) {
            assert_eq!(space(c), c.is_whitespace(), "U+{:04X}", n);
        }
    }
}

#[test]
fn position_line_hands_out_three_words() {
    assert_eq!(told("v 1.0 -2.5 3e2"), words('v', &["1.0", "-2.5", "3e2"]));
}

#[test]
fn normal_line_hands_out_three_words() {
    assert_eq!(told("vn 0 1 0"), words('n', &["0", "1", "0"]));
}

#[test]
fn texture_line_hands_out_two_words() {
    assert_eq!(told("vt 0.25 0.75"), words('t', &["0.25", "0.75"]));
}

#[test]
fn words_past_those_needed_are_not_read() {
    assert_eq!(told("v 1 2 3 4 5"), words('v', &["1", "2", "3"]));
    assert_eq!(told("vt 0.5 0.5 0.0"), words('t', &["0.5", "0.5"]));
}

#[test]
fn numbers_are_not_judged_by_the_record() {
    assert_eq!(told("v one two three"), words('v', &["one", "two", "three"]));
}

#[test]
fn white_space_of_any_kind_parts_words() {
    assert_eq!(told("  v\t1.0   2.0\u{a0}3.0 \r"), words('v', &["1.0", "2.0", "3.0"]));
    assert_eq!(told("\u{3000}vt\u{2003}1\u{85}2"), words('t', &["1", "2"]));
}

#[test]
fn face_line_gives_three_corners() {
    assert_eq!(told("f 1/2/3 4/5/6 7/8/9"), words('f', &["1 2 3", "4 5 6", "7 8 9"]));
}

#[test]
fn face_takes_its_first_three_corners() {
    assert_eq!(told("f 1/1/1 2/2/2 3/3/3 4/4/4"), words('f', &["1 1 1", "2 2 2", "3 3 3"]));
}

#[test]
fn corner_reads_a_plus_and_leading_zeros() {
    assert_eq!(told("f +1/007/3 4/5/6 7/8/9"), words('f', &["1 7 3", "4 5 6", "7 8 9"]));
}

#[test]
fn corner_ignores_what_follows_a_third_bar() {
    assert_eq!(told("f 1/2/3/x 4/5/6/ 7/8/9/10/11"), words('f', &["1 2 3", "4 5 6", "7 8 9"]));
}

#[test]
fn corner_may_name_place_zero() {
    assert_eq!(told("f 0/0/0 1/1/1 2/2/2"), words('f', &["0 0 0", "1 1 1", "2 2 2"]));
}

#[test]
fn corner_reads_the_largest_place() {
    let line = format!("f {}/1/1 2/2/2 3/3/3", usize::MAX);
    assert_eq!(
        told(&line),
        Some(('f', vec![format!("{} 1 1", usize::MAX), "2 2 2".to_string(), "3 3 3".to_string()]))
    );
}

#[test]
fn other_lines_are_passed_over() {
    assert_eq!(told(""), words('-', &[]));
    assert_eq!(told("   \t "), words('-', &[]));
    assert_eq!(told("# a comment"), words('-', &[]));
    assert_eq!(told("o bunny"), words('-', &[]));
    assert_eq!(told("vx 1 2 3"), words('-', &[]));
    assert_eq!(told("V 1 2 3"), words('-', &[]));
    assert_eq!(told("ff 1/1/1 2/2/2 3/3/3"), words('-', &[]));
    assert_eq!(told("vp 1 2"), words('-', &[]));
    assert_eq!(told("s off"), words('-', &[]));
}

#[test]
fn line_with_too_few_numbers_is_malformed() {
    assert_eq!(told("v 1 2"), None);
    assert_eq!(told("v"), None);
    assert_eq!(told("vn 1 2"), None);
    assert_eq!(told("vn"), None);
    assert_eq!(told("vt 1"), None);
    assert_eq!(told("vt"), None);
}

#[test]
fn face_with_too_few_corners_is_malformed() {
    assert_eq!(told("f"), None);
    assert_eq!(told("f 1/1/1"), None);
    assert_eq!(told("f 1/1/1 2/2/2"), None);
}

#[test]
fn face_with_a_bad_corner_is_malformed() {
    assert_eq!(told("f 1/1 2/2/2 3/3/3"), None);
    assert_eq!(told("f 1 2 3"), None);
    assert_eq!(told("f 1//1 2//2 3//3"), None);
    assert_eq!(told("f 1/1/ 2/2/2 3/3/3"), None);
    assert_eq!(told("f /1/1 2/2/2 3/3/3"), None);
    assert_eq!(told("f 1/1/1 2/2/2 3/3/x"), None);
    assert_eq!(told("f 1/1/1 2/2/2 3/3/3 4"), None);
    assert_eq!(told("f -1/1/1 2/2/2 3/3/3"), None);
    assert_eq!(told("f 1/+/1 2/2/2 3/3/3"), None);
    assert_eq!(told("f 1/++1/1 2/2/2 3/3/3"), None);
    assert_eq!(told("f 1/1.0/1 2/2/2 3/3/3"), None);
    assert_eq!(told("f 1/1/1 2/2/\u{661} 3/3/3"), None);
}

#[test]
fn corner_too_large_for_a_place_is_malformed() {
    let line = format!("f {}0/1/1 2/2/2 3/3/3", usize::MAX);
    assert_eq!(told(&line), None);
    assert_eq!(told("f 1/99999999999999999999999999/1 2/2/2 3/3/3"), None);
    let next = format!("f 1/1/{} 2/2/2 3/3/3", usize::MAX as u128 + 1);
    assert_eq!(told(&next), None);
}

#[test]
fn places_are_read_as_the_standard_library_reads_them() {
    let cases = [
        "1", "0", "+5", "007", "", "+", "-", "-3", "12a", " 1", "1 ", "18446744073709551615",
        "18446744073709551616", "+0", "++1", "4294967296", "99999999999999999999",
    ];
    for field in cases {
        if field.contains(' ') {
            continue;
        }
        let line = format!("f {}/1/1 2/2/2 3/3/3", field);
        let expect = field.parse::<usize>().ok();
        let got = match Model::record(&line) {
            Some(Record::Face(a, _, _)) => Some(a.v),
            _ => None,
        };
        assert_eq!(got, expect, "{:?}", field);
    }
}

#[test]
fn model_starts_empty() {
    assert!(Model::create().vertices.is_empty());
}

#[test]
fn process_counts_places_from_one() {
    let positions = vec![vector(1.0, 2.0, 3.0), vector(4.0, 5.0, 6.0)];
    let normals = vec![vector(0.0, 1.0, 0.0), vector(0.0, 0.0, 1.0), vector(1.0, 0.0, 0.0)];
    let uvs = vec![vector(0.25, 0.75, 0.0)];
    let mut model = Model::create();
    assert!(model.process(2, 1, 3, &positions, &normals, &uvs));
    assert_eq!(model.vertices.len(), 1);
    let v = model.vertices[0];
    assert_eq!((float(v.x), float(v.y), float(v.z), float(v.w)), (-4.0, 5.0, 6.0, 1.0));
    assert_eq!((float(v.u), float(v.v), float(v.one)), (0.25, 0.75, 1.0));
    assert_eq!((float(v.normal.x), float(v.normal.y), float(v.normal.z)), (1.0, 0.0, 0.0));
    assert_eq!((float(v.color.r), float(v.color.g), float(v.color.b)), (0.5, 0.5, 0.5));
}

#[test]
fn process_negates_x_even_of_zero() {
    let positions = vec![vector(0.0, 0.0, 0.0)];
    let normals = vec![vector(0.0, 1.0, 0.0)];
    let uvs = vec![vector(0.0, 0.0, 0.0)];
    let mut model = Model::create();
    assert!(model.process(1, 1, 1, &positions, &normals, &uvs));
    assert_eq!(model.vertices[0].x.to_bits(), (-0.0f32).to_bits());
    assert_eq!(model.vertices[0].y.to_bits(), 0.0f32.to_bits());
}

#[test]
fn process_appends_in_order() {
    let positions = vec![vector(1.0, 0.0, 0.0), vector(2.0, 0.0, 0.0), vector(3.0, 0.0, 0.0)];
    let normals = vec![vector(0.0, 1.0, 0.0)];
    let uvs = vec![vector(0.0, 0.0, 0.0)];
    let mut model = Model::create();
    for v in [3, 1, 2] {
        assert!(model.process(v, 1, 1, &positions, &normals, &uvs));
    }
    let xs: Vec<f32> = model.vertices.iter().map(|v| float(v.x)).collect();
    assert_eq!(xs, vec![-3.0, -1.0, -2.0]);
}

#[test]
fn process_refuses_places_that_do_not_exist() {
    let positions = vec![vector(1.0, 2.0, 3.0)];
    let normals = vec![vector(0.0, 1.0, 0.0)];
    let uvs = vec![vector(0.25, 0.75, 0.0)];
    let mut model = Model::create();
    for (v, t, n) in [(0, 1, 1), (1, 0, 1), (1, 1, 0), (2, 1, 1), (1, 2, 1), (1, 1, 2), (usize::MAX, 1, 1)] {
        assert!(!model.process(v, t, n, &positions, &normals, &uvs));
        assert!(model.vertices.is_empty());
    }
    assert!(!model.process(1, 1, 1, &Vec::new(), &normals, &uvs));
    assert!(model.process(1, 1, 1, &positions, &normals, &uvs));
    assert_eq!(model.vertices.len(), 1);
    assert!(!model.process(1, 1, 5, &positions, &normals, &uvs));
    assert_eq!(model.vertices.len(), 1);
}

#[test]
fn text_of_a_triangle_becomes_three_vertices() {
    let text = "# one triangle\nv 0 0 0\nv 1 0 0\nv 0 1 0\nvt 0 0\nvt 1 0\nvt 0 1\nvn 0 0 -1\n\nf 1/1/1 2/2/1 3/3/1\n";
    let mut positions = Vec::new();
    let mut normals = Vec::new();
    let mut uvs = Vec::new();
    let mut model = Model::create();
    let number = |w: &str| scalar(w.parse::<f32>().unwrap());
    for line in text.lines() {
        match Model::record(line).unwrap() {
            Record::Position(x, y, z) => positions.push(Vector3::create(number(x), number(y), number(z))),
            Record::Normal(x, y, z) => normals.push(Vector3::create(number(x), number(y), number(z))),
            Record::Texture(u, v) => uvs.push(Vector3::create(number(u), number(v), scalar(0.0))),
            Record::Face(a, b, c) => {
                for k in [a, b, c] {
                    assert_eq!(k, corner(k.v, k.t, k.n));
                    assert!(model.process(k.v, k.t, k.n, &positions, &normals, &uvs));
                }
            }
            Record::Other => {}
        }
    }
    let got: Vec<(f32, f32, f32, f32, f32)> =
        model.vertices.iter().map(|v| (float(v.x), float(v.y), float(v.z), float(v.u), float(v.v))).collect();
    assert_eq!(
        got,
        vec![(-0.0, 0.0, 0.0, 0.0, 0.0), (-1.0, 0.0, 0.0, 1.0, 0.0), (-0.0, 1.0, 0.0, 0.0, 1.0)]
    );
}

/// The items of a text, its numbers read by the standard library.
fn items(text: &str) -> Vec<Item> {
    let number = |w: &str| scalar(w.parse::<f32>().unwrap());
    let mut list = Vec::new();
    for line in text.lines() {
        match Model::record(line).unwrap() {
            Record::Position(x, y, z) => list.push(Item::Position(Vector3::create(number(x), number(y), number(z)))),
            Record::Normal(x, y, z) => list.push(Item::Normal(Vector3::create(number(x), number(y), number(z)))),
            Record::Texture(u, v) => list.push(Item::Texture(Vector3::create(number(u), number(v), scalar(0.0)))),
            Record::Face(a, b, c) => list.push(Item::Face(a, b, c)),
            Record::Other => {}
        }
    }
    list
}

#[test]
fn load_makes_three_vertices_of_a_face() {
    let text = "v 0 0 0\nv 1 0 0\nv 0 1 0\nv 1 1 0\nvt 0 0\nvt 1 0\nvt 0 1\nvn 0 0 -1\nvn 0 1 0\nf 1/1/1 2/2/1 3/3/1\nf 4/1/2 3/3/2 2/2/2\n";
    let model = Model::load_obj(&items(text)).unwrap();
    let got: Vec<(f32, f32, f32, f32, f32, f32)> = model
        .vertices
        .iter()
        .map(|v| (float(v.x), float(v.y), float(v.u), float(v.v), float(v.normal.y), float(v.normal.z)))
        .collect();
    assert_eq!(
        got,
        vec![
            (-0.0, 0.0, 0.0, 0.0, 0.0, -1.0),
            (-1.0, 0.0, 1.0, 0.0, 0.0, -1.0),
            (-0.0, 1.0, 0.0, 1.0, 0.0, -1.0),
            (-1.0, 1.0, 0.0, 0.0, 1.0, 0.0),
            (-0.0, 1.0, 0.0, 1.0, 1.0, 0.0),
            (-1.0, 0.0, 1.0, 0.0, 1.0, 0.0),
        ]
    );
    for v in &model.vertices {
        assert_eq!((float(v.w), float(v.one)), (1.0, 1.0));
        assert_eq!((float(v.color.r), float(v.color.g), float(v.color.b)), (0.5, 0.5, 0.5));
    }
}

#[test]
fn load_of_nothing_is_an_empty_model() {
    assert!(Model::load_obj(&Vec::new()).unwrap().vertices.is_empty());
    assert!(Model::load_obj(&items("v 1 2 3\nvn 0 1 0\nvt 0 0\n# no face\n")).unwrap().vertices.is_empty());
}

#[test]
fn load_takes_corners_from_what_stands_before_the_face() {
    let early = "v 0 0 0\nvt 0 0\nvn 0 0 1\nf 1/1/1 2/1/1 1/1/1\nv 1 0 0\n";
    assert!(Model::load_obj(&items(early)).is_none());
    let late = "v 0 0 0\nvt 0 0\nvn 0 0 1\nv 1 0 0\nf 1/1/1 2/1/1 1/1/1\n";
    assert_eq!(Model::load_obj(&items(late)).unwrap().vertices.len(), 3);
}

#[test]
fn load_fails_on_a_corner_that_names_nothing() {
    let pools = "v 0 0 0\nvt 0 0\nvn 0 0 1\n";
    for face in ["f 0/1/1 1/1/1 1/1/1", "f 1/1/1 1/2/1 1/1/1", "f 1/1/1 1/1/1 1/1/2", "f 2/1/1 1/1/1 1/1/1"] {
        let text = format!("{}{}\n", pools, face);
        assert!(Model::load_obj(&items(&text)).is_none(), "{}", face);
        let more = format!("{}f 1/1/1 1/1/1 1/1/1\n{}\nf 1/1/1 1/1/1 1/1/1\n", pools, face);
        assert!(Model::load_obj(&items(&more)).is_none(), "{}", face);
    }
    let good = format!("{}f 1/1/1 1/1/1 1/1/1\n", pools);
    assert_eq!(Model::load_obj(&items(&good)).unwrap().vertices.len(), 3);
}

use hardware_ingest::error::ParseFailure;
use hardware_ingest::obj::load_obj_model;

fn bs(xs: &[f64]) -> Vec<u64> {
    xs.iter().map(|x| x.to_bits()).collect()
}

const QUAD: &str = "# a square\no thing\nv 0 0 0\nv 1 0 0\nv 1 1 0\nv 0 1 0.5\nvn 0 0 1\nvt 0 0\nvt 1 0\nvt 1 1\nvt 0 1\nusemtl steel\nf 1/1/1 2/2/1 3/3/1 4/4/1\n";

#[test]
fn obj_quad_becomes_two_triangles() {
    let model = load_obj_model(QUAD.as_bytes()).unwrap();
    assert_eq!(
        model.vertices,
        bs(&[0.0, 0.0, 0.0, 1.0, 0.0, 0.0, 1.0, 1.0, 0.0, 0.0, 0.0, 0.0, 1.0, 1.0, 0.0, 0.0, 1.0, 0.5])
    );
    assert_eq!(model.normals, Some(bs(&[0.0, 0.0, 1.0].repeat(6))));
    assert_eq!(model.uvs, Some(bs(&[0.0, 0.0, 1.0, 0.0, 1.0, 1.0, 0.0, 0.0, 1.0, 1.0, 0.0, 1.0])));
    assert_eq!(model.indices, Some(vec![0, 1, 2, 3, 4, 5]));
    let materials = model.materials.unwrap();
    assert_eq!(materials.len(), 1);
    assert_eq!(materials[0].name, "steel");
    assert_eq!(materials[0].color, None);
    assert_eq!(materials[0].metalness, None);
    assert_eq!(model.bounds.min.to_vec(), bs(&[0.0, 0.0, 0.0]));
    assert_eq!(model.bounds.max.to_vec(), bs(&[1.0, 1.0, 0.5]));
}

#[test]
fn obj_indices_count_from_one_or_from_the_end() {
    let text = "v 0 0 0\nv 1 0 0\nv 0 1 0\nv 9 9 9\nf 1 2 3\nf -4 -3 -2\nf 4 -1 4\n";
    let model = load_obj_model(text.as_bytes()).unwrap();
    let tri = [0.0, 0.0, 0.0, 1.0, 0.0, 0.0, 0.0, 1.0, 0.0];
    let mut expected = tri.to_vec();
    expected.extend_from_slice(&tri);
    expected.extend_from_slice(&[9.0; 9]);
    assert_eq!(model.vertices, bs(&expected));
    assert_eq!(model.normals, None);
    assert_eq!(model.uvs, None);
    assert_eq!(model.materials, None);
    assert_eq!(model.indices, Some((0..9).collect()));
    assert_eq!(model.bounds.max.to_vec(), bs(&[9.0, 9.0, 9.0]));
}

#[test]
fn obj_normals_and_uvs_are_kept_only_if_every_corner_has_them() {
    let text = format!("{}f 1//1 2//1 3//1\n", QUAD);
    let model = load_obj_model(text.as_bytes()).unwrap();
    assert_eq!(model.vertices.len(), 27);
    assert_eq!(model.normals.unwrap().len(), 27);
    assert_eq!(model.uvs, None);
    let text = format!("{}f 1 2 3\n", QUAD);
    let model = load_obj_model(text.as_bytes()).unwrap();
    assert_eq!(model.normals, None);
    assert_eq!(model.uvs, None);
}

#[test]
fn obj_texture_coordinate_with_one_number() {
    let text = "v 0 0 0\nv 1 0 0\nv 0 1 0\nvt 0.25\nvt 0.5 0.75 0\nf 1/1 2/2 3/1\n";
    let model = load_obj_model(text.as_bytes()).unwrap();
    assert_eq!(model.uvs, Some(bs(&[0.25, 0.0, 0.5, 0.75, 0.25, 0.0])));
}

#[test]
fn obj_materials_are_listed_once_in_order_of_use() {
    let text = "usemtl b\nusemtl a\nusemtl b\nv 0 0 0\nv 1 0 0\nv 0 1 0\nf 1 2 3\nusemtl c\n";
    let model = load_obj_model(text.as_bytes()).unwrap();
    let names: Vec<String> = model.materials.unwrap().into_iter().map(|m| m.name).collect();
    assert_eq!(names, vec!["b", "a", "c"]);
}

#[test]
fn obj_failures() {
    let fails = |text: &str, e: ParseFailure| assert_eq!(load_obj_model(text.as_bytes()).unwrap_err(), e, "{text:?}");
    fails("", ParseFailure::EmptyGeometry);
    fails("v 0 0 0\nv 1 0 0\nv 0 1 0\n", ParseFailure::EmptyGeometry);
    fails("v 0 0\n", ParseFailure::UnexpectedToken);
    fails("v 0 zero 0\n", ParseFailure::InvalidNumber);
    fails("vn 0 0\n", ParseFailure::UnexpectedToken);
    fails("vn 0 0 up\n", ParseFailure::InvalidNumber);
    fails("vt\n", ParseFailure::UnexpectedToken);
    fails("vt u\n", ParseFailure::InvalidNumber);
    fails("vt 0 v\n", ParseFailure::InvalidNumber);
    fails("usemtl\n", ParseFailure::UnexpectedToken);
    fails("v 0 0 0\nv 1 0 0\nv 0 1 0\nf 1 2\n", ParseFailure::UnexpectedToken);
    fails("v 0 0 0\nv 1 0 0\nv 0 1 0\nf 1 2 4\n", ParseFailure::InvalidReference);
    fails("v 0 0 0\nv 1 0 0\nv 0 1 0\nf 0 1 2\n", ParseFailure::InvalidReference);
    fails("v 0 0 0\nv 1 0 0\nv 0 1 0\nf 1 2 -4\n", ParseFailure::InvalidReference);
    fails("v 0 0 0\nv 1 0 0\nv 0 1 0\nf 1 2 x\n", ParseFailure::InvalidReference);
    fails("v 0 0 0\nv 1 0 0\nv 0 1 0\nf 1/1 2 3\n", ParseFailure::InvalidReference);
    fails("v 0 0 0\nv 1 0 0\nv 0 1 0\nf 1//1 2 3\n", ParseFailure::InvalidReference);
    fails("v 0 0 0\nv 1 0 0\nv 0 1 0\nf 1/1/1/1 2 3\n", ParseFailure::UnexpectedToken);
    fails("f 1 2 3\nv 0 0 0\nv 1 0 0\nv 0 1 0\n", ParseFailure::InvalidReference);
    fails("v 0 0 1e999\n", ParseFailure::InvalidNumber);
    fails("v 1e300 0 0\nv 1 0 0\nv 0 1 0\nf 1 2 3\n", ParseFailure::OutOfRange);
    fails("v 0 0 0\nv 1 0 0\nv 0 1 0\nvn 0 0 -4e38\nf 1//1 2//1 3//1\n", ParseFailure::OutOfRange);
    assert_eq!(load_obj_model(&[0x76, 0x20, 0xff]).unwrap_err(), ParseFailure::InvalidText);
}

#[test]
fn obj_with_more_vertices_than_indices_can_name() {
    let mut text = String::from("v 0 0 0\nv 1 0 0\nv 0 1 0\n");
    for _ in 0..21846 {
        text.push_str("f 1 2 3\n");
    }
    let model = load_obj_model(text.as_bytes()).unwrap();
    assert_eq!(model.vertices.len(), 21846 * 9);
    assert_eq!(model.indices, None);
    let mut text = String::from("v 0 0 0\nv 1 0 0\nv 0 1 0\n");
    for _ in 0..21845 {
        text.push_str("f 1 2 3\n");
    }
    let model = load_obj_model(text.as_bytes()).unwrap();
    let indices = model.indices.unwrap();
    assert_eq!(indices.len(), 65535);
    assert_eq!(indices[65534], 65534);
}

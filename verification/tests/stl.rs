use hardware_ingest::error::ParseFailure;
use hardware_ingest::stl::load_stl_model;

fn bits(x: f64) -> u64 {
    x.to_bits()
}

fn binary_stl(facets: &[[f32; 12]]) -> Vec<u8> {
    let mut out = vec![0u8; 80];
    out.extend_from_slice(&(facets.len() as u32).to_le_bytes());
    for facet in facets {
        for x in facet {
            out.extend_from_slice(&x.to_le_bytes());
        }
        out.extend_from_slice(&[0u8, 0u8]);
    }
    out
}

#[test]
fn one_triangle_binary_stl() {
    let file = binary_stl(&[[0.0, 0.0, 1.0, 0.0, 0.0, 0.0, 1.0, 0.0, 0.0, 0.0, 1.0, 0.0]]);
    let model = load_stl_model(&file).unwrap();
    assert_eq!(model.vertices.len(), 9);
    assert_eq!(
        model.vertices,
        vec![bits(0.0), bits(0.0), bits(0.0), bits(1.0), bits(0.0), bits(0.0), bits(0.0), bits(1.0), bits(0.0)]
    );
    assert_eq!(model.indices, Some(vec![0u16, 1, 2]));
    let normals = model.normals.unwrap();
    assert_eq!(normals.len(), 9);
    assert_eq!(&normals[0..3], &[bits(0.0), bits(0.0), bits(1.0)]);
    assert_eq!(&normals[6..9], &[bits(0.0), bits(0.0), bits(1.0)]);
    assert_eq!(model.bounds.min, [bits(0.0), bits(0.0), bits(0.0)]);
    assert_eq!(model.bounds.max, [bits(1.0), bits(1.0), bits(0.0)]);
    assert!(model.uvs.is_none());
    assert!(model.materials.is_none());
}

#[test]
fn binary_stl_widens_every_kind_of_value() {
    let tiny = f32::from_bits(1);
    let small = f32::from_bits(0x0012_3456);
    let file = binary_stl(&[[
        0.0, 0.0, 1.0, -1.5, 3.25e10, tiny, small, -0.0, 1.0e-30, f32::MAX, f32::MIN_POSITIVE, -tiny,
    ]]);
    let model = load_stl_model(&file).unwrap();
    let expected: Vec<u64> = [-1.5f32, 3.25e10, tiny, small, -0.0, 1.0e-30, f32::MAX, f32::MIN_POSITIVE, -tiny]
        .iter()
        .map(|x| (*x as f64).to_bits())
        .collect();
    assert_eq!(model.vertices, expected);
    assert_eq!(model.bounds.min, [bits(-1.5), bits(-0.0f32 as f64), bits(-tiny as f64)]);
    assert_eq!(model.bounds.max, [bits(f32::MAX as f64), bits(3.25e10f32 as f64), bits(1.0e-30f32 as f64)]);
}

#[test]
fn binary_stl_rejects_non_finite_coordinates() {
    let file = binary_stl(&[[0.0, 0.0, 1.0, f32::NAN, 0.0, 0.0, 1.0, 0.0, 0.0, 0.0, 1.0, 0.0]]);
    assert_eq!(load_stl_model(&file).unwrap_err(), ParseFailure::NonFinite);
    let file = binary_stl(&[[0.0, 0.0, 1.0, 0.0, 0.0, 0.0, 1.0, f32::INFINITY, 0.0, 0.0, 1.0, 0.0]]);
    assert_eq!(load_stl_model(&file).unwrap_err(), ParseFailure::NonFinite);
}

#[test]
fn binary_stl_without_facets_is_empty() {
    let file = binary_stl(&[]);
    assert_eq!(load_stl_model(&file).unwrap_err(), ParseFailure::EmptyGeometry);
}

#[test]
fn truncated_binary_stl_is_rejected() {
    let mut file = binary_stl(&[[0.0, 0.0, 1.0, 0.0, 0.0, 0.0, 1.0, 0.0, 0.0, 0.0, 1.0, 0.0]]);
    file.truncate(100);
    file[90] = 0xff;
    assert_eq!(load_stl_model(&file).unwrap_err(), ParseFailure::Truncated);
}

#[test]
fn ascii_stl_with_one_facet() {
    let text = "solid part one\n facet normal 0 0 1\n  outer loop\n   vertex 0 0 0\n   vertex 2.5 0 0\n   vertex 0 1e1 -4.\n  endloop\n endfacet\nendsolid part one\n";
    let model = load_stl_model(text.as_bytes()).unwrap();
    assert_eq!(
        model.vertices,
        vec![bits(0.0), bits(0.0), bits(0.0), bits(2.5), bits(0.0), bits(0.0), bits(0.0), bits(10.0), bits(-4.0)]
    );
    assert_eq!(model.indices, Some(vec![0u16, 1, 2]));
    assert_eq!(model.normals.unwrap()[3..6], [bits(0.0), bits(0.0), bits(1.0)]);
    assert_eq!(model.bounds.min, [bits(0.0), bits(0.0), bits(-4.0)]);
    assert_eq!(model.bounds.max, [bits(2.5), bits(10.0), bits(0.0)]);
}

#[test]
fn ascii_stl_failures() {
    assert_eq!(load_stl_model(b"hello\n").unwrap_err(), ParseFailure::MalformedHeader);
    assert_eq!(load_stl_model(b"").unwrap_err(), ParseFailure::MalformedHeader);
    assert_eq!(load_stl_model(b"solid x\n").unwrap_err(), ParseFailure::Truncated);
    assert_eq!(load_stl_model(b"solid x\nendsolid\n").unwrap_err(), ParseFailure::EmptyGeometry);
    assert_eq!(
        load_stl_model(b"solid x\nfacet normal 0 0 1 outer loop vertex 0 0 0 vertex 1 0 0 vertex 0 1 0 endloop\n").unwrap_err(),
        ParseFailure::Truncated
    );
    assert_eq!(
        load_stl_model(b"solid x\nfacet normal 0 0 1 outer loop vertex 0 0 0 vertex 1 0 0 vertex 0 1 0 endloop endfacet\n").unwrap_err(),
        ParseFailure::Truncated
    );
    assert_eq!(
        load_stl_model(b"solid x\nfacet normal 0 0 1 outer loop vertex 0 0 0 vertex 1 0 0 vertex 0 1 0 endloop endfacet oops\n").unwrap_err(),
        ParseFailure::Truncated
    );
    assert_eq!(
        load_stl_model(b"solid x\nfacet normal 0 0 1 outer loop vertex 0 0 0 vertex 1 0 0 vertex 0 y 0 endloop endfacet endsolid\n").unwrap_err(),
        ParseFailure::InvalidNumber
    );
    assert_eq!(
        load_stl_model(b"solid x\nfacet normal 0 0 1 outer loop vertex 0 0 0 vertex 1 0 0 vertex 0 1e999 0 endloop endfacet endsolid\n").unwrap_err(),
        ParseFailure::InvalidNumber
    );
    assert_eq!(
        load_stl_model(b"solid x\nfacet normal 0 0 1 outer ring vertex 0 0 0 vertex 1 0 0 vertex 0 1 0 endloop endfacet endsolid\n").unwrap_err(),
        ParseFailure::UnexpectedToken
    );
}

use hardware_ingest::error::ParseFailure;
use hardware_ingest::geometry::{
    buffer_is_finite, build_model, compute_bounds, Bounds, Color, Material,
};

fn b(x: f64) -> u64 {
    x.to_bits()
}

fn bs(xs: &[f64]) -> Vec<u64> {
    xs.iter().map(|x| x.to_bits()).collect()
}

#[test]
fn bounds_are_the_extremes_of_each_axis() {
    let vertices = bs(&[1.0, -2.0, 3.0, -4.0, 5.0, -6.0, 0.5, 0.0, 7.25, -4.0, 5.0, 7.25]);
    let bounds = compute_bounds(&vertices).unwrap();
    assert_eq!(bounds, Bounds { min: [b(-4.0), b(-2.0), b(-6.0)], max: [b(1.0), b(5.0), b(7.25)] });
    for axis in 0..3 {
        let axis_values: Vec<f64> = vertices.iter().skip(axis).step_by(3).map(|v| f64::from_bits(*v)).collect();
        let least = axis_values.iter().cloned().fold(f64::INFINITY, f64::min);
        let greatest = axis_values.iter().cloned().fold(f64::NEG_INFINITY, f64::max);
        assert_eq!(f64::from_bits(bounds.min[axis]), least);
        assert_eq!(f64::from_bits(bounds.max[axis]), greatest);
    }
}

#[test]
fn bounds_of_one_vertex_and_of_none() {
    let one = compute_bounds(&bs(&[1.0, 2.0, 3.0])).unwrap();
    assert_eq!(one.min, one.max);
    assert_eq!(one.min, [b(1.0), b(2.0), b(3.0)]);
    assert_eq!(compute_bounds(&[]), None);
    assert_eq!(compute_bounds(&bs(&[1.0, 2.0])), None);
}

#[test]
fn bounds_keep_the_first_of_equal_zeros() {
    let bounds = compute_bounds(&bs(&[-0.0, 0.0, 0.0, 0.0, -0.0, 0.0])).unwrap();
    assert_eq!(bounds.min, [b(-0.0), b(0.0), b(0.0)]);
    assert_eq!(bounds.max, [b(-0.0), b(0.0), b(0.0)]);
}

#[test]
fn a_model_is_built_of_buffers_that_fit() {
    let vertices = bs(&[0.0, 0.0, 0.0, 2.0, 0.0, 0.0, 0.0, 3.0, 0.0, 2.0, 3.0, -1.0]);
    let normals = bs(&[0.0, 0.0, 1.0, 0.0, 0.0, 1.0, 0.0, 0.0, 1.0, 0.0, 0.0, 1.0]);
    let uvs = bs(&[0.0, 0.0, 1.0, 0.0, 0.0, 1.0, 1.0, 1.0]);
    let materials = vec![Material {
        name: "steel".to_string(),
        color: Some(Color { r: b(0.5), g: b(0.5), b: b(0.5), a: b(1.0) }),
        metalness: Some(b(1.0)),
        roughness: Some(b(0.0)),
    }];
    let model = build_model(
        vertices.clone(),
        Some(normals.clone()),
        Some(uvs.clone()),
        Some(vec![0, 1, 2, 1, 3, 2]),
        Some(materials),
    )
    .unwrap();
    assert_eq!(model.vertices, vertices);
    assert_eq!(model.normals, Some(normals));
    assert_eq!(model.uvs, Some(uvs));
    assert_eq!(model.indices, Some(vec![0, 1, 2, 1, 3, 2]));
    assert_eq!(model.materials.unwrap()[0].name, "steel");
    assert_eq!(model.bounds.min, [b(0.0), b(0.0), b(-1.0)]);
    assert_eq!(model.bounds.max, [b(2.0), b(3.0), b(0.0)]);
}

#[test]
fn buffers_that_do_not_fit_make_no_model() {
    let tri = bs(&[0.0, 0.0, 0.0, 1.0, 0.0, 0.0, 0.0, 1.0, 0.0]);
    let fails = |r: Result<_, ParseFailure>, e: ParseFailure| {
        let r: Result<hardware_ingest::geometry::ThreeDModelData, ParseFailure> = r;
        assert_eq!(r.unwrap_err(), e);
    };
    fails(build_model(vec![], None, None, None, None), ParseFailure::EmptyGeometry);
    fails(build_model(bs(&[1.0, 2.0]), None, None, None, None), ParseFailure::EmptyGeometry);
    fails(build_model(bs(&[0.0; 10]), None, None, Some(vec![0, 1, 2]), None), ParseFailure::InconsistentBuffers);
    fails(build_model(tri.clone(), Some(bs(&[0.0; 6])), None, None, None), ParseFailure::InconsistentBuffers);
    fails(build_model(tri.clone(), None, Some(bs(&[0.0; 5])), None, None), ParseFailure::InconsistentBuffers);
    fails(build_model(tri.clone(), None, None, Some(vec![0, 1]), None), ParseFailure::InconsistentBuffers);
    fails(build_model(tri.clone(), None, None, Some(vec![0, 1, 3]), None), ParseFailure::InconsistentBuffers);
    fails(build_model(bs(&[0.0; 12]), None, None, None, None), ParseFailure::InconsistentBuffers);
    let shiny = |m: f64, r: f64| {
        Some(vec![Material { name: "m".to_string(), color: None, metalness: Some(b(m)), roughness: Some(b(r)) }])
    };
    fails(build_model(tri.clone(), None, None, None, shiny(1.5, 0.5)), ParseFailure::InconsistentBuffers);
    fails(build_model(tri.clone(), None, None, None, shiny(0.5, -0.1)), ParseFailure::InconsistentBuffers);
    fails(build_model(tri.clone(), None, None, None, shiny(f64::NAN, 0.5)), ParseFailure::InconsistentBuffers);
    assert!(build_model(tri.clone(), None, None, None, shiny(-0.0, 1.0)).is_ok());
    let mut bad = tri.clone();
    bad[4] = b(f64::INFINITY);
    fails(build_model(bad, None, None, None, None), ParseFailure::NonFinite);
    let mut normals = tri.clone();
    normals[0] = b(f64::NAN);
    fails(build_model(tri.clone(), Some(normals), None, None, None), ParseFailure::NonFinite);
    let mut far = tri.clone();
    far[8] = b(1e300);
    fails(build_model(far, None, None, None, None), ParseFailure::OutOfRange);
    let mut far = tri.clone();
    far[0] = b(-3.5e38);
    fails(build_model(far, None, None, None, None), ParseFailure::OutOfRange);
    let mut edge = tri.clone();
    edge[0] = b(f32::MAX as f64);
    edge[1] = b(f32::MIN as f64);
    assert!(build_model(edge, None, None, None, None).is_ok());
    let mut uv = bs(&[0.0; 6]);
    uv[3] = b(1e39);
    fails(build_model(tri.clone(), None, Some(uv), None, None), ParseFailure::OutOfRange);
    let coloured = |r: f64| {
        Some(vec![Material {
            name: "m".to_string(),
            color: Some(Color { r: b(r), g: b(0.0), b: b(0.0), a: b(1.0) }),
            metalness: None,
            roughness: None,
        }])
    };
    fails(build_model(tri.clone(), None, None, None, coloured(1e300)), ParseFailure::OutOfRange);
    fails(build_model(tri.clone(), None, None, None, coloured(f64::INFINITY)), ParseFailure::OutOfRange);
    assert!(build_model(tri.clone(), None, None, None, coloured(2.0)).is_ok());
    assert!(build_model(tri, None, None, None, None).is_ok());
}

#[test]
fn finite_buffers() {
    assert!(buffer_is_finite(&bs(&[0.0, -1.0, f64::MAX])));
    assert!(buffer_is_finite(&[]));
    assert!(!buffer_is_finite(&bs(&[0.0, f64::NEG_INFINITY])));
}

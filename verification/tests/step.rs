use hardware_ingest::error::ParseFailure;
use hardware_ingest::step::{load_step_model, tokenize_step};

fn bs(xs: &[f64]) -> Vec<u64> {
    xs.iter().map(|x| x.to_bits()).collect()
}

fn step_file(data: &str) -> String {
    format!(
        "ISO-10303-21;\nHEADER;\nFILE_DESCRIPTION(('faceted; model'),'2;1');\nFILE_NAME('it''s.stp','2024-01-01T00:00:00',(''),(''),'','','');\nFILE_SCHEMA(('CONFIG_CONTROL_DESIGN'));\nENDSEC;\nDATA;\n{data}ENDSEC;\nEND-ISO-10303-21;\n"
    )
}

#[test]
fn step_triangle() {
    let file = step_file(
        "/* one triangle */\n#1 = CARTESIAN_POINT('', (0., 0., 0.));\n#2 = CARTESIAN_POINT('', (1.5E0, 0., 0.));\n#3=CARTESIAN_POINT('p',(0.,2.,-1.));\n#4 = POLY_LOOP('', (#1, #2, #3));\n#5 = FACE_OUTER_BOUND('', #4, .T.);\n",
    );
    let model = load_step_model(file.as_bytes()).unwrap();
    assert_eq!(model.vertices, bs(&[0.0, 0.0, 0.0, 1.5, 0.0, 0.0, 0.0, 2.0, -1.0]));
    assert_eq!(model.indices, Some(vec![0, 1, 2]));
    assert_eq!(model.normals, None);
    assert_eq!(model.uvs, None);
    assert_eq!(model.materials, None);
    assert_eq!(model.bounds.min.to_vec(), bs(&[0.0, 0.0, -1.0]));
    assert_eq!(model.bounds.max.to_vec(), bs(&[1.5, 2.0, 0.0]));
}

#[test]
fn step_polygon_becomes_a_fan_and_points_may_follow_their_use() {
    let file = step_file(
        "#10 = POLY_LOOP('', (#1, #2, #3, #4, #5));\n#1 = CARTESIAN_POINT('', (0., 0., 0.));\n#2 = CARTESIAN_POINT('', (1., 0., 0.));\n#3 = CARTESIAN_POINT('', (2., 1., 0.));\n#4 = CARTESIAN_POINT('', (1., 2., 0.));\n#5 = CARTESIAN_POINT('', (0., 1., 0.));\n#6 = CARTESIAN_POINT('', (7., 8.));\n",
    );
    let model = load_step_model(file.as_bytes()).unwrap();
    let p = [[0.0, 0.0, 0.0], [1.0, 0.0, 0.0], [2.0, 1.0, 0.0], [1.0, 2.0, 0.0], [0.0, 1.0, 0.0]];
    let mut expected = Vec::new();
    for (a, b, c) in [(0, 1, 2), (0, 2, 3), (0, 3, 4)] {
        expected.extend_from_slice(&p[a]);
        expected.extend_from_slice(&p[b]);
        expected.extend_from_slice(&p[c]);
    }
    assert_eq!(model.vertices, bs(&expected));
    assert_eq!(model.indices, Some((0..9).collect()));
    assert_eq!(model.bounds.max.to_vec(), bs(&[2.0, 2.0, 0.0]));
}

#[test]
fn step_colours_become_materials() {
    let file = step_file(
        "#1 = CARTESIAN_POINT('', (0., 0., 0.));\n#2 = CARTESIAN_POINT('', (1., 0., 0.));\n#3 = CARTESIAN_POINT('', (0., 1., 0.));\n#4 = POLY_LOOP('', (#1, #2, #3));\n#20 = COLOUR_RGB('signal red', 1., 0., 0.25);\n#21=COLOUR_RGB('',0.5,0.5,0.5);\n",
    );
    let model = load_step_model(file.as_bytes()).unwrap();
    let materials = model.materials.unwrap();
    assert_eq!(materials.len(), 2);
    assert_eq!(materials[0].name, "signal red");
    let c = materials[0].color.unwrap();
    assert_eq!((c.r, c.g, c.b, c.a), (1.0f64.to_bits(), 0.0f64.to_bits(), 0.25f64.to_bits(), 1.0f64.to_bits()));
    assert_eq!(materials[0].metalness, None);
    assert_eq!(materials[1].name, "");
    let bad = step_file("#1 = CARTESIAN_POINT('', (0., 0., 0.));\n#20 = COLOUR_RGB('red', 1., 0.);\n");
    assert_eq!(load_step_model(bad.as_bytes()).unwrap_err(), ParseFailure::UnexpectedToken);
    let bad = step_file("#1 = CARTESIAN_POINT('', (0., 0., 0.));\n#20 = COLOUR_RGB('red', 1., 0., blue);\n");
    assert_eq!(load_step_model(bad.as_bytes()).unwrap_err(), ParseFailure::InvalidNumber);
}

#[test]
fn step_failures() {
    let fails = |text: &str, e: ParseFailure| assert_eq!(load_step_model(text.as_bytes()).unwrap_err(), e, "{text:?}");
    let points = "#1 = CARTESIAN_POINT('', (0., 0., 0.));\n#2 = CARTESIAN_POINT('', (1., 0., 0.));\n#3 = CARTESIAN_POINT('', (0., 1., 0.));\n";
    fails("", ParseFailure::MalformedHeader);
    fails("solid x\nendsolid\n", ParseFailure::MalformedHeader);
    fails("ISO-10303-21;\nHEADER;\nENDSEC;\nDATA;\n#1 = CARTESIAN_POINT('', (0., 0., 0.));\n", ParseFailure::Truncated);
    fails("ISO-10303-21;\nDATA;\n#1 = CARTESIAN_POINT('', (0., 0., 0.);\nEND-ISO-10303-21;\n", ParseFailure::Truncated);
    fails("ISO-10303-21;\nDATA;\n#1 = CARTESIAN_POINT('unfinished, (0., 0., 0.));\nEND-ISO-10303-21;\n", ParseFailure::Truncated);
    fails("ISO-10303-21;\nDATA;\n/* no end\nEND-ISO-10303-21;\n", ParseFailure::Truncated);
    fails("ISO-10303-21;\nDATA;\n#1 = X());\nEND-ISO-10303-21;\n", ParseFailure::InvalidSyntax);
    fails("ISO-10303-21;\nDATA;\n#1 = X(1/2);\nEND-ISO-10303-21;\n", ParseFailure::InvalidSyntax);
    fails(&step_file(points), ParseFailure::EmptyGeometry);
    fails(&step_file(&format!("{points}#4 = POLY_LOOP('', (#1, #2));\n")), ParseFailure::UnexpectedToken);
    fails(&step_file(&format!("{points}#4 = POLY_LOOP('', (#1, #2, #9));\n")), ParseFailure::InvalidReference);
    fails(&step_file(&format!("{points}#4 = POLY_LOOP('', (#1, #2, 3));\n")), ParseFailure::UnexpectedToken);
    fails(&step_file(&format!("{points}#4 = POLY_LOOP('', (#1, #2, (#3)));\n")), ParseFailure::UnexpectedToken);
    fails(&step_file(&format!("{points}#4 = POLY_LOOP('');\n")), ParseFailure::UnexpectedToken);
    fails(&step_file("#1 = CARTESIAN_POINT('', (0., zero, 0.));\n"), ParseFailure::InvalidNumber);
    fails(&step_file(&format!("{points}#4 = POLY_LOOP('', (#1, #2, #3));\n#7 = ADVANCED_FACE('', (#6), #5, .T.);\n")), ParseFailure::UnsupportedEntity);
    fails(&step_file(&format!("{points}#4 = EDGE_LOOP('', (#8, #9));\n")), ParseFailure::UnsupportedEntity);
    fails(&step_file(&format!("{points}#4 = VERTEX_LOOP('', #8);\n")), ParseFailure::UnsupportedEntity);
    assert_eq!(load_step_model(&[0x49, 0x53, 0x4f, 0xfe]).unwrap_err(), ParseFailure::InvalidText);
}

#[test]
fn step_tokens() {
    let text: Vec<char> = "#1=A('it''s',(1.,#2),$);/* c * / */B;".chars().collect();
    let tokens = tokenize_step(&text).unwrap();
    let shown: Vec<String> = tokens
        .iter()
        .map(|t| format!("{:?}:{}", t.kind, t.value.iter().collect::<String>()))
        .collect();
    assert_eq!(
        shown,
        vec![
            "Atom:#1", "Atom:=", "Atom:A", "Open:", "Text:it's", "Open:", "Atom:1.", "Atom:#2", "Close:", "Atom:$",
            "Close:", "Atom:;", "Atom:B", "Atom:;"
        ]
    );
}

use hardware_ingest::error::{DecodeError, Format, ParseFailure};
use hardware_ingest::viewer::{load_3d_model, load_pcb_design};

fn bs(xs: &[f64]) -> Vec<u64> {
    xs.iter().map(|x| x.to_bits()).collect()
}

fn binary_stl() -> Vec<u8> {
    let mut out = vec![0u8; 80];
    out.extend_from_slice(&2u32.to_le_bytes());
    for facet in [
        [0.0f32, 0.0, 1.0, 0.0, 0.0, 0.0, 1.0, 0.0, 0.0, 0.0, 1.0, 0.0],
        [0.0f32, 0.0, -1.0, 1.0, 1.0, 2.0, -3.0, 0.5, 0.0, 0.0, 1.0, 0.0],
    ] {
        for x in facet {
            out.extend_from_slice(&x.to_le_bytes());
        }
        out.extend_from_slice(&[0u8, 0u8]);
    }
    out
}

const OBJ: &str = "v 0 0 0\nv 1 0 0\nv 0 1 0\nf 1 2 3\n";
const STEP: &str = "ISO-10303-21;\nDATA;\n#1=CARTESIAN_POINT('',(0.,0.,0.));\n#2=CARTESIAN_POINT('',(1.,0.,0.));\n#3=CARTESIAN_POINT('',(0.,1.,0.));\n#4=POLY_LOOP('',(#1,#2,#3));\nENDSEC;\nEND-ISO-10303-21;\n";
const KICAD: &str = "(kicad_pcb (layers (0 F.Cu signal)) (net 1 GND) (footprint X (at 1 2) (property Reference R1) (pad 1 smd (net 1 GND))) (segment (start 0 0) (end 1 0) (width 0.2) (layer F.Cu) (net 1)))";
const EAGLE: &str = "<eagle><drawing><layers><layer number='1' name='Top'/></layers><board><elements><element name='R1' package='P' x='1' y='2'/></elements><signals><signal name='N'><contactref element='R1' pad='1'/><wire x1='0' y1='0' x2='1' y2='0' width='0.2' layer='1'/></signal></signals></board></drawing></eagle>";

#[test]
fn models_are_chosen_by_extension() {
    let tri = bs(&[0.0, 0.0, 0.0, 1.0, 0.0, 0.0, 0.0, 1.0, 0.0]);
    let stl = binary_stl();
    let model = load_3d_model("parts/Bracket.STL", Some(&stl)).unwrap();
    assert_eq!(model.vertices.len(), 18);
    assert_eq!(model.indices, Some(vec![0, 1, 2, 3, 4, 5]));
    assert_eq!(model.bounds.min.to_vec(), bs(&[-3.0, 0.0, 0.0]));
    assert_eq!(model.bounds.max.to_vec(), bs(&[1.0, 1.0, 2.0]));
    assert_eq!(load_3d_model("a.obj", Some(OBJ.as_bytes())).unwrap().vertices, tri);
    assert_eq!(load_3d_model("a.OBJ", Some(OBJ.as_bytes())).unwrap().vertices, tri);
    assert_eq!(load_3d_model("a.step", Some(STEP.as_bytes())).unwrap().vertices, tri);
    assert_eq!(load_3d_model("a.Stp", Some(STEP.as_bytes())).unwrap().vertices, tri);
    assert_eq!(
        load_3d_model("a.stl", Some(OBJ.as_bytes())).unwrap_err(),
        DecodeError::ParseError { format: Format::Stl, reason: ParseFailure::MalformedHeader }
    );
    assert_eq!(
        load_3d_model("a.obj", Some(STEP.as_bytes())).unwrap_err(),
        DecodeError::ParseError { format: Format::Obj, reason: ParseFailure::EmptyGeometry }
    );
    assert_eq!(
        load_3d_model("a.step", Some(OBJ.as_bytes())).unwrap_err(),
        DecodeError::ParseError { format: Format::Step, reason: ParseFailure::MalformedHeader }
    );
}

#[test]
fn boards_are_chosen_by_extension() {
    let board = load_pcb_design("b.kicad_pcb", Some(KICAD.as_bytes())).unwrap();
    assert_eq!(board.layers, vec!["F.Cu"]);
    assert_eq!((board.components.len(), board.nets.len(), board.traces.len()), (1, 1, 1));
    let board = load_pcb_design("B.BRD", Some(EAGLE.as_bytes())).unwrap();
    assert_eq!(board.file_path, "B.BRD");
    assert_eq!(board.layers, vec!["Top"]);
    assert_eq!(board.traces[0].layer, "Top");
    assert_eq!(
        load_pcb_design("b.brd", Some(KICAD.as_bytes())).unwrap_err(),
        DecodeError::ParseError { format: Format::Eagle, reason: ParseFailure::UnexpectedToken }
    );
    assert_eq!(
        load_pcb_design("b.kicad_pcb", Some(EAGLE.as_bytes())).unwrap_err(),
        DecodeError::ParseError { format: Format::KiCad, reason: ParseFailure::UnexpectedToken }
    );
}

#[test]
fn unknown_extensions_are_unsupported() {
    for (path, ext) in [("a.ply", "ply"), ("a.STLX", "stlx"), ("noext", ""), ("dir.stl/file", ""), (".stl", ""), ("part.ply/", "ply"), ("part.stl/..", ""), ("a.kicad_pcb", "kicad_pcb")] {
        assert_eq!(
            load_3d_model(path, Some(b"x")).unwrap_err(),
            DecodeError::UnsupportedFormat { extension: ext.to_string() },
            "{path}"
        );
    }
    for (path, ext) in [("a.sch", "sch"), ("a.kicad_pcb.bak", "bak"), ("", ""), ("a.STL", "stl")] {
        assert_eq!(
            load_pcb_design(path, Some(b"x")).unwrap_err(),
            DecodeError::UnsupportedFormat { extension: ext.to_string() },
            "{path}"
        );
    }
}

#[test]
fn a_file_that_does_not_exist_is_not_found_whatever_its_format() {
    for path in ["a.stl", "a.step", "a.stp", "a.obj", "a.kicad_pcb", "a.brd", "a.xyz", "", "dir/", "a.stl/"] {
        assert_eq!(load_3d_model(path, None).unwrap_err(), DecodeError::FileNotFound { path: path.to_string() });
        assert_eq!(load_pcb_design(path, None).unwrap_err(), DecodeError::FileNotFound { path: path.to_string() });
    }
}

#[test]
fn models_decode_alike_each_time() {
    let stl = binary_stl();
    for (path, bytes) in [("a.stl", &stl[..]), ("a.obj", OBJ.as_bytes()), ("a.step", STEP.as_bytes()), ("a.obj", b"v 1\n"), ("a.x", b"")] {
        assert_eq!(load_3d_model(path, Some(bytes)), load_3d_model(path, Some(bytes)));
    }
    for (path, bytes) in [("a.kicad_pcb", KICAD), ("a.brd", EAGLE), ("a.brd", "<eagle>"), ("a.x", "")] {
        assert_eq!(load_pcb_design(path, Some(bytes.as_bytes())), load_pcb_design(path, Some(bytes.as_bytes())));
    }
}

#[test]
fn every_decoded_mesh_has_true_bounds_and_indices_in_range() {
    let stl = binary_stl();
    for (path, bytes) in [("a.stl", &stl[..]), ("a.obj", OBJ.as_bytes()), ("a.step", STEP.as_bytes())] {
        let model = load_3d_model(path, Some(bytes)).unwrap();
        let count = model.vertices.len() / 3;
        assert_eq!(model.vertices.len() % 3, 0);
        for axis in 0..3 {
            let values: Vec<f64> = (0..count).map(|k| f64::from_bits(model.vertices[3 * k + axis])).collect();
            let least = values.iter().cloned().fold(f64::INFINITY, f64::min);
            let greatest = values.iter().cloned().fold(f64::NEG_INFINITY, f64::max);
            assert_eq!(f64::from_bits(model.bounds.min[axis]), least);
            assert_eq!(f64::from_bits(model.bounds.max[axis]), greatest);
            assert!(least <= greatest);
        }
        let indices = model.indices.unwrap();
        assert_eq!(indices.len() % 3, 0);
        assert!(indices.iter().all(|i| (*i as usize) < count));
    }
}

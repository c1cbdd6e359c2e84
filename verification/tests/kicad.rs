use hardware_ingest::error::{DecodeError, Format, IntegrityKind, ParseFailure};
use hardware_ingest::kicad::load_kicad_pcb;
use hardware_ingest::pcb::{NetNode, Position};
use hardware_ingest::sexpr::tokenize;

fn b(x: f64) -> u64 {
    x.to_bits()
}

fn parse_error(reason: ParseFailure) -> DecodeError {
    DecodeError::ParseError { format: Format::KiCad, reason }
}

fn integrity(kind: IntegrityKind, id: &str) -> DecodeError {
    DecodeError::IntegrityError { kind, id: id.to_string() }
}

const BOARD: &str = r#"(kicad_pcb (version 20221018) (generator pcbnew)
  (general (thickness 1.6))
  (layers
    (0 "F.Cu" signal)
    (31 "B.Cu" signal)
  )
  (net 1 "GND")
  (footprint "Resistor_SMD:R_0603" (layer "F.Cu")
    (tstamp 5c8c0a3e)
    (at 100.5 50.25 90)
    (attr smd)
    (property "Reference" "R1" (at 0 -1.43) (layer "F.SilkS"))
    (property "Value" "10k" (at 0 1.43) (layer "F.Fab"))
    (pad "1" smd roundrect (at -0.825 0) (size 0.8 0.95) (layers "F.Cu" "F.Paste") (net 1 "GND"))
  )
  (segment (start 100.5 50.25) (end 110 50.25) (width 0.25) (layer "F.Cu") (net 1) (tstamp 1))
)
"#;

#[test]
fn minimal_kicad_board() {
    let board = load_kicad_pcb("demo/board.kicad_pcb", BOARD.as_bytes()).unwrap();
    assert_eq!(board.file_path, "demo/board.kicad_pcb");
    assert_eq!(board.layers, vec!["F.Cu", "B.Cu"]);
    assert_eq!(board.components.len(), 1);
    assert_eq!(board.nets.len(), 1);
    assert_eq!(board.traces.len(), 1);
    let c = &board.components[0];
    assert_eq!(c.id, "R1");
    assert_eq!(c.name, "R1");
    assert_eq!(c.component_type, "smd");
    assert_eq!(c.footprint, "Resistor_SMD:R_0603");
    assert_eq!(c.position, Position { x: b(100.5), y: b(-50.25) });
    assert_eq!(c.rotation, b(90.0));
    assert_eq!(c.value.as_deref(), Some("10k"));
    assert_eq!(c.properties, None);
    let net = &board.nets[0];
    assert_eq!(net.id, "1");
    assert_eq!(net.name, "GND");
    assert_eq!(net.nodes, vec![NetNode { component_id: "R1".to_string(), pin: "1".to_string() }]);
    let t = &board.traces[0];
    assert_eq!(t.net_id, "1");
    assert_eq!(t.layer, "F.Cu");
    assert_eq!(t.width, b(0.25));
    assert_eq!(t.path, vec![Position { x: b(100.5), y: b(-50.25) }, Position { x: b(110.0), y: b(-50.25) }]);
}

#[test]
fn kicad_module_of_an_older_file() {
    let text = "(kicad_pcb (layers (0 F.Cu signal)) (net 0 \"\") (net 1 GND) (module R_0603 (layer F.Cu) (at 10 -20) (fp_text reference R7 (at 0 0)) (fp_text value 4k7 (at 0 0)) (pad 1 smd rect) (pad 2 smd rect (net 1 GND))))";
    let board = load_kicad_pcb("old.kicad_pcb", text.as_bytes()).unwrap();
    let c = &board.components[0];
    assert_eq!((c.id.as_str(), c.footprint.as_str(), c.component_type.as_str()), ("R7", "R_0603", ""));
    assert_eq!(c.position, Position { x: b(10.0), y: b(20.0) });
    assert_eq!(c.rotation, b(0.0));
    assert_eq!(c.value.as_deref(), Some("4k7"));
    assert_eq!(board.nets.len(), 2);
    assert_eq!(board.nets[0].name, "");
    assert!(board.nets[0].nodes.is_empty());
    assert_eq!(board.nets[1].nodes, vec![NetNode { component_id: "R7".to_string(), pin: "2".to_string() }]);
    assert!(board.traces.is_empty());
}

#[test]
fn kicad_parse_failures() {
    let fails = |text: &str, reason: ParseFailure| {
        assert_eq!(load_kicad_pcb("b.kicad_pcb", text.as_bytes()).unwrap_err(), parse_error(reason), "{text:?}")
    };
    fails("", ParseFailure::MalformedHeader);
    fails("(pcb)", ParseFailure::MalformedHeader);
    fails("(\"kicad\" pcb)", ParseFailure::MalformedHeader);
    fails("(kicad_pcb (layers)", ParseFailure::Truncated);
    fails("(kicad_pcb (net 1 \"GND", ParseFailure::Truncated);
    fails("(kicad_pcb))", ParseFailure::InvalidSyntax);
    fails("(kicad_pcb) (extra)", ParseFailure::UnexpectedToken);
    fails("stray (kicad_pcb)", ParseFailure::UnexpectedToken);
    fails("\"stray\" (kicad_pcb)", ParseFailure::UnexpectedToken);
    fails("(kicad_pcb (layers F.Cu))", ParseFailure::UnexpectedToken);
    fails("(kicad_pcb (layers (0)))", ParseFailure::UnexpectedToken);
    fails("(kicad_pcb (net 1))", ParseFailure::UnexpectedToken);
    fails("(kicad_pcb (footprint))", ParseFailure::UnexpectedToken);
    fails("(kicad_pcb (footprint X (at 1 2)))", ParseFailure::MissingField);
    fails("(kicad_pcb (footprint X (property Reference R1)))", ParseFailure::MissingField);
    fails("(kicad_pcb (footprint X (property Reference R1) (at 1 two)))", ParseFailure::InvalidNumber);
    fails("(kicad_pcb (footprint X (property Reference R1) (at 1)))", ParseFailure::UnexpectedToken);
    fails("(kicad_pcb (footprint X (property Reference R1) (at 1 2 x)))", ParseFailure::InvalidNumber);
    fails("(kicad_pcb (footprint X (property Reference R1) (at 1 2 1e300)))", ParseFailure::OutOfRange);
    fails("(kicad_pcb (footprint X (property Reference R1) (at 1 2) (pad)))", ParseFailure::UnexpectedToken);
    fails("(kicad_pcb (footprint X (property Reference R1) (at 1 2) (pad 1 (net))))", ParseFailure::UnexpectedToken);
    fails("(kicad_pcb (segment (end 1 2) (width 1) (layer L) (net 1)))", ParseFailure::MissingField);
    fails("(kicad_pcb (segment (start 1 2) (end 1 2) (layer L) (net 1)))", ParseFailure::MissingField);
    fails("(kicad_pcb (segment (start 1 2) (end 1 2) (width wide) (layer L) (net 1)))", ParseFailure::InvalidNumber);
    fails("(kicad_pcb (segment (start 1 2) (end 1 2) (width 1) (layer) (net 1)))", ParseFailure::UnexpectedToken);
    assert_eq!(load_kicad_pcb("b.kicad_pcb", &[0x28, 0xff, 0x29]).unwrap_err(), parse_error(ParseFailure::InvalidText));
}

#[test]
fn kicad_integrity_failures() {
    let fails = |text: &str, kind: IntegrityKind, id: &str| {
        assert_eq!(load_kicad_pcb("b.kicad_pcb", text.as_bytes()).unwrap_err(), integrity(kind, id), "{text:?}")
    };
    fails(
        "(kicad_pcb (layers (0 F.Cu signal)) (net 1 GND) (segment (start 0 0) (end 1 0) (width 0.2) (layer F.Cu) (net 7)))",
        IntegrityKind::UnknownNet,
        "7",
    );
    fails(
        "(kicad_pcb (layers (0 F.Cu signal)) (net 1 GND) (segment (start 0 0) (end 1 0) (width 0.2) (layer B.Cu) (net 1)))",
        IntegrityKind::UnknownLayer,
        "B.Cu",
    );
    fails(
        "(kicad_pcb (layers (0 F.Cu signal)) (net 1 GND) (segment (start 0 0) (end 1 0) (width 0) (layer F.Cu) (net 1)))",
        IntegrityKind::DegenerateTrace,
        "1",
    );
    fails(
        "(kicad_pcb (net 1 GND) (footprint X (property Reference R1) (at 1 2) (pad 1 smd (net 3 VCC))))",
        IntegrityKind::UnknownNet,
        "3",
    );
}

#[test]
fn kicad_y_axis_points_up() {
    let text = "(kicad_pcb (layers (0 F.Cu signal)) (net 1 GND) (footprint X (at -3 0) (property Reference R1)) (segment (start 0 -0) (end 1 2.5e0) (width 0.2) (layer F.Cu) (net 1)))";
    let board = load_kicad_pcb("b.kicad_pcb", text.as_bytes()).unwrap();
    assert_eq!(board.components[0].position, Position { x: b(-3.0), y: b(0.0) });
    assert_eq!(board.traces[0].path, vec![Position { x: b(0.0), y: b(0.0) }, Position { x: b(1.0), y: b(-2.5) }]);
}

#[test]
fn kicad_arc_runs_over_its_middle_point() {
    let text = "(kicad_pcb (layers (0 F.Cu signal)) (net 1 GND) (arc (start 0 0) (mid 1 -1) (end 2 0) (width 0.2) (layer F.Cu) (net 1)))";
    let board = load_kicad_pcb("b.kicad_pcb", text.as_bytes()).unwrap();
    assert_eq!(
        board.traces[0].path,
        vec![Position { x: b(0.0), y: b(0.0) }, Position { x: b(1.0), y: b(1.0) }, Position { x: b(2.0), y: b(0.0) }]
    );
    let text = "(kicad_pcb (arc (start 0 0) (end 2 0) (width 0.2) (layer F.Cu) (net 1)))";
    assert_eq!(load_kicad_pcb("b.kicad_pcb", text.as_bytes()).unwrap_err(), parse_error(ParseFailure::MissingField));
}

#[test]
fn sexpr_tokens() {
    let text: Vec<char> = "(a \"b \\\"c\\\" \\n\" (d)e \"\")".chars().collect();
    let tokens = tokenize(&text).unwrap();
    let shown: Vec<String> =
        tokens.iter().map(|t| format!("{:?}:{}", t.kind, t.value.iter().collect::<String>())).collect();
    assert_eq!(shown, vec!["Open:", "Atom:a", "Atom:b \"c\" \n", "Open:", "Atom:d", "Close:", "Atom:e", "Atom:", "Close:"]);
}

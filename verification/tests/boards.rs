use hardware_ingest::error::{DecodeError, IntegrityKind};
use hardware_ingest::pcb::{
    check_integrity, finish_board, BoardDraft, NetDecl, NetNode, PCBComponent, PCBNet, PCBTrace,
    PCBViewerData, PadEntry, Position,
};

fn b(x: f64) -> u64 {
    x.to_bits()
}

fn component(id: &str) -> PCBComponent {
    PCBComponent {
        id: id.to_string(),
        name: id.to_string(),
        component_type: "smd".to_string(),
        footprint: "R_0603".to_string(),
        position: Position { x: b(1.0), y: b(2.0) },
        rotation: b(0.0),
        value: None,
        properties: None,
    }
}

fn pad(net: &str, component: &str, pin: &str) -> PadEntry {
    PadEntry {
        net_id: net.to_string(),
        node: NetNode { component_id: component.to_string(), pin: pin.to_string() },
    }
}

fn trace(net: &str, layer: &str, width: f64, points: usize) -> PCBTrace {
    PCBTrace {
        net_id: net.to_string(),
        path: (0..points).map(|i| Position { x: b(i as f64), y: b(0.0) }).collect(),
        layer: layer.to_string(),
        width: b(width),
    }
}

fn decl(id: &str, name: &str) -> NetDecl {
    NetDecl { id: id.to_string(), name: name.to_string() }
}

fn draft() -> BoardDraft {
    BoardDraft {
        layers: vec!["F.Cu".to_string(), "B.Cu".to_string()],
        components: vec![component("R1"), component("C1")],
        decls: vec![decl("1", "GND"), decl("2", "VCC")],
        pads: vec![pad("2", "R1", "1"), pad("1", "R1", "2"), pad("1", "C1", "1")],
        traces: vec![trace("1", "F.Cu", 0.25, 2), trace("2", "B.Cu", 0.5, 3)],
    }
}

fn integrity(kind: IntegrityKind, id: &str) -> DecodeError {
    DecodeError::IntegrityError { kind, id: id.to_string() }
}

#[test]
fn a_sound_draft_makes_a_board() {
    let board = finish_board("boards/main.kicad_pcb", draft()).unwrap();
    assert_eq!(board.file_path, "boards/main.kicad_pcb");
    assert_eq!(board.layers, vec!["F.Cu", "B.Cu"]);
    assert_eq!(board.components.len(), 2);
    assert_eq!(board.nets.len(), 2);
    assert_eq!(board.nets[0].id, "1");
    assert_eq!(board.nets[0].name, "GND");
    assert_eq!(
        board.nets[0].nodes,
        vec![
            NetNode { component_id: "R1".to_string(), pin: "2".to_string() },
            NetNode { component_id: "C1".to_string(), pin: "1".to_string() }
        ]
    );
    assert_eq!(board.nets[1].nodes, vec![NetNode { component_id: "R1".to_string(), pin: "1".to_string() }]);
    assert_eq!(board.traces.len(), 2);
    for net in &board.nets {
        for node in &net.nodes {
            assert!(board.components.iter().any(|c| c.id == node.component_id));
        }
    }
    for t in &board.traces {
        assert!(board.nets.iter().any(|n| n.id == t.net_id));
        assert!(board.layers.contains(&t.layer));
    }
    assert_eq!(check_integrity(&board), Ok(()));
}

#[test]
fn a_trace_on_a_net_that_does_not_exist_is_an_integrity_error() {
    let mut d = draft();
    d.traces.push(trace("N9", "F.Cu", 0.25, 2));
    assert_eq!(finish_board("x.brd", d).unwrap_err(), integrity(IntegrityKind::UnknownNet, "N9"));
}

#[test]
fn a_node_on_a_component_that_does_not_exist_is_an_integrity_error() {
    let mut d = draft();
    d.pads.push(pad("2", "U7", "3"));
    d.pads.push(pad("2", "U8", "1"));
    assert_eq!(finish_board("x.brd", d).unwrap_err(), integrity(IntegrityKind::UnknownComponent, "U7"));
}

#[test]
fn a_pad_on_a_net_that_is_not_declared_is_an_integrity_error() {
    let mut d = draft();
    d.pads.insert(0, pad("5", "R1", "1"));
    d.traces.push(trace("N9", "F.Cu", 0.25, 2));
    assert_eq!(finish_board("x.brd", d).unwrap_err(), integrity(IntegrityKind::UnknownNet, "5"));
}

#[test]
fn a_trace_on_a_layer_that_is_not_declared_is_an_integrity_error() {
    let mut d = draft();
    d.traces.push(trace("1", "In1.Cu", 0.25, 2));
    assert_eq!(finish_board("x.brd", d).unwrap_err(), integrity(IntegrityKind::UnknownLayer, "In1.Cu"));
}

#[test]
fn a_trace_that_is_none_is_an_integrity_error() {
    for (width, points) in [(0.0, 2), (-0.25, 2), (f64::NAN, 2), (f64::INFINITY, 2), (0.25, 1), (0.25, 0)] {
        let mut d = draft();
        d.traces.push(trace("2", "F.Cu", width, points));
        assert_eq!(finish_board("x.brd", d).unwrap_err(), integrity(IntegrityKind::DegenerateTrace, "2"));
    }
}

#[test]
fn faults_are_reported_in_order_nets_before_traces() {
    let board = PCBViewerData {
        file_path: "p".to_string(),
        layers: vec!["Top".to_string()],
        components: vec![component("R1")],
        nets: vec![
            PCBNet { id: "A".to_string(), name: "A".to_string(), nodes: vec![NetNode { component_id: "R1".to_string(), pin: "1".to_string() }] },
            PCBNet {
                id: "B".to_string(),
                name: "B".to_string(),
                nodes: vec![
                    NetNode { component_id: "R1".to_string(), pin: "2".to_string() },
                    NetNode { component_id: "X".to_string(), pin: "1".to_string() },
                    NetNode { component_id: "Y".to_string(), pin: "1".to_string() },
                ],
            },
        ],
        traces: vec![trace("missing", "Top", 1.0, 2)],
    };
    assert_eq!(check_integrity(&board), Err(integrity(IntegrityKind::UnknownComponent, "X")));
}

#[test]
fn an_empty_board_is_sound() {
    let d = BoardDraft { layers: vec![], components: vec![], decls: vec![], pads: vec![], traces: vec![] };
    let board = finish_board("", d).unwrap();
    assert!(board.layers.is_empty() && board.nets.is_empty() && board.traces.is_empty());
}

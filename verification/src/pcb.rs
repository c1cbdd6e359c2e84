//! The PCB model: layers, placed components, nets and routed traces, and the
//! references that hold among them.
//!
//! Lengths are millimetres and angles are degrees, whatever the source format.
use crate::error::{DecodeError, Failure, IntegrityKind};
use crate::scalar::{is_positive, scalar_is_positive, Scalar};
use vstd::prelude::*;

verus! {

/// A point on the board.
#[derive(Clone, Copy, Debug, PartialEq, Eq, Structural)]
pub struct Position {
    pub x: Scalar,
    pub y: Scalar,
}

/// One pin of one component, as a member of a net.
#[derive(Debug, PartialEq)]
pub struct NetNode {
    pub component_id: String,
    pub pin: String,
}

/// A group of connected pins.
#[derive(Debug, PartialEq)]
pub struct PCBNet {
    pub id: String,
    pub name: String,
    pub nodes: Vec<NetNode>,
}

/// A routed copper path on one layer, belonging to one net.
#[derive(Debug, PartialEq)]
pub struct PCBTrace {
    pub net_id: String,
    pub path: Vec<Position>,
    pub layer: String,
    pub width: Scalar,
}

/// A placed component.
#[derive(Debug, PartialEq)]
pub struct PCBComponent {
    pub id: String,
    pub name: String,
    pub component_type: String,
    pub footprint: String,
    pub position: Position,
    /// In degrees.
    pub rotation: Scalar,
    pub value: Option<String>,
    pub properties: Option<serde_json::Value>,
}

/// A board.
#[derive(Debug, PartialEq)]
pub struct PCBViewerData {
    pub file_path: String,
    /// The layers in the order in which the file declares them.
    pub layers: Vec<String>,
    pub components: Vec<PCBComponent>,
    pub nets: Vec<PCBNet>,
    pub traces: Vec<PCBTrace>,
}

/// A node of a net, with texts as sequences of characters.
pub struct NetNodeView {
    pub component_id: Seq<char>,
    pub pin: Seq<char>,
}

/// A net, with texts and nodes as sequences.
pub struct NetView {
    pub id: Seq<char>,
    pub name: Seq<char>,
    pub nodes: Seq<NetNodeView>,
}

/// A trace, with texts and points as sequences.
pub struct TraceView {
    pub net_id: Seq<char>,
    pub path: Seq<Position>,
    pub layer: Seq<char>,
    pub width: Scalar,
}

/// A component, with texts as sequences of characters.
pub struct ComponentView {
    pub id: Seq<char>,
    pub name: Seq<char>,
    pub component_type: Seq<char>,
    pub footprint: Seq<char>,
    pub position: Position,
    pub rotation: Scalar,
    pub value: Option<Seq<char>>,
    pub properties: Option<serde_json::Value>,
}

/// A board, with texts and collections as sequences.
pub struct Board {
    pub file_path: Seq<char>,
    pub layers: Seq<Seq<char>>,
    pub components: Seq<ComponentView>,
    pub nets: Seq<NetView>,
    pub traces: Seq<TraceView>,
}

impl DeepView for NetNode {
    type V = NetNodeView;

    open spec fn deep_view(&self) -> NetNodeView {
        NetNodeView { component_id: self.component_id@, pin: self.pin@ }
    }
}

impl DeepView for PCBNet {
    type V = NetView;

    open spec fn deep_view(&self) -> NetView {
        NetView { id: self.id@, name: self.name@, nodes: self.nodes.deep_view() }
    }
}

impl DeepView for PCBTrace {
    type V = TraceView;

    open spec fn deep_view(&self) -> TraceView {
        TraceView {
            net_id: self.net_id@,
            path: self.path@,
            layer: self.layer@,
            width: self.width,
        }
    }
}

impl DeepView for PCBComponent {
    type V = ComponentView;

    open spec fn deep_view(&self) -> ComponentView {
        ComponentView {
            id: self.id@,
            name: self.name@,
            component_type: self.component_type@,
            footprint: self.footprint@,
            position: self.position,
            rotation: self.rotation,
            value: self.value.deep_view(),
            properties: self.properties,
        }
    }
}

impl DeepView for PCBViewerData {
    type V = Board;

    open spec fn deep_view(&self) -> Board {
        Board {
            file_path: self.file_path@,
            layers: self.layers.deep_view(),
            components: self.components.deep_view(),
            nets: self.nets.deep_view(),
            traces: self.traces.deep_view(),
        }
    }
}

/// A reference that names nothing, or a trace that is none.
pub struct Fault {
    pub kind: IntegrityKind,
    pub id: Seq<char>,
}

impl Board {
    /// Whether the board holds a component with this id.
    pub open spec fn has_component(self, id: Seq<char>) -> bool {
        exists|i: int| 0 <= i < self.components.len() && (#[trigger] self.components[i]).id == id
    }

    /// Whether the board holds a net with this id.
    pub open spec fn has_net(self, id: Seq<char>) -> bool {
        exists|i: int| 0 <= i < self.nets.len() && (#[trigger] self.nets[i]).id == id
    }

    /// Whether the board declares a layer of this name.
    pub open spec fn has_layer(self, name: Seq<char>) -> bool {
        exists|i: int| 0 <= i < self.layers.len() && #[trigger] self.layers[i] == name
    }

    /// Whether a trace names a net and a layer of the board, has at least two
    /// points and a width above zero.
    pub open spec fn trace_fits(self, trace: TraceView) -> bool {
        &&& self.has_net(trace.net_id)
        &&& self.has_layer(trace.layer)
        &&& trace.path.len() >= 2
        &&& is_positive(trace.width)
    }

    /// The invariant of a board: every node of every net names a component
    /// of the board, and every trace names a net and a layer of the board,
    /// has at least two points and a positive width.
    pub open spec fn well_formed(self) -> bool {
        &&& forall|n: int, k: int|
            0 <= n < self.nets.len() && 0 <= k < self.nets[n].nodes.len() ==> self.has_component(
                (#[trigger] self.nets[n].nodes[k]).component_id,
            )
        &&& forall|t: int| 0 <= t < self.traces.len() ==> self.trace_fits(#[trigger] self.traces[t])
    }

    /// The first node among the first `n` of `nodes` that names no component.
    pub open spec fn node_fault(self, nodes: Seq<NetNodeView>, n: int) -> Option<Fault>
        decreases n,
    {
        if n <= 0 {
            None
        } else {
            match self.node_fault(nodes, n - 1) {
                Some(f) => Some(f),
                None => if self.has_component(nodes[n - 1].component_id) {
                    None
                } else {
                    Some(
                        Fault {
                            kind: IntegrityKind::UnknownComponent,
                            id: nodes[n - 1].component_id,
                        },
                    )
                },
            }
        }
    }

    /// The first fault among the nodes of the first `n` nets.
    pub open spec fn net_fault(self, n: int) -> Option<Fault>
        decreases n,
    {
        if n <= 0 {
            None
        } else {
            match self.net_fault(n - 1) {
                Some(f) => Some(f),
                None => self.node_fault(self.nets[n - 1].nodes, self.nets[n - 1].nodes.len() as int),
            }
        }
    }

    /// What is wrong with a trace, if anything: its net, then its layer, then its shape.
    pub open spec fn trace_check(self, trace: TraceView) -> Option<Fault> {
        if !self.has_net(trace.net_id) {
            Some(Fault { kind: IntegrityKind::UnknownNet, id: trace.net_id })
        } else if !self.has_layer(trace.layer) {
            Some(Fault { kind: IntegrityKind::UnknownLayer, id: trace.layer })
        } else if trace.path.len() < 2 || !is_positive(trace.width) {
            Some(Fault { kind: IntegrityKind::DegenerateTrace, id: trace.net_id })
        } else {
            None
        }
    }

    /// The first fault among the first `n` traces.
    pub open spec fn trace_fault(self, n: int) -> Option<Fault>
        decreases n,
    {
        if n <= 0 {
            None
        } else {
            match self.trace_fault(n - 1) {
                Some(f) => Some(f),
                None => self.trace_check(self.traces[n - 1]),
            }
        }
    }

    /// The first fault of the board: among the nets in their order, then
    /// among the traces in theirs.
    pub open spec fn fault(self) -> Option<Fault> {
        match self.net_fault(self.nets.len() as int) {
            Some(f) => Some(f),
            None => self.trace_fault(self.traces.len() as int),
        }
    }
}

/// The failure that a fault is reported as.
pub open spec fn integrity_failure(f: Fault) -> Failure {
    Failure::IntegrityError { kind: f.kind, id: f.id }
}

proof fn lemma_node_fault(board: Board, nodes: Seq<NetNodeView>, n: int)
    requires
        0 <= n <= nodes.len(),
    ensures
        board.node_fault(nodes, n) is None <==> forall|k: int|
            0 <= k < n ==> board.has_component((#[trigger] nodes[k]).component_id),
    decreases n,
{
    if n > 0 {
        lemma_node_fault(board, nodes, n - 1);
    }
}

proof fn lemma_net_fault(board: Board, n: int)
    requires
        0 <= n <= board.nets.len(),
    ensures
        board.net_fault(n) is None <==> forall|i: int, k: int|
            0 <= i < n && 0 <= k < board.nets[i].nodes.len() ==> board.has_component(
                (#[trigger] board.nets[i].nodes[k]).component_id,
            ),
    decreases n,
{
    if n > 0 {
        lemma_net_fault(board, n - 1);
        lemma_node_fault(board, board.nets[n - 1].nodes, board.nets[n - 1].nodes.len() as int);
    }
}

proof fn lemma_trace_fault(board: Board, n: int)
    requires
        0 <= n <= board.traces.len(),
    ensures
        board.trace_fault(n) is None <==> forall|t: int|
            0 <= t < n ==> board.trace_fits(#[trigger] board.traces[t]),
    decreases n,
{
    if n > 0 {
        lemma_trace_fault(board, n - 1);
    }
}

/// A board has no fault exactly if it is well-formed: every component that
/// a net names is among the components, and every net that a trace names is
/// among the nets.
pub proof fn lemma_no_fault_iff_well_formed(board: Board)
    ensures
        board.fault() is None <==> board.well_formed(),
{
    lemma_net_fault(board, board.nets.len() as int);
    lemma_trace_fault(board, board.traces.len() as int);
}

/// In a well-formed board every node of every net names a component of the
/// board, and every trace names a net of the board.
pub proof fn lemma_references_resolve(board: Board, n: int, k: int, t: int)
    requires
        board.well_formed(),
    ensures
        0 <= n < board.nets.len() && 0 <= k < board.nets[n].nodes.len() ==> board.has_component(
            board.nets[n].nodes[k].component_id,
        ),
        0 <= t < board.traces.len() ==> board.has_net(board.traces[t].net_id) && board.has_layer(
            board.traces[t].layer,
        ),
{
}

proof fn lemma_node_fault_stays(board: Board, nodes: Seq<NetNodeView>, have: int, want: int)
    requires
        0 <= have <= want,
        board.node_fault(nodes, have) is Some,
    ensures
        board.node_fault(nodes, want) == board.node_fault(nodes, have),
    decreases want - have,
{
    if have < want {
        lemma_node_fault_stays(board, nodes, have, want - 1);
    }
}

proof fn lemma_net_fault_stays(board: Board, have: int, want: int)
    requires
        0 <= have <= want,
        board.net_fault(have) is Some,
    ensures
        board.net_fault(want) == board.net_fault(have),
    decreases want - have,
{
    if have < want {
        lemma_net_fault_stays(board, have, want - 1);
    }
}

proof fn lemma_trace_fault_stays(board: Board, have: int, want: int)
    requires
        0 <= have <= want,
        board.trace_fault(have) is Some,
    ensures
        board.trace_fault(want) == board.trace_fault(have),
    decreases want - have,
{
    if have < want {
        lemma_trace_fault_stays(board, have, want - 1);
    }
}

fn knows_component(board: &PCBViewerData, id: &String) -> (r: bool)
    ensures
        r == board.deep_view().has_component(id@),
{
    let mut i: usize = 0;
    while i < board.components.len()
        invariant
            i <= board.components.len(),
            forall|j: int| 0 <= j < i ==> (#[trigger] board.deep_view().components[j]).id != id@,
        decreases board.components.len() - i,
    {
        if board.components[i].id == *id {
            assert(board.deep_view().components[i as int].id == id@);
            return true;
        }
        i += 1;
    }
    false
}

fn knows_net(board: &PCBViewerData, id: &String) -> (r: bool)
    ensures
        r == board.deep_view().has_net(id@),
{
    let mut i: usize = 0;
    while i < board.nets.len()
        invariant
            i <= board.nets.len(),
            forall|j: int| 0 <= j < i ==> (#[trigger] board.deep_view().nets[j]).id != id@,
        decreases board.nets.len() - i,
    {
        if board.nets[i].id == *id {
            assert(board.deep_view().nets[i as int].id == id@);
            return true;
        }
        i += 1;
    }
    false
}

fn knows_layer(board: &PCBViewerData, name: &String) -> (r: bool)
    ensures
        r == board.deep_view().has_layer(name@),
{
    let mut i: usize = 0;
    while i < board.layers.len()
        invariant
            i <= board.layers.len(),
            forall|j: int| 0 <= j < i ==> #[trigger] board.deep_view().layers[j] != name@,
        decreases board.layers.len() - i,
    {
        if board.layers[i] == *name {
            assert(board.deep_view().layers[i as int] == name@);
            return true;
        }
        i += 1;
    }
    false
}

fn integrity_error(kind: IntegrityKind, id: &String) -> (e: DecodeError)
    ensures
        e.deep_view() == integrity_failure(Fault { kind, id: id@ }),
{
    DecodeError::IntegrityError { kind, id: id.clone() }
}

fn check_nodes(board: &PCBViewerData, n: usize) -> (r: Result<(), DecodeError>)
    requires
        n < board.nets.len(),
    ensures
        match board.deep_view().node_fault(
            board.deep_view().nets[n as int].nodes,
            board.deep_view().nets[n as int].nodes.len() as int,
        ) {
            None => r is Ok,
            Some(f) => r matches Err(e) && e.deep_view() == integrity_failure(f),
        },
{
    let net = &board.nets[n];
    let ghost view = board.deep_view();
    let ghost nodes = view.nets[n as int].nodes;
    let mut k: usize = 0;
    while k < net.nodes.len()
        invariant
            k <= net.nodes.len(),
            view == board.deep_view(),
            n < board.nets.len(),
            nodes == view.nets[n as int].nodes,
            nodes == net.nodes.deep_view(),
            view.node_fault(nodes, k as int) is None,
        decreases net.nodes.len() - k,
    {
        let node = &net.nodes[k];
        if !knows_component(board, &node.component_id) {
            proof {
                lemma_node_fault_stays(view, nodes, k + 1, nodes.len() as int);
            }
            return Err(integrity_error(IntegrityKind::UnknownComponent, &node.component_id));
        }
        k += 1;
    }
    Ok(())
}

fn check_trace(board: &PCBViewerData, t: usize) -> (r: Result<(), DecodeError>)
    requires
        t < board.traces.len(),
    ensures
        match board.deep_view().trace_check(board.deep_view().traces[t as int]) {
            None => r is Ok,
            Some(f) => r matches Err(e) && e.deep_view() == integrity_failure(f),
        },
{
    let trace = &board.traces[t];
    if !knows_net(board, &trace.net_id) {
        Err(integrity_error(IntegrityKind::UnknownNet, &trace.net_id))
    } else if !knows_layer(board, &trace.layer) {
        Err(integrity_error(IntegrityKind::UnknownLayer, &trace.layer))
    } else if trace.path.len() < 2 || !scalar_is_positive(trace.width) {
        Err(integrity_error(IntegrityKind::DegenerateTrace, &trace.net_id))
    } else {
        Ok(())
    }
}

/// Checks the references of a board: `Ok` exactly for a well-formed board,
/// and otherwise the board's first fault.
pub fn check_integrity(board: &PCBViewerData) -> (r: Result<(), DecodeError>)
    ensures
        match board.deep_view().fault() {
            None => r is Ok,
            Some(f) => r matches Err(e) && e.deep_view() == integrity_failure(f),
        },
        r is Ok <==> board.deep_view().well_formed(),
{
    let ghost view = board.deep_view();
    proof {
        lemma_no_fault_iff_well_formed(view);
    }
    let mut n: usize = 0;
    while n < board.nets.len()
        invariant
            n <= board.nets.len(),
            view == board.deep_view(),
            view.fault() is None <==> view.well_formed(),
            view.net_fault(n as int) is None,
        decreases board.nets.len() - n,
    {
        match check_nodes(board, n) {
            Err(e) => {
                proof {
                    lemma_net_fault_stays(view, n + 1, view.nets.len() as int);
                }
                return Err(e);
            },
            Ok(()) => {},
        }
        n += 1;
    }
    let mut t: usize = 0;
    while t < board.traces.len()
        invariant
            t <= board.traces.len(),
            view == board.deep_view(),
            view.fault() is None <==> view.well_formed(),
            view.net_fault(view.nets.len() as int) is None,
            view.trace_fault(t as int) is None,
        decreases board.traces.len() - t,
    {
        match check_trace(board, t) {
            Err(e) => {
                proof {
                    lemma_trace_fault_stays(view, t + 1, view.traces.len() as int);
                }
                return Err(e);
            },
            Ok(()) => {},
        }
        t += 1;
    }
    Ok(())
}

/// A net as a file declares it, before its nodes are known.
#[derive(Debug, PartialEq)]
pub struct NetDecl {
    pub id: String,
    pub name: String,
}

/// A pad that belongs to a net.
#[derive(Debug, PartialEq)]
pub struct PadEntry {
    pub net_id: String,
    pub node: NetNode,
}

/// What a decoder has read of a board, in the order of the file.
#[derive(Debug, PartialEq)]
pub struct BoardDraft {
    pub layers: Vec<String>,
    pub components: Vec<PCBComponent>,
    pub decls: Vec<NetDecl>,
    pub pads: Vec<PadEntry>,
    pub traces: Vec<PCBTrace>,
}

/// A declared net, with texts as sequences of characters.
pub struct NetDeclView {
    pub id: Seq<char>,
    pub name: Seq<char>,
}

/// A pad on a net, with texts as sequences of characters.
pub struct PadView {
    pub net_id: Seq<char>,
    pub node: NetNodeView,
}

/// A draft of a board, with texts and collections as sequences.
pub struct Draft {
    pub layers: Seq<Seq<char>>,
    pub components: Seq<ComponentView>,
    pub decls: Seq<NetDeclView>,
    pub pads: Seq<PadView>,
    pub traces: Seq<TraceView>,
}

impl DeepView for NetDecl {
    type V = NetDeclView;

    open spec fn deep_view(&self) -> NetDeclView {
        NetDeclView { id: self.id@, name: self.name@ }
    }
}

impl DeepView for PadEntry {
    type V = PadView;

    open spec fn deep_view(&self) -> PadView {
        PadView { net_id: self.net_id@, node: self.node.deep_view() }
    }
}

impl DeepView for BoardDraft {
    type V = Draft;

    open spec fn deep_view(&self) -> Draft {
        Draft {
            layers: self.layers.deep_view(),
            components: self.components.deep_view(),
            decls: self.decls.deep_view(),
            pads: self.pads.deep_view(),
            traces: self.traces.deep_view(),
        }
    }
}

/// A draft that holds nothing.
pub open spec fn empty_draft() -> Draft {
    Draft {
        layers: Seq::empty(),
        components: Seq::empty(),
        decls: Seq::empty(),
        pads: Seq::empty(),
        traces: Seq::empty(),
    }
}

/// Whether a net of this id is declared.
pub open spec fn declared(decls: Seq<NetDeclView>, id: Seq<char>) -> bool {
    exists|i: int| 0 <= i < decls.len() && (#[trigger] decls[i]).id == id
}

/// The net of the first pad, among the first `n`, whose net is not declared.
pub open spec fn stray_pad(pads: Seq<PadView>, decls: Seq<NetDeclView>, n: int) -> Option<Seq<char>>
    decreases n,
{
    if n <= 0 {
        None
    } else {
        match stray_pad(pads, decls, n - 1) {
            Some(id) => Some(id),
            None => if declared(decls, pads[n - 1].net_id) {
                None
            } else {
                Some(pads[n - 1].net_id)
            },
        }
    }
}

/// The nodes of the net `id`: those of the first `n` pads that belong to it, in order.
pub open spec fn nodes_of(pads: Seq<PadView>, id: Seq<char>, n: int) -> Seq<NetNodeView>
    decreases n,
{
    if n <= 0 {
        Seq::empty()
    } else if pads[n - 1].net_id == id {
        nodes_of(pads, id, n - 1).push(pads[n - 1].node)
    } else {
        nodes_of(pads, id, n - 1)
    }
}

/// The first `n` declared nets, each with its nodes.
pub open spec fn nets_of(decls: Seq<NetDeclView>, pads: Seq<PadView>, n: int) -> Seq<NetView>
    decreases n,
{
    if n <= 0 {
        Seq::empty()
    } else {
        nets_of(decls, pads, n - 1).push(
            NetView {
                id: decls[n - 1].id,
                name: decls[n - 1].name,
                nodes: nodes_of(pads, decls[n - 1].id, pads.len() as int),
            },
        )
    }
}

/// The board that a draft makes, before its references are checked.
pub open spec fn drafted_board(path: Seq<char>, d: Draft) -> Board {
    Board {
        file_path: path,
        layers: d.layers,
        components: d.components,
        nets: nets_of(d.decls, d.pads, d.decls.len() as int),
        traces: d.traces,
    }
}

/// The board that a draft makes: a pad on a net that is not declared, and
/// every fault of the board, is a failure.
pub open spec fn board_of(path: Seq<char>, d: Draft) -> Result<Board, Failure> {
    match stray_pad(d.pads, d.decls, d.pads.len() as int) {
        Some(id) => Err(Failure::IntegrityError { kind: IntegrityKind::UnknownNet, id }),
        None => match drafted_board(path, d).fault() {
            Some(f) => Err(integrity_failure(f)),
            None => Ok(drafted_board(path, d)),
        },
    }
}

proof fn lemma_stray_pad_stays(pads: Seq<PadView>, decls: Seq<NetDeclView>, have: int, want: int)
    requires
        0 <= have <= want,
        stray_pad(pads, decls, have) is Some,
    ensures
        stray_pad(pads, decls, want) == stray_pad(pads, decls, have),
    decreases want - have,
{
    if have < want {
        lemma_stray_pad_stays(pads, decls, have, want - 1);
    }
}

fn is_declared(decls: &Vec<NetDecl>, id: &String) -> (r: bool)
    ensures
        r == declared(decls.deep_view(), id@),
{
    let mut i: usize = 0;
    while i < decls.len()
        invariant
            i <= decls.len(),
            forall|j: int| 0 <= j < i ==> (#[trigger] decls.deep_view()[j]).id != id@,
        decreases decls.len() - i,
    {
        if decls[i].id == *id {
            assert(decls.deep_view()[i as int].id == id@);
            return true;
        }
        i += 1;
    }
    false
}

fn find_stray_pad(d: &BoardDraft) -> (r: Option<String>)
    ensures
        r.deep_view() == stray_pad(
            d.deep_view().pads,
            d.deep_view().decls,
            d.deep_view().pads.len() as int,
        ),
{
    let mut i: usize = 0;
    while i < d.pads.len()
        invariant
            i <= d.pads.len(),
            stray_pad(d.deep_view().pads, d.deep_view().decls, i as int) is None,
        decreases d.pads.len() - i,
    {
        if !is_declared(&d.decls, &d.pads[i].net_id) {
            proof {
                lemma_stray_pad_stays(
                    d.deep_view().pads,
                    d.deep_view().decls,
                    i + 1,
                    d.deep_view().pads.len() as int,
                );
            }
            return Some(d.pads[i].net_id.clone());
        }
        i += 1;
    }
    None
}

fn collect_nodes(pads: &Vec<PadEntry>, id: &String) -> (r: Vec<NetNode>)
    ensures
        r.deep_view() == nodes_of(pads.deep_view(), id@, pads.len() as int),
{
    let mut out: Vec<NetNode> = Vec::new();
    let mut i: usize = 0;
    while i < pads.len()
        invariant
            i <= pads.len(),
            out.deep_view() == nodes_of(pads.deep_view(), id@, i as int),
        decreases pads.len() - i,
    {
        if pads[i].net_id == *id {
            let node = NetNode {
                component_id: pads[i].node.component_id.clone(),
                pin: pads[i].node.pin.clone(),
            };
            out.push(node);
        }
        i += 1;
    }
    out
}

fn collect_nets(decls: &Vec<NetDecl>, pads: &Vec<PadEntry>) -> (r: Vec<PCBNet>)
    ensures
        r.deep_view() == nets_of(decls.deep_view(), pads.deep_view(), decls.len() as int),
{
    let mut out: Vec<PCBNet> = Vec::new();
    let mut i: usize = 0;
    while i < decls.len()
        invariant
            i <= decls.len(),
            out.deep_view() == nets_of(decls.deep_view(), pads.deep_view(), i as int),
        decreases decls.len() - i,
    {
        let net = PCBNet {
            id: decls[i].id.clone(),
            name: decls[i].name.clone(),
            nodes: collect_nodes(pads, &decls[i].id),
        };
        out.push(net);
        i += 1;
    }
    out
}

/// Makes a board of a draft: gives every declared net its nodes, and checks
/// that every reference names something.
pub fn finish_board(file_path: &str, d: BoardDraft) -> (r: Result<PCBViewerData, DecodeError>)
    ensures
        crate::error::outcome(r) == board_of(file_path@, d.deep_view()),
        r matches Ok(board) ==> board.deep_view().well_formed(),
{
    match find_stray_pad(&d) {
        Some(id) => {
            return Err(DecodeError::IntegrityError { kind: IntegrityKind::UnknownNet, id });
        },
        None => {},
    }
    let nets = collect_nets(&d.decls, &d.pads);
    let board = PCBViewerData {
        file_path: file_path.to_owned(),
        layers: d.layers,
        components: d.components,
        nets,
        traces: d.traces,
    };
    match check_integrity(&board) {
        Err(e) => Err(e),
        Ok(()) => Ok(board),
    }
}

proof fn lemma_nets_are_the_declared(decls: Seq<NetDeclView>, pads: Seq<PadView>, n: int)
    requires
        0 <= n <= decls.len(),
    ensures
        nets_of(decls, pads, n).len() == n,
        forall|i: int| 0 <= i < n ==> (#[trigger] nets_of(decls, pads, n)[i]).id == decls[i].id,
    decreases n,
{
    if n > 0 {
        lemma_nets_are_the_declared(decls, pads, n - 1);
    }
}

/// The board that a draft makes holds a net exactly for each declared net.
pub proof fn lemma_board_has_the_declared_nets(path: Seq<char>, d: Draft, id: Seq<char>)
    ensures
        drafted_board(path, d).has_net(id) <==> declared(d.decls, id),
{
    let n = d.decls.len() as int;
    lemma_nets_are_the_declared(d.decls, d.pads, n);
    let board = drafted_board(path, d);
    if declared(d.decls, id) {
        let i = choose|i: int| 0 <= i < d.decls.len() && (#[trigger] d.decls[i]).id == id;
        assert(board.nets[i].id == id);
    }
    if board.has_net(id) {
        let i = choose|i: int| 0 <= i < board.nets.len() && (#[trigger] board.nets[i]).id == id;
        assert(board.nets[i].id == d.decls[i].id);
        assert(d.decls[i].id == id);
    }
}

proof fn lemma_unfit_trace_is_a_fault(board: Board, t: int, n: int)
    requires
        0 <= t < n <= board.traces.len(),
        !board.trace_fits(board.traces[t]),
    ensures
        board.trace_fault(n) is Some,
    decreases n,
{
    if t < n - 1 {
        lemma_unfit_trace_is_a_fault(board, t, n - 1);
    }
}

/// A draft with a trace on a net that is not declared makes no board: the
/// decode ends in an integrity error, whatever else the draft holds.
pub proof fn lemma_dangling_trace_makes_no_board(path: Seq<char>, d: Draft, t: int)
    requires
        0 <= t < d.traces.len(),
        !declared(d.decls, d.traces[t].net_id),
    ensures
        board_of(path, d) matches Err(Failure::IntegrityError { .. }),
{
    let board = drafted_board(path, d);
    lemma_board_has_the_declared_nets(path, d, d.traces[t].net_id);
    lemma_unfit_trace_is_a_fault(board, t, board.traces.len() as int);
}

proof fn lemma_nets_without_pads_have_no_fault(board: Board, n: int)
    requires
        0 <= n <= board.nets.len(),
        forall|i: int| 0 <= i < board.nets.len() ==> (#[trigger] board.nets[i]).nodes.len() == 0,
    ensures
        board.net_fault(n) is None,
    decreases n,
{
    if n > 0 {
        lemma_nets_without_pads_have_no_fault(board, n - 1);
        assert(board.nets[n - 1].nodes.len() == 0);
    }
}

proof fn lemma_nets_of_no_pads(decls: Seq<NetDeclView>, n: int)
    requires
        0 <= n <= decls.len(),
    ensures
        nets_of(decls, Seq::empty(), n).len() == n,
        forall|i: int|
            0 <= i < n ==> (#[trigger] nets_of(decls, Seq::empty(), n)[i]).nodes.len() == 0,
    decreases n,
{
    if n > 0 {
        lemma_nets_of_no_pads(decls, n - 1);
    }
}

proof fn lemma_first_unfit_trace(board: Board, t: int, n: int)
    requires
        0 <= t < n <= board.traces.len(),
        forall|j: int| 0 <= j < t ==> board.trace_fits(#[trigger] board.traces[j]),
        !board.trace_fits(board.traces[t]),
    ensures
        board.trace_fault(n) == board.trace_check(board.traces[t]),
    decreases n,
{
    if t < n - 1 {
        lemma_first_unfit_trace(board, t, n - 1);
    } else {
        lemma_trace_fault(board, t);
    }
}

/// In a draft without pads, the first trace that does not fit decides the
/// failure: where it names a net that is not declared, the decode ends in
/// the integrity error of an unknown net with the id that the trace names.
pub proof fn lemma_dangling_trace_is_named(path: Seq<char>, d: Draft, t: int)
    requires
        d.pads.len() == 0,
        0 <= t < d.traces.len(),
        forall|j: int|
            0 <= j < t ==> drafted_board(path, d).trace_fits(#[trigger] d.traces[j]),
        !declared(d.decls, d.traces[t].net_id),
    ensures
        board_of(path, d) == Err::<Board, Failure>(
            Failure::IntegrityError { kind: IntegrityKind::UnknownNet, id: d.traces[t].net_id },
        ),
{
    let board = drafted_board(path, d);
    assert(d.pads =~= Seq::empty());
    lemma_nets_of_no_pads(d.decls, d.decls.len() as int);
    lemma_nets_without_pads_have_no_fault(board, board.nets.len() as int);
    lemma_board_has_the_declared_nets(path, d, d.traces[t].net_id);
    lemma_first_unfit_trace(board, t, board.traces.len() as int);
}

} // verus!

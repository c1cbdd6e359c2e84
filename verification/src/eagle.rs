//! Eagle board files.
//!
//! A board file is an XML document with the root `eagle`. The decoder reads
//! the layers of its `drawing`, and, inside the `board`, the `elements` and
//! the `signals` with their `contactref` and `wire` children. A wire names
//! its layer by number; the model holds the name that the layer table gives
//! to that number. Eagle writes lengths in millimetres and angles in
//! degrees, which is what the model holds.
use crate::error::{outcome, parse_failure, viewed, DecodeError, Failure, Format, ParseFailure};
use crate::kicad::{angle_of, check_angle};
use crate::markup::{
    after_item, attribute, content_start, find_named, is_item, is_named, item_at, named,
    read_attribute, seek_named, skip_attributes, skip_item, Token, TokenView,
};
use crate::number::{parse_scalar, scalar_of};
use crate::pcb::{
    board_of, finish_board, BoardDraft, ComponentView, Draft, NetDecl, NetDeclView, NetNode,
    NetNodeView, PCBComponent, PCBTrace, PCBViewerData, PadEntry, PadView, Position, TraceView,
};
use crate::scalar::Scalar;
use crate::text::{copy_range, decode_text, string_from_chars, text_eq, text_of};
use crate::xml::{tokenize_xml, xml_tokens};
use vstd::prelude::*;

verus! {

/// One line of the layer table: a number and the name it stands for.
pub struct LayerView {
    pub number: Seq<char>,
    pub name: Seq<char>,
}

/// Whether a character is one of the flags that stand before an angle:
/// `R` for rotated, `M` for mirrored, `S` for spin.
pub open spec fn is_flag(c: char) -> bool {
    c == 'R' || c == 'M' || c == 'S'
}

/// The end of the run of flags that starts at `from`.
pub open spec fn flags_end(s: Seq<char>, from: int) -> int
    decreases s.len() - from,
{
    if 0 <= from < s.len() && is_flag(s[from]) {
        flags_end(s, from + 1)
    } else {
        from
    }
}

/// The angle, in degrees, of a rotation such as `R90` or `MR180`.
pub open spec fn eagle_angle(rot: Seq<char>) -> Option<Scalar> {
    scalar_of(rot.subrange(flags_end(rot, 0), rot.len() as int))
}

/// The rotation of the element at `at`: zero where it states none.
pub open spec fn rotation_of(t: Seq<TokenView>, at: int) -> Result<Scalar, ParseFailure> {
    match attribute(t, at, "rot"@) {
        None => Ok(0),
        Some(rot) => match eagle_angle(rot) {
            None => Err(ParseFailure::InvalidNumber),
            Some(x) => angle_of(Ok(x)),
        },
    }
}

/// The number that a required attribute spells.
pub open spec fn number_of(t: Seq<TokenView>, at: int, name: Seq<char>) -> Result<
    Scalar,
    ParseFailure,
> {
    match attribute(t, at, name) {
        None => Err(ParseFailure::MissingField),
        Some(v) => match scalar_of(v) {
            None => Err(ParseFailure::InvalidNumber),
            Some(x) => Ok(x),
        },
    }
}

/// The value of a required attribute.
pub open spec fn text_attr(t: Seq<TokenView>, at: int, name: Seq<char>) -> Result<
    Seq<char>,
    ParseFailure,
> {
    match attribute(t, at, name) {
        None => Err(ParseFailure::MissingField),
        Some(v) => Ok(v),
    }
}

/// The value of an attribute, or the empty text where it is absent.
pub open spec fn text_or_empty(t: Seq<TokenView>, at: int, name: Seq<char>) -> Seq<char> {
    match attribute(t, at, name) {
        None => Seq::empty(),
        Some(v) => v,
    }
}

/// The point that two attributes of the element at `at` give.
pub open spec fn point_of(t: Seq<TokenView>, at: int, x: Seq<char>, y: Seq<char>) -> Result<
    Position,
    ParseFailure,
> {
    match number_of(t, at, x) {
        Err(e) => Err(e),
        Ok(px) => match number_of(t, at, y) {
            Err(e) => Err(e),
            Ok(py) => Ok(Position { x: px, y: py }),
        },
    }
}

/// The component that the `element` at `at` places. Its name is also its
/// id, its package is its footprint, and its library is its type.
pub open spec fn element_at(t: Seq<TokenView>, at: int) -> Result<ComponentView, ParseFailure> {
    match text_attr(t, at, "name"@) {
        Err(e) => Err(e),
        Ok(name) => match text_attr(t, at, "package"@) {
            Err(e) => Err(e),
            Ok(footprint) => match point_of(t, at, "x"@, "y"@) {
                Err(e) => Err(e),
                Ok(position) => match rotation_of(t, at) {
                    Err(e) => Err(e),
                    Ok(rotation) => Ok(
                        ComponentView {
                            id: name,
                            name,
                            component_type: text_or_empty(t, at, "library"@),
                            footprint,
                            position,
                            rotation,
                            value: attribute(t, at, "value"@),
                            properties: None,
                        },
                    ),
                },
            },
        },
    }
}

/// The components so far and those that the `element` items from `from` on place.
pub open spec fn elements_from(
    t: Seq<TokenView>,
    from: int,
    components: Seq<ComponentView>,
) -> Result<Seq<ComponentView>, ParseFailure>
    decreases t.len() - from,
{
    if !item_at(t, from) {
        Ok(components)
    } else if !named(t, from, "element"@) {
        elements_from(t, after_item(t, from), components)
    } else {
        match element_at(t, from) {
            Err(e) => Err(e),
            Ok(c) => elements_from(t, after_item(t, from), components.push(c)),
        }
    }
}

/// The layer table so far and the lines that the `layer` items from `from` on add.
pub open spec fn layer_table_from(t: Seq<TokenView>, from: int, table: Seq<LayerView>) -> Result<
    Seq<LayerView>,
    ParseFailure,
>
    decreases t.len() - from,
{
    if !item_at(t, from) {
        Ok(table)
    } else if !named(t, from, "layer"@) {
        layer_table_from(t, after_item(t, from), table)
    } else {
        match (attribute(t, from, "number"@), attribute(t, from, "name"@)) {
            (Some(number), Some(name)) => layer_table_from(
                t,
                after_item(t, from),
                table.push(LayerView { number, name }),
            ),
            _ => Err(ParseFailure::MissingField),
        }
    }
}

/// The name of the layer that a number stands for: that of the first line,
/// from `from` on, with this number; the number itself if there is none.
pub open spec fn layer_name(table: Seq<LayerView>, number: Seq<char>, from: int) -> Seq<char>
    decreases table.len() - from,
{
    if from < 0 || from >= table.len() {
        number
    } else if table[from].number == number {
        table[from].name
    } else {
        layer_name(table, number, from + 1)
    }
}

/// The names of the first `n` lines of a layer table.
pub open spec fn layer_names(table: Seq<LayerView>, n: int) -> Seq<Seq<char>>
    decreases n,
{
    if n <= 0 {
        Seq::empty()
    } else {
        layer_names(table, n - 1).push(table[n - 1].name)
    }
}

/// The trace that the `wire` at `at` routes for the signal `net`.
pub open spec fn wire_at(t: Seq<TokenView>, at: int, net: Seq<char>, table: Seq<LayerView>) -> Result<
    TraceView,
    ParseFailure,
> {
    match point_of(t, at, "x1"@, "y1"@) {
        Err(e) => Err(e),
        Ok(start) => match point_of(t, at, "x2"@, "y2"@) {
            Err(e) => Err(e),
            Ok(end) => match number_of(t, at, "width"@) {
                Err(e) => Err(e),
                Ok(width) => match text_attr(t, at, "layer"@) {
                    Err(e) => Err(e),
                    Ok(number) => Ok(
                        TraceView {
                            net_id: net,
                            path: seq![start, end],
                            layer: layer_name(table, number, 0),
                            width,
                        },
                    ),
                },
            },
        },
    }
}

/// The node that the `contactref` at `at` adds to the signal `net`.
pub open spec fn contact_at(t: Seq<TokenView>, at: int, net: Seq<char>) -> Result<
    PadView,
    ParseFailure,
> {
    match text_attr(t, at, "element"@) {
        Err(e) => Err(e),
        Ok(component_id) => match text_attr(t, at, "pad"@) {
            Err(e) => Err(e),
            Ok(pin) => Ok(PadView { net_id: net, node: NetNodeView { component_id, pin } }),
        },
    }
}

/// The draft with the nodes and traces that the items of one signal, from
/// `from` on, add to it.
pub open spec fn signal_items(
    t: Seq<TokenView>,
    from: int,
    net: Seq<char>,
    table: Seq<LayerView>,
    d: Draft,
) -> Result<Draft, ParseFailure>
    decreases t.len() - from,
{
    if !item_at(t, from) {
        Ok(d)
    } else if named(t, from, "contactref"@) {
        match contact_at(t, from, net) {
            Err(e) => Err(e),
            Ok(pad) => signal_items(
                t,
                after_item(t, from),
                net,
                table,
                Draft { pads: d.pads.push(pad), ..d },
            ),
        }
    } else if named(t, from, "wire"@) {
        match wire_at(t, from, net, table) {
            Err(e) => Err(e),
            Ok(trace) => signal_items(
                t,
                after_item(t, from),
                net,
                table,
                Draft { traces: d.traces.push(trace), ..d },
            ),
        }
    } else {
        signal_items(t, after_item(t, from), net, table, d)
    }
}

/// The draft with the nets, nodes and traces that the `signal` items from
/// `from` on add to it. The name of a signal is both the id and the name of
/// its net. A wire or a contact that stands outside every signal is kept
/// with the empty text for its net, so that it is found to name none.
pub open spec fn signals_from(t: Seq<TokenView>, from: int, table: Seq<LayerView>, d: Draft) -> Result<
    Draft,
    ParseFailure,
>
    decreases t.len() - from,
{
    if !item_at(t, from) {
        Ok(d)
    } else if named(t, from, "wire"@) {
        match wire_at(t, from, Seq::empty(), table) {
            Err(e) => Err(e),
            Ok(trace) => signals_from(
                t,
                after_item(t, from),
                table,
                Draft { traces: d.traces.push(trace), ..d },
            ),
        }
    } else if named(t, from, "contactref"@) {
        match contact_at(t, from, Seq::empty()) {
            Err(e) => Err(e),
            Ok(pad) => signals_from(
                t,
                after_item(t, from),
                table,
                Draft { pads: d.pads.push(pad), ..d },
            ),
        }
    } else if !named(t, from, "signal"@) {
        signals_from(t, after_item(t, from), table, d)
    } else {
        match text_attr(t, from, "name"@) {
            Err(e) => Err(e),
            Ok(name) => match signal_items(
                t,
                content_start(t, from),
                name,
                table,
                Draft { decls: d.decls.push(NetDeclView { id: name, name }), ..d },
            ) {
                Err(e) => Err(e),
                Ok(next) => signals_from(t, after_item(t, from), table, next),
            },
        }
    }
}

/// The items inside the child `name` of the element at `at`: where they
/// begin, or the end of the document where there is no such child.
pub open spec fn section(t: Seq<TokenView>, at: int, name: Seq<char>) -> int {
    match find_named(t, content_start(t, at), name) {
        Some(child) => content_start(t, child),
        None => t.len() as int,
    }
}

/// What the tokens of a board file hold.
pub open spec fn eagle_draft(t: Seq<TokenView>) -> Result<Draft, ParseFailure> {
    if !named(t, 0, "eagle"@) {
        Err(ParseFailure::MalformedHeader)
    } else if after_item(t, 0) != t.len() {
        Err(ParseFailure::UnexpectedToken)
    } else {
        match find_named(t, content_start(t, 0), "drawing"@) {
            None => Err(ParseFailure::MissingField),
            Some(drawing) => match find_named(t, content_start(t, drawing), "board"@) {
                None => Err(ParseFailure::MissingField),
                Some(board) => match layer_table_from(
                    t,
                    section(t, drawing, "layers"@),
                    Seq::empty(),
                ) {
                    Err(e) => Err(e),
                    Ok(table) => match elements_from(
                        t,
                        section(t, board, "elements"@),
                        Seq::empty(),
                    ) {
                        Err(e) => Err(e),
                        Ok(components) => signals_from(
                            t,
                            section(t, board, "signals"@),
                            table,
                            Draft {
                                layers: layer_names(table, table.len() as int),
                                components,
                                decls: Seq::empty(),
                                pads: Seq::empty(),
                                traces: Seq::empty(),
                            },
                        ),
                    },
                },
            },
        }
    }
}

/// What an Eagle text holds.
pub open spec fn eagle_text_draft(text: Seq<char>) -> Result<Draft, ParseFailure> {
    match xml_tokens(text) {
        Err(e) => Err(e),
        Ok(t) => eagle_draft(t),
    }
}

/// The board that an Eagle file holds.
pub open spec fn eagle_board(path: Seq<char>, bytes: Seq<u8>) -> Result<crate::pcb::Board, Failure> {
    match text_of(bytes) {
        None => Err(parse_failure(Format::Eagle, ParseFailure::InvalidText)),
        Some(text) => match eagle_text_draft(text) {
            Err(e) => Err(parse_failure(Format::Eagle, e)),
            Ok(d) => board_of(path, d),
        },
    }
}

/// One line of the layer table.
struct LayerEntry {
    number: Vec<char>,
    name: Vec<char>,
}

impl DeepView for LayerEntry {
    type V = LayerView;

    closed spec fn deep_view(&self) -> LayerView {
        LayerView { number: self.number@, name: self.name@ }
    }
}

fn attr_string(t: &Vec<Token>, at: usize, name: &str) -> (r: Option<String>)
    requires
        at < t.len(),
    ensures
        r.deep_view() == attribute(t.deep_view(), at as int, name@),
{
    match read_attribute(t, at, name) {
        Some(v) => Some(string_from_chars(v.as_slice())),
        None => None,
    }
}

fn attr_required(t: &Vec<Token>, at: usize, name: &str) -> (r: Result<String, ParseFailure>)
    requires
        at < t.len(),
    ensures
        viewed(r) == text_attr(t.deep_view(), at as int, name@),
{
    match attr_string(t, at, name) {
        Some(v) => Ok(v),
        None => Err(ParseFailure::MissingField),
    }
}

fn attr_number(t: &Vec<Token>, at: usize, name: &str) -> (r: Result<Scalar, ParseFailure>)
    requires
        at < t.len(),
    ensures
        r == number_of(t.deep_view(), at as int, name@),
{
    match read_attribute(t, at, name) {
        None => Err(ParseFailure::MissingField),
        Some(v) => match parse_scalar(v.as_slice()) {
            None => Err(ParseFailure::InvalidNumber),
            Some(x) => Ok(x),
        },
    }
}

fn attr_point(t: &Vec<Token>, at: usize, x: &str, y: &str) -> (r: Result<Position, ParseFailure>)
    requires
        at < t.len(),
    ensures
        r == point_of(t.deep_view(), at as int, x@, y@),
{
    match attr_number(t, at, x) {
        Err(e) => Err(e),
        Ok(px) => match attr_number(t, at, y) {
            Err(e) => Err(e),
            Ok(py) => Ok(Position { x: px, y: py }),
        },
    }
}

fn parse_angle(rot: &[char]) -> (r: Option<Scalar>)
    ensures
        r == eagle_angle(rot@),
{
    let mut i: usize = 0;
    while i < rot.len() && (rot[i] == 'R' || rot[i] == 'M' || rot[i] == 'S')
        invariant
            i <= rot.len(),
            flags_end(rot@, i as int) == flags_end(rot@, 0),
        decreases rot.len() - i,
    {
        i += 1;
    }
    let digits = copy_range(rot, i, rot.len());
    parse_scalar(digits.as_slice())
}

fn read_rotation(t: &Vec<Token>, at: usize) -> (r: Result<Scalar, ParseFailure>)
    requires
        at < t.len(),
    ensures
        r == rotation_of(t.deep_view(), at as int),
{
    match read_attribute(t, at, "rot") {
        None => Ok(0),
        Some(rot) => match parse_angle(rot.as_slice()) {
            None => Err(ParseFailure::InvalidNumber),
            Some(x) => check_angle(Ok(x)),
        },
    }
}

fn read_element(t: &Vec<Token>, at: usize) -> (r: Result<PCBComponent, ParseFailure>)
    requires
        at < t.len(),
    ensures
        viewed(r) == element_at(t.deep_view(), at as int),
{
    let name = match attr_required(t, at, "name") {
        Err(e) => {
            return Err(e);
        },
        Ok(x) => x,
    };
    let footprint = match attr_required(t, at, "package") {
        Err(e) => {
            return Err(e);
        },
        Ok(x) => x,
    };
    let position = match attr_point(t, at, "x", "y") {
        Err(e) => {
            return Err(e);
        },
        Ok(x) => x,
    };
    let rotation = match read_rotation(t, at) {
        Err(e) => {
            return Err(e);
        },
        Ok(x) => x,
    };
    let component_type = match attr_string(t, at, "library") {
        Some(x) => x,
        None => String::new(),
    };
    Ok(
        PCBComponent {
            id: name.clone(),
            name,
            component_type,
            footprint,
            position,
            rotation,
            value: attr_string(t, at, "value"),
            properties: None,
        },
    )
}

fn read_elements(t: &Vec<Token>, from: usize) -> (r: Result<Vec<PCBComponent>, ParseFailure>)
    requires
        from <= t.len(),
    ensures
        viewed(r) == elements_from(t.deep_view(), from as int, Seq::empty()),
{
    let mut out: Vec<PCBComponent> = Vec::new();
    assert(out.deep_view() =~= Seq::empty());
    let mut pos: usize = from;
    while is_item(t, pos)
        invariant
            from <= pos <= t.len(),
            elements_from(t.deep_view(), pos as int, out.deep_view()) == elements_from(
                t.deep_view(),
                from as int,
                Seq::empty(),
            ),
        decreases t.len() - pos,
    {
        if is_named(t, pos, "element") {
            match read_element(t, pos) {
                Err(e) => {
                    return Err(e);
                },
                Ok(c) => {
                    let ghost before = out.deep_view();
                    out.push(c);
                    assert(out.deep_view() =~= before.push(c.deep_view()));
                },
            }
        }
        pos = skip_item(t, pos);
    }
    Ok(out)
}

fn read_layer_table(t: &Vec<Token>, from: usize) -> (r: Result<Vec<LayerEntry>, ParseFailure>)
    requires
        from <= t.len(),
    ensures
        viewed(r) == layer_table_from(t.deep_view(), from as int, Seq::empty()),
{
    let mut out: Vec<LayerEntry> = Vec::new();
    assert(out.deep_view() =~= Seq::empty());
    let mut pos: usize = from;
    while is_item(t, pos)
        invariant
            from <= pos <= t.len(),
            layer_table_from(t.deep_view(), pos as int, out.deep_view()) == layer_table_from(
                t.deep_view(),
                from as int,
                Seq::empty(),
            ),
        decreases t.len() - pos,
    {
        if is_named(t, pos, "layer") {
            match (read_attribute(t, pos, "number"), read_attribute(t, pos, "name")) {
                (Some(number), Some(name)) => {
                    let ghost before = out.deep_view();
                    let entry = LayerEntry {
                        number: copy_range(number.as_slice(), 0, number.len()),
                        name: copy_range(name.as_slice(), 0, name.len()),
                    };
                    assert(entry.number@ =~= number@ && entry.name@ =~= name@);
                    out.push(entry);
                    assert(out.deep_view() =~= before.push(entry.deep_view()));
                },
                _ => {
                    return Err(ParseFailure::MissingField);
                },
            }
        }
        pos = skip_item(t, pos);
    }
    Ok(out)
}

fn find_layer_name(table: &Vec<LayerEntry>, number: &[char]) -> (r: String)
    ensures
        r@ == layer_name(table.deep_view(), number@, 0),
{
    let mut i: usize = 0;
    while i < table.len()
        invariant
            i <= table.len(),
            layer_name(table.deep_view(), number@, i as int) == layer_name(
                table.deep_view(),
                number@,
                0,
            ),
        decreases table.len() - i,
    {
        if text_eq(table[i].number.as_slice(), number) {
            return string_from_chars(table[i].name.as_slice());
        }
        i += 1;
    }
    string_from_chars(number)
}

fn list_layer_names(table: &Vec<LayerEntry>) -> (r: Vec<String>)
    ensures
        r.deep_view() == layer_names(table.deep_view(), table.len() as int),
{
    let mut out: Vec<String> = Vec::new();
    let mut i: usize = 0;
    while i < table.len()
        invariant
            i <= table.len(),
            out.deep_view() == layer_names(table.deep_view(), i as int),
        decreases table.len() - i,
    {
        let name = string_from_chars(table[i].name.as_slice());
        out.push(name);
        i += 1;
    }
    out
}

fn read_wire(t: &Vec<Token>, at: usize, net: &String, table: &Vec<LayerEntry>) -> (r: Result<
    PCBTrace,
    ParseFailure,
>)
    requires
        at < t.len(),
    ensures
        viewed(r) == wire_at(t.deep_view(), at as int, net@, table.deep_view()),
{
    let start = match attr_point(t, at, "x1", "y1") {
        Err(e) => {
            return Err(e);
        },
        Ok(x) => x,
    };
    let end = match attr_point(t, at, "x2", "y2") {
        Err(e) => {
            return Err(e);
        },
        Ok(x) => x,
    };
    let width = match attr_number(t, at, "width") {
        Err(e) => {
            return Err(e);
        },
        Ok(x) => x,
    };
    match read_attribute(t, at, "layer") {
        None => Err(ParseFailure::MissingField),
        Some(number) => {
            let mut path: Vec<Position> = Vec::new();
            path.push(start);
            path.push(end);
            assert(path@ =~= seq![start, end]);
            Ok(
                PCBTrace {
                    net_id: net.clone(),
                    path,
                    layer: find_layer_name(table, number.as_slice()),
                    width,
                },
            )
        },
    }
}

fn read_contact(t: &Vec<Token>, at: usize, net: &String) -> (r: Result<PadEntry, ParseFailure>)
    requires
        at < t.len(),
    ensures
        viewed(r) == contact_at(t.deep_view(), at as int, net@),
{
    match attr_required(t, at, "element") {
        Err(e) => Err(e),
        Ok(component_id) => match attr_required(t, at, "pad") {
            Err(e) => Err(e),
            Ok(pin) => Ok(PadEntry { net_id: net.clone(), node: NetNode { component_id, pin } }),
        },
    }
}

fn read_signal_items(
    t: &Vec<Token>,
    from: usize,
    net: &String,
    table: &Vec<LayerEntry>,
    d: &mut BoardDraft,
) -> (r: Result<(), ParseFailure>)
    requires
        from <= t.len(),
    ensures
        match signal_items(
            t.deep_view(),
            from as int,
            net@,
            table.deep_view(),
            old(d).deep_view(),
        ) {
            Ok(next) => r is Ok && final(d).deep_view() == next,
            Err(e) => r matches Err(x) && x == e,
        },
{
    let mut pos: usize = from;
    while is_item(t, pos)
        invariant
            from <= pos <= t.len(),
            signal_items(t.deep_view(), pos as int, net@, table.deep_view(), d.deep_view())
                == signal_items(
                t.deep_view(),
                from as int,
                net@,
                table.deep_view(),
                old(d).deep_view(),
            ),
        decreases t.len() - pos,
    {
        if is_named(t, pos, "contactref") {
            match read_contact(t, pos, net) {
                Err(e) => {
                    return Err(e);
                },
                Ok(pad) => {
                    let ghost before = d.pads.deep_view();
                    d.pads.push(pad);
                    assert(d.pads.deep_view() =~= before.push(pad.deep_view()));
                },
            }
        } else if is_named(t, pos, "wire") {
            match read_wire(t, pos, net, table) {
                Err(e) => {
                    return Err(e);
                },
                Ok(trace) => {
                    let ghost before = d.traces.deep_view();
                    d.traces.push(trace);
                    assert(d.traces.deep_view() =~= before.push(trace.deep_view()));
                },
            }
        }
        pos = skip_item(t, pos);
    }
    Ok(())
}

fn read_signals(t: &Vec<Token>, from: usize, table: &Vec<LayerEntry>, d: &mut BoardDraft) -> (r:
    Result<(), ParseFailure>)
    requires
        from <= t.len(),
    ensures
        match signals_from(t.deep_view(), from as int, table.deep_view(), old(d).deep_view()) {
            Ok(next) => r is Ok && final(d).deep_view() == next,
            Err(e) => r matches Err(x) && x == e,
        },
{
    let mut pos: usize = from;
    while is_item(t, pos)
        invariant
            from <= pos <= t.len(),
            signals_from(t.deep_view(), pos as int, table.deep_view(), d.deep_view())
                == signals_from(
                t.deep_view(),
                from as int,
                table.deep_view(),
                old(d).deep_view(),
            ),
        decreases t.len() - pos,
    {
        if is_named(t, pos, "wire") {
            let orphan = String::new();
            match read_wire(t, pos, &orphan, table) {
                Err(e) => {
                    return Err(e);
                },
                Ok(trace) => {
                    let ghost before = d.traces.deep_view();
                    d.traces.push(trace);
                    assert(d.traces.deep_view() =~= before.push(trace.deep_view()));
                },
            }
        } else if is_named(t, pos, "contactref") {
            let orphan = String::new();
            match read_contact(t, pos, &orphan) {
                Err(e) => {
                    return Err(e);
                },
                Ok(pad) => {
                    let ghost before = d.pads.deep_view();
                    d.pads.push(pad);
                    assert(d.pads.deep_view() =~= before.push(pad.deep_view()));
                },
            }
        } else if is_named(t, pos, "signal") {
            let name = match attr_required(t, pos, "name") {
                Err(e) => {
                    return Err(e);
                },
                Ok(x) => x,
            };
            let ghost before = d.decls.deep_view();
            let decl = NetDecl { id: name.clone(), name: name.clone() };
            d.decls.push(decl);
            assert(d.decls.deep_view() =~= before.push(decl.deep_view()));
            match read_signal_items(t, skip_attributes(t, pos), &name, table, d) {
                Err(e) => {
                    return Err(e);
                },
                Ok(()) => {},
            }
        }
        pos = skip_item(t, pos);
    }
    Ok(())
}

fn find_section(t: &Vec<Token>, at: usize, name: &str) -> (r: usize)
    requires
        at < t.len(),
    ensures
        r == section(t.deep_view(), at as int, name@),
        r <= t.len(),
{
    match seek_named(t, skip_attributes(t, at), name) {
        Some(child) => skip_attributes(t, child),
        None => t.len(),
    }
}

/// Reads the tokens of a board file into a draft.
pub fn read_eagle_tokens(t: &Vec<Token>) -> (r: Result<BoardDraft, ParseFailure>)
    ensures
        viewed(r) == eagle_draft(t.deep_view()),
{
    if !is_named(t, 0, "eagle") {
        return Err(ParseFailure::MalformedHeader);
    }
    if skip_item(t, 0) != t.len() {
        return Err(ParseFailure::UnexpectedToken);
    }
    let drawing = match seek_named(t, skip_attributes(t, 0), "drawing") {
        None => {
            return Err(ParseFailure::MissingField);
        },
        Some(x) => x,
    };
    let board = match seek_named(t, skip_attributes(t, drawing), "board") {
        None => {
            return Err(ParseFailure::MissingField);
        },
        Some(x) => x,
    };
    let table = match read_layer_table(t, find_section(t, drawing, "layers")) {
        Err(e) => {
            return Err(e);
        },
        Ok(x) => x,
    };
    let components = match read_elements(t, find_section(t, board, "elements")) {
        Err(e) => {
            return Err(e);
        },
        Ok(x) => x,
    };
    let mut d = BoardDraft {
        layers: list_layer_names(&table),
        components,
        decls: Vec::new(),
        pads: Vec::new(),
        traces: Vec::new(),
    };
    assert(d.deep_view().decls =~= Seq::empty() && d.deep_view().pads =~= Seq::empty()
        && d.deep_view().traces =~= Seq::empty());
    match read_signals(t, find_section(t, board, "signals"), &table, &mut d) {
        Err(e) => Err(e),
        Ok(()) => Ok(d),
    }
}

/// Reads an Eagle board file.
pub fn load_eagle_brd(file_path: &str, bytes: &[u8]) -> (r: Result<PCBViewerData, DecodeError>)
    ensures
        outcome(r) == eagle_board(file_path@, bytes@),
        r matches Ok(board) ==> board.deep_view().well_formed(),
{
    let text = match decode_text(bytes) {
        None => {
            return Err(
                DecodeError::ParseError { format: Format::Eagle, reason: ParseFailure::InvalidText },
            );
        },
        Some(text) => text,
    };
    let tokens = match tokenize_xml(text.as_slice()) {
        Err(e) => {
            return Err(DecodeError::ParseError { format: Format::Eagle, reason: e });
        },
        Ok(t) => t,
    };
    match read_eagle_tokens(&tokens) {
        Err(e) => Err(DecodeError::ParseError { format: Format::Eagle, reason: e }),
        Ok(d) => finish_board(file_path, d),
    }
}

} // verus!

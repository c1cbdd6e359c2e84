//! KiCad board files.
//!
//! A board file is one S-expression headed by `kicad_pcb`. The decoder reads
//! its `layers` list, its `net` declarations, its footprints (`footprint`,
//! or `module` in older files) with their pads, and its traces: a `segment`
//! runs from its start to its end, an `arc` over its middle point.
//! KiCad writes lengths in millimetres and angles in degrees, which is what
//! the model holds. Its y axis points down the page; the model's points up,
//! so every y is negated.
use crate::error::{outcome, parse_failure, DecodeError, Failure, Format, ParseFailure};
use crate::markup::{
    after_item, ahead, atom_at, atom_value, find_headed, headed, is_headed, is_item, is_kind,
    item_at, list_at, read_atom, seek_headed, skip_item, Token, TokenKind, TokenView,
};
use crate::number::{parse_scalar, scalar_of};
use crate::pcb::{
    board_of, empty_draft, finish_board, BoardDraft, ComponentView, Draft, NetDecl, NetDeclView,
    NetNode, NetNodeView, PCBComponent, PCBTrace, PCBViewerData, PadEntry, PadView, Position,
    TraceView,
};
use crate::scalar::{fits_single, negated, scalar_fits_single, scalar_negate, Scalar};
use crate::sexpr::{sexpr_tokens, tokenize};
use crate::text::{decode_text, string_from_chars, text_is, text_of};
use vstd::prelude::*;

verus! {

/// The number that the atom at `at` spells.
pub open spec fn number_at(t: Seq<TokenView>, at: int) -> Result<Scalar, ParseFailure> {
    match atom_value(t, at) {
        None => Err(ParseFailure::UnexpectedToken),
        Some(a) => match scalar_of(a) {
            None => Err(ParseFailure::InvalidNumber),
            Some(x) => Ok(x),
        },
    }
}

/// The point that the list at `at` gives behind its head, with its y axis
/// turned upwards: `(start 1.5 2)` gives the point (1.5, -2).
pub open spec fn point_at(t: Seq<TokenView>, at: int) -> Result<Position, ParseFailure> {
    match number_at(t, at + 2) {
        Err(e) => Err(e),
        Ok(x) => match number_at(t, at + 3) {
            Err(e) => Err(e),
            Ok(y) => Ok(Position { x, y: negated(y) }),
        },
    }
}

/// An angle, kept where it stays finite as a binary32 value.
pub open spec fn angle_of(found: Result<Scalar, ParseFailure>) -> Result<Scalar, ParseFailure> {
    match found {
        Ok(x) => if fits_single(x) {
            Ok(x)
        } else {
            Err(ParseFailure::OutOfRange)
        },
        Err(e) => Err(e),
    }
}

/// The angle that the list `(at x y angle)` gives: zero where it gives none.
pub open spec fn angle_at(t: Seq<TokenView>, at: int) -> Result<Scalar, ParseFailure> {
    if atom_at(t, at + 4) {
        angle_of(number_at(t, at + 4))
    } else {
        Ok(0)
    }
}

/// The first item from `from` on, among the items of this level, that is a
/// list headed by `head` with the atom `tag` behind the head.
pub open spec fn find_tagged(
    t: Seq<TokenView>,
    from: int,
    head: Seq<char>,
    tag: Seq<char>,
) -> Option<int>
    decreases t.len() - from,
{
    if !item_at(t, from) {
        None
    } else if headed(t, from, head) && atom_value(t, from + 2) == Some(tag) {
        Some(from)
    } else {
        find_tagged(t, after_item(t, from), head, tag)
    }
}

/// The text of a footprint's field: the value of its property named
/// `property`, or else of its `fp_text` of the kind `kind`.
pub open spec fn field_text(
    t: Seq<TokenView>,
    from: int,
    property: Seq<char>,
    kind: Seq<char>,
) -> Option<Seq<char>> {
    match find_tagged(t, from, "property"@, property) {
        Some(p) => atom_value(t, p + 3),
        None => match find_tagged(t, from, "fp_text"@, kind) {
            Some(p) => atom_value(t, p + 3),
            None => None,
        },
    }
}

/// The mounting type of a footprint: the first word of its `attr` list, or
/// the empty text where it has none.
pub open spec fn mounting(t: Seq<TokenView>, from: int) -> Seq<char> {
    match find_headed(t, from, "attr"@) {
        Some(a) => match atom_value(t, a + 2) {
            Some(kind) => kind,
            None => Seq::empty(),
        },
        None => Seq::empty(),
    }
}

/// The component that the footprint at `f` places. Its reference is both
/// its id and its name.
pub open spec fn component_at(t: Seq<TokenView>, f: int) -> Result<ComponentView, ParseFailure> {
    match atom_value(t, f + 2) {
        None => Err(ParseFailure::UnexpectedToken),
        Some(footprint) => match field_text(t, f + 2, "Reference"@, "reference"@) {
            None => Err(ParseFailure::MissingField),
            Some(reference) => match find_headed(t, f + 2, "at"@) {
                None => Err(ParseFailure::MissingField),
                Some(a) => match point_at(t, a) {
                    Err(e) => Err(e),
                    Ok(position) => match angle_at(t, a) {
                        Err(e) => Err(e),
                        Ok(rotation) => Ok(
                            ComponentView {
                                id: reference,
                                name: reference,
                                component_type: mounting(t, f + 2),
                                footprint,
                                position,
                                rotation,
                                value: field_text(t, f + 2, "Value"@, "value"@),
                                properties: None,
                            },
                        ),
                    },
                },
            },
        },
    }
}

/// The node that the pad at `p` adds to a net, if the pad is on a net.
pub open spec fn pad_at(t: Seq<TokenView>, p: int, reference: Seq<char>) -> Result<
    Option<PadView>,
    ParseFailure,
> {
    match atom_value(t, p + 2) {
        None => Err(ParseFailure::UnexpectedToken),
        Some(pin) => match find_headed(t, p + 2, "net"@) {
            None => Ok(None),
            Some(n) => match atom_value(t, n + 2) {
                None => Err(ParseFailure::UnexpectedToken),
                Some(net_id) => Ok(
                    Some(PadView { net_id, node: NetNodeView { component_id: reference, pin } }),
                ),
            },
        },
    }
}

/// The pads so far and those of the pads from `from` on that are on a net.
pub open spec fn pads_from(
    t: Seq<TokenView>,
    from: int,
    reference: Seq<char>,
    pads: Seq<PadView>,
) -> Result<Seq<PadView>, ParseFailure>
    decreases t.len() - from,
{
    if !item_at(t, from) {
        Ok(pads)
    } else if !headed(t, from, "pad"@) {
        pads_from(t, after_item(t, from), reference, pads)
    } else {
        match pad_at(t, from, reference) {
            Err(e) => Err(e),
            Ok(None) => pads_from(t, after_item(t, from), reference, pads),
            Ok(Some(pad)) => pads_from(t, after_item(t, from), reference, pads.push(pad)),
        }
    }
}

/// The text that the list at `at` gives behind its head: `(layer "F.Cu")`.
pub open spec fn text_in(t: Seq<TokenView>, found: Option<int>) -> Result<Seq<char>, ParseFailure> {
    match found {
        None => Err(ParseFailure::MissingField),
        Some(at) => match atom_value(t, at + 2) {
            None => Err(ParseFailure::UnexpectedToken),
            Some(text) => Ok(text),
        },
    }
}

/// The point that a list gives, where the list was found.
pub open spec fn point_in(t: Seq<TokenView>, found: Option<int>) -> Result<Position, ParseFailure> {
    match found {
        None => Err(ParseFailure::MissingField),
        Some(at) => point_at(t, at),
    }
}

/// The number that a list gives behind its head, where the list was found.
pub open spec fn number_in(t: Seq<TokenView>, found: Option<int>) -> Result<Scalar, ParseFailure> {
    match found {
        None => Err(ParseFailure::MissingField),
        Some(at) => number_at(t, at + 2),
    }
}

/// The trace that the segment at `s` routes, from its start to its end.
pub open spec fn trace_at(t: Seq<TokenView>, s: int) -> Result<TraceView, ParseFailure> {
    match point_in(t, find_headed(t, s + 2, "start"@)) {
        Err(e) => Err(e),
        Ok(start) => match point_in(t, find_headed(t, s + 2, "end"@)) {
            Err(e) => Err(e),
            Ok(end) => match number_in(t, find_headed(t, s + 2, "width"@)) {
                Err(e) => Err(e),
                Ok(width) => match text_in(t, find_headed(t, s + 2, "layer"@)) {
                    Err(e) => Err(e),
                    Ok(layer) => match text_in(t, find_headed(t, s + 2, "net"@)) {
                        Err(e) => Err(e),
                        Ok(net_id) => Ok(
                            TraceView { net_id, path: seq![start, end], layer, width },
                        ),
                    },
                },
            },
        },
    }
}

/// The trace that the arc at `s` routes: from its start over its middle
/// point to its end.
pub open spec fn arc_at(t: Seq<TokenView>, s: int) -> Result<TraceView, ParseFailure> {
    match point_in(t, find_headed(t, s + 2, "mid"@)) {
        Err(e) => Err(e),
        Ok(mid) => match trace_at(t, s) {
            Err(e) => Err(e),
            Ok(chord) => Ok(TraceView { path: seq![chord.path[0], mid, chord.path[1]], ..chord }),
        },
    }
}

/// The layer names so far and those that the lists from `from` on declare:
/// `(0 "F.Cu" signal)` declares the layer `F.Cu`.
pub open spec fn layers_from(t: Seq<TokenView>, from: int, layers: Seq<Seq<char>>) -> Result<
    Seq<Seq<char>>,
    ParseFailure,
>
    decreases t.len() - from,
{
    if !item_at(t, from) {
        Ok(layers)
    } else if !(list_at(t, from) && atom_at(t, from + 1) && atom_at(t, from + 2)) {
        Err(ParseFailure::UnexpectedToken)
    } else {
        layers_from(t, after_item(t, from), layers.push(t[from + 2].value))
    }
}

/// The draft with what the item at `at` of the board adds to it.
pub open spec fn board_item(t: Seq<TokenView>, at: int, d: Draft) -> Result<Draft, ParseFailure> {
    if headed(t, at, "layers"@) {
        match layers_from(t, at + 2, d.layers) {
            Err(e) => Err(e),
            Ok(layers) => Ok(Draft { layers, ..d }),
        }
    } else if headed(t, at, "net"@) {
        match (atom_value(t, at + 2), atom_value(t, at + 3)) {
            (Some(id), Some(name)) => Ok(
                Draft { decls: d.decls.push(NetDeclView { id, name }), ..d },
            ),
            _ => Err(ParseFailure::UnexpectedToken),
        }
    } else if headed(t, at, "footprint"@) || headed(t, at, "module"@) {
        match component_at(t, at) {
            Err(e) => Err(e),
            Ok(c) => match pads_from(t, at + 2, c.id, d.pads) {
                Err(e) => Err(e),
                Ok(pads) => Ok(Draft { components: d.components.push(c), pads, ..d }),
            },
        }
    } else if headed(t, at, "segment"@) {
        match trace_at(t, at) {
            Err(e) => Err(e),
            Ok(trace) => Ok(Draft { traces: d.traces.push(trace), ..d }),
        }
    } else if headed(t, at, "arc"@) {
        match arc_at(t, at) {
            Err(e) => Err(e),
            Ok(trace) => Ok(Draft { traces: d.traces.push(trace), ..d }),
        }
    } else {
        Ok(d)
    }
}

/// The draft with what the items from `from` on add to it.
pub open spec fn board_items(t: Seq<TokenView>, from: int, d: Draft) -> Result<Draft, ParseFailure>
    decreases t.len() - from,
{
    if !item_at(t, from) {
        Ok(d)
    } else {
        match board_item(t, from, d) {
            Err(e) => Err(e),
            Ok(next) => board_items(t, after_item(t, from), next),
        }
    }
}

/// What the tokens of a board file hold: one list headed by `kicad_pcb`.
pub open spec fn kicad_draft(t: Seq<TokenView>) -> Result<Draft, ParseFailure> {
    if !headed(t, 0, "kicad_pcb"@) {
        Err(ParseFailure::MalformedHeader)
    } else if after_item(t, 0) != t.len() {
        Err(ParseFailure::UnexpectedToken)
    } else {
        board_items(t, 2, empty_draft())
    }
}

/// What a KiCad text holds.
pub open spec fn kicad_text_draft(text: Seq<char>) -> Result<Draft, ParseFailure> {
    match sexpr_tokens(text) {
        Err(e) => Err(e),
        Ok(t) => kicad_draft(t),
    }
}

/// The board that a KiCad file holds.
pub open spec fn kicad_board(path: Seq<char>, bytes: Seq<u8>) -> Result<crate::pcb::Board, Failure> {
    match text_of(bytes) {
        None => Err(parse_failure(Format::KiCad, ParseFailure::InvalidText)),
        Some(text) => match kicad_text_draft(text) {
            Err(e) => Err(parse_failure(Format::KiCad, e)),
            Ok(d) => board_of(path, d),
        },
    }
}

fn atom_text(t: &Vec<Token>, at: usize, plus: usize) -> (r: Option<String>)
    requires
        at <= t.len(),
    ensures
        r.deep_view() == atom_value(t.deep_view(), at + plus),
{
    match read_atom(t, ahead(t, at, plus)) {
        Some(v) => Some(string_from_chars(v.as_slice())),
        None => None,
    }
}

fn read_number(t: &Vec<Token>, at: usize, plus: usize) -> (r: Result<Scalar, ParseFailure>)
    requires
        at <= t.len(),
    ensures
        r == number_at(t.deep_view(), at + plus),
{
    match read_atom(t, ahead(t, at, plus)) {
        None => Err(ParseFailure::UnexpectedToken),
        Some(a) => match parse_scalar(a.as_slice()) {
            None => Err(ParseFailure::InvalidNumber),
            Some(x) => Ok(x),
        },
    }
}

fn read_point(t: &Vec<Token>, at: usize) -> (r: Result<Position, ParseFailure>)
    requires
        at <= t.len(),
    ensures
        r == point_at(t.deep_view(), at as int),
{
    match read_number(t, at, 2) {
        Err(e) => Err(e),
        Ok(x) => match read_number(t, at, 3) {
            Err(e) => Err(e),
            Ok(y) => Ok(Position { x, y: scalar_negate(y) }),
        },
    }
}

/// Keeps an angle where it stays finite as a binary32 value.
pub fn check_angle(found: Result<Scalar, ParseFailure>) -> (r: Result<Scalar, ParseFailure>)
    ensures
        r == angle_of(found),
{
    match found {
        Ok(x) => if scalar_fits_single(x) {
            Ok(x)
        } else {
            Err(ParseFailure::OutOfRange)
        },
        Err(e) => Err(e),
    }
}

fn read_angle(t: &Vec<Token>, at: usize) -> (r: Result<Scalar, ParseFailure>)
    requires
        at <= t.len(),
    ensures
        r == angle_at(t.deep_view(), at as int),
{
    if is_kind(t, ahead(t, at, 4), TokenKind::Atom) {
        check_angle(read_number(t, at, 4))
    } else {
        Ok(0)
    }
}

fn seek_tagged(t: &Vec<Token>, from: usize, head: &str, tag: &str) -> (r: Option<usize>)
    requires
        from <= t.len(),
    ensures
        match find_tagged(t.deep_view(), from as int, head@, tag@) {
            Some(at) => r == Some(at as usize) && from <= at < t.len(),
            None => r is None,
        },
{
    let mut pos: usize = from;
    while is_item(t, pos)
        invariant
            from <= pos <= t.len(),
            find_tagged(t.deep_view(), pos as int, head@, tag@) == find_tagged(
                t.deep_view(),
                from as int,
                head@,
                tag@,
            ),
        decreases t.len() - pos,
    {
        if is_headed(t, pos, head) {
            match read_atom(t, ahead(t, pos, 2)) {
                Some(a) => {
                    if text_is(a.as_slice(), tag) {
                        return Some(pos);
                    }
                },
                None => {},
            }
        }
        pos = skip_item(t, pos);
    }
    None
}

fn read_field(t: &Vec<Token>, from: usize, property: &str, kind: &str) -> (r: Option<String>)
    requires
        from <= t.len(),
    ensures
        r.deep_view() == field_text(t.deep_view(), from as int, property@, kind@),
{
    match seek_tagged(t, from, "property", property) {
        Some(p) => atom_text(t, p, 3),
        None => match seek_tagged(t, from, "fp_text", kind) {
            Some(p) => atom_text(t, p, 3),
            None => None,
        },
    }
}

fn read_mounting(t: &Vec<Token>, from: usize) -> (r: String)
    requires
        from <= t.len(),
    ensures
        r@ == mounting(t.deep_view(), from as int),
{
    match seek_headed(t, from, "attr") {
        Some(a) => match atom_text(t, a, 2) {
            Some(kind) => kind,
            None => String::new(),
        },
        None => String::new(),
    }
}

fn read_component(t: &Vec<Token>, f: usize) -> (r: Result<PCBComponent, ParseFailure>)
    requires
        f < t.len(),
    ensures
        crate::error::viewed(r) == component_at(t.deep_view(), f as int),
{
    let from = ahead(t, f, 2);
    let footprint = match atom_text(t, f, 2) {
        None => {
            return Err(ParseFailure::UnexpectedToken);
        },
        Some(x) => x,
    };
    let reference = match read_field(t, from, "Reference", "reference") {
        None => {
            return Err(ParseFailure::MissingField);
        },
        Some(x) => x,
    };
    let a = match seek_headed(t, from, "at") {
        None => {
            return Err(ParseFailure::MissingField);
        },
        Some(a) => a,
    };
    let position = match read_point(t, a) {
        Err(e) => {
            return Err(e);
        },
        Ok(p) => p,
    };
    let rotation = match read_angle(t, a) {
        Err(e) => {
            return Err(e);
        },
        Ok(x) => x,
    };
    Ok(
        PCBComponent {
            id: reference.clone(),
            name: reference,
            component_type: read_mounting(t, from),
            footprint,
            position,
            rotation,
            value: read_field(t, from, "Value", "value"),
            properties: None,
        },
    )
}

fn read_pad(t: &Vec<Token>, p: usize, reference: &String) -> (r: Result<
    Option<PadEntry>,
    ParseFailure,
>)
    requires
        p < t.len(),
    ensures
        crate::error::viewed(r) == pad_at(t.deep_view(), p as int, reference@),
{
    let pin = match atom_text(t, p, 2) {
        None => {
            return Err(ParseFailure::UnexpectedToken);
        },
        Some(x) => x,
    };
    match seek_headed(t, ahead(t, p, 2), "net") {
        None => Ok(None),
        Some(n) => match atom_text(t, n, 2) {
            None => Err(ParseFailure::UnexpectedToken),
            Some(net_id) => Ok(
                Some(PadEntry { net_id, node: NetNode { component_id: reference.clone(), pin } }),
            ),
        },
    }
}

fn read_pads(t: &Vec<Token>, from: usize, reference: &String, pads: &mut Vec<PadEntry>) -> (r:
    Result<(), ParseFailure>)
    requires
        from <= t.len(),
    ensures
        match pads_from(t.deep_view(), from as int, reference@, old(pads).deep_view()) {
            Ok(all) => r is Ok && final(pads).deep_view() == all,
            Err(e) => r matches Err(x) && x == e,
        },
{
    let mut pos: usize = from;
    while is_item(t, pos)
        invariant
            from <= pos <= t.len(),
            pads_from(t.deep_view(), pos as int, reference@, pads.deep_view()) == pads_from(
                t.deep_view(),
                from as int,
                reference@,
                old(pads).deep_view(),
            ),
        decreases t.len() - pos,
    {
        if is_headed(t, pos, "pad") {
            match read_pad(t, pos, reference) {
                Err(e) => {
                    return Err(e);
                },
                Ok(None) => {},
                Ok(Some(pad)) => {
                    let ghost before = pads.deep_view();
                    pads.push(pad);
                    assert(pads.deep_view() =~= before.push(pad.deep_view()));
                },
            }
        }
        pos = skip_item(t, pos);
    }
    Ok(())
}

fn text_of_found(t: &Vec<Token>, found: Option<usize>) -> (r: Result<String, ParseFailure>)
    requires
        found matches Some(at) ==> at < t.len(),
    ensures
        crate::error::viewed(r) == text_in(
            t.deep_view(),
            match found {
                Some(at) => Some(at as int),
                None => None,
            },
        ),
{
    match found {
        None => Err(ParseFailure::MissingField),
        Some(at) => match atom_text(t, at, 2) {
            None => Err(ParseFailure::UnexpectedToken),
            Some(text) => Ok(text),
        },
    }
}

fn point_of_found(t: &Vec<Token>, found: Option<usize>) -> (r: Result<Position, ParseFailure>)
    requires
        found matches Some(at) ==> at < t.len(),
    ensures
        r == point_in(
            t.deep_view(),
            match found {
                Some(at) => Some(at as int),
                None => None,
            },
        ),
{
    match found {
        None => Err(ParseFailure::MissingField),
        Some(at) => read_point(t, at),
    }
}

fn number_of_found(t: &Vec<Token>, found: Option<usize>) -> (r: Result<Scalar, ParseFailure>)
    requires
        found matches Some(at) ==> at < t.len(),
    ensures
        r == number_in(
            t.deep_view(),
            match found {
                Some(at) => Some(at as int),
                None => None,
            },
        ),
{
    match found {
        None => Err(ParseFailure::MissingField),
        Some(at) => read_number(t, at, 2),
    }
}

/// The place of a list, as an integer.
pub open spec fn place(found: Option<usize>) -> Option<int> {
    match found {
        Some(at) => Some(at as int),
        None => None,
    }
}

fn read_trace(t: &Vec<Token>, s: usize) -> (r: Result<PCBTrace, ParseFailure>)
    requires
        s < t.len(),
    ensures
        crate::error::viewed(r) == trace_at(t.deep_view(), s as int),
        r matches Ok(trace) ==> trace.path.len() == 2,
{
    let from = ahead(t, s, 2);
    let found_start = seek_headed(t, from, "start");
    let start = match point_of_found(t, found_start) {
        Err(e) => {
            return Err(e);
        },
        Ok(p) => p,
    };
    let found_end = seek_headed(t, from, "end");
    let end = match point_of_found(t, found_end) {
        Err(e) => {
            return Err(e);
        },
        Ok(p) => p,
    };
    let found_width = seek_headed(t, from, "width");
    let width = match number_of_found(t, found_width) {
        Err(e) => {
            return Err(e);
        },
        Ok(x) => x,
    };
    let found_layer = seek_headed(t, from, "layer");
    let layer = match text_of_found(t, found_layer) {
        Err(e) => {
            return Err(e);
        },
        Ok(x) => x,
    };
    let found_net = seek_headed(t, from, "net");
    let net_id = match text_of_found(t, found_net) {
        Err(e) => {
            return Err(e);
        },
        Ok(x) => x,
    };
    let mut path: Vec<Position> = Vec::new();
    path.push(start);
    path.push(end);
    assert(path@ =~= seq![start, end]);
    Ok(PCBTrace { net_id, path, layer, width })
}

fn read_arc(t: &Vec<Token>, s: usize) -> (r: Result<PCBTrace, ParseFailure>)
    requires
        s < t.len(),
    ensures
        crate::error::viewed(r) == arc_at(t.deep_view(), s as int),
{
    let found_mid = seek_headed(t, ahead(t, s, 2), "mid");
    let mid = match point_of_found(t, found_mid) {
        Err(e) => {
            return Err(e);
        },
        Ok(p) => p,
    };
    match read_trace(t, s) {
        Err(e) => Err(e),
        Ok(chord) => {
            let mut path: Vec<Position> = Vec::new();
            path.push(chord.path[0]);
            path.push(mid);
            path.push(chord.path[1]);
            assert(path@ =~= seq![chord.path@[0], mid, chord.path@[1]]);
            Ok(PCBTrace { net_id: chord.net_id, path, layer: chord.layer, width: chord.width })
        },
    }
}

fn read_layers(t: &Vec<Token>, from: usize, layers: &mut Vec<String>) -> (r: Result<
    (),
    ParseFailure,
>)
    requires
        from <= t.len(),
    ensures
        match layers_from(t.deep_view(), from as int, old(layers).deep_view()) {
            Ok(all) => r is Ok && final(layers).deep_view() == all,
            Err(e) => r matches Err(x) && x == e,
        },
{
    let mut pos: usize = from;
    while is_item(t, pos)
        invariant
            from <= pos <= t.len(),
            layers_from(t.deep_view(), pos as int, layers.deep_view()) == layers_from(
                t.deep_view(),
                from as int,
                old(layers).deep_view(),
            ),
        decreases t.len() - pos,
    {
        if !(is_kind(t, pos, TokenKind::Open) && is_kind(t, ahead(t, pos, 1), TokenKind::Atom)) {
            return Err(ParseFailure::UnexpectedToken);
        }
        match atom_text(t, pos, 2) {
            None => {
                return Err(ParseFailure::UnexpectedToken);
            },
            Some(name) => {
                let ghost before = layers.deep_view();
                layers.push(name);
                assert(layers.deep_view() =~= before.push(name@));
            },
        }
        pos = skip_item(t, pos);
    }
    Ok(())
}

fn apply_item(t: &Vec<Token>, at: usize, d: &mut BoardDraft) -> (r: Result<(), ParseFailure>)
    requires
        at < t.len(),
    ensures
        match board_item(t.deep_view(), at as int, old(d).deep_view()) {
            Ok(next) => r is Ok && final(d).deep_view() == next,
            Err(e) => r matches Err(x) && x == e,
        },
{
    if is_headed(t, at, "layers") {
        read_layers(t, ahead(t, at, 2), &mut d.layers)
    } else if is_headed(t, at, "net") {
        match (atom_text(t, at, 2), atom_text(t, at, 3)) {
            (Some(id), Some(name)) => {
                let ghost before = d.decls.deep_view();
                let decl = NetDecl { id, name };
                d.decls.push(decl);
                assert(d.decls.deep_view() =~= before.push(decl.deep_view()));
                Ok(())
            },
            _ => Err(ParseFailure::UnexpectedToken),
        }
    } else if is_headed(t, at, "footprint") || is_headed(t, at, "module") {
        match read_component(t, at) {
            Err(e) => Err(e),
            Ok(c) => {
                match read_pads(t, ahead(t, at, 2), &c.id, &mut d.pads) {
                    Err(e) => Err(e),
                    Ok(()) => {
                        let ghost before = d.components.deep_view();
                        d.components.push(c);
                        assert(d.components.deep_view() =~= before.push(c.deep_view()));
                        Ok(())
                    },
                }
            },
        }
    } else if is_headed(t, at, "segment") {
        match read_trace(t, at) {
            Err(e) => Err(e),
            Ok(trace) => {
                let ghost before = d.traces.deep_view();
                d.traces.push(trace);
                assert(d.traces.deep_view() =~= before.push(trace.deep_view()));
                Ok(())
            },
        }
    } else if is_headed(t, at, "arc") {
        match read_arc(t, at) {
            Err(e) => Err(e),
            Ok(trace) => {
                let ghost before = d.traces.deep_view();
                d.traces.push(trace);
                assert(d.traces.deep_view() =~= before.push(trace.deep_view()));
                Ok(())
            },
        }
    } else {
        Ok(())
    }
}

/// Reads the tokens of a board file into a draft.
pub fn read_kicad_tokens(t: &Vec<Token>) -> (r: Result<BoardDraft, ParseFailure>)
    ensures
        crate::error::viewed(r) == kicad_draft(t.deep_view()),
{
    if !is_headed(t, 0, "kicad_pcb") {
        return Err(ParseFailure::MalformedHeader);
    }
    if skip_item(t, 0) != t.len() {
        return Err(ParseFailure::UnexpectedToken);
    }
    let mut d = BoardDraft {
        layers: Vec::new(),
        components: Vec::new(),
        decls: Vec::new(),
        pads: Vec::new(),
        traces: Vec::new(),
    };
    assert(d.deep_view().layers =~= Seq::empty() && d.deep_view().components =~= Seq::empty()
        && d.deep_view().decls =~= Seq::empty() && d.deep_view().pads =~= Seq::empty()
        && d.deep_view().traces =~= Seq::empty());
    let mut pos: usize = 2;
    while is_item(t, pos)
        invariant
            2 <= pos <= t.len(),
            kicad_draft(t.deep_view()) == board_items(t.deep_view(), 2, empty_draft()),
            board_items(t.deep_view(), pos as int, d.deep_view()) == board_items(
                t.deep_view(),
                2,
                empty_draft(),
            ),
        decreases t.len() - pos,
    {
        match apply_item(t, pos, &mut d) {
            Err(e) => {
                return Err(e);
            },
            Ok(()) => {},
        }
        pos = skip_item(t, pos);
    }
    Ok(d)
}

/// Reads a KiCad board file.
pub fn load_kicad_pcb(file_path: &str, bytes: &[u8]) -> (r: Result<PCBViewerData, DecodeError>)
    ensures
        outcome(r) == kicad_board(file_path@, bytes@),
        r matches Ok(board) ==> board.deep_view().well_formed(),
{
    let text = match decode_text(bytes) {
        None => {
            return Err(
                DecodeError::ParseError { format: Format::KiCad, reason: ParseFailure::InvalidText },
            );
        },
        Some(text) => text,
    };
    let tokens = match tokenize(text.as_slice()) {
        Err(e) => {
            return Err(DecodeError::ParseError { format: Format::KiCad, reason: e });
        },
        Ok(t) => t,
    };
    match read_kicad_tokens(&tokens) {
        Err(e) => Err(DecodeError::ParseError { format: Format::KiCad, reason: e }),
        Ok(d) => finish_board(file_path, d),
    }
}

} // verus!

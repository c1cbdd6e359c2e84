//! Hardware data and document metadata in JSON documents.
//!
//! A document is a JSON object. Its members `title`, `author`, `version`,
//! `revision`, `pages`, `manufacturer`, `part_number`, `description` and
//! `tags` give the metadata; its members `registers`, `timing_constraints`,
//! `pinouts`, `electrical_specs` and `configurations` are arrays of objects
//! whose members are named like the fields of the model, and `summary` is a
//! string. A category whose member is absent is absent from the result.
use crate::error::{viewed, ParseFailure};
use crate::hardware::{
    bit_range_fits, limits_fit, Configuration, ConfigurationView, DocumentMetadata, ElectricalSpec,
    ElectricalSpecView, EnumValue, EnumValueView, Extract, ExtractedData, Metadata, Pinout,
    PinoutView, RegisterField, RegisterFieldView, RegisterMap, RegisterMapView, TimingConstraint,
    TimingConstraintView,
};
use crate::json::{
    json_document, json_items, json_member, json_real, json_string, json_unsigned, parse_json,
    value_copy, value_items, value_member, value_real, value_string, value_unsigned,
};
use crate::number::{finite_scalar, scalar_of_value};
use crate::scalar::{scalar_le, Scalar};
use serde_json::Value;
use vstd::prelude::*;

verus! {

/// The string under a key; `None` where the member is absent or no string.
pub open spec fn member_text(v: Value, key: Seq<char>) -> Option<Seq<char>> {
    match json_member(v, key) {
        Some(m) => json_string(m),
        None => None,
    }
}

/// A 32-bit number that a value holds.
pub open spec fn small_unsigned(v: Value) -> Option<u32> {
    match json_unsigned(v) {
        Some(n) if n <= u32::MAX => Some(n as u32),
        _ => None,
    }
}

/// The 32-bit number under a key; `None` where the member is absent, no
/// non-negative integer, or too large.
pub open spec fn member_u32(v: Value, key: Seq<char>) -> Option<u32> {
    match json_member(v, key) {
        Some(m) => small_unsigned(m),
        None => None,
    }
}

/// The finite real number under a key; `None` where the member is absent or no number.
pub open spec fn member_real(v: Value, key: Seq<char>) -> Option<Scalar> {
    match json_member(v, key) {
        Some(m) => scalar_of_value(json_real(m)),
        None => None,
    }
}

/// The elements of the array under a key; `None` where the member is absent or no array.
pub open spec fn member_items(v: Value, key: Seq<char>) -> Option<Seq<Value>> {
    match json_member(v, key) {
        Some(m) => json_items(m),
        None => None,
    }
}

/// The results of `f` on the first `n` items, or the first failure among them.
pub open spec fn try_map<T>(
    items: Seq<Value>,
    f: spec_fn(Value) -> Result<T, ParseFailure>,
    n: int,
) -> Result<Seq<T>, ParseFailure>
    decreases n,
{
    if n <= 0 {
        Ok(Seq::empty())
    } else {
        match try_map(items, f, n - 1) {
            Err(e) => Err(e),
            Ok(before) => match f(items[n - 1]) {
                Err(e) => Err(e),
                Ok(x) => Ok(before.push(x)),
            },
        }
    }
}

/// The list under a key, each item read by `f`: absent where the member is
/// absent or no array, a failure where an item fails.
pub open spec fn member_list<T>(
    v: Value,
    key: Seq<char>,
    f: spec_fn(Value) -> Result<T, ParseFailure>,
) -> Result<Option<Seq<T>>, ParseFailure> {
    match member_items(v, key) {
        None => Ok(None),
        Some(items) => match try_map(items, f, items.len() as int) {
            Err(e) => Err(e),
            Ok(list) => Ok(Some(list)),
        },
    }
}

/// A failure among the first items is the failure of the whole list.
pub proof fn lemma_try_map_fails<T>(
    items: Seq<Value>,
    f: spec_fn(Value) -> Result<T, ParseFailure>,
    have: int,
    want: int,
)
    requires
        0 <= have <= want,
        try_map(items, f, have) is Err,
    ensures
        try_map(items, f, want) == try_map(items, f, have),
    decreases want - have,
{
    if have < want {
        lemma_try_map_fails(items, f, have, want - 1);
    }
}

/// The value of a register field that a JSON object describes.
pub open spec fn enum_value_of(e: Value) -> Result<EnumValueView, ParseFailure> {
    match (member_text(e, "value"@), member_text(e, "description"@)) {
        (Some(value), Some(description)) => Ok(EnumValueView { value, description }),
        _ => Err(ParseFailure::MissingField),
    }
}

/// The bit range that an array of one or two numbers gives.
pub open spec fn bit_range_of(items: Seq<Value>) -> Option<Seq<u32>> {
    if items.len() == 1 {
        match small_unsigned(items[0]) {
            Some(bit) => Some(seq![bit]),
            None => None,
        }
    } else if items.len() == 2 {
        match (small_unsigned(items[0]), small_unsigned(items[1])) {
            (Some(low), Some(high)) => Some(seq![low, high]),
            _ => None,
        }
    } else {
        None
    }
}

/// The field of a register of `bit_width` bits that a JSON object describes.
pub open spec fn field_of(e: Value, bit_width: u32) -> Result<RegisterFieldView, ParseFailure> {
    match (member_text(e, "name"@), member_items(e, "bit_range"@), member_text(e, "description"@)) {
        (Some(name), Some(range_items), Some(description)) => match bit_range_of(range_items) {
            None => Err(ParseFailure::MissingField),
            Some(bit_range) => if !bit_range_fits(bit_range, bit_width) {
                Err(ParseFailure::OutOfRange)
            } else {
                match member_list(e, "enum_values"@, |v: Value| enum_value_of(v)) {
                    Err(x) => Err(x),
                    Ok(enum_values) => Ok(
                        RegisterFieldView { name, bit_range, description, enum_values },
                    ),
                }
            },
        },
        _ => Err(ParseFailure::MissingField),
    }
}

/// The register that a JSON object describes. Its `name`, `address`,
/// `description`, `bit_width` and `access` are required.
pub open spec fn register_of(e: Value) -> Result<RegisterMapView, ParseFailure> {
    match (
        member_text(e, "name"@),
        member_text(e, "address"@),
        member_text(e, "description"@),
        member_u32(e, "bit_width"@),
        member_text(e, "access"@),
    ) {
        (Some(name), Some(address), Some(description), Some(bit_width), Some(access)) => match member_list(
            e,
            "fields"@,
            |v: Value| field_of(v, bit_width),
        ) {
            Err(x) => Err(x),
            Ok(fields) => Ok(
                RegisterMapView {
                    name,
                    address,
                    description,
                    bit_width,
                    access,
                    fields,
                    reset_value: member_text(e, "reset_value"@),
                },
            ),
        },
        _ => Err(ParseFailure::MissingField),
    }
}

/// The timing constraint that a JSON object describes.
pub open spec fn timing_of(e: Value) -> Result<TimingConstraintView, ParseFailure> {
    match (member_text(e, "name"@), member_text(e, "parameter"@), member_text(e, "unit"@)) {
        (Some(name), Some(parameter), Some(unit)) => {
            let min = member_real(e, "min"@);
            let typ = member_real(e, "typ"@);
            let max = member_real(e, "max"@);
            if !limits_fit(min, typ, max) {
                Err(ParseFailure::OutOfRange)
            } else {
                Ok(
                    TimingConstraintView {
                        name,
                        parameter,
                        min,
                        typ,
                        max,
                        unit,
                        condition: member_text(e, "condition"@),
                    },
                )
            }
        },
        _ => Err(ParseFailure::MissingField),
    }
}

/// The electrical specification that a JSON object describes.
pub open spec fn electrical_of(e: Value) -> Result<ElectricalSpecView, ParseFailure> {
    match (member_text(e, "parameter"@), member_text(e, "unit"@)) {
        (Some(parameter), Some(unit)) => {
            let min = member_real(e, "min"@);
            let typ = member_real(e, "typ"@);
            let max = member_real(e, "max"@);
            if !limits_fit(min, typ, max) {
                Err(ParseFailure::OutOfRange)
            } else {
                Ok(
                    ElectricalSpecView {
                        parameter,
                        min,
                        typ,
                        max,
                        unit,
                        condition: member_text(e, "condition"@),
                    },
                )
            }
        },
        _ => Err(ParseFailure::MissingField),
    }
}

/// The pin that a JSON object describes.
pub open spec fn pinout_of(e: Value) -> Result<PinoutView, ParseFailure> {
    match (member_text(e, "pin_number"@), member_text(e, "name"@), member_text(e, "pin_type"@)) {
        (Some(pin_number), Some(name), Some(pin_type)) => Ok(
            PinoutView {
                pin_number,
                name,
                pin_type,
                description: member_text(e, "description"@),
                function: member_text(e, "function"@),
            },
        ),
        _ => Err(ParseFailure::MissingField),
    }
}

/// The configuration that a JSON object describes.
pub open spec fn configuration_of(e: Value) -> Result<ConfigurationView, ParseFailure> {
    match (member_text(e, "name"@), member_text(e, "description"@), json_member(e, "settings"@)) {
        (Some(name), Some(description), Some(settings)) => Ok(
            ConfigurationView { name, description, settings },
        ),
        _ => Err(ParseFailure::MissingField),
    }
}

/// The hardware data that a JSON document holds.
pub open spec fn data_of(doc: Value) -> Result<Extract, ParseFailure> {
    match member_list(doc, "registers"@, |v: Value| register_of(v)) {
        Err(x) => Err(x),
        Ok(register_maps) => match member_list(doc, "timing_constraints"@, |v: Value| timing_of(v)) {
            Err(x) => Err(x),
            Ok(timing_constraints) => match member_list(doc, "pinouts"@, |v: Value| pinout_of(v)) {
                Err(x) => Err(x),
                Ok(pinouts) => match member_list(
                    doc,
                    "electrical_specs"@,
                    |v: Value| electrical_of(v),
                ) {
                    Err(x) => Err(x),
                    Ok(electrical_specs) => match member_list(
                        doc,
                        "configurations"@,
                        |v: Value| configuration_of(v),
                    ) {
                        Err(x) => Err(x),
                        Ok(configurations) => Ok(
                            Extract {
                                register_maps,
                                timing_constraints,
                                pinouts,
                                electrical_specs,
                                configurations,
                                summary: member_text(doc, "summary"@),
                            },
                        ),
                    },
                },
            },
        },
    }
}

/// The strings among the first `n` items, in order.
pub open spec fn strings_among(items: Seq<Value>, n: int) -> Seq<Seq<char>>
    decreases n,
{
    if n <= 0 {
        Seq::empty()
    } else {
        match json_string(items[n - 1]) {
            Some(s) => strings_among(items, n - 1).push(s),
            None => strings_among(items, n - 1),
        }
    }
}

/// The tags of a document: the strings of its `tags` array.
pub open spec fn tags_of(doc: Value) -> Seq<Seq<char>> {
    match member_items(doc, "tags"@) {
        Some(items) => strings_among(items, items.len() as int),
        None => Seq::empty(),
    }
}

/// The metadata that a JSON document states.
pub open spec fn metadata_of(doc: Value) -> Metadata {
    Metadata {
        title: member_text(doc, "title"@),
        author: member_text(doc, "author"@),
        version: member_text(doc, "version"@),
        revision: member_text(doc, "revision"@),
        pages: member_u32(doc, "pages"@),
        manufacturer: member_text(doc, "manufacturer"@),
        part_number: member_text(doc, "part_number"@),
        description: member_text(doc, "description"@),
        tags: tags_of(doc),
    }
}

/// The hardware data of a JSON text.
pub open spec fn json_data(bytes: Seq<u8>) -> Result<Extract, ParseFailure> {
    match json_document(bytes) {
        None => Err(ParseFailure::InvalidSyntax),
        Some(doc) => data_of(doc),
    }
}

/// The metadata of a JSON text.
pub open spec fn json_metadata(bytes: Seq<u8>) -> Result<Metadata, ParseFailure> {
    match json_document(bytes) {
        None => Err(ParseFailure::InvalidSyntax),
        Some(doc) => Ok(metadata_of(doc)),
    }
}

fn text_member(v: &Value, key: &str) -> (r: Option<String>)
    ensures
        r.deep_view() == member_text(*v, key@),
{
    match value_member(v, key) {
        None => None,
        Some(m) => match value_string(m) {
            None => None,
            Some(s) => Some(s.to_owned()),
        },
    }
}

fn small_number(v: &Value) -> (r: Option<u32>)
    ensures
        r == small_unsigned(*v),
{
    match value_unsigned(v) {
        Some(n) => if n <= 0xffff_ffff {
            Some(n as u32)
        } else {
            None
        },
        None => None,
    }
}

fn u32_member(v: &Value, key: &str) -> (r: Option<u32>)
    ensures
        r == member_u32(*v, key@),
{
    match value_member(v, key) {
        None => None,
        Some(m) => small_number(m),
    }
}

fn real_member(v: &Value, key: &str) -> (r: Option<Scalar>)
    ensures
        r == member_real(*v, key@),
{
    match value_member(v, key) {
        None => None,
        Some(m) => finite_scalar(value_real(m)),
    }
}

fn items_member<'a>(v: &'a Value, key: &str) -> (r: Option<&'a Vec<Value>>)
    ensures
        match member_items(*v, key@) {
            Some(items) => r matches Some(found) && found@ == items,
            None => r is None,
        },
{
    match value_member(v, key) {
        None => None,
        Some(m) => value_items(m),
    }
}

/// Whether limits make a constraint.
pub fn check_limits(min: Option<Scalar>, typ: Option<Scalar>, max: Option<Scalar>) -> (r: bool)
    ensures
        r == limits_fit(min, typ, max),
{
    if min.is_none() && typ.is_none() && max.is_none() {
        return false;
    }
    let finite = (match min {
        Some(x) => crate::scalar::scalar_is_finite(x),
        None => true,
    }) && (match typ {
        Some(x) => crate::scalar::scalar_is_finite(x),
        None => true,
    }) && (match max {
        Some(x) => crate::scalar::scalar_is_finite(x),
        None => true,
    });
    if !finite {
        return false;
    }
    match (min, max) {
        (Some(lo), Some(hi)) => scalar_le(lo, hi),
        _ => true,
    }
}

/// Whether a bit range lies inside a register of `bit_width` bits.
pub fn check_bit_range(bit_range: &[u32], bit_width: u32) -> (r: bool)
    ensures
        r == bit_range_fits(bit_range@, bit_width),
{
    if bit_range.len() == 1 {
        bit_range[0] < bit_width
    } else if bit_range.len() == 2 {
        bit_range[0] <= bit_range[1] && bit_range[1] < bit_width
    } else {
        false
    }
}

fn enum_value_from(e: &Value) -> (r: Result<EnumValue, ParseFailure>)
    ensures
        viewed(r) == enum_value_of(*e),
{
    match (text_member(e, "value"), text_member(e, "description")) {
        (Some(value), Some(description)) => Ok(EnumValue { value, description }),
        _ => Err(ParseFailure::MissingField),
    }
}

fn enum_value_list(items: &Vec<Value>) -> (r: Result<Vec<EnumValue>, ParseFailure>)
    ensures
        viewed(r) == try_map(items@, |v: Value| enum_value_of(v), items@.len() as int),
{
    let ghost f = |v: Value| enum_value_of(v);
    let mut out: Vec<EnumValue> = Vec::new();
    let mut i: usize = 0;
    assert(out.deep_view() =~= Seq::empty());
    while i < items.len()
        invariant
            i <= items.len(),
            f == (|v: Value| enum_value_of(v)),
            try_map(items@, f, i as int) == Ok::<_, ParseFailure>(out.deep_view()),
        decreases items.len() - i,
    {
        let ghost before = out.deep_view();
        match enum_value_from(&items[i]) {
            Err(x) => {
                proof {
                    lemma_try_map_fails(items@, f, i + 1, items@.len() as int);
                }
                return Err(x);
            },
            Ok(item) => {
                out.push(item);
                assert(out.deep_view() =~= before.push(item.deep_view()));
            },
        }
        i += 1;
    }
    Ok(out)
}

fn enum_values_from(e: &Value) -> (r: Result<Option<Vec<EnumValue>>, ParseFailure>)
    ensures
        viewed(r) == member_list(*e, "enum_values"@, |v: Value| enum_value_of(v)),
{
    match items_member(e, "enum_values") {
        None => Ok(None),
        Some(items) => match enum_value_list(items) {
            Err(x) => Err(x),
            Ok(list) => Ok(Some(list)),
        },
    }
}

fn bit_range_from(items: &Vec<Value>) -> (r: Option<Vec<u32>>)
    ensures
        match bit_range_of(items@) {
            Some(range) => r matches Some(found) && found@ == range,
            None => r is None,
        },
{
    if items.len() == 1 {
        match small_number(&items[0]) {
            Some(bit) => {
                let mut out: Vec<u32> = Vec::new();
                out.push(bit);
                Some(out)
            },
            None => None,
        }
    } else if items.len() == 2 {
        match (small_number(&items[0]), small_number(&items[1])) {
            (Some(low), Some(high)) => {
                let mut out: Vec<u32> = Vec::new();
                out.push(low);
                out.push(high);
                Some(out)
            },
            _ => None,
        }
    } else {
        None
    }
}

fn field_from(e: &Value, bit_width: u32) -> (r: Result<RegisterField, ParseFailure>)
    ensures
        viewed(r) == field_of(*e, bit_width),
{
    match (text_member(e, "name"), items_member(e, "bit_range"), text_member(e, "description")) {
        (Some(name), Some(range_items), Some(description)) => match bit_range_from(range_items) {
            None => Err(ParseFailure::MissingField),
            Some(bit_range) => {
                if !check_bit_range(bit_range.as_slice(), bit_width) {
                    return Err(ParseFailure::OutOfRange);
                }
                match enum_values_from(e) {
                    Err(x) => Err(x),
                    Ok(enum_values) => Ok(
                        RegisterField { name, bit_range, description, enum_values },
                    ),
                }
            },
        },
        _ => Err(ParseFailure::MissingField),
    }
}

fn field_list(items: &Vec<Value>, bit_width: u32) -> (r: Result<Vec<RegisterField>, ParseFailure>)
    ensures
        viewed(r) == try_map(items@, |v: Value| field_of(v, bit_width), items@.len() as int),
{
    let ghost f = |v: Value| field_of(v, bit_width);
    let mut out: Vec<RegisterField> = Vec::new();
    let mut i: usize = 0;
    assert(out.deep_view() =~= Seq::empty());
    while i < items.len()
        invariant
            i <= items.len(),
            f == (|v: Value| field_of(v, bit_width)),
            try_map(items@, f, i as int) == Ok::<_, ParseFailure>(out.deep_view()),
        decreases items.len() - i,
    {
        let ghost before = out.deep_view();
        match field_from(&items[i], bit_width) {
            Err(x) => {
                proof {
                    lemma_try_map_fails(items@, f, i + 1, items@.len() as int);
                }
                return Err(x);
            },
            Ok(item) => {
                out.push(item);
                assert(out.deep_view() =~= before.push(item.deep_view()));
            },
        }
        i += 1;
    }
    Ok(out)
}

fn fields_from(e: &Value, bit_width: u32) -> (r: Result<Option<Vec<RegisterField>>, ParseFailure>)
    ensures
        viewed(r) == member_list(*e, "fields"@, |v: Value| field_of(v, bit_width)),
{
    match items_member(e, "fields") {
        None => Ok(None),
        Some(items) => match field_list(items, bit_width) {
            Err(x) => Err(x),
            Ok(list) => Ok(Some(list)),
        },
    }
}

fn register_from(e: &Value) -> (r: Result<RegisterMap, ParseFailure>)
    ensures
        viewed(r) == register_of(*e),
{
    match (
        text_member(e, "name"),
        text_member(e, "address"),
        text_member(e, "description"),
        u32_member(e, "bit_width"),
        text_member(e, "access"),
    ) {
        (Some(name), Some(address), Some(description), Some(bit_width), Some(access)) => match fields_from(
            e,
            bit_width,
        ) {
            Err(x) => Err(x),
            Ok(fields) => Ok(
                RegisterMap {
                    name,
                    address,
                    description,
                    bit_width,
                    access,
                    fields,
                    reset_value: text_member(e, "reset_value"),
                },
            ),
        },
        _ => Err(ParseFailure::MissingField),
    }
}

fn timing_from(e: &Value) -> (r: Result<TimingConstraint, ParseFailure>)
    ensures
        viewed(r) == timing_of(*e),
{
    match (text_member(e, "name"), text_member(e, "parameter"), text_member(e, "unit")) {
        (Some(name), Some(parameter), Some(unit)) => {
            let min = real_member(e, "min");
            let typ = real_member(e, "typ");
            let max = real_member(e, "max");
            if !check_limits(min, typ, max) {
                return Err(ParseFailure::OutOfRange);
            }
            Ok(
                TimingConstraint {
                    name,
                    parameter,
                    min,
                    typ,
                    max,
                    unit,
                    condition: text_member(e, "condition"),
                },
            )
        },
        _ => Err(ParseFailure::MissingField),
    }
}

fn electrical_from(e: &Value) -> (r: Result<ElectricalSpec, ParseFailure>)
    ensures
        viewed(r) == electrical_of(*e),
{
    match (text_member(e, "parameter"), text_member(e, "unit")) {
        (Some(parameter), Some(unit)) => {
            let min = real_member(e, "min");
            let typ = real_member(e, "typ");
            let max = real_member(e, "max");
            if !check_limits(min, typ, max) {
                return Err(ParseFailure::OutOfRange);
            }
            Ok(
                ElectricalSpec {
                    parameter,
                    min,
                    typ,
                    max,
                    unit,
                    condition: text_member(e, "condition"),
                },
            )
        },
        _ => Err(ParseFailure::MissingField),
    }
}

fn pinout_from(e: &Value) -> (r: Result<Pinout, ParseFailure>)
    ensures
        viewed(r) == pinout_of(*e),
{
    match (text_member(e, "pin_number"), text_member(e, "name"), text_member(e, "pin_type")) {
        (Some(pin_number), Some(name), Some(pin_type)) => Ok(
            Pinout {
                pin_number,
                name,
                pin_type,
                description: text_member(e, "description"),
                function: text_member(e, "function"),
            },
        ),
        _ => Err(ParseFailure::MissingField),
    }
}

fn configuration_from(e: &Value) -> (r: Result<Configuration, ParseFailure>)
    ensures
        viewed(r) == configuration_of(*e),
{
    match (text_member(e, "name"), text_member(e, "description"), value_member(e, "settings")) {
        (Some(name), Some(description), Some(settings)) => Ok(
            Configuration { name, description, settings: value_copy(settings) },
        ),
        _ => Err(ParseFailure::MissingField),
    }
}

fn register_list(items: &Vec<Value>) -> (r: Result<Vec<RegisterMap>, ParseFailure>)
    ensures
        viewed(r) == try_map(items@, |v: Value| register_of(v), items@.len() as int),
{
    let ghost f = |v: Value| register_of(v);
    let mut out: Vec<RegisterMap> = Vec::new();
    let mut i: usize = 0;
    assert(out.deep_view() =~= Seq::empty());
    while i < items.len()
        invariant
            i <= items.len(),
            f == (|v: Value| register_of(v)),
            try_map(items@, f, i as int) == Ok::<_, ParseFailure>(out.deep_view()),
        decreases items.len() - i,
    {
        let ghost before = out.deep_view();
        match register_from(&items[i]) {
            Err(x) => {
                proof {
                    lemma_try_map_fails(items@, f, i + 1, items@.len() as int);
                }
                return Err(x);
            },
            Ok(item) => {
                out.push(item);
                assert(out.deep_view() =~= before.push(item.deep_view()));
            },
        }
        i += 1;
    }
    Ok(out)
}

fn registers_from(e: &Value) -> (r: Result<Option<Vec<RegisterMap>>, ParseFailure>)
    ensures
        viewed(r) == member_list(*e, "registers"@, |v: Value| register_of(v)),
{
    match items_member(e, "registers") {
        None => Ok(None),
        Some(items) => match register_list(items) {
            Err(x) => Err(x),
            Ok(list) => Ok(Some(list)),
        },
    }
}

fn timing_list(items: &Vec<Value>) -> (r: Result<Vec<TimingConstraint>, ParseFailure>)
    ensures
        viewed(r) == try_map(items@, |v: Value| timing_of(v), items@.len() as int),
{
    let ghost f = |v: Value| timing_of(v);
    let mut out: Vec<TimingConstraint> = Vec::new();
    let mut i: usize = 0;
    assert(out.deep_view() =~= Seq::empty());
    while i < items.len()
        invariant
            i <= items.len(),
            f == (|v: Value| timing_of(v)),
            try_map(items@, f, i as int) == Ok::<_, ParseFailure>(out.deep_view()),
        decreases items.len() - i,
    {
        let ghost before = out.deep_view();
        match timing_from(&items[i]) {
            Err(x) => {
                proof {
                    lemma_try_map_fails(items@, f, i + 1, items@.len() as int);
                }
                return Err(x);
            },
            Ok(item) => {
                out.push(item);
                assert(out.deep_view() =~= before.push(item.deep_view()));
            },
        }
        i += 1;
    }
    Ok(out)
}

fn timings_from(e: &Value) -> (r: Result<Option<Vec<TimingConstraint>>, ParseFailure>)
    ensures
        viewed(r) == member_list(*e, "timing_constraints"@, |v: Value| timing_of(v)),
{
    match items_member(e, "timing_constraints") {
        None => Ok(None),
        Some(items) => match timing_list(items) {
            Err(x) => Err(x),
            Ok(list) => Ok(Some(list)),
        },
    }
}

fn pinout_list(items: &Vec<Value>) -> (r: Result<Vec<Pinout>, ParseFailure>)
    ensures
        viewed(r) == try_map(items@, |v: Value| pinout_of(v), items@.len() as int),
{
    let ghost f = |v: Value| pinout_of(v);
    let mut out: Vec<Pinout> = Vec::new();
    let mut i: usize = 0;
    assert(out.deep_view() =~= Seq::empty());
    while i < items.len()
        invariant
            i <= items.len(),
            f == (|v: Value| pinout_of(v)),
            try_map(items@, f, i as int) == Ok::<_, ParseFailure>(out.deep_view()),
        decreases items.len() - i,
    {
        let ghost before = out.deep_view();
        match pinout_from(&items[i]) {
            Err(x) => {
                proof {
                    lemma_try_map_fails(items@, f, i + 1, items@.len() as int);
                }
                return Err(x);
            },
            Ok(item) => {
                out.push(item);
                assert(out.deep_view() =~= before.push(item.deep_view()));
            },
        }
        i += 1;
    }
    Ok(out)
}

fn pinouts_from(e: &Value) -> (r: Result<Option<Vec<Pinout>>, ParseFailure>)
    ensures
        viewed(r) == member_list(*e, "pinouts"@, |v: Value| pinout_of(v)),
{
    match items_member(e, "pinouts") {
        None => Ok(None),
        Some(items) => match pinout_list(items) {
            Err(x) => Err(x),
            Ok(list) => Ok(Some(list)),
        },
    }
}

fn electrical_list(items: &Vec<Value>) -> (r: Result<Vec<ElectricalSpec>, ParseFailure>)
    ensures
        viewed(r) == try_map(items@, |v: Value| electrical_of(v), items@.len() as int),
{
    let ghost f = |v: Value| electrical_of(v);
    let mut out: Vec<ElectricalSpec> = Vec::new();
    let mut i: usize = 0;
    assert(out.deep_view() =~= Seq::empty());
    while i < items.len()
        invariant
            i <= items.len(),
            f == (|v: Value| electrical_of(v)),
            try_map(items@, f, i as int) == Ok::<_, ParseFailure>(out.deep_view()),
        decreases items.len() - i,
    {
        let ghost before = out.deep_view();
        match electrical_from(&items[i]) {
            Err(x) => {
                proof {
                    lemma_try_map_fails(items@, f, i + 1, items@.len() as int);
                }
                return Err(x);
            },
            Ok(item) => {
                out.push(item);
                assert(out.deep_view() =~= before.push(item.deep_view()));
            },
        }
        i += 1;
    }
    Ok(out)
}

fn electricals_from(e: &Value) -> (r: Result<Option<Vec<ElectricalSpec>>, ParseFailure>)
    ensures
        viewed(r) == member_list(*e, "electrical_specs"@, |v: Value| electrical_of(v)),
{
    match items_member(e, "electrical_specs") {
        None => Ok(None),
        Some(items) => match electrical_list(items) {
            Err(x) => Err(x),
            Ok(list) => Ok(Some(list)),
        },
    }
}

fn configuration_list(items: &Vec<Value>) -> (r: Result<Vec<Configuration>, ParseFailure>)
    ensures
        viewed(r) == try_map(items@, |v: Value| configuration_of(v), items@.len() as int),
{
    let ghost f = |v: Value| configuration_of(v);
    let mut out: Vec<Configuration> = Vec::new();
    let mut i: usize = 0;
    assert(out.deep_view() =~= Seq::empty());
    while i < items.len()
        invariant
            i <= items.len(),
            f == (|v: Value| configuration_of(v)),
            try_map(items@, f, i as int) == Ok::<_, ParseFailure>(out.deep_view()),
        decreases items.len() - i,
    {
        let ghost before = out.deep_view();
        match configuration_from(&items[i]) {
            Err(x) => {
                proof {
                    lemma_try_map_fails(items@, f, i + 1, items@.len() as int);
                }
                return Err(x);
            },
            Ok(item) => {
                out.push(item);
                assert(out.deep_view() =~= before.push(item.deep_view()));
            },
        }
        i += 1;
    }
    Ok(out)
}

fn configurations_from(e: &Value) -> (r: Result<Option<Vec<Configuration>>, ParseFailure>)
    ensures
        viewed(r) == member_list(*e, "configurations"@, |v: Value| configuration_of(v)),
{
    match items_member(e, "configurations") {
        None => Ok(None),
        Some(items) => match configuration_list(items) {
            Err(x) => Err(x),
            Ok(list) => Ok(Some(list)),
        },
    }
}

/// The hardware data that a parsed JSON document holds.
pub fn extract_from_json(doc: &Value) -> (r: Result<ExtractedData, ParseFailure>)
    ensures
        viewed(r) == data_of(*doc),
{
    let register_maps = match registers_from(doc) {
        Err(x) => {
            return Err(x);
        },
        Ok(list) => list,
    };
    let timing_constraints = match timings_from(doc) {
        Err(x) => {
            return Err(x);
        },
        Ok(list) => list,
    };
    let pinouts = match pinouts_from(doc) {
        Err(x) => {
            return Err(x);
        },
        Ok(list) => list,
    };
    let electrical_specs = match electricals_from(doc) {
        Err(x) => {
            return Err(x);
        },
        Ok(list) => list,
    };
    let configurations = match configurations_from(doc) {
        Err(x) => {
            return Err(x);
        },
        Ok(list) => list,
    };
    Ok(
        ExtractedData {
            register_maps,
            timing_constraints,
            pinouts,
            electrical_specs,
            configurations,
            summary: text_member(doc, "summary"),
        },
    )
}

fn tags_from(doc: &Value) -> (r: Vec<String>)
    ensures
        r.deep_view() == tags_of(*doc),
{
    let mut out: Vec<String> = Vec::new();
    match items_member(doc, "tags") {
        None => out,
        Some(items) => {
            let mut i: usize = 0;
            while i < items.len()
                invariant
                    i <= items.len(),
                    out.deep_view() == strings_among(items@, i as int),
                decreases items.len() - i,
            {
                match value_string(&items[i]) {
                    Some(s) => {
                        out.push(s.to_owned());
                    },
                    None => {},
                }
                i += 1;
            }
            out
        },
    }
}

/// The metadata that a parsed JSON document states.
pub fn metadata_from_json(doc: &Value) -> (r: DocumentMetadata)
    ensures
        r.deep_view() == metadata_of(*doc),
{
    DocumentMetadata {
        title: text_member(doc, "title"),
        author: text_member(doc, "author"),
        version: text_member(doc, "version"),
        revision: text_member(doc, "revision"),
        pages: u32_member(doc, "pages"),
        manufacturer: text_member(doc, "manufacturer"),
        part_number: text_member(doc, "part_number"),
        description: text_member(doc, "description"),
        tags: tags_from(doc),
    }
}

/// Reads the hardware data of a JSON text.
pub fn decode_json_data(bytes: &[u8]) -> (r: Result<ExtractedData, ParseFailure>)
    ensures
        viewed(r) == json_data(bytes@),
{
    match parse_json(bytes) {
        None => Err(ParseFailure::InvalidSyntax),
        Some(doc) => extract_from_json(&doc),
    }
}

/// Reads the metadata of a JSON text.
pub fn decode_json_metadata(bytes: &[u8]) -> (r: Result<DocumentMetadata, ParseFailure>)
    ensures
        viewed(r) == json_metadata(bytes@),
{
    match parse_json(bytes) {
        None => Err(ParseFailure::InvalidSyntax),
        Some(doc) => Ok(metadata_from_json(&doc)),
    }
}

/// Where `f` gives only values with the property `p`, every item of a list
/// that `f` read has the property.
pub proof fn lemma_try_map_keeps<T>(
    items: Seq<Value>,
    f: spec_fn(Value) -> Result<T, ParseFailure>,
    n: int,
    p: spec_fn(T) -> bool,
)
    requires
        forall|v: Value| (#[trigger] f(v)) matches Ok(x) ==> p(x),
    ensures
        try_map(items, f, n) matches Ok(list) ==> forall|i: int|
            0 <= i < list.len() ==> p(#[trigger] list[i]),
    decreases n,
{
    if n > 0 {
        lemma_try_map_keeps(items, f, n - 1, p);
    }
}

/// The bits of every field of a register that was read lie inside the register.
pub proof fn lemma_register_is_well_formed(e: Value)
    ensures
        register_of(e) matches Ok(r) ==> r.well_formed(),
{
    if let Some(bit_width) = member_u32(e, "bit_width"@) {
        if let Some(items) = member_items(e, "fields"@) {
            let f = |v: Value| field_of(v, bit_width);
            let p = |x: RegisterFieldView| bit_range_fits(x.bit_range, bit_width);
            assert forall|v: Value| (#[trigger] f(v)) is Ok implies p(f(v)->Ok_0) by {}
            lemma_try_map_keeps(items, f, items.len() as int, p);
        }
    }
}

/// The data that a JSON document holds meets the invariants of the model:
/// field bits lie inside their register, and every constraint states a
/// limit and no minimum above its maximum.
pub proof fn lemma_json_data_is_well_formed(doc: Value)
    ensures
        data_of(doc) matches Ok(d) ==> d.well_formed(),
{
    if let Some(items) = member_items(doc, "registers"@) {
        let f = |v: Value| register_of(v);
        let p = |x: RegisterMapView| x.well_formed();
        assert forall|v: Value| (#[trigger] f(v)) is Ok implies p(f(v)->Ok_0) by {
            lemma_register_is_well_formed(v);
        }
        lemma_try_map_keeps(items, f, items.len() as int, p);
    }
    if let Some(items) = member_items(doc, "timing_constraints"@) {
        let f = |v: Value| timing_of(v);
        let p = |x: TimingConstraintView| limits_fit(x.min, x.typ, x.max);
        assert forall|v: Value| (#[trigger] f(v)) is Ok implies p(f(v)->Ok_0) by {}
        lemma_try_map_keeps(items, f, items.len() as int, p);
    }
    if let Some(items) = member_items(doc, "electrical_specs"@) {
        let f = |v: Value| electrical_of(v);
        let p = |x: ElectricalSpecView| limits_fit(x.min, x.typ, x.max);
        assert forall|v: Value| (#[trigger] f(v)) is Ok implies p(f(v)->Ok_0) by {}
        lemma_try_map_keeps(items, f, items.len() as int, p);
    }
}

} // verus!

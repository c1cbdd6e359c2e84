//! Hardware data and document metadata in XML documents.
//!
//! The children `title`, `author`, `version`, `revision`, `pages`,
//! `manufacturer`, `part_number` and `description` of the root give the
//! metadata as their character data, and the `tag` children of `tags` the
//! tags. The children `registers`, `timing_constraints`, `pinouts` and
//! `electrical_specs` list `register`, `constraint`, `pin` and `spec`
//! elements whose attributes are named like the fields of the model; a
//! `register` holds its fields as `field` elements with the attributes
//! `name`, `description`, `low` and, unless the field is one bit, `high`.
use crate::error::{viewed, ParseFailure};
use crate::hardware::{
    bit_range_fits, limits_fit, DocumentMetadata, ElectricalSpec, ElectricalSpecView, Extract,
    ExtractedData, Metadata, Pinout, PinoutView, RegisterField, RegisterFieldView, RegisterMap,
    RegisterMapView, TimingConstraint, TimingConstraintView,
};
use crate::json_document::{check_bit_range, check_limits};
use crate::markup::{
    after_item, attribute, content_start, find_named, is_item, is_kind, is_named, item_at, named,
    read_attribute, seek_named, skip_attributes, skip_item, Token, TokenKind, TokenView,
};
use crate::number::{parse_scalar, scalar_of};
use crate::scalar::Scalar;
use crate::text::{decode_text, parse_unsigned, string_from_chars, text_of, unsigned_of};
use crate::xml::{tokenize_xml, xml_tokens};
use vstd::prelude::*;

verus! {

/// Whether the tokens are one element and nothing else.
pub open spec fn single_root(t: Seq<TokenView>) -> bool {
    t.len() > 0 && t[0].kind == TokenKind::Open && after_item(t, 0) == t.len()
}

/// The character data with which the element at `at` begins.
pub open spec fn leading_text(t: Seq<TokenView>, at: int) -> Option<Seq<char>> {
    let k = content_start(t, at);
    if 0 <= k < t.len() && t[k].kind == TokenKind::Text {
        Some(t[k].value)
    } else {
        None
    }
}

/// The character data of the first child `name` of the element at `at`.
pub open spec fn child_text(t: Seq<TokenView>, at: int, name: Seq<char>) -> Option<Seq<char>> {
    match find_named(t, content_start(t, at), name) {
        Some(c) => leading_text(t, c),
        None => None,
    }
}

/// A 32-bit number that a text spells.
pub open spec fn small(text: Option<Seq<char>>) -> Option<u32> {
    match text {
        Some(s) => match unsigned_of(s) {
            Some(n) if n <= u32::MAX => Some(n as u32),
            _ => None,
        },
        None => None,
    }
}

/// The tags so far and the character data of the `tag` items from `from` on.
pub open spec fn tags_from(t: Seq<TokenView>, from: int, tags: Seq<Seq<char>>) -> Seq<Seq<char>>
    decreases t.len() - from,
{
    if !item_at(t, from) {
        tags
    } else if !named(t, from, "tag"@) {
        tags_from(t, after_item(t, from), tags)
    } else {
        match leading_text(t, from) {
            Some(text) => tags_from(t, after_item(t, from), tags.push(text)),
            None => tags_from(t, after_item(t, from), tags),
        }
    }
}

/// The tags of the document.
pub open spec fn document_tags(t: Seq<TokenView>) -> Seq<Seq<char>> {
    match find_named(t, content_start(t, 0), "tags"@) {
        Some(c) => tags_from(t, content_start(t, c), Seq::empty()),
        None => Seq::empty(),
    }
}

/// The metadata that the tokens of a document state.
pub open spec fn token_metadata(t: Seq<TokenView>) -> Result<Metadata, ParseFailure> {
    if !single_root(t) {
        Err(ParseFailure::InvalidSyntax)
    } else {
        Ok(
            Metadata {
                title: child_text(t, 0, "title"@),
                author: child_text(t, 0, "author"@),
                version: child_text(t, 0, "version"@),
                revision: child_text(t, 0, "revision"@),
                pages: small(child_text(t, 0, "pages"@)),
                manufacturer: child_text(t, 0, "manufacturer"@),
                part_number: child_text(t, 0, "part_number"@),
                description: child_text(t, 0, "description"@),
                tags: document_tags(t),
            },
        )
    }
}

/// The value of a required attribute.
pub open spec fn required(t: Seq<TokenView>, at: int, name: Seq<char>) -> Result<
    Seq<char>,
    ParseFailure,
> {
    match attribute(t, at, name) {
        Some(v) => Ok(v),
        None => Err(ParseFailure::MissingField),
    }
}

/// The 32-bit number of a required attribute.
pub open spec fn required_number(t: Seq<TokenView>, at: int, name: Seq<char>) -> Result<
    u32,
    ParseFailure,
> {
    match attribute(t, at, name) {
        None => Err(ParseFailure::MissingField),
        Some(v) => match small(Some(v)) {
            Some(n) => Ok(n),
            None => Err(ParseFailure::InvalidNumber),
        },
    }
}

/// The real number of an attribute: absent where the attribute is.
pub open spec fn optional_real(t: Seq<TokenView>, at: int, name: Seq<char>) -> Result<
    Option<Scalar>,
    ParseFailure,
> {
    match attribute(t, at, name) {
        None => Ok(None),
        Some(v) => match scalar_of(v) {
            Some(x) => Ok(Some(x)),
            None => Err(ParseFailure::InvalidNumber),
        },
    }
}

/// The limits that the attributes `min`, `typ` and `max` state.
pub open spec fn limits_at(t: Seq<TokenView>, at: int) -> Result<
    (Option<Scalar>, Option<Scalar>, Option<Scalar>),
    ParseFailure,
> {
    match optional_real(t, at, "min"@) {
        Err(e) => Err(e),
        Ok(min) => match optional_real(t, at, "typ"@) {
            Err(e) => Err(e),
            Ok(typ) => match optional_real(t, at, "max"@) {
                Err(e) => Err(e),
                Ok(max) => if limits_fit(min, typ, max) {
                    Ok((min, typ, max))
                } else {
                    Err(ParseFailure::OutOfRange)
                },
            },
        },
    }
}

/// The bit range that the attributes `low` and `high` state.
pub open spec fn bit_range_at(t: Seq<TokenView>, at: int) -> Result<Seq<u32>, ParseFailure> {
    match required_number(t, at, "low"@) {
        Err(e) => Err(e),
        Ok(low) => match attribute(t, at, "high"@) {
            None => Ok(seq![low]),
            Some(v) => match small(Some(v)) {
                Some(high) => Ok(seq![low, high]),
                None => Err(ParseFailure::InvalidNumber),
            },
        },
    }
}

/// The field that the `field` element at `at` describes, in a register of
/// `bit_width` bits.
pub open spec fn field_at(t: Seq<TokenView>, at: int, bit_width: u32) -> Result<
    RegisterFieldView,
    ParseFailure,
> {
    match required(t, at, "name"@) {
        Err(e) => Err(e),
        Ok(name) => match required(t, at, "description"@) {
            Err(e) => Err(e),
            Ok(description) => match bit_range_at(t, at) {
                Err(e) => Err(e),
                Ok(bit_range) => if bit_range_fits(bit_range, bit_width) {
                    Ok(RegisterFieldView { name, bit_range, description, enum_values: None })
                } else {
                    Err(ParseFailure::OutOfRange)
                },
            },
        },
    }
}

/// The fields so far and those of the `field` items from `from` on.
pub open spec fn fields_from(
    t: Seq<TokenView>,
    from: int,
    bit_width: u32,
    fields: Seq<RegisterFieldView>,
) -> Result<Seq<RegisterFieldView>, ParseFailure>
    decreases t.len() - from,
{
    if !item_at(t, from) {
        Ok(fields)
    } else if !named(t, from, "field"@) {
        fields_from(t, after_item(t, from), bit_width, fields)
    } else {
        match field_at(t, from, bit_width) {
            Err(e) => Err(e),
            Ok(f) => fields_from(t, after_item(t, from), bit_width, fields.push(f)),
        }
    }
}

/// The list, or nothing where the list is empty.
pub open spec fn unless_none<T>(list: Seq<T>) -> Option<Seq<T>> {
    if list.len() == 0 {
        None
    } else {
        Some(list)
    }
}

/// The register that the `register` element at `at` describes.
pub open spec fn register_at(t: Seq<TokenView>, at: int) -> Result<RegisterMapView, ParseFailure> {
    match required(t, at, "name"@) {
        Err(e) => Err(e),
        Ok(name) => match required(t, at, "address"@) {
            Err(e) => Err(e),
            Ok(address) => match required(t, at, "description"@) {
                Err(e) => Err(e),
                Ok(description) => match required_number(t, at, "bit_width"@) {
                    Err(e) => Err(e),
                    Ok(bit_width) => match required(t, at, "access"@) {
                        Err(e) => Err(e),
                        Ok(access) => match fields_from(
                            t,
                            content_start(t, at),
                            bit_width,
                            Seq::empty(),
                        ) {
                            Err(e) => Err(e),
                            Ok(fields) => Ok(
                                RegisterMapView {
                                    name,
                                    address,
                                    description,
                                    bit_width,
                                    access,
                                    fields: unless_none(fields),
                                    reset_value: attribute(t, at, "reset_value"@),
                                },
                            ),
                        },
                    },
                },
            },
        },
    }
}

/// The timing constraint that the `constraint` element at `at` describes.
pub open spec fn constraint_at(t: Seq<TokenView>, at: int) -> Result<
    TimingConstraintView,
    ParseFailure,
> {
    match required(t, at, "name"@) {
        Err(e) => Err(e),
        Ok(name) => match required(t, at, "parameter"@) {
            Err(e) => Err(e),
            Ok(parameter) => match required(t, at, "unit"@) {
                Err(e) => Err(e),
                Ok(unit) => match limits_at(t, at) {
                    Err(e) => Err(e),
                    Ok(limits) => Ok(
                        TimingConstraintView {
                            name,
                            parameter,
                            min: limits.0,
                            typ: limits.1,
                            max: limits.2,
                            unit,
                            condition: attribute(t, at, "condition"@),
                        },
                    ),
                },
            },
        },
    }
}

/// The electrical specification that the `spec` element at `at` describes.
pub open spec fn spec_at(t: Seq<TokenView>, at: int) -> Result<ElectricalSpecView, ParseFailure> {
    match required(t, at, "parameter"@) {
        Err(e) => Err(e),
        Ok(parameter) => match required(t, at, "unit"@) {
            Err(e) => Err(e),
            Ok(unit) => match limits_at(t, at) {
                Err(e) => Err(e),
                Ok(limits) => Ok(
                    ElectricalSpecView {
                        parameter,
                        min: limits.0,
                        typ: limits.1,
                        max: limits.2,
                        unit,
                        condition: attribute(t, at, "condition"@),
                    },
                ),
            },
        },
    }
}

/// The pin that the `pin` element at `at` describes.
pub open spec fn pin_at(t: Seq<TokenView>, at: int) -> Result<PinoutView, ParseFailure> {
    match required(t, at, "pin_number"@) {
        Err(e) => Err(e),
        Ok(pin_number) => match required(t, at, "name"@) {
            Err(e) => Err(e),
            Ok(name) => match required(t, at, "pin_type"@) {
                Err(e) => Err(e),
                Ok(pin_type) => Ok(
                    PinoutView {
                        pin_number,
                        name,
                        pin_type,
                        description: attribute(t, at, "description"@),
                        function: attribute(t, at, "function"@),
                    },
                ),
            },
        },
    }
}

/// The entries so far and those of the items named `name` from `from` on,
/// each read by `f` at its place.
pub open spec fn entries_from<T>(
    t: Seq<TokenView>,
    from: int,
    name: Seq<char>,
    f: spec_fn(int) -> Result<T, ParseFailure>,
    entries: Seq<T>,
) -> Result<Seq<T>, ParseFailure>
    decreases t.len() - from,
{
    if !item_at(t, from) {
        Ok(entries)
    } else if !named(t, from, name) {
        entries_from(t, after_item(t, from), name, f, entries)
    } else {
        match f(from) {
            Err(e) => Err(e),
            Ok(entry) => entries_from(t, after_item(t, from), name, f, entries.push(entry)),
        }
    }
}

/// The entries of the child `list` of the root: absent where the root has
/// no such child.
pub open spec fn category<T>(
    t: Seq<TokenView>,
    list: Seq<char>,
    name: Seq<char>,
    f: spec_fn(int) -> Result<T, ParseFailure>,
) -> Result<Option<Seq<T>>, ParseFailure> {
    match find_named(t, content_start(t, 0), list) {
        None => Ok(None),
        Some(c) => listed(entries_from(t, content_start(t, c), name, f, Seq::empty())),
    }
}

/// A list that was read, as a category that is present.
pub open spec fn listed<T>(entries: Result<Seq<T>, ParseFailure>) -> Result<
    Option<Seq<T>>,
    ParseFailure,
> {
    match entries {
        Err(e) => Err(e),
        Ok(list) => Ok(Some(list)),
    }
}

/// The hardware data that the tokens of a document hold.
pub open spec fn token_data(t: Seq<TokenView>) -> Result<Extract, ParseFailure> {
    if !single_root(t) {
        Err(ParseFailure::InvalidSyntax)
    } else {
        match category(t, "registers"@, "register"@, |at: int| register_at(t, at)) {
            Err(e) => Err(e),
            Ok(register_maps) => match category(
                t,
                "timing_constraints"@,
                "constraint"@,
                |at: int| constraint_at(t, at),
            ) {
                Err(e) => Err(e),
                Ok(timing_constraints) => match category(
                    t,
                    "pinouts"@,
                    "pin"@,
                    |at: int| pin_at(t, at),
                ) {
                    Err(e) => Err(e),
                    Ok(pinouts) => match category(
                        t,
                        "electrical_specs"@,
                        "spec"@,
                        |at: int| spec_at(t, at),
                    ) {
                        Err(e) => Err(e),
                        Ok(electrical_specs) => Ok(
                            Extract {
                                register_maps,
                                timing_constraints,
                                pinouts,
                                electrical_specs,
                                configurations: None,
                                summary: child_text(t, 0, "summary"@),
                            },
                        ),
                    },
                },
            },
        }
    }
}

/// The tokens of an XML file.
pub open spec fn file_tokens(bytes: Seq<u8>) -> Result<Seq<TokenView>, ParseFailure> {
    match text_of(bytes) {
        None => Err(ParseFailure::InvalidText),
        Some(text) => xml_tokens(text),
    }
}

/// The metadata of an XML file.
pub open spec fn xml_metadata(bytes: Seq<u8>) -> Result<Metadata, ParseFailure> {
    match file_tokens(bytes) {
        Err(e) => Err(e),
        Ok(t) => token_metadata(t),
    }
}

/// The hardware data of an XML file.
pub open spec fn xml_data(bytes: Seq<u8>) -> Result<Extract, ParseFailure> {
    match file_tokens(bytes) {
        Err(e) => Err(e),
        Ok(t) => token_data(t),
    }
}

fn has_single_root(t: &Vec<Token>) -> (r: bool)
    ensures
        r == single_root(t.deep_view()),
{
    t.len() > 0 && is_kind(t, 0, TokenKind::Open) && skip_item(t, 0) == t.len()
}

fn read_leading_text(t: &Vec<Token>, at: usize) -> (r: Option<String>)
    requires
        at < t.len(),
    ensures
        r.deep_view() == leading_text(t.deep_view(), at as int),
{
    let k = skip_attributes(t, at);
    if is_kind(t, k, TokenKind::Text) {
        Some(string_from_chars(t[k].value.as_slice()))
    } else {
        None
    }
}

fn read_child_text(t: &Vec<Token>, at: usize, name: &str) -> (r: Option<String>)
    requires
        at < t.len(),
    ensures
        r.deep_view() == child_text(t.deep_view(), at as int, name@),
{
    match seek_named(t, skip_attributes(t, at), name) {
        Some(c) => read_leading_text(t, c),
        None => None,
    }
}

fn read_child_number(t: &Vec<Token>, at: usize, name: &str) -> (r: Option<u32>)
    requires
        at < t.len(),
    ensures
        r == small(child_text(t.deep_view(), at as int, name@)),
{
    match seek_named(t, skip_attributes(t, at), name) {
        None => None,
        Some(c) => {
            let k = skip_attributes(t, c);
            if is_kind(t, k, TokenKind::Text) {
                to_small(t[k].value.as_slice())
            } else {
                None
            }
        },
    }
}

fn to_small(text: &[char]) -> (r: Option<u32>)
    ensures
        r == small(Some(text@)),
{
    match parse_unsigned(text) {
        Some(n) => if n <= 0xffff_ffff {
            Some(n as u32)
        } else {
            None
        },
        None => None,
    }
}

fn read_tags(t: &Vec<Token>) -> (r: Vec<String>)
    requires
        t.len() > 0,
    ensures
        r.deep_view() == document_tags(t.deep_view()),
{
    let mut out: Vec<String> = Vec::new();
    assert(out.deep_view() =~= Seq::empty());
    let from = match seek_named(t, skip_attributes(t, 0), "tags") {
        None => {
            return out;
        },
        Some(c) => skip_attributes(t, c),
    };
    let mut pos: usize = from;
    while is_item(t, pos)
        invariant
            from <= pos <= t.len(),
            tags_from(t.deep_view(), pos as int, out.deep_view()) == tags_from(
                t.deep_view(),
                from as int,
                Seq::empty(),
            ),
        decreases t.len() - pos,
    {
        if is_named(t, pos, "tag") {
            match read_leading_text(t, pos) {
                Some(text) => {
                    let ghost before = out.deep_view();
                    out.push(text);
                    assert(out.deep_view() =~= before.push(text@));
                },
                None => {},
            }
        }
        pos = skip_item(t, pos);
    }
    out
}

/// The metadata that the tokens of a document state.
pub fn read_token_metadata(t: &Vec<Token>) -> (r: Result<DocumentMetadata, ParseFailure>)
    ensures
        viewed(r) == token_metadata(t.deep_view()),
{
    if !has_single_root(t) {
        return Err(ParseFailure::InvalidSyntax);
    }
    Ok(
        DocumentMetadata {
            title: read_child_text(t, 0, "title"),
            author: read_child_text(t, 0, "author"),
            version: read_child_text(t, 0, "version"),
            revision: read_child_text(t, 0, "revision"),
            pages: read_child_number(t, 0, "pages"),
            manufacturer: read_child_text(t, 0, "manufacturer"),
            part_number: read_child_text(t, 0, "part_number"),
            description: read_child_text(t, 0, "description"),
            tags: read_tags(t),
        },
    )
}

fn attr_string(t: &Vec<Token>, at: usize, name: &str) -> (r: Option<String>)
    requires
        at < t.len(),
    ensures
        r.deep_view() == attribute(t.deep_view(), at as int, name@),
{
    match read_attribute(t, at, name) {
        Some(v) => Some(string_from_chars(v.as_slice())),
        None => None,
    }
}

fn read_required(t: &Vec<Token>, at: usize, name: &str) -> (r: Result<String, ParseFailure>)
    requires
        at < t.len(),
    ensures
        viewed(r) == required(t.deep_view(), at as int, name@),
{
    match attr_string(t, at, name) {
        Some(v) => Ok(v),
        None => Err(ParseFailure::MissingField),
    }
}

fn read_required_number(t: &Vec<Token>, at: usize, name: &str) -> (r: Result<u32, ParseFailure>)
    requires
        at < t.len(),
    ensures
        r == required_number(t.deep_view(), at as int, name@),
{
    match read_attribute(t, at, name) {
        None => Err(ParseFailure::MissingField),
        Some(v) => match to_small(v.as_slice()) {
            Some(n) => Ok(n),
            None => Err(ParseFailure::InvalidNumber),
        },
    }
}

fn read_optional_real(t: &Vec<Token>, at: usize, name: &str) -> (r: Result<
    Option<Scalar>,
    ParseFailure,
>)
    requires
        at < t.len(),
    ensures
        r == optional_real(t.deep_view(), at as int, name@),
{
    match read_attribute(t, at, name) {
        None => Ok(None),
        Some(v) => match parse_scalar(v.as_slice()) {
            Some(x) => Ok(Some(x)),
            None => Err(ParseFailure::InvalidNumber),
        },
    }
}

fn read_limits(t: &Vec<Token>, at: usize) -> (r: Result<
    (Option<Scalar>, Option<Scalar>, Option<Scalar>),
    ParseFailure,
>)
    requires
        at < t.len(),
    ensures
        r == limits_at(t.deep_view(), at as int),
{
    let min = match read_optional_real(t, at, "min") {
        Err(e) => {
            return Err(e);
        },
        Ok(x) => x,
    };
    let typ = match read_optional_real(t, at, "typ") {
        Err(e) => {
            return Err(e);
        },
        Ok(x) => x,
    };
    let max = match read_optional_real(t, at, "max") {
        Err(e) => {
            return Err(e);
        },
        Ok(x) => x,
    };
    if check_limits(min, typ, max) {
        Ok((min, typ, max))
    } else {
        Err(ParseFailure::OutOfRange)
    }
}

fn read_bit_range(t: &Vec<Token>, at: usize) -> (r: Result<Vec<u32>, ParseFailure>)
    requires
        at < t.len(),
    ensures
        match bit_range_at(t.deep_view(), at as int) {
            Ok(range) => r matches Ok(v) && v@ == range,
            Err(e) => r matches Err(x) && x == e,
        },
{
    let low = match read_required_number(t, at, "low") {
        Err(e) => {
            return Err(e);
        },
        Ok(x) => x,
    };
    let mut out: Vec<u32> = Vec::new();
    out.push(low);
    match read_attribute(t, at, "high") {
        None => {
            Ok(out)
        },
        Some(v) => match to_small(v.as_slice()) {
            Some(high) => {
                out.push(high);
                Ok(out)
            },
            None => Err(ParseFailure::InvalidNumber),
        },
    }
}

fn read_field(t: &Vec<Token>, at: usize, bit_width: u32) -> (r: Result<RegisterField, ParseFailure>)
    requires
        at < t.len(),
    ensures
        viewed(r) == field_at(t.deep_view(), at as int, bit_width),
{
    let name = match read_required(t, at, "name") {
        Err(e) => {
            return Err(e);
        },
        Ok(x) => x,
    };
    let description = match read_required(t, at, "description") {
        Err(e) => {
            return Err(e);
        },
        Ok(x) => x,
    };
    let bit_range = match read_bit_range(t, at) {
        Err(e) => {
            return Err(e);
        },
        Ok(x) => x,
    };
    if check_bit_range(bit_range.as_slice(), bit_width) {
        Ok(RegisterField { name, bit_range, description, enum_values: None })
    } else {
        Err(ParseFailure::OutOfRange)
    }
}

fn read_fields(t: &Vec<Token>, from: usize, bit_width: u32) -> (r: Result<
    Vec<RegisterField>,
    ParseFailure,
>)
    requires
        from <= t.len(),
    ensures
        viewed(r) == fields_from(t.deep_view(), from as int, bit_width, Seq::empty()),
{
    let mut out: Vec<RegisterField> = Vec::new();
    assert(out.deep_view() =~= Seq::empty());
    let mut pos: usize = from;
    while is_item(t, pos)
        invariant
            from <= pos <= t.len(),
            fields_from(t.deep_view(), pos as int, bit_width, out.deep_view()) == fields_from(
                t.deep_view(),
                from as int,
                bit_width,
                Seq::empty(),
            ),
        decreases t.len() - pos,
    {
        if is_named(t, pos, "field") {
            match read_field(t, pos, bit_width) {
                Err(e) => {
                    return Err(e);
                },
                Ok(f) => {
                    let ghost before = out.deep_view();
                    out.push(f);
                    assert(out.deep_view() =~= before.push(f.deep_view()));
                },
            }
        }
        pos = skip_item(t, pos);
    }
    Ok(out)
}

fn read_register(t: &Vec<Token>, at: usize) -> (r: Result<RegisterMap, ParseFailure>)
    requires
        at < t.len(),
    ensures
        viewed(r) == register_at(t.deep_view(), at as int),
{
    let name = match read_required(t, at, "name") {
        Err(e) => {
            return Err(e);
        },
        Ok(x) => x,
    };
    let address = match read_required(t, at, "address") {
        Err(e) => {
            return Err(e);
        },
        Ok(x) => x,
    };
    let description = match read_required(t, at, "description") {
        Err(e) => {
            return Err(e);
        },
        Ok(x) => x,
    };
    let bit_width = match read_required_number(t, at, "bit_width") {
        Err(e) => {
            return Err(e);
        },
        Ok(x) => x,
    };
    let access = match read_required(t, at, "access") {
        Err(e) => {
            return Err(e);
        },
        Ok(x) => x,
    };
    let fields = match read_fields(t, skip_attributes(t, at), bit_width) {
        Err(e) => {
            return Err(e);
        },
        Ok(x) => x,
    };
    Ok(
        RegisterMap {
            name,
            address,
            description,
            bit_width,
            access,
            fields: if fields.len() == 0 {
                None
            } else {
                Some(fields)
            },
            reset_value: attr_string(t, at, "reset_value"),
        },
    )
}

fn read_constraint(t: &Vec<Token>, at: usize) -> (r: Result<TimingConstraint, ParseFailure>)
    requires
        at < t.len(),
    ensures
        viewed(r) == constraint_at(t.deep_view(), at as int),
{
    let name = match read_required(t, at, "name") {
        Err(e) => {
            return Err(e);
        },
        Ok(x) => x,
    };
    let parameter = match read_required(t, at, "parameter") {
        Err(e) => {
            return Err(e);
        },
        Ok(x) => x,
    };
    let unit = match read_required(t, at, "unit") {
        Err(e) => {
            return Err(e);
        },
        Ok(x) => x,
    };
    match read_limits(t, at) {
        Err(e) => Err(e),
        Ok(limits) => Ok(
            TimingConstraint {
                name,
                parameter,
                min: limits.0,
                typ: limits.1,
                max: limits.2,
                unit,
                condition: attr_string(t, at, "condition"),
            },
        ),
    }
}

fn read_spec(t: &Vec<Token>, at: usize) -> (r: Result<ElectricalSpec, ParseFailure>)
    requires
        at < t.len(),
    ensures
        viewed(r) == spec_at(t.deep_view(), at as int),
{
    let parameter = match read_required(t, at, "parameter") {
        Err(e) => {
            return Err(e);
        },
        Ok(x) => x,
    };
    let unit = match read_required(t, at, "unit") {
        Err(e) => {
            return Err(e);
        },
        Ok(x) => x,
    };
    match read_limits(t, at) {
        Err(e) => Err(e),
        Ok(limits) => Ok(
            ElectricalSpec {
                parameter,
                min: limits.0,
                typ: limits.1,
                max: limits.2,
                unit,
                condition: attr_string(t, at, "condition"),
            },
        ),
    }
}

fn read_pin(t: &Vec<Token>, at: usize) -> (r: Result<Pinout, ParseFailure>)
    requires
        at < t.len(),
    ensures
        viewed(r) == pin_at(t.deep_view(), at as int),
{
    let pin_number = match read_required(t, at, "pin_number") {
        Err(e) => {
            return Err(e);
        },
        Ok(x) => x,
    };
    let name = match read_required(t, at, "name") {
        Err(e) => {
            return Err(e);
        },
        Ok(x) => x,
    };
    let pin_type = match read_required(t, at, "pin_type") {
        Err(e) => {
            return Err(e);
        },
        Ok(x) => x,
    };
    Ok(
        Pinout {
            pin_number,
            name,
            pin_type,
            description: attr_string(t, at, "description"),
            function: attr_string(t, at, "function"),
        },
    )
}

fn read_registers(t: &Vec<Token>) -> (r: Result<Option<Vec<RegisterMap>>, ParseFailure>)
    requires
        t.len() > 0,
    ensures
        viewed(r) == category(
            t.deep_view(),
            "registers"@,
            "register"@,
            |at: int| register_at(t.deep_view(), at),
        ),
{
    let ghost f = |at: int| register_at(t.deep_view(), at);
    let from = match seek_named(t, skip_attributes(t, 0), "registers") {
        None => {
            return Ok(None);
        },
        Some(c) => skip_attributes(t, c),
    };
    let mut out: Vec<RegisterMap> = Vec::new();
    assert(out.deep_view() =~= Seq::empty());
    let mut pos: usize = from;
    while is_item(t, pos)
        invariant
            from <= pos <= t.len(),
            f == (|at: int| register_at(t.deep_view(), at)),
            category(t.deep_view(), "registers"@, "register"@, f) == listed(
                entries_from(t.deep_view(), from as int, "register"@, f, Seq::empty()),
            ),
            entries_from(t.deep_view(), pos as int, "register"@, f, out.deep_view())
                == entries_from(t.deep_view(), from as int, "register"@, f, Seq::empty()),
        decreases t.len() - pos,
    {
        if is_named(t, pos, "register") {
            match read_register(t, pos) {
                Err(e) => {
                    return Err(e);
                },
                Ok(entry) => {
                    let ghost before = out.deep_view();
                    out.push(entry);
                    assert(out.deep_view() =~= before.push(entry.deep_view()));
                },
            }
        }
        pos = skip_item(t, pos);
    }
    Ok(Some(out))
}

fn read_constraints(t: &Vec<Token>) -> (r: Result<Option<Vec<TimingConstraint>>, ParseFailure>)
    requires
        t.len() > 0,
    ensures
        viewed(r) == category(
            t.deep_view(),
            "timing_constraints"@,
            "constraint"@,
            |at: int| constraint_at(t.deep_view(), at),
        ),
{
    let ghost f = |at: int| constraint_at(t.deep_view(), at);
    let from = match seek_named(t, skip_attributes(t, 0), "timing_constraints") {
        None => {
            return Ok(None);
        },
        Some(c) => skip_attributes(t, c),
    };
    let mut out: Vec<TimingConstraint> = Vec::new();
    assert(out.deep_view() =~= Seq::empty());
    let mut pos: usize = from;
    while is_item(t, pos)
        invariant
            from <= pos <= t.len(),
            f == (|at: int| constraint_at(t.deep_view(), at)),
            category(t.deep_view(), "timing_constraints"@, "constraint"@, f) == listed(
                entries_from(t.deep_view(), from as int, "constraint"@, f, Seq::empty()),
            ),
            entries_from(t.deep_view(), pos as int, "constraint"@, f, out.deep_view())
                == entries_from(t.deep_view(), from as int, "constraint"@, f, Seq::empty()),
        decreases t.len() - pos,
    {
        if is_named(t, pos, "constraint") {
            match read_constraint(t, pos) {
                Err(e) => {
                    return Err(e);
                },
                Ok(entry) => {
                    let ghost before = out.deep_view();
                    out.push(entry);
                    assert(out.deep_view() =~= before.push(entry.deep_view()));
                },
            }
        }
        pos = skip_item(t, pos);
    }
    Ok(Some(out))
}

fn read_pins(t: &Vec<Token>) -> (r: Result<Option<Vec<Pinout>>, ParseFailure>)
    requires
        t.len() > 0,
    ensures
        viewed(r) == category(t.deep_view(), "pinouts"@, "pin"@, |at: int| pin_at(t.deep_view(), at)),
{
    let ghost f = |at: int| pin_at(t.deep_view(), at);
    let from = match seek_named(t, skip_attributes(t, 0), "pinouts") {
        None => {
            return Ok(None);
        },
        Some(c) => skip_attributes(t, c),
    };
    let mut out: Vec<Pinout> = Vec::new();
    assert(out.deep_view() =~= Seq::empty());
    let mut pos: usize = from;
    while is_item(t, pos)
        invariant
            from <= pos <= t.len(),
            f == (|at: int| pin_at(t.deep_view(), at)),
            category(t.deep_view(), "pinouts"@, "pin"@, f) == listed(
                entries_from(t.deep_view(), from as int, "pin"@, f, Seq::empty()),
            ),
            entries_from(t.deep_view(), pos as int, "pin"@, f, out.deep_view()) == entries_from(
                t.deep_view(),
                from as int,
                "pin"@,
                f,
                Seq::empty(),
            ),
        decreases t.len() - pos,
    {
        if is_named(t, pos, "pin") {
            match read_pin(t, pos) {
                Err(e) => {
                    return Err(e);
                },
                Ok(entry) => {
                    let ghost before = out.deep_view();
                    out.push(entry);
                    assert(out.deep_view() =~= before.push(entry.deep_view()));
                },
            }
        }
        pos = skip_item(t, pos);
    }
    Ok(Some(out))
}

fn read_specs(t: &Vec<Token>) -> (r: Result<Option<Vec<ElectricalSpec>>, ParseFailure>)
    requires
        t.len() > 0,
    ensures
        viewed(r) == category(
            t.deep_view(),
            "electrical_specs"@,
            "spec"@,
            |at: int| spec_at(t.deep_view(), at),
        ),
{
    let ghost f = |at: int| spec_at(t.deep_view(), at);
    let from = match seek_named(t, skip_attributes(t, 0), "electrical_specs") {
        None => {
            return Ok(None);
        },
        Some(c) => skip_attributes(t, c),
    };
    let mut out: Vec<ElectricalSpec> = Vec::new();
    assert(out.deep_view() =~= Seq::empty());
    let mut pos: usize = from;
    while is_item(t, pos)
        invariant
            from <= pos <= t.len(),
            f == (|at: int| spec_at(t.deep_view(), at)),
            category(t.deep_view(), "electrical_specs"@, "spec"@, f) == listed(
                entries_from(t.deep_view(), from as int, "spec"@, f, Seq::empty()),
            ),
            entries_from(t.deep_view(), pos as int, "spec"@, f, out.deep_view()) == entries_from(
                t.deep_view(),
                from as int,
                "spec"@,
                f,
                Seq::empty(),
            ),
        decreases t.len() - pos,
    {
        if is_named(t, pos, "spec") {
            match read_spec(t, pos) {
                Err(e) => {
                    return Err(e);
                },
                Ok(entry) => {
                    let ghost before = out.deep_view();
                    out.push(entry);
                    assert(out.deep_view() =~= before.push(entry.deep_view()));
                },
            }
        }
        pos = skip_item(t, pos);
    }
    Ok(Some(out))
}

/// The hardware data that the tokens of a document hold.
pub fn read_token_data(t: &Vec<Token>) -> (r: Result<ExtractedData, ParseFailure>)
    ensures
        viewed(r) == token_data(t.deep_view()),
{
    if !has_single_root(t) {
        return Err(ParseFailure::InvalidSyntax);
    }
    let register_maps = match read_registers(t) {
        Err(e) => {
            return Err(e);
        },
        Ok(x) => x,
    };
    let timing_constraints = match read_constraints(t) {
        Err(e) => {
            return Err(e);
        },
        Ok(x) => x,
    };
    let pinouts = match read_pins(t) {
        Err(e) => {
            return Err(e);
        },
        Ok(x) => x,
    };
    let electrical_specs = match read_specs(t) {
        Err(e) => {
            return Err(e);
        },
        Ok(x) => x,
    };
    Ok(
        ExtractedData {
            register_maps,
            timing_constraints,
            pinouts,
            electrical_specs,
            configurations: None,
            summary: read_child_text(t, 0, "summary"),
        },
    )
}

fn read_file_tokens(bytes: &[u8]) -> (r: Result<Vec<Token>, ParseFailure>)
    ensures
        viewed(r) == file_tokens(bytes@),
{
    match decode_text(bytes) {
        None => Err(ParseFailure::InvalidText),
        Some(text) => tokenize_xml(text.as_slice()),
    }
}

/// Reads the metadata of an XML file.
pub fn decode_xml_metadata(bytes: &[u8]) -> (r: Result<DocumentMetadata, ParseFailure>)
    ensures
        viewed(r) == xml_metadata(bytes@),
{
    match read_file_tokens(bytes) {
        Err(e) => Err(e),
        Ok(t) => read_token_metadata(&t),
    }
}

/// Reads the hardware data of an XML file.
pub fn decode_xml_data(bytes: &[u8]) -> (r: Result<ExtractedData, ParseFailure>)
    ensures
        viewed(r) == xml_data(bytes@),
{
    match read_file_tokens(bytes) {
        Err(e) => Err(e),
        Ok(t) => read_token_data(&t),
    }
}

/// Where `f` gives only entries with the property `p`, and the entries so
/// far have it, every entry of the list has it.
pub proof fn lemma_entries_keep<T>(
    t: Seq<TokenView>,
    from: int,
    name: Seq<char>,
    f: spec_fn(int) -> Result<T, ParseFailure>,
    entries: Seq<T>,
    p: spec_fn(T) -> bool,
)
    requires
        forall|at: int| (#[trigger] f(at)) matches Ok(x) ==> p(x),
        forall|i: int| 0 <= i < entries.len() ==> p(#[trigger] entries[i]),
    ensures
        entries_from(t, from, name, f, entries) matches Ok(list) ==> forall|i: int|
            0 <= i < list.len() ==> p(#[trigger] list[i]),
    decreases t.len() - from,
{
    if item_at(t, from) {
        if !named(t, from, name) {
            lemma_entries_keep(t, after_item(t, from), name, f, entries, p);
        } else if let Ok(entry) = f(from) {
            lemma_entries_keep(t, after_item(t, from), name, f, entries.push(entry), p);
        }
    }
}

proof fn lemma_fields_fit(
    t: Seq<TokenView>,
    from: int,
    bit_width: u32,
    fields: Seq<RegisterFieldView>,
)
    requires
        forall|i: int|
            0 <= i < fields.len() ==> bit_range_fits((#[trigger] fields[i]).bit_range, bit_width),
    ensures
        fields_from(t, from, bit_width, fields) matches Ok(list) ==> forall|i: int|
            0 <= i < list.len() ==> bit_range_fits((#[trigger] list[i]).bit_range, bit_width),
    decreases t.len() - from,
{
    if item_at(t, from) {
        if !named(t, from, "field"@) {
            lemma_fields_fit(t, after_item(t, from), bit_width, fields);
        } else if let Ok(f) = field_at(t, from, bit_width) {
            lemma_fields_fit(t, after_item(t, from), bit_width, fields.push(f));
        }
    }
}

/// The bits of every field of a register that was read lie inside the register.
pub proof fn lemma_register_is_well_formed(t: Seq<TokenView>, at: int)
    ensures
        register_at(t, at) matches Ok(r) ==> r.well_formed(),
{
    if let Ok(bit_width) = required_number(t, at, "bit_width"@) {
        lemma_fields_fit(t, content_start(t, at), bit_width, Seq::empty());
    }
}

/// The data that an XML document holds meets the invariants of the model.
pub proof fn lemma_xml_data_is_well_formed(t: Seq<TokenView>)
    ensures
        token_data(t) matches Ok(d) ==> d.well_formed(),
{
    if let Some(c) = find_named(t, content_start(t, 0), "registers"@) {
        let f = |at: int| register_at(t, at);
        let p = |x: RegisterMapView| x.well_formed();
        assert forall|at: int| (#[trigger] f(at)) is Ok implies p(f(at)->Ok_0) by {
            lemma_register_is_well_formed(t, at);
        }
        lemma_entries_keep(t, content_start(t, c), "register"@, f, Seq::empty(), p);
    }
    if let Some(c) = find_named(t, content_start(t, 0), "timing_constraints"@) {
        let f = |at: int| constraint_at(t, at);
        let p = |x: TimingConstraintView| limits_fit(x.min, x.typ, x.max);
        assert forall|at: int| (#[trigger] f(at)) is Ok implies p(f(at)->Ok_0) by {}
        lemma_entries_keep(t, content_start(t, c), "constraint"@, f, Seq::empty(), p);
    }
    if let Some(c) = find_named(t, content_start(t, 0), "electrical_specs"@) {
        let f = |at: int| spec_at(t, at);
        let p = |x: ElectricalSpecView| limits_fit(x.min, x.typ, x.max);
        assert forall|at: int| (#[trigger] f(at)) is Ok implies p(f(at)->Ok_0) by {}
        lemma_entries_keep(t, content_start(t, c), "spec"@, f, Seq::empty(), p);
    }
}

} // verus!

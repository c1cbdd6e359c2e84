//! The hardware data model: what a datasheet says about a part, as register
//! maps, timing constraints, pinouts, electrical specifications and
//! configurations, and the bibliographic data of the document itself.
//!
//! A field that the source does not state is `None`. An empty collection says
//! that the source has the category and lists nothing in it.
use crate::scalar::{is_finite, ordinal, Scalar};
use vstd::prelude::*;

verus! {

/// The bibliographic data of a document.
#[derive(Debug, PartialEq)]
pub struct DocumentMetadata {
    pub title: Option<String>,
    pub author: Option<String>,
    pub version: Option<String>,
    pub revision: Option<String>,
    pub pages: Option<u32>,
    pub manufacturer: Option<String>,
    pub part_number: Option<String>,
    pub description: Option<String>,
    pub tags: Vec<String>,
}

/// One value that a register field can take, and what it means.
#[derive(Debug, PartialEq)]
pub struct EnumValue {
    pub value: String,
    pub description: String,
}

/// A run of bits inside a register.
#[derive(Debug, PartialEq)]
pub struct RegisterField {
    pub name: String,
    /// The lowest and the highest bit, or the one bit of a single-bit field.
    pub bit_range: Vec<u32>,
    pub description: String,
    pub enum_values: Option<Vec<EnumValue>>,
}

/// An addressable register of a device.
#[derive(Debug, PartialEq)]
pub struct RegisterMap {
    pub name: String,
    /// The address as the source writes it.
    pub address: String,
    pub description: String,
    pub bit_width: u32,
    pub access: String,
    pub fields: Option<Vec<RegisterField>>,
    pub reset_value: Option<String>,
}

/// A limit on a timing parameter.
#[derive(Debug, PartialEq)]
pub struct TimingConstraint {
    pub name: String,
    pub parameter: String,
    pub min: Option<Scalar>,
    pub typ: Option<Scalar>,
    pub max: Option<Scalar>,
    pub unit: String,
    pub condition: Option<String>,
}

/// One pin of a package.
#[derive(Debug, PartialEq)]
pub struct Pinout {
    pub pin_number: String,
    pub name: String,
    pub pin_type: String,
    pub description: Option<String>,
    pub function: Option<String>,
}

/// A limit on an electrical parameter.
#[derive(Debug, PartialEq)]
pub struct ElectricalSpec {
    pub parameter: String,
    pub min: Option<Scalar>,
    pub typ: Option<Scalar>,
    pub max: Option<Scalar>,
    pub unit: String,
    pub condition: Option<String>,
}

/// A named configuration with settings in a form of its own.
#[derive(Debug, PartialEq)]
pub struct Configuration {
    pub name: String,
    pub description: String,
    pub settings: serde_json::Value,
}

/// What a document says about a part.
#[derive(Debug, PartialEq)]
pub struct ExtractedData {
    pub register_maps: Option<Vec<RegisterMap>>,
    pub timing_constraints: Option<Vec<TimingConstraint>>,
    pub pinouts: Option<Vec<Pinout>>,
    pub electrical_specs: Option<Vec<ElectricalSpec>>,
    pub configurations: Option<Vec<Configuration>>,
    pub summary: Option<String>,
}

/// Document metadata, with texts as sequences of characters.
pub struct Metadata {
    pub title: Option<Seq<char>>,
    pub author: Option<Seq<char>>,
    pub version: Option<Seq<char>>,
    pub revision: Option<Seq<char>>,
    pub pages: Option<u32>,
    pub manufacturer: Option<Seq<char>>,
    pub part_number: Option<Seq<char>>,
    pub description: Option<Seq<char>>,
    pub tags: Seq<Seq<char>>,
}

/// A value of a register field, with texts as sequences of characters.
pub struct EnumValueView {
    pub value: Seq<char>,
    pub description: Seq<char>,
}

/// A register field, with texts as sequences of characters.
pub struct RegisterFieldView {
    pub name: Seq<char>,
    pub bit_range: Seq<u32>,
    pub description: Seq<char>,
    pub enum_values: Option<Seq<EnumValueView>>,
}

/// A register, with texts and fields as sequences.
pub struct RegisterMapView {
    pub name: Seq<char>,
    pub address: Seq<char>,
    pub description: Seq<char>,
    pub bit_width: u32,
    pub access: Seq<char>,
    pub fields: Option<Seq<RegisterFieldView>>,
    pub reset_value: Option<Seq<char>>,
}

/// A timing constraint, with texts as sequences of characters.
pub struct TimingConstraintView {
    pub name: Seq<char>,
    pub parameter: Seq<char>,
    pub min: Option<Scalar>,
    pub typ: Option<Scalar>,
    pub max: Option<Scalar>,
    pub unit: Seq<char>,
    pub condition: Option<Seq<char>>,
}

/// A pin, with texts as sequences of characters.
pub struct PinoutView {
    pub pin_number: Seq<char>,
    pub name: Seq<char>,
    pub pin_type: Seq<char>,
    pub description: Option<Seq<char>>,
    pub function: Option<Seq<char>>,
}

/// An electrical specification, with texts as sequences of characters.
pub struct ElectricalSpecView {
    pub parameter: Seq<char>,
    pub min: Option<Scalar>,
    pub typ: Option<Scalar>,
    pub max: Option<Scalar>,
    pub unit: Seq<char>,
    pub condition: Option<Seq<char>>,
}

/// A configuration, with texts as sequences of characters.
pub struct ConfigurationView {
    pub name: Seq<char>,
    pub description: Seq<char>,
    pub settings: serde_json::Value,
}

/// Extracted hardware data, with texts and collections as sequences.
pub struct Extract {
    pub register_maps: Option<Seq<RegisterMapView>>,
    pub timing_constraints: Option<Seq<TimingConstraintView>>,
    pub pinouts: Option<Seq<PinoutView>>,
    pub electrical_specs: Option<Seq<ElectricalSpecView>>,
    pub configurations: Option<Seq<ConfigurationView>>,
    pub summary: Option<Seq<char>>,
}

impl DeepView for DocumentMetadata {
    type V = Metadata;

    open spec fn deep_view(&self) -> Metadata {
        Metadata {
            title: self.title.deep_view(),
            author: self.author.deep_view(),
            version: self.version.deep_view(),
            revision: self.revision.deep_view(),
            pages: self.pages,
            manufacturer: self.manufacturer.deep_view(),
            part_number: self.part_number.deep_view(),
            description: self.description.deep_view(),
            tags: self.tags.deep_view(),
        }
    }
}

impl DeepView for EnumValue {
    type V = EnumValueView;

    open spec fn deep_view(&self) -> EnumValueView {
        EnumValueView { value: self.value@, description: self.description@ }
    }
}

impl DeepView for RegisterField {
    type V = RegisterFieldView;

    open spec fn deep_view(&self) -> RegisterFieldView {
        RegisterFieldView {
            name: self.name@,
            bit_range: self.bit_range@,
            description: self.description@,
            enum_values: self.enum_values.deep_view(),
        }
    }
}

impl DeepView for RegisterMap {
    type V = RegisterMapView;

    open spec fn deep_view(&self) -> RegisterMapView {
        RegisterMapView {
            name: self.name@,
            address: self.address@,
            description: self.description@,
            bit_width: self.bit_width,
            access: self.access@,
            fields: self.fields.deep_view(),
            reset_value: self.reset_value.deep_view(),
        }
    }
}

impl DeepView for TimingConstraint {
    type V = TimingConstraintView;

    open spec fn deep_view(&self) -> TimingConstraintView {
        TimingConstraintView {
            name: self.name@,
            parameter: self.parameter@,
            min: self.min,
            typ: self.typ,
            max: self.max,
            unit: self.unit@,
            condition: self.condition.deep_view(),
        }
    }
}

impl DeepView for Pinout {
    type V = PinoutView;

    open spec fn deep_view(&self) -> PinoutView {
        PinoutView {
            pin_number: self.pin_number@,
            name: self.name@,
            pin_type: self.pin_type@,
            description: self.description.deep_view(),
            function: self.function.deep_view(),
        }
    }
}

impl DeepView for ElectricalSpec {
    type V = ElectricalSpecView;

    open spec fn deep_view(&self) -> ElectricalSpecView {
        ElectricalSpecView {
            parameter: self.parameter@,
            min: self.min,
            typ: self.typ,
            max: self.max,
            unit: self.unit@,
            condition: self.condition.deep_view(),
        }
    }
}

impl DeepView for Configuration {
    type V = ConfigurationView;

    open spec fn deep_view(&self) -> ConfigurationView {
        ConfigurationView {
            name: self.name@,
            description: self.description@,
            settings: self.settings,
        }
    }
}

impl DeepView for ExtractedData {
    type V = Extract;

    open spec fn deep_view(&self) -> Extract {
        Extract {
            register_maps: self.register_maps.deep_view(),
            timing_constraints: self.timing_constraints.deep_view(),
            pinouts: self.pinouts.deep_view(),
            electrical_specs: self.electrical_specs.deep_view(),
            configurations: self.configurations.deep_view(),
            summary: self.summary.deep_view(),
        }
    }
}

/// Metadata that states nothing.
pub open spec fn no_metadata() -> Metadata {
    Metadata {
        title: None,
        author: None,
        version: None,
        revision: None,
        pages: None,
        manufacturer: None,
        part_number: None,
        description: None,
        tags: Seq::empty(),
    }
}

/// Extracted data without any category, with the given summary.
pub open spec fn no_data(summary: Option<Seq<char>>) -> Extract {
    Extract {
        register_maps: None,
        timing_constraints: None,
        pinouts: None,
        electrical_specs: None,
        configurations: None,
        summary,
    }
}

/// Whether a bit range names one bit or a low and a high bit, low first, all
/// of them inside a register of `bit_width` bits.
pub open spec fn bit_range_fits(bit_range: Seq<u32>, bit_width: u32) -> bool {
    ||| bit_range.len() == 1 && bit_range[0] < bit_width
    ||| bit_range.len() == 2 && bit_range[0] <= bit_range[1] < bit_width
}

/// Whether a limit states at least one of minimum, typical and maximum, each
/// of them finite, and no minimum above the maximum.
pub open spec fn limits_fit(min: Option<Scalar>, typ: Option<Scalar>, max: Option<Scalar>) -> bool {
    &&& min is Some || typ is Some || max is Some
    &&& min matches Some(x) ==> is_finite(x)
    &&& typ matches Some(x) ==> is_finite(x)
    &&& max matches Some(x) ==> is_finite(x)
    &&& min matches Some(lo) ==> (max matches Some(hi) ==> ordinal(lo) <= ordinal(hi))
}

impl RegisterMapView {
    /// The invariant of a register: the bits of every field lie inside it.
    pub open spec fn well_formed(self) -> bool {
        self.fields matches Some(fields) ==> forall|i: int|
            0 <= i < fields.len() ==> bit_range_fits((#[trigger] fields[i]).bit_range, self.bit_width)
    }
}

impl Extract {
    /// The invariant of extracted data: every register, timing constraint
    /// and electrical specification meets its own.
    pub open spec fn well_formed(self) -> bool {
        &&& self.register_maps matches Some(maps) ==> forall|i: int|
            0 <= i < maps.len() ==> (#[trigger] maps[i]).well_formed()
        &&& self.timing_constraints matches Some(ts) ==> forall|i: int|
            0 <= i < ts.len() ==> limits_fit((#[trigger] ts[i]).min, ts[i].typ, ts[i].max)
        &&& self.electrical_specs matches Some(es) ==> forall|i: int|
            0 <= i < es.len() ==> limits_fit((#[trigger] es[i]).min, es[i].typ, es[i].max)
    }
}

} // verus!

//! Decoders that turn hardware-engineering files (datasheets, 3D models, PCB
//! layouts) into typed in-memory models.
//!
//! Every decoder is a pure function of the file's path and bytes: the caller
//! reads the file and hands its contents over, and gets back one model or one
//! typed failure. Real numbers are held as the bit patterns of binary64
//! values (see [`scalar`]).
pub mod csv;
pub mod documents;
pub mod eagle;
pub mod error;
pub mod geometry;
pub mod hardware;
pub mod json;
pub mod json_document;
pub mod kicad;
pub mod markup;
pub mod number;
pub mod obj;
pub mod path;
pub mod pcb;
pub mod pdf;
pub mod pdf_content;
pub mod scalar;
pub mod sexpr;
pub mod step;
pub mod stl;
pub mod text;
pub mod viewer;
pub mod xml;
pub mod xml_document;

pub use documents::{
    extract_document_metadata, extract_hardware_data, extract_pdf_data, extract_pdf_metadata,
    extract_text_data, extract_text_metadata,
};
pub use eagle::load_eagle_brd;
pub use error::{DecodeError, Format, IntegrityKind, ParseFailure};
pub use geometry::{Bounds, Color, Material, ThreeDModelData};
pub use hardware::{
    Configuration, DocumentMetadata, ElectricalSpec, EnumValue, ExtractedData, Pinout,
    RegisterField, RegisterMap, TimingConstraint,
};
pub use kicad::load_kicad_pcb;
pub use obj::load_obj_model;
pub use pcb::{NetNode, PCBComponent, PCBNet, PCBTrace, PCBViewerData, Position};
pub use step::load_step_model;
pub use stl::load_stl_model;
pub use viewer::{load_3d_model, load_pcb_design};

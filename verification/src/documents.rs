//! Datasheets and other documents: the metadata and the hardware data of a
//! file, chosen by the extension of its path.
//!
//! The caller reads the file and hands over its bytes, or `None` where no
//! file exists at the path. An extension that names no document format is no
//! failure: such a file has its name as its description and no data.
use crate::csv::{csv_data, decode_csv_data, nothing_found, unrecognised_text};
use crate::error::{outcome, parse_failure, viewed, DecodeError, Failure, Format, ParseFailure};
use crate::hardware::{no_data, no_metadata, DocumentMetadata, Extract, ExtractedData, Metadata};
use crate::json_document::{decode_json_data, decode_json_metadata, json_data, json_metadata};
use crate::path::{extension, file_name, path_extension, path_file_name};
use crate::pdf::{decode_pdf_metadata, pdf_metadata};
use crate::pdf_content::{decode_pdf_data, pdf_data};
use crate::text::{decode_text, str_chars, string_from_chars, text_is, text_of};
use crate::xml_document::{decode_xml_data, decode_xml_metadata, xml_data, xml_metadata};
use vstd::prelude::*;

verus! {

/// What a decoder of the given format ended in, as a decode of a file ends.
pub open spec fn in_format<T>(format: Format, r: Result<T, ParseFailure>) -> Result<T, Failure> {
    match r {
        Ok(value) => Ok(value),
        Err(e) => Err(parse_failure(format, e)),
    }
}

/// The bytes that a caller hands over, as a sequence.
pub open spec fn given(contents: Option<&[u8]>) -> Option<Seq<u8>> {
    match contents {
        Some(bytes) => Some(bytes@),
        None => None,
    }
}

/// Whether an extension names a text format: `txt`, `csv`, `json` or `xml`.
pub open spec fn is_text_extension(ext: Seq<char>) -> bool {
    ext == "txt"@ || ext == "csv"@ || ext == "json"@ || ext == "xml"@
}

/// The metadata of a PDF file.
pub open spec fn pdf_file_metadata(bytes: Seq<u8>) -> Result<Metadata, Failure> {
    in_format(Format::Pdf, pdf_metadata(bytes))
}

/// The metadata of a text file: what a JSON or XML document states, and
/// nothing for plain and delimited text, which state none.
pub open spec fn text_metadata(path: Seq<char>, bytes: Seq<u8>) -> Result<Metadata, Failure> {
    let ext = extension(path);
    if ext == "json"@ {
        in_format(Format::Json, json_metadata(bytes))
    } else if ext == "xml"@ {
        in_format(Format::Xml, xml_metadata(bytes))
    } else {
        Ok(no_metadata())
    }
}

/// The hardware data of a PDF file.
pub open spec fn pdf_file_data(bytes: Seq<u8>) -> Result<Extract, Failure> {
    in_format(Format::Pdf, pdf_data(bytes))
}

/// The hardware data of a text file. Plain and delimited text is read as
/// a table; a text that is no UTF-8 holds no data, and the summary says so.
pub open spec fn text_data(path: Seq<char>, bytes: Seq<u8>) -> Result<Extract, Failure> {
    let ext = extension(path);
    if ext == "json"@ {
        in_format(Format::Json, json_data(bytes))
    } else if ext == "xml"@ {
        in_format(Format::Xml, xml_data(bytes))
    } else {
        match text_of(bytes) {
            Some(text) => Ok(csv_data(text)),
            None => Ok(no_data(Some(nothing_found()))),
        }
    }
}

/// The name under which a file is described: its file name, or `unknown`
/// where the path has none.
pub open spec fn shown_name(path: Seq<char>) -> Seq<char> {
    if file_name(path).len() == 0 {
        "unknown"@
    } else {
        file_name(path)
    }
}

/// The metadata of a file of no known format: its name as its description.
pub open spec fn name_only(path: Seq<char>) -> Metadata {
    Metadata { description: Some(shown_name(path)), ..no_metadata() }
}

/// The metadata of the document at `path` with the given contents.
pub open spec fn document_metadata(path: Seq<char>, contents: Option<Seq<u8>>) -> Result<
    Metadata,
    Failure,
> {
    match contents {
        None => Err(Failure::FileNotFound { path }),
        Some(bytes) => if extension(path) == "pdf"@ {
            pdf_file_metadata(bytes)
        } else if is_text_extension(extension(path)) {
            text_metadata(path, bytes)
        } else {
            Ok(name_only(path))
        },
    }
}

/// The hardware data of the document at `path` with the given contents.
pub open spec fn document_data(path: Seq<char>, contents: Option<Seq<u8>>) -> Result<
    Extract,
    Failure,
> {
    match contents {
        None => Err(Failure::FileNotFound { path }),
        Some(bytes) => if extension(path) == "pdf"@ {
            pdf_file_data(bytes)
        } else if is_text_extension(extension(path)) {
            text_data(path, bytes)
        } else {
            Ok(no_data(None))
        },
    }
}

/// Turns the failure of a decoder into the failure of a decode.
pub fn with_format<T: DeepView>(format: Format, r: Result<T, ParseFailure>) -> (out: Result<
    T,
    DecodeError,
>)
    ensures
        outcome(out) == in_format(format, viewed(r)),
        out matches Ok(x) ==> r == Ok::<T, ParseFailure>(x),
{
    match r {
        Ok(value) => Ok(value),
        Err(reason) => Err(DecodeError::ParseError { format, reason }),
    }
}

/// The failure of a decode of a file that does not exist.
pub fn file_not_found(file_path: &str) -> (e: DecodeError)
    ensures
        e.deep_view() == (Failure::FileNotFound { path: file_path@ }),
{
    DecodeError::FileNotFound { path: file_path.to_owned() }
}

/// The lower-case extension of a path.
pub fn extension_of(file_path: &str) -> (r: Vec<char>)
    ensures
        r@ == extension(file_path@),
{
    let chars = str_chars(file_path);
    path_extension(chars.as_slice())
}

/// Reads the metadata of a PDF file.
pub fn extract_pdf_metadata(bytes: &[u8]) -> (r: Result<DocumentMetadata, DecodeError>)
    ensures
        outcome(r) == pdf_file_metadata(bytes@),
{
    with_format(Format::Pdf, decode_pdf_metadata(bytes))
}

/// Metadata that states nothing.
pub fn empty_metadata() -> (r: DocumentMetadata)
    ensures
        r.deep_view() == no_metadata(),
{
    let tags: Vec<String> = Vec::new();
    assert(tags.deep_view() =~= Seq::empty());
    DocumentMetadata {
        title: None,
        author: None,
        version: None,
        revision: None,
        pages: None,
        manufacturer: None,
        part_number: None,
        description: None,
        tags,
    }
}

/// Reads the metadata of a text file: a JSON or XML document, or plain or
/// delimited text.
pub fn extract_text_metadata(file_path: &str, bytes: &[u8]) -> (r: Result<
    DocumentMetadata,
    DecodeError,
>)
    ensures
        outcome(r) == text_metadata(file_path@, bytes@),
{
    let ext = extension_of(file_path);
    if text_is(ext.as_slice(), "json") {
        with_format(Format::Json, decode_json_metadata(bytes))
    } else if text_is(ext.as_slice(), "xml") {
        with_format(Format::Xml, decode_xml_metadata(bytes))
    } else {
        Ok(empty_metadata())
    }
}

/// Reads the hardware data of a PDF file.
pub fn extract_pdf_data(bytes: &[u8]) -> (r: Result<ExtractedData, DecodeError>)
    ensures
        outcome(r) == pdf_file_data(bytes@),
{
    with_format(Format::Pdf, decode_pdf_data(bytes))
}

/// Reads the hardware data of a text file.
pub fn extract_text_data(file_path: &str, bytes: &[u8]) -> (r: Result<ExtractedData, DecodeError>)
    ensures
        outcome(r) == text_data(file_path@, bytes@),
{
    let ext = extension_of(file_path);
    if text_is(ext.as_slice(), "json") {
        with_format(Format::Json, decode_json_data(bytes))
    } else if text_is(ext.as_slice(), "xml") {
        with_format(Format::Xml, decode_xml_data(bytes))
    } else {
        match decode_text(bytes) {
            Some(text) => Ok(decode_csv_data(text.as_slice())),
            None => Ok(unrecognised_text()),
        }
    }
}

fn is_text_kind(ext: &[char]) -> (r: bool)
    ensures
        r == is_text_extension(ext@),
{
    text_is(ext, "txt") || text_is(ext, "csv") || text_is(ext, "json") || text_is(ext, "xml")
}

fn describe_by_name(file_path: &str) -> (r: DocumentMetadata)
    ensures
        r.deep_view() == name_only(file_path@),
{
    let chars = str_chars(file_path);
    let name = path_file_name(chars.as_slice());
    let shown = if name.len() == 0 {
        str_chars("unknown")
    } else {
        name
    };
    let mut metadata = empty_metadata();
    metadata.description = Some(string_from_chars(shown.as_slice()));
    metadata
}

/// Extracts the metadata of a document. The format is chosen by the
/// extension of the path; `file_type` is a hint that is not needed for it.
/// `contents` holds the bytes of the file, or `None` where no file exists at
/// the path.
pub fn extract_document_metadata(file_path: &str, file_type: &str, contents: Option<&[u8]>) -> (r:
    Result<DocumentMetadata, DecodeError>)
    ensures
        outcome(r) == document_metadata(file_path@, given(contents)),
        contents is None ==> outcome(r) == Err::<Metadata, Failure>(
            Failure::FileNotFound { path: file_path@ },
        ),
{
    let bytes = match contents {
        None => {
            return Err(file_not_found(file_path));
        },
        Some(bytes) => bytes,
    };
    let ext = extension_of(file_path);
    if text_is(ext.as_slice(), "pdf") {
        extract_pdf_metadata(bytes)
    } else if is_text_kind(ext.as_slice()) {
        extract_text_metadata(file_path, bytes)
    } else {
        Ok(describe_by_name(file_path))
    }
}

/// Extracts the hardware data of a document. The format is chosen by the
/// extension of the path; `file_type` is a hint that is not needed for it.
/// `contents` holds the bytes of the file, or `None` where no file exists at
/// the path.
pub fn extract_hardware_data(file_path: &str, file_type: &str, contents: Option<&[u8]>) -> (r:
    Result<ExtractedData, DecodeError>)
    ensures
        outcome(r) == document_data(file_path@, given(contents)),
        contents is None ==> outcome(r) == Err::<Extract, Failure>(
            Failure::FileNotFound { path: file_path@ },
        ),
        r matches Ok(data) ==> data.deep_view().well_formed(),
{
    proof {
        lemma_document_data_is_well_formed(file_path@, given(contents));
    }
    let bytes = match contents {
        None => {
            return Err(file_not_found(file_path));
        },
        Some(bytes) => bytes,
    };
    let ext = extension_of(file_path);
    if text_is(ext.as_slice(), "pdf") {
        extract_pdf_data(bytes)
    } else if is_text_kind(ext.as_slice()) {
        extract_text_data(file_path, bytes)
    } else {
        Ok(crate::csv::empty_data(None))
    }
}

/// Decoding is a function of the path and the contents: two decodes of the
/// same file give equal metadata, and equal data, or the same failure.
pub proof fn lemma_documents_decode_alike(
    path: Seq<char>,
    contents: Option<Seq<u8>>,
    first: Result<DocumentMetadata, DecodeError>,
    second: Result<DocumentMetadata, DecodeError>,
    first_data: Result<ExtractedData, DecodeError>,
    second_data: Result<ExtractedData, DecodeError>,
)
    requires
        outcome(first) == document_metadata(path, contents),
        outcome(second) == document_metadata(path, contents),
        outcome(first_data) == document_data(path, contents),
        outcome(second_data) == document_data(path, contents),
    ensures
        outcome(first) == outcome(second),
        outcome(first_data) == outcome(second_data),
{
}

/// No extension makes a document unreadable: a file that exists, and whose
/// extension names no document format, has metadata and data.
pub proof fn lemma_documents_are_permissive(path: Seq<char>, bytes: Seq<u8>)
    requires
        extension(path) != "pdf"@,
        !is_text_extension(extension(path)),
    ensures
        document_metadata(path, Some(bytes)) == Ok::<Metadata, Failure>(name_only(path)),
        document_data(path, Some(bytes)) == Ok::<Extract, Failure>(no_data(None)),
{
}

/// The data of every document meets the invariants of the model, whatever
/// its format: the bits of every register field lie inside the register,
/// and every timing constraint and electrical specification states at least
/// one limit and no minimum above its maximum.
pub proof fn lemma_document_data_is_well_formed(path: Seq<char>, contents: Option<Seq<u8>>)
    ensures
        document_data(path, contents) matches Ok(d) ==> d.well_formed(),
{
    if let Some(bytes) = contents {
        let ext = extension(path);
        if ext == "pdf"@ {
            crate::pdf_content::lemma_pdf_data_is_well_formed(bytes);
        } else if ext == "json"@ {
            if let Some(doc) = crate::json::json_document(bytes) {
                crate::json_document::lemma_json_data_is_well_formed(doc);
            }
        } else if ext == "xml"@ {
            if let Ok(t) = crate::xml_document::file_tokens(bytes) {
                crate::xml_document::lemma_xml_data_is_well_formed(t);
            }
        } else if let Some(text) = text_of(bytes) {
            crate::csv::lemma_table_data_is_well_formed(crate::text::lines(text));
        }
    }
}

} // verus!

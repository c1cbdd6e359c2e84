//! 3D models and PCB designs: the model of a file, chosen by the extension
//! of its path.
//!
//! The caller reads the file and hands over its bytes, or `None` where no
//! file exists at the path.
use crate::documents::{extension_of, file_not_found, given, in_format, with_format};
use crate::eagle::{eagle_board, load_eagle_brd};
use crate::error::{outcome, DecodeError, Failure, Format};
use crate::geometry::{
    lemma_bounds_are_extremes, lemma_indices_name_vertices, mesh_of, MaterialView, Mesh,
    ThreeDModelData,
};
use crate::kicad::{kicad_board, load_kicad_pcb};
use crate::obj::{load_obj_model, obj_mesh};
use crate::path::extension;
use crate::pcb::{board_of, lemma_no_fault_iff_well_formed, Board, Draft, PCBViewerData};
use crate::scalar::Scalar;
use crate::step::{load_step_model, step_mesh};
use crate::stl::{load_stl_model, stl_mesh};
use crate::text::{string_from_chars, text_is};
use vstd::prelude::*;

verus! {

/// The mesh of the 3D model at `path` with the given contents.
pub open spec fn mesh_file(path: Seq<char>, contents: Option<Seq<u8>>) -> Result<Mesh, Failure> {
    match contents {
        None => Err(Failure::FileNotFound { path }),
        Some(bytes) => {
            let ext = extension(path);
            if ext == "stl"@ {
                in_format(Format::Stl, stl_mesh(bytes))
            } else if ext == "step"@ || ext == "stp"@ {
                in_format(Format::Step, step_mesh(bytes))
            } else if ext == "obj"@ {
                in_format(Format::Obj, obj_mesh(bytes))
            } else {
                Err(Failure::UnsupportedFormat { extension: ext })
            }
        },
    }
}

/// The board of the PCB design at `path` with the given contents.
pub open spec fn board_file(path: Seq<char>, contents: Option<Seq<u8>>) -> Result<Board, Failure> {
    match contents {
        None => Err(Failure::FileNotFound { path }),
        Some(bytes) => {
            let ext = extension(path);
            if ext == "kicad_pcb"@ {
                kicad_board(path, bytes)
            } else if ext == "brd"@ {
                eagle_board(path, bytes)
            } else {
                Err(Failure::UnsupportedFormat { extension: ext })
            }
        },
    }
}

fn unsupported(ext: &Vec<char>) -> (e: DecodeError)
    ensures
        e.deep_view() == (Failure::UnsupportedFormat { extension: ext@ }),
{
    DecodeError::UnsupportedFormat { extension: string_from_chars(ext.as_slice()) }
}

/// Loads a 3D model: an STL, STEP or OBJ file. `contents` holds the bytes
/// of the file, or `None` where no file exists at the path.
pub fn load_3d_model(file_path: &str, contents: Option<&[u8]>) -> (r: Result<
    ThreeDModelData,
    DecodeError,
>)
    ensures
        outcome(r) == mesh_file(file_path@, given(contents)),
        contents is None ==> outcome(r) == Err::<Mesh, Failure>(
            Failure::FileNotFound { path: file_path@ },
        ),
        r matches Ok(model) ==> model.deep_view().well_formed(),
{
    let bytes = match contents {
        None => {
            return Err(file_not_found(file_path));
        },
        Some(bytes) => bytes,
    };
    let ext = extension_of(file_path);
    if text_is(ext.as_slice(), "stl") {
        with_format(Format::Stl, load_stl_model(bytes))
    } else if text_is(ext.as_slice(), "step") || text_is(ext.as_slice(), "stp") {
        with_format(Format::Step, load_step_model(bytes))
    } else if text_is(ext.as_slice(), "obj") {
        with_format(Format::Obj, load_obj_model(bytes))
    } else {
        Err(unsupported(&ext))
    }
}

/// Loads a PCB design: a KiCad or Eagle board file. `contents` holds the
/// bytes of the file, or `None` where no file exists at the path.
pub fn load_pcb_design(file_path: &str, contents: Option<&[u8]>) -> (r: Result<
    PCBViewerData,
    DecodeError,
>)
    ensures
        outcome(r) == board_file(file_path@, given(contents)),
        contents is None ==> outcome(r) == Err::<Board, Failure>(
            Failure::FileNotFound { path: file_path@ },
        ),
        r matches Ok(board) ==> board.deep_view().well_formed(),
{
    let bytes = match contents {
        None => {
            return Err(file_not_found(file_path));
        },
        Some(bytes) => bytes,
    };
    let ext = extension_of(file_path);
    if text_is(ext.as_slice(), "kicad_pcb") {
        load_kicad_pcb(file_path, bytes)
    } else if text_is(ext.as_slice(), "brd") {
        load_eagle_brd(file_path, bytes)
    } else {
        Err(unsupported(&ext))
    }
}

/// Buffers that make a mesh make a well-formed one.
pub proof fn lemma_mesh_of_is_well_formed(
    vertices: Seq<Scalar>,
    normals: Option<Seq<Scalar>>,
    uvs: Option<Seq<Scalar>>,
    indices: Option<Seq<u16>>,
    materials: Option<Seq<MaterialView>>,
)
    ensures
        mesh_of(vertices, normals, uvs, indices, materials) matches Ok(mesh)
            ==> mesh.well_formed(),
{
}

/// Every mesh that a file decodes to is well-formed, whatever its format:
/// its bounds are the least and greatest coordinates of its vertex buffer,
/// its indices come in threes, and each of them names a vertex.
pub proof fn lemma_decoded_mesh_is_well_formed(path: Seq<char>, contents: Option<Seq<u8>>)
    ensures
        mesh_file(path, contents) matches Ok(mesh) ==> mesh.well_formed(),
{
    if contents is Some {
        let bytes = contents->0;
        let ext = extension(path);
        if ext == "stl"@ {
            crate::stl::lemma_stl_mesh_is_well_formed(bytes);
        } else if ext == "step"@ || ext == "stp"@ {
            crate::step::lemma_step_mesh_is_well_formed(bytes);
        } else if ext == "obj"@ {
            crate::obj::lemma_obj_mesh_is_well_formed(bytes);
        }
    }
}

/// The bounds of every decoded mesh are the true extremes of its vertices,
/// along each axis.
pub proof fn lemma_decoded_bounds_are_extremes(
    path: Seq<char>,
    contents: Option<Seq<u8>>,
    axis: int,
)
    requires
        0 <= axis < 3,
        mesh_file(path, contents) is Ok,
    ensures
        ({
            let mesh = mesh_file(path, contents)->Ok_0;
            &&& forall|k: int|
                0 <= k < mesh.vertex_count() ==> crate::scalar::ordinal(mesh.bounds.min[axis])
                    <= crate::scalar::ordinal(
                    #[trigger] crate::geometry::coordinate(mesh.vertices, k, axis),
                ) <= crate::scalar::ordinal(mesh.bounds.max[axis])
            &&& crate::geometry::is_coordinate(
                mesh.vertices,
                axis,
                mesh.vertex_count(),
                mesh.bounds.min[axis],
            )
            &&& crate::geometry::is_coordinate(
                mesh.vertices,
                axis,
                mesh.vertex_count(),
                mesh.bounds.max[axis],
            )
        }),
{
    lemma_decoded_mesh_is_well_formed(path, contents);
    lemma_bounds_are_extremes(mesh_file(path, contents)->Ok_0, axis);
}

/// Every index of every decoded mesh names a vertex, and the indices come
/// in threes.
pub proof fn lemma_decoded_indices_name_vertices(
    path: Seq<char>,
    contents: Option<Seq<u8>>,
    i: int,
)
    requires
        mesh_file(path, contents) matches Ok(mesh) && mesh.indices matches Some(indices) && 0 <= i
            < indices.len(),
    ensures
        ({
            let mesh = mesh_file(path, contents)->Ok_0;
            let indices = mesh.indices->0;
            indices.len() % 3 == 0 && 0 <= indices[i] < mesh.vertex_count()
        }),
{
    lemma_decoded_mesh_is_well_formed(path, contents);
    lemma_indices_name_vertices(mesh_file(path, contents)->Ok_0, i);
}

/// A draft that makes a board makes a well-formed one.
pub proof fn lemma_board_of_is_well_formed(path: Seq<char>, d: Draft)
    ensures
        board_of(path, d) matches Ok(board) ==> board.well_formed(),
{
    lemma_no_fault_iff_well_formed(crate::pcb::drafted_board(path, d));
}

/// Every board that a file decodes to is well-formed, whatever its format:
/// every component that a net names is among its components, and every net
/// that a trace names is among its nets.
pub proof fn lemma_decoded_board_is_well_formed(path: Seq<char>, contents: Option<Seq<u8>>)
    ensures
        board_file(path, contents) matches Ok(board) ==> board.well_formed(),
{
    if contents is Some {
        let bytes = contents->0;
        let ext = extension(path);
        if ext == "kicad_pcb"@ {
            match crate::text::text_of(bytes) {
                Some(text) => match crate::kicad::kicad_text_draft(text) {
                    Ok(d) => {
                        lemma_board_of_is_well_formed(path, d);
                    },
                    Err(_) => {},
                },
                None => {},
            }
        } else if ext == "brd"@ {
            match crate::text::text_of(bytes) {
                Some(text) => match crate::eagle::eagle_text_draft(text) {
                    Ok(d) => {
                        lemma_board_of_is_well_formed(path, d);
                    },
                    Err(_) => {},
                },
                None => {},
            }
        }
    }
}

/// Decoding is a function of the path and the contents: two decodes of the
/// same file give equal models, or the same failure.
pub proof fn lemma_models_decode_alike(
    path: Seq<char>,
    contents: Option<Seq<u8>>,
    first: Result<ThreeDModelData, DecodeError>,
    second: Result<ThreeDModelData, DecodeError>,
    first_board: Result<PCBViewerData, DecodeError>,
    second_board: Result<PCBViewerData, DecodeError>,
)
    requires
        outcome(first) == mesh_file(path, contents),
        outcome(second) == mesh_file(path, contents),
        outcome(first_board) == board_file(path, contents),
        outcome(second_board) == board_file(path, contents),
    ensures
        outcome(first) == outcome(second),
        outcome(first_board) == outcome(second_board),
{
}

/// A file that does not exist is reported as such, whatever its extension.
pub proof fn lemma_missing_file_is_not_found(path: Seq<char>)
    ensures
        mesh_file(path, None) == Err::<Mesh, Failure>(Failure::FileNotFound { path }),
        board_file(path, None) == Err::<Board, Failure>(Failure::FileNotFound { path }),
        crate::documents::document_metadata(path, None) == Err::<crate::hardware::Metadata, Failure>(
            Failure::FileNotFound { path },
        ),
        crate::documents::document_data(path, None) == Err::<crate::hardware::Extract, Failure>(
            Failure::FileNotFound { path },
        ),
{
}

} // verus!

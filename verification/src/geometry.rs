//! The mesh model: flat vertex, normal, texture and index buffers, materials,
//! and the axis-aligned box that bounds the vertices.
use crate::error::{viewed, ParseFailure};
use crate::scalar::{
    fits_single, is_finite, ordinal, scalar_fits_single, scalar_is_finite, scalar_lt, Scalar,
};
use vstd::prelude::*;

verus! {

/// The pattern of the real number one.
pub const ONE: u64 = 0x3ff0_0000_0000_0000;

/// An RGBA colour.
#[derive(Clone, Copy, Debug, PartialEq, Eq, Structural)]
pub struct Color {
    pub r: Scalar,
    pub g: Scalar,
    pub b: Scalar,
    pub a: Scalar,
}

/// A named surface material.
#[derive(Debug, PartialEq)]
pub struct Material {
    pub name: String,
    pub color: Option<Color>,
    pub metalness: Option<Scalar>,
    pub roughness: Option<Scalar>,
}

/// The least and the greatest coordinate of a mesh along each axis.
#[derive(Clone, Copy, Debug, PartialEq)]
pub struct Bounds {
    pub min: [Scalar; 3],
    pub max: [Scalar; 3],
}

/// A triangle mesh.
#[derive(Debug, PartialEq)]
pub struct ThreeDModelData {
    /// Three coordinates for each vertex.
    pub vertices: Vec<Scalar>,
    /// Three components for each vertex, where the format has normals.
    pub normals: Option<Vec<Scalar>>,
    /// Two texture coordinates for each vertex, where the format has them.
    pub uvs: Option<Vec<Scalar>>,
    /// Three vertex indices for each triangle. Where absent, every three
    /// vertices in a row make one triangle.
    pub indices: Option<Vec<u16>>,
    pub materials: Option<Vec<Material>>,
    pub bounds: Bounds,
}

/// A material, with its name as a sequence of characters.
pub struct MaterialView {
    pub name: Seq<char>,
    pub color: Option<Color>,
    pub metalness: Option<Scalar>,
    pub roughness: Option<Scalar>,
}

/// A bounding box, with its corners as sequences.
pub struct BoundsView {
    pub min: Seq<Scalar>,
    pub max: Seq<Scalar>,
}

/// A mesh, with its buffers as sequences.
pub struct Mesh {
    pub vertices: Seq<Scalar>,
    pub normals: Option<Seq<Scalar>>,
    pub uvs: Option<Seq<Scalar>>,
    pub indices: Option<Seq<u16>>,
    pub materials: Option<Seq<MaterialView>>,
    pub bounds: BoundsView,
}

impl DeepView for Material {
    type V = MaterialView;

    open spec fn deep_view(&self) -> MaterialView {
        MaterialView {
            name: self.name@,
            color: self.color,
            metalness: self.metalness,
            roughness: self.roughness,
        }
    }
}

impl DeepView for Bounds {
    type V = BoundsView;

    open spec fn deep_view(&self) -> BoundsView {
        BoundsView { min: self.min@, max: self.max@ }
    }
}

/// The view of an optional buffer.
pub open spec fn buffer_view<T>(buffer: Option<Vec<T>>) -> Option<Seq<T>> {
    match buffer {
        Some(v) => Some(v@),
        None => None,
    }
}

impl DeepView for ThreeDModelData {
    type V = Mesh;

    open spec fn deep_view(&self) -> Mesh {
        Mesh {
            vertices: self.vertices@,
            normals: buffer_view(self.normals),
            uvs: buffer_view(self.uvs),
            indices: buffer_view(self.indices),
            materials: self.materials.deep_view(),
            bounds: self.bounds.deep_view(),
        }
    }
}

/// The least coordinate along `axis` among the first `count` vertices; among
/// equal ones, the first.
pub open spec fn axis_min(vertices: Seq<Scalar>, axis: int, count: int) -> Scalar
    decreases count,
{
    if count <= 1 {
        coordinate(vertices, 0, axis)
    } else {
        let rest = axis_min(vertices, axis, count - 1);
        let x = coordinate(vertices, count - 1, axis);
        if ordinal(x) < ordinal(rest) {
            x
        } else {
            rest
        }
    }
}

/// The greatest coordinate along `axis` among the first `count` vertices;
/// among equal ones, the first.
pub open spec fn axis_max(vertices: Seq<Scalar>, axis: int, count: int) -> Scalar
    decreases count,
{
    if count <= 1 {
        coordinate(vertices, 0, axis)
    } else {
        let rest = axis_max(vertices, axis, count - 1);
        let x = coordinate(vertices, count - 1, axis);
        if ordinal(rest) < ordinal(x) {
            x
        } else {
            rest
        }
    }
}

/// The box that bounds a vertex buffer of at least one vertex.
pub open spec fn bounds_of(vertices: Seq<Scalar>) -> BoundsView {
    let count = vertices.len() as int / 3;
    BoundsView {
        min: seq![
            axis_min(vertices, 0, count),
            axis_min(vertices, 1, count),
            axis_min(vertices, 2, count),
        ],
        max: seq![
            axis_max(vertices, 0, count),
            axis_max(vertices, 1, count),
            axis_max(vertices, 2, count),
        ],
    }
}

/// Whether every value of a buffer is finite.
pub open spec fn all_finite(buffer: Seq<Scalar>) -> bool {
    forall|i: int| 0 <= i < buffer.len() ==> is_finite(#[trigger] buffer[i])
}

/// Whether every index names one of `count` vertices.
pub open spec fn indices_in_range(indices: Seq<u16>, count: int) -> bool {
    forall|i: int| 0 <= i < indices.len() ==> (#[trigger] indices[i] as int) < count
}

/// Whether an optional scalar, where present, lies between zero and one.
pub open spec fn unit_or_absent(x: Option<Scalar>) -> bool {
    match x {
        Some(bits) => is_finite(bits) && 0 <= ordinal(bits) <= ordinal(ONE),
        None => true,
    }
}

/// Whether the metalness and roughness of every material lie between zero and one.
pub open spec fn materials_in_range(materials: Seq<MaterialView>) -> bool {
    forall|i: int|
        0 <= i < materials.len() ==> unit_or_absent((#[trigger] materials[i]).metalness)
            && unit_or_absent(materials[i].roughness)
}

/// Whether vertex, normal, texture and index buffers and materials make a mesh.
pub open spec fn buffers_fit(
    vertices: Seq<Scalar>,
    normals: Option<Seq<Scalar>>,
    uvs: Option<Seq<Scalar>>,
    indices: Option<Seq<u16>>,
    materials: Option<Seq<MaterialView>>,
) -> bool {
    &&& vertices.len() % 3 == 0
    &&& (normals matches Some(n) ==> n.len() == vertices.len())
    &&& (uvs matches Some(u) ==> u.len() * 3 == vertices.len() * 2)
    &&& (indices matches Some(ix) ==> ix.len() % 3 == 0 && indices_in_range(
        ix,
        vertices.len() as int / 3,
    ))
    &&& (indices is None ==> vertices.len() % 9 == 0)
    &&& (materials matches Some(ms) ==> materials_in_range(ms))
}

/// Whether every coordinate, normal component and texture coordinate is finite.
pub open spec fn buffers_finite(
    vertices: Seq<Scalar>,
    normals: Option<Seq<Scalar>>,
    uvs: Option<Seq<Scalar>>,
) -> bool {
    &&& all_finite(vertices)
    &&& (normals matches Some(n) ==> all_finite(n))
    &&& (uvs matches Some(u) ==> all_finite(u))
}

/// Whether every value of a buffer stays finite as a binary32 value.
pub open spec fn all_narrow(buffer: Seq<Scalar>) -> bool {
    forall|i: int| 0 <= i < buffer.len() ==> fits_single(#[trigger] buffer[i])
}

/// Whether the components of a colour, where there is one, stay finite as
/// binary32 values.
pub open spec fn colour_narrow(color: Option<Color>) -> bool {
    color matches Some(c) ==> fits_single(c.r) && fits_single(c.g) && fits_single(c.b)
        && fits_single(c.a)
}

/// Whether the colour of every material stays finite as binary32 values.
pub open spec fn colours_narrow(materials: Seq<MaterialView>) -> bool {
    forall|i: int| 0 <= i < materials.len() ==> colour_narrow((#[trigger] materials[i]).color)
}

/// Whether every coordinate, normal component, texture coordinate and
/// colour component stays finite when it is held as a binary32 value.
pub open spec fn buffers_narrow(
    vertices: Seq<Scalar>,
    normals: Option<Seq<Scalar>>,
    uvs: Option<Seq<Scalar>>,
    materials: Option<Seq<MaterialView>>,
) -> bool {
    &&& all_narrow(vertices)
    &&& (normals matches Some(n) ==> all_narrow(n))
    &&& (uvs matches Some(u) ==> all_narrow(u))
    &&& (materials matches Some(ms) ==> colours_narrow(ms))
}

impl Mesh {
    /// The number of vertices.
    pub open spec fn vertex_count(self) -> int {
        self.vertices.len() as int / 3
    }

    /// The invariant of a mesh: it has a vertex, its buffers fit each other,
    /// its values are finite and stay so as binary32 values, every index
    /// names a vertex, and its bounds are the least and greatest coordinates
    /// of its vertices.
    pub open spec fn well_formed(self) -> bool {
        &&& self.vertices.len() >= 3
        &&& buffers_fit(self.vertices, self.normals, self.uvs, self.indices, self.materials)
        &&& buffers_finite(self.vertices, self.normals, self.uvs)
        &&& buffers_narrow(self.vertices, self.normals, self.uvs, self.materials)
        &&& self.bounds == bounds_of(self.vertices)
    }
}

/// The mesh made of the given buffers, or why they make none.
pub open spec fn mesh_of(
    vertices: Seq<Scalar>,
    normals: Option<Seq<Scalar>>,
    uvs: Option<Seq<Scalar>>,
    indices: Option<Seq<u16>>,
    materials: Option<Seq<MaterialView>>,
) -> Result<Mesh, ParseFailure> {
    if vertices.len() < 3 {
        Err(ParseFailure::EmptyGeometry)
    } else if !buffers_fit(vertices, normals, uvs, indices, materials) {
        Err(ParseFailure::InconsistentBuffers)
    } else if !buffers_finite(vertices, normals, uvs) {
        Err(ParseFailure::NonFinite)
    } else if !buffers_narrow(vertices, normals, uvs, materials) {
        Err(ParseFailure::OutOfRange)
    } else {
        Ok(Mesh { vertices, normals, uvs, indices, materials, bounds: bounds_of(vertices) })
    }
}

/// The coordinate of vertex `k` along `axis`.
pub open spec fn coordinate(vertices: Seq<Scalar>, k: int, axis: int) -> Scalar {
    vertices[3 * k + axis]
}

/// Whether `bound` is the coordinate along `axis` of one of the first `count` vertices.
pub open spec fn is_coordinate(vertices: Seq<Scalar>, axis: int, count: int, bound: Scalar) -> bool {
    exists|k: int| 0 <= k < count && bound == #[trigger] coordinate(vertices, k, axis)
}

/// The coordinates along an axis never fall below the axis minimum nor rise
/// above the axis maximum, and both are coordinates of some vertex.
pub proof fn lemma_axis_extremes(vertices: Seq<Scalar>, axis: int, count: int)
    requires
        0 <= axis < 3,
        1 <= count,
        3 * count <= vertices.len(),
    ensures
        forall|k: int|
            0 <= k < count ==> ordinal(axis_min(vertices, axis, count)) <= ordinal(
                #[trigger] coordinate(vertices, k, axis),
            ) <= ordinal(axis_max(vertices, axis, count)),
        is_coordinate(vertices, axis, count, axis_min(vertices, axis, count)),
        is_coordinate(vertices, axis, count, axis_max(vertices, axis, count)),
    decreases count,
{
    if count > 1 {
        lemma_axis_extremes(vertices, axis, count - 1);
        assert forall|k: int| 0 <= k < count implies ordinal(axis_min(vertices, axis, count))
            <= ordinal(#[trigger] coordinate(vertices, k, axis)) <= ordinal(
            axis_max(vertices, axis, count),
        ) by {}
    }
}

/// The bounds of a well-formed mesh are the true extremes of its vertex
/// buffer: along each axis the minimum is the coordinate of some vertex and
/// no vertex lies below it, the maximum is the coordinate of some vertex and
/// no vertex lies above it, and the minimum does not exceed the maximum.
pub proof fn lemma_bounds_are_extremes(mesh: Mesh, axis: int)
    requires
        mesh.well_formed(),
        0 <= axis < 3,
    ensures
        forall|k: int|
            0 <= k < mesh.vertex_count() ==> ordinal(mesh.bounds.min[axis]) <= ordinal(
                #[trigger] coordinate(mesh.vertices, k, axis),
            ) <= ordinal(mesh.bounds.max[axis]),
        is_coordinate(mesh.vertices, axis, mesh.vertex_count(), mesh.bounds.min[axis]),
        is_coordinate(mesh.vertices, axis, mesh.vertex_count(), mesh.bounds.max[axis]),
        ordinal(mesh.bounds.min[axis]) <= ordinal(mesh.bounds.max[axis]),
{
    lemma_axis_extremes(mesh.vertices, axis, mesh.vertex_count());
}

/// In a well-formed mesh every index names a vertex, and the indices come in threes.
pub proof fn lemma_indices_name_vertices(mesh: Mesh, i: int)
    requires
        mesh.well_formed(),
        mesh.indices is Some,
        0 <= i < mesh.indices->0.len(),
    ensures
        mesh.indices->0.len() % 3 == 0,
        0 <= mesh.indices->0[i] < mesh.vertex_count(),
        3 * (mesh.indices->0[i] as int) + 2 < mesh.vertices.len(),
{
}

fn axis_extremes(vertices: &[Scalar], axis: usize) -> (r: (Scalar, Scalar))
    requires
        axis < 3,
        vertices.len() >= 3,
    ensures
        r.0 == axis_min(vertices@, axis as int, vertices.len() as int / 3),
        r.1 == axis_max(vertices@, axis as int, vertices.len() as int / 3),
{
    let count = vertices.len() / 3;
    let mut lo = vertices[axis];
    let mut hi = vertices[axis];
    let mut k: usize = 1;
    while k < count
        invariant
            axis < 3,
            1 <= k <= count,
            count == vertices.len() / 3,
            lo == axis_min(vertices@, axis as int, k as int),
            hi == axis_max(vertices@, axis as int, k as int),
        decreases count - k,
    {
        let x = vertices[3 * k + axis];
        if scalar_lt(x, lo) {
            lo = x;
        }
        if scalar_lt(hi, x) {
            hi = x;
        }
        k += 1;
    }
    (lo, hi)
}

/// The box that bounds a vertex buffer; `None` for a buffer without a vertex.
pub fn compute_bounds(vertices: &[Scalar]) -> (r: Option<Bounds>)
    ensures
        match r {
            Some(b) => vertices.len() >= 3 && b.deep_view() == bounds_of(vertices@),
            None => vertices.len() < 3,
        },
{
    if vertices.len() < 3 {
        return None;
    }
    let x = axis_extremes(vertices, 0);
    let y = axis_extremes(vertices, 1);
    let z = axis_extremes(vertices, 2);
    let b = Bounds { min: [x.0, y.0, z.0], max: [x.1, y.1, z.1] };
    Some(b)
}

/// Whether every value of a buffer is finite.
pub fn buffer_is_finite(buffer: &[Scalar]) -> (r: bool)
    ensures
        r == all_finite(buffer@),
{
    let mut i: usize = 0;
    while i < buffer.len()
        invariant
            i <= buffer.len(),
            forall|j: int| 0 <= j < i ==> is_finite(#[trigger] buffer@[j]),
        decreases buffer.len() - i,
    {
        if !scalar_is_finite(buffer[i]) {
            return false;
        }
        i += 1;
    }
    true
}

fn optional_is_finite(buffer: &Option<Vec<Scalar>>) -> (r: bool)
    ensures
        r == (buffer_view(*buffer) matches Some(b) ==> all_finite(b)),
{
    match buffer {
        Some(b) => buffer_is_finite(b.as_slice()),
        None => true,
    }
}

/// Whether every value of a buffer stays finite as a binary32 value.
pub fn buffer_is_narrow(buffer: &[Scalar]) -> (r: bool)
    ensures
        r == all_narrow(buffer@),
{
    let mut i: usize = 0;
    while i < buffer.len()
        invariant
            i <= buffer.len(),
            forall|j: int| 0 <= j < i ==> fits_single(#[trigger] buffer@[j]),
        decreases buffer.len() - i,
    {
        if !scalar_fits_single(buffer[i]) {
            return false;
        }
        i += 1;
    }
    true
}

fn optional_is_narrow(buffer: &Option<Vec<Scalar>>) -> (r: bool)
    ensures
        r == (buffer_view(*buffer) matches Some(b) ==> all_narrow(b)),
{
    match buffer {
        Some(b) => buffer_is_narrow(b.as_slice()),
        None => true,
    }
}

fn colour_is_narrow(color: Option<Color>) -> (r: bool)
    ensures
        r == colour_narrow(color),
{
    match color {
        Some(c) => scalar_fits_single(c.r) && scalar_fits_single(c.g) && scalar_fits_single(c.b)
            && scalar_fits_single(c.a),
        None => true,
    }
}

fn list_is_narrow(ms: &Vec<Material>) -> (r: bool)
    ensures
        r == colours_narrow(ms.deep_view()),
{
    let mut i: usize = 0;
    while i < ms.len()
        invariant
            i <= ms.len(),
            forall|j: int| 0 <= j < i ==> colour_narrow((#[trigger] ms.deep_view()[j]).color),
        decreases ms.len() - i,
    {
        assert(ms.deep_view()[i as int] == ms@[i as int].deep_view());
        if !colour_is_narrow(ms[i].color) {
            return false;
        }
        i += 1;
    }
    true
}

fn colours_are_narrow(materials: &Option<Vec<Material>>) -> (r: bool)
    ensures
        r == (materials.deep_view() matches Some(ms) ==> colours_narrow(ms)),
{
    match materials {
        None => true,
        Some(ms) => list_is_narrow(ms),
    }
}

fn indices_fit(indices: &[u16], count: usize) -> (r: bool)
    ensures
        r == indices_in_range(indices@, count as int),
{
    let mut i: usize = 0;
    while i < indices.len()
        invariant
            i <= indices.len(),
            forall|j: int| 0 <= j < i ==> (#[trigger] indices@[j] as int) < count,
        decreases indices.len() - i,
    {
        if indices[i] as usize >= count {
            return false;
        }
        i += 1;
    }
    true
}

fn is_unit_or_absent(x: Option<Scalar>) -> (r: bool)
    ensures
        r == unit_or_absent(x),
{
    match x {
        Some(bits) => bits <= ONE || bits == crate::scalar::SIGN_BIT,
        None => true,
    }
}

fn materials_fit(materials: &Vec<Material>) -> (r: bool)
    ensures
        r == materials_in_range(materials.deep_view()),
{
    let mut i: usize = 0;
    while i < materials.len()
        invariant
            i <= materials.len(),
            forall|j: int|
                0 <= j < i ==> unit_or_absent((#[trigger] materials.deep_view()[j]).metalness)
                    && unit_or_absent(materials.deep_view()[j].roughness),
        decreases materials.len() - i,
    {
        let m = &materials[i];
        assert(materials.deep_view()[i as int] == m.deep_view());
        if !is_unit_or_absent(m.metalness) || !is_unit_or_absent(m.roughness) {
            return false;
        }
        i += 1;
    }
    true
}

fn check_fit(
    vertices: &Vec<Scalar>,
    normals: &Option<Vec<Scalar>>,
    uvs: &Option<Vec<Scalar>>,
    indices: &Option<Vec<u16>>,
    materials: &Option<Vec<Material>>,
) -> (r: bool)
    ensures
        r == buffers_fit(
            vertices@,
            buffer_view(*normals),
            buffer_view(*uvs),
            buffer_view(*indices),
            materials.deep_view(),
        ),
{
    let n = vertices.len();
    if n % 3 != 0 {
        return false;
    }
    let count = n / 3;
    if let Some(v) = normals {
        if v.len() != n {
            return false;
        }
    }
    if let Some(v) = uvs {
        if v.len() != count * 2 {
            return false;
        }
    }
    match indices {
        Some(ix) => {
            if ix.len() % 3 != 0 || !indices_fit(ix.as_slice(), count) {
                return false;
            }
        },
        None => {
            if n % 9 != 0 {
                return false;
            }
        },
    }
    match materials {
        Some(ms) => materials_fit(ms),
        None => true,
    }
}

/// Makes a mesh of the given buffers: checks that they fit each other and
/// hold finite values that stay finite as binary32 values, and computes
/// the bounds from the vertices.
pub fn build_model(
    vertices: Vec<Scalar>,
    normals: Option<Vec<Scalar>>,
    uvs: Option<Vec<Scalar>>,
    indices: Option<Vec<u16>>,
    materials: Option<Vec<Material>>,
) -> (r: Result<ThreeDModelData, ParseFailure>)
    ensures
        viewed(r) == mesh_of(
            vertices@,
            buffer_view(normals),
            buffer_view(uvs),
            buffer_view(indices),
            materials.deep_view(),
        ),
        viewed(r) matches Ok(mesh) ==> mesh.well_formed(),
{
    if vertices.len() < 3 {
        return Err(ParseFailure::EmptyGeometry);
    }
    if !check_fit(&vertices, &normals, &uvs, &indices, &materials) {
        return Err(ParseFailure::InconsistentBuffers);
    }
    if !buffer_is_finite(vertices.as_slice()) || !optional_is_finite(&normals)
        || !optional_is_finite(&uvs) {
        return Err(ParseFailure::NonFinite);
    }
    if !buffer_is_narrow(vertices.as_slice()) || !optional_is_narrow(&normals)
        || !optional_is_narrow(&uvs) || !colours_are_narrow(&materials) {
        return Err(ParseFailure::OutOfRange);
    }
    match compute_bounds(vertices.as_slice()) {
        Some(bounds) => Ok(ThreeDModelData { vertices, normals, uvs, indices, materials, bounds }),
        None => Err(ParseFailure::EmptyGeometry),
    }
}

} // verus!

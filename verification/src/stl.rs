//! STL meshes, binary and ASCII.
//!
//! An STL file is a list of triangles, each with its own three vertices and
//! a facet normal. The decoder keeps that list as it stands: vertex `3k`,
//! `3k + 1` and `3k + 2` make triangle `k`, and each of the three carries the
//! facet's normal.
use crate::error::{viewed, ParseFailure};
use crate::geometry::{buffer_view, build_model, mesh_of, Mesh, ThreeDModelData};
use crate::number::{parse_scalar, scalar_of};
use crate::scalar::{widen, widen_single, Scalar};
use crate::text::{decode_text, split_words, text_is, text_of, texts, words};
use vstd::prelude::*;

verus! {

/// The length of a binary file's header: 80 bytes of comment and the facet count.
pub const HEADER_LEN: usize = 84;

/// The length of one facet in a binary file.
pub const FACET_LEN: usize = 50;

/// The greatest number of vertices that 16-bit indices can name.
pub const INDEX_LIMIT: usize = 65536;

/// The 32-bit number held in four bytes, least significant byte first.
pub open spec fn le_u32(bytes: Seq<u8>, at: int) -> u32 {
    (bytes[at] + 256 * bytes[at + 1] + 65536 * bytes[at + 2] + 16777216 * bytes[at + 3]) as u32
}

/// The number of facets that a binary file declares.
pub open spec fn facet_count(bytes: Seq<u8>) -> int {
    le_u32(bytes, 80) as int
}

/// Whether the bytes have the size of a binary STL file: a header and as
/// many facets as the header declares, and nothing more.
pub open spec fn is_binary(bytes: Seq<u8>) -> bool {
    bytes.len() >= HEADER_LEN && bytes.len() == HEADER_LEN + FACET_LEN * facet_count(bytes)
}

/// One of the twelve numbers of a facet in a binary file: slots 0 to 2 hold
/// the normal, slots 3 to 11 the three vertices.
pub open spec fn facet_scalar(bytes: Seq<u8>, facet: int, slot: int) -> Scalar {
    widen(le_u32(bytes, HEADER_LEN + FACET_LEN * facet + 4 * slot))
}

/// The nine vertex coordinates of one facet of a binary file.
pub open spec fn facet_vertices(bytes: Seq<u8>, facet: int) -> Seq<Scalar> {
    Seq::new(9, |i: int| facet_scalar(bytes, facet, 3 + i))
}

/// The normal of one facet of a binary file, once for each of its vertices.
pub open spec fn facet_normals(bytes: Seq<u8>, facet: int) -> Seq<Scalar> {
    Seq::new(9, |i: int| facet_scalar(bytes, facet, i % 3))
}

/// The vertex buffer of the first `facets` facets of a binary file.
pub open spec fn binary_vertices(bytes: Seq<u8>, facets: int) -> Seq<Scalar>
    decreases facets,
{
    if facets <= 0 {
        Seq::empty()
    } else {
        binary_vertices(bytes, facets - 1) + facet_vertices(bytes, facets - 1)
    }
}

/// The normal buffer of the first `facets` facets of a binary file: each
/// vertex has the normal of its facet.
pub open spec fn binary_normals(bytes: Seq<u8>, facets: int) -> Seq<Scalar>
    decreases facets,
{
    if facets <= 0 {
        Seq::empty()
    } else {
        binary_normals(bytes, facets - 1) + facet_normals(bytes, facets - 1)
    }
}

/// The indices of a list of triangles that share no vertex: 0, 1, 2 and so
/// on, as long as 16 bits can name every vertex.
pub open spec fn soup_indices(vertex_count: int) -> Option<Seq<u16>> {
    if vertex_count <= INDEX_LIMIT {
        Some(Seq::new(vertex_count as nat, |i: int| i as u16))
    } else {
        None
    }
}

/// The mesh that a binary STL file holds.
pub open spec fn binary_mesh(bytes: Seq<u8>) -> Result<Mesh, ParseFailure> {
    let n = facet_count(bytes);
    mesh_of(binary_vertices(bytes, n), Some(binary_normals(bytes, n)), None, soup_indices(3 * n), None)
}

fn read_le_u32(bytes: &[u8], at: usize) -> (r: u32)
    requires
        at + 4 <= bytes.len(),
    ensures
        r == le_u32(bytes@, at as int),
{
    bytes[at] as u32 + 256 * (bytes[at + 1] as u32) + 65536 * (bytes[at + 2] as u32) + 16777216 * (
    bytes[at + 3] as u32)
}

fn has_binary_size(bytes: &[u8]) -> (r: bool)
    ensures
        r == is_binary(bytes@),
{
    if bytes.len() < HEADER_LEN {
        return false;
    }
    let declared = read_le_u32(bytes, 80) as u64;
    let room = (bytes.len() - HEADER_LEN) as u64;
    room % 50 == 0 && room / 50 == declared
}

/// The indices 0, 1, 2 and so on for `vertex_count` vertices.
pub fn make_soup_indices(vertex_count: usize) -> (r: Option<Vec<u16>>)
    ensures
        buffer_view(r) == soup_indices(vertex_count as int),
{
    if vertex_count > INDEX_LIMIT {
        return None;
    }
    let mut out: Vec<u16> = Vec::new();
    let mut i: usize = 0;
    while i < vertex_count
        invariant
            i <= vertex_count <= INDEX_LIMIT,
            out@ == Seq::new(i as nat, |j: int| j as u16),
        decreases vertex_count - i,
    {
        out.push(i as u16);
        i += 1;
    }
    Some(out)
}

fn push_facet(bytes: &[u8], t: usize, vertices: &mut Vec<Scalar>, normals: &mut Vec<Scalar>)
    requires
        HEADER_LEN + FACET_LEN * (t + 1) <= bytes.len(),
    ensures
        final(vertices)@ == old(vertices)@ + facet_vertices(bytes@, t as int),
        final(normals)@ == old(normals)@ + facet_normals(bytes@, t as int),
{
    let base = HEADER_LEN + FACET_LEN * t;
    let nx = widen_single(read_le_u32(bytes, base));
    let ny = widen_single(read_le_u32(bytes, base + 4));
    let nz = widen_single(read_le_u32(bytes, base + 8));
    let mut j: usize = 0;
    while j < 9
        invariant
            j <= 9,
            base == HEADER_LEN + FACET_LEN * t,
            base + FACET_LEN <= bytes.len(),
            vertices@ == old(vertices)@ + Seq::new(
                j as nat,
                |i: int| facet_scalar(bytes@, t as int, 3 + i),
            ),
        decreases 9 - j,
    {
        vertices.push(widen_single(read_le_u32(bytes, base + 12 + 4 * j)));
        j += 1;
    }
    normals.push(nx);
    normals.push(ny);
    normals.push(nz);
    normals.push(nx);
    normals.push(ny);
    normals.push(nz);
    normals.push(nx);
    normals.push(ny);
    normals.push(nz);
}

fn decode_binary(bytes: &[u8]) -> (r: Result<ThreeDModelData, ParseFailure>)
    requires
        is_binary(bytes@),
    ensures
        viewed(r) == binary_mesh(bytes@),
        viewed(r) matches Ok(mesh) ==> mesh.well_formed(),
{
    let n = read_le_u32(bytes, 80) as usize;
    let mut vertices: Vec<Scalar> = Vec::new();
    let mut normals: Vec<Scalar> = Vec::new();
    let mut t: usize = 0;
    while t < n
        invariant
            t <= n,
            bytes.len() == HEADER_LEN + FACET_LEN * n,
            vertices@ == binary_vertices(bytes@, t as int),
            normals@ == binary_normals(bytes@, t as int),
        decreases n - t,
    {
        push_facet(bytes, t, &mut vertices, &mut normals);
        t += 1;
    }
    let indices = make_soup_indices(3 * n);
    build_model(vertices, Some(normals), None, indices, None)
}

/// The end of the line that `from` lies in: the position of the next line
/// feed, or the end of the text.
pub open spec fn line_end(s: Seq<char>, from: int) -> int
    decreases s.len() - from,
{
    if 0 <= from < s.len() && s[from] != '\n' {
        line_end(s, from + 1)
    } else {
        from
    }
}

/// Where the text behind the first line begins.
pub open spec fn body_start(s: Seq<char>) -> int {
    let e = line_end(s, 0);
    if e < s.len() {
        e + 1
    } else {
        e
    }
}

/// The number of words that make one facet.
pub const FACET_WORDS: usize = 21;

/// Whether the words from `q` on hold the key words of a facet at their places.
pub open spec fn facet_keywords(t: Seq<Seq<char>>, q: int) -> bool {
    &&& t[q] == "facet"@
    &&& t[q + 1] == "normal"@
    &&& t[q + 5] == "outer"@
    &&& t[q + 6] == "loop"@
    &&& t[q + 7] == "vertex"@
    &&& t[q + 11] == "vertex"@
    &&& t[q + 15] == "vertex"@
    &&& t[q + 19] == "endloop"@
    &&& t[q + 20] == "endfacet"@
}

/// The place, among the words of a facet, of its number `slot`: the three
/// components of the normal, then the three coordinates of each vertex.
pub open spec fn number_place(slot: int) -> int {
    if slot < 3 {
        2 + slot
    } else {
        8 + 4 * ((slot - 3) / 3) + (slot - 3) % 3
    }
}

/// The first `count` numbers of the facet whose words begin at `q`, if each
/// of them is a finite decimal literal.
pub open spec fn facet_numbers(t: Seq<Seq<char>>, q: int, count: int) -> Option<Seq<Scalar>>
    decreases count,
{
    if count <= 0 {
        Some(Seq::empty())
    } else {
        match facet_numbers(t, q, count - 1) {
            None => None,
            Some(before) => match scalar_of(t[q + number_place(count - 1)]) {
                None => None,
                Some(x) => Some(before.push(x)),
            },
        }
    }
}

/// The vertex and normal buffers of the facets whose words begin at `q`,
/// behind the buffers of the facets before them. The list of facets ends at
/// the word `endsolid`.
pub open spec fn ascii_facets(
    t: Seq<Seq<char>>,
    q: int,
    vertices: Seq<Scalar>,
    normals: Seq<Scalar>,
) -> Result<(Seq<Scalar>, Seq<Scalar>), ParseFailure>
    decreases t.len() - q,
{
    if q < 0 || q >= t.len() {
        Err(ParseFailure::Truncated)
    } else if t[q] == "endsolid"@ {
        Ok((vertices, normals))
    } else if q + FACET_WORDS > t.len() {
        Err(ParseFailure::Truncated)
    } else if !facet_keywords(t, q) {
        Err(ParseFailure::UnexpectedToken)
    } else {
        match facet_numbers(t, q, 12) {
            None => Err(ParseFailure::InvalidNumber),
            Some(n) => ascii_facets(
                t,
                q + FACET_WORDS,
                vertices + n.subrange(3, 12),
                normals + n.subrange(0, 3) + n.subrange(0, 3) + n.subrange(0, 3),
            ),
        }
    }
}

/// The mesh that an ASCII STL text holds: the first line begins with the
/// word `solid`, and the facets follow.
pub open spec fn ascii_mesh(s: Seq<char>) -> Result<Mesh, ParseFailure> {
    let header = words(s.subrange(0, line_end(s, 0)));
    let body = words(s.subrange(body_start(s), s.len() as int));
    if header.len() == 0 || header[0] != "solid"@ {
        Err(ParseFailure::MalformedHeader)
    } else {
        mesh_of_facets(ascii_facets(body, 0, Seq::empty(), Seq::empty()))
    }
}

/// The mesh made of the vertex and normal buffers of a list of facets.
pub open spec fn mesh_of_facets(
    facets: Result<(Seq<Scalar>, Seq<Scalar>), ParseFailure>,
) -> Result<Mesh, ParseFailure> {
    match facets {
        Err(e) => Err(e),
        Ok((vertices, normals)) => mesh_of(
            vertices,
            Some(normals),
            None,
            soup_indices(vertices.len() as int / 3),
            None,
        ),
    }
}

/// The mesh that an STL file holds. A file with the size of a binary file is
/// read as one; every other file is read as text.
pub open spec fn stl_mesh(bytes: Seq<u8>) -> Result<Mesh, ParseFailure> {
    if is_binary(bytes) {
        binary_mesh(bytes)
    } else {
        match text_of(bytes) {
            None => Err(ParseFailure::Truncated),
            Some(s) => ascii_mesh(s),
        }
    }
}

fn find_line_end(s: &[char]) -> (r: usize)
    ensures
        r == line_end(s@, 0),
        r <= s.len(),
{
    let mut i: usize = 0;
    while i < s.len() && s[i] != '\n'
        invariant
            i <= s.len(),
            line_end(s@, i as int) == line_end(s@, 0),
        decreases s.len() - i,
    {
        i += 1;
    }
    i
}

fn has_facet_keywords(t: &Vec<Vec<char>>, q: usize) -> (r: bool)
    requires
        q + FACET_WORDS <= t.len(),
    ensures
        r == facet_keywords(texts(t@), q as int),
{
    text_is(t[q].as_slice(), "facet") && text_is(t[q + 1].as_slice(), "normal") && text_is(
        t[q + 5].as_slice(),
        "outer",
    ) && text_is(t[q + 6].as_slice(), "loop") && text_is(t[q + 7].as_slice(), "vertex") && text_is(
        t[q + 11].as_slice(),
        "vertex",
    ) && text_is(t[q + 15].as_slice(), "vertex") && text_is(t[q + 19].as_slice(), "endloop")
        && text_is(t[q + 20].as_slice(), "endfacet")
}

proof fn lemma_numbers_stay_missing(t: Seq<Seq<char>>, q: int, have: int, want: int)
    requires
        0 <= have <= want,
        facet_numbers(t, q, have) is None,
    ensures
        facet_numbers(t, q, want) is None,
    decreases want - have,
{
    if have < want {
        lemma_numbers_stay_missing(t, q, have, want - 1);
    }
}

fn read_facet_numbers(t: &Vec<Vec<char>>, q: usize) -> (r: Option<Vec<Scalar>>)
    requires
        q + FACET_WORDS <= t.len(),
    ensures
        match facet_numbers(texts(t@), q as int, 12) {
            Some(n) => r matches Some(v) && v@ == n && n.len() == 12,
            None => r is None,
        },
{
    let mut out: Vec<Scalar> = Vec::new();
    let mut slot: usize = 0;
    while slot < 12
        invariant
            slot <= 12,
            q + FACET_WORDS <= t.len(),
            out@.len() == slot,
            facet_numbers(texts(t@), q as int, slot as int) == Some(out@),
        decreases 12 - slot,
    {
        let place: usize = if slot < 3 {
            2 + slot
        } else {
            8 + 4 * ((slot - 3) / 3) + (slot - 3) % 3
        };
        match parse_scalar(t[q + place].as_slice()) {
            None => {
                proof {
                    lemma_numbers_stay_missing(texts(t@), q as int, slot + 1, 12);
                }
                return None;
            },
            Some(x) => {
                out.push(x);
            },
        }
        slot += 1;
    }
    Some(out)
}

fn decode_ascii(s: &[char]) -> (r: Result<ThreeDModelData, ParseFailure>)
    ensures
        viewed(r) == ascii_mesh(s@),
        viewed(r) matches Ok(mesh) ==> mesh.well_formed(),
{
    let e = find_line_end(s);
    let header_text = crate::text::copy_range(s, 0, e);
    let header = split_words(header_text.as_slice());
    let start: usize = if e < s.len() {
        e + 1
    } else {
        e
    };
    let body_text = crate::text::copy_range(s, start, s.len());
    let t = split_words(body_text.as_slice());
    if header.len() == 0 {
        return Err(ParseFailure::MalformedHeader);
    }
    if !text_is(header[0].as_slice(), "solid") {
        return Err(ParseFailure::MalformedHeader);
    }
    let mut vertices: Vec<Scalar> = Vec::new();
    let mut normals: Vec<Scalar> = Vec::new();
    let mut q: usize = 0;
    let ghost body = texts(t@);
    loop
        invariant_except_break
            q <= t.len(),
            body == texts(t@),
            ascii_mesh(s@) == mesh_of_facets(ascii_facets(body, q as int, vertices@, normals@)),
        ensures
            ascii_mesh(s@) == mesh_of_facets(Ok((vertices@, normals@))),
        decreases t.len() - q,
    {
        if q >= t.len() {
            return Err(ParseFailure::Truncated);
        }
        if text_is(t[q].as_slice(), "endsolid") {
            break ;
        }
        if t.len() - q < FACET_WORDS {
            return Err(ParseFailure::Truncated);
        }
        if !has_facet_keywords(&t, q) {
            return Err(ParseFailure::UnexpectedToken);
        }
        match read_facet_numbers(&t, q) {
            None => {
                return Err(ParseFailure::InvalidNumber);
            },
            Some(n) => {
                let ghost v0 = vertices@;
                let ghost n0 = normals@;
                let mut j: usize = 3;
                while j < 12
                    invariant
                        3 <= j <= 12,
                        n@.len() == 12,
                        vertices@ == v0 + n@.subrange(3, j as int),
                    decreases 12 - j,
                {
                    vertices.push(n[j]);
                    j += 1;
                }
                let mut k: usize = 0;
                while k < 3
                    invariant
                        k <= 3,
                        n@.len() == 12,
                        normals@ == n0 + Seq::new((3 * k) as nat, |i: int| n@[i % 3]),
                    decreases 3 - k,
                {
                    normals.push(n[0]);
                    normals.push(n[1]);
                    normals.push(n[2]);
                    k += 1;
                }
                assert(normals@ =~= n0 + n@.subrange(0, 3) + n@.subrange(0, 3) + n@.subrange(0, 3));
                q += FACET_WORDS;
            },
        }
    }
    let indices = make_soup_indices(vertices.len() / 3);
    build_model(vertices, Some(normals), None, indices, None)
}

/// Reads an STL file, binary or ASCII.
pub fn load_stl_model(bytes: &[u8]) -> (r: Result<ThreeDModelData, ParseFailure>)
    ensures
        viewed(r) == stl_mesh(bytes@),
        viewed(r) matches Ok(mesh) ==> mesh.well_formed(),
{
    if has_binary_size(bytes) {
        decode_binary(bytes)
    } else {
        match decode_text(bytes) {
            None => Err(ParseFailure::Truncated),
            Some(s) => decode_ascii(s.as_slice()),
        }
    }
}

/// Every mesh that an STL file decodes to is well-formed.
pub proof fn lemma_stl_mesh_is_well_formed(bytes: Seq<u8>)
    ensures
        stl_mesh(bytes) matches Ok(mesh) ==> mesh.well_formed(),
{
}

} // verus!

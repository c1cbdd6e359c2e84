//! Wavefront OBJ meshes.
//!
//! The decoder reads the statements `v`, `vn`, `vt`, `f` and `usemtl` and
//! passes over every other line. Each corner of each face becomes one vertex
//! of the mesh, with the position, normal and texture coordinate that the
//! corner names; a face of more than three corners becomes a fan of
//! triangles around its first corner.
use crate::error::{viewed, ParseFailure};
use crate::geometry::{
    build_model, mesh_of, Material, MaterialView, Mesh, ThreeDModelData,
};
use crate::number::{parse_scalar, scalar_of};
use crate::scalar::Scalar;
use crate::stl::{make_soup_indices, soup_indices};
use crate::text::{
    copy_range, decode_text, lines, parse_unsigned, split_lines, split_words, string_from_chars,
    text_is, text_of, texts, unsigned_of, words,
};
use vstd::prelude::*;

verus! {

/// What has been read of an OBJ file.
pub struct ObjView {
    /// The coordinates of the `v` statements, three each.
    pub positions: Seq<Scalar>,
    /// The components of the `vn` statements, three each.
    pub normals: Seq<Scalar>,
    /// The coordinates of the `vt` statements, two each.
    pub uvs: Seq<Scalar>,
    /// The positions of the corners of the triangles, three coordinates each.
    pub out_vertices: Seq<Scalar>,
    /// The normals of the corners that name one.
    pub out_normals: Seq<Scalar>,
    /// The texture coordinates of the corners that name one.
    pub out_uvs: Seq<Scalar>,
    /// The names of the materials in use, each once, in the order of first use.
    pub materials: Seq<Seq<char>>,
}

/// The state before the first line.
pub open spec fn obj_start() -> ObjView {
    ObjView {
        positions: Seq::empty(),
        normals: Seq::empty(),
        uvs: Seq::empty(),
        out_vertices: Seq::empty(),
        out_normals: Seq::empty(),
        out_uvs: Seq::empty(),
        materials: Seq::empty(),
    }
}

/// The parts of `s` between slashes, from position `from` on, where
/// `current` holds the characters of the part that is being read.
pub open spec fn parts_from(s: Seq<char>, from: int, current: Seq<char>) -> Seq<Seq<char>>
    decreases s.len() - from,
{
    if from < 0 || from >= s.len() {
        seq![current]
    } else if s[from] == '/' {
        seq![current] + parts_from(s, from + 1, Seq::empty())
    } else {
        parts_from(s, from + 1, current.push(s[from]))
    }
}

/// The parts of a face corner: what stands between its slashes.
pub open spec fn corner_parts(word: Seq<char>) -> Seq<Seq<char>> {
    parts_from(word, 0, Seq::empty())
}

/// The place, counted from zero, that an index names among `count` items:
/// a positive index counts from the first item, a negative one from the last.
pub open spec fn place_of(index: Seq<char>, count: int) -> Option<int> {
    if index.len() > 0 && index[0] == '-' {
        match unsigned_of(index.subrange(1, index.len() as int)) {
            Some(n) if 1 <= n <= count => Some(count - n),
            _ => None,
        }
    } else {
        match unsigned_of(index) {
            Some(n) if 1 <= n <= count => Some(n - 1),
            _ => None,
        }
    }
}

/// A corner of a face: the places of its position, texture coordinate and normal.
pub struct Corner {
    pub position: int,
    pub uv: Option<int>,
    pub normal: Option<int>,
}

/// The place that an optional part of a corner names: `Ok(None)` where the
/// part is absent or empty, a failure where it names nothing.
pub open spec fn optional_place(
    parts: Seq<Seq<char>>,
    which: int,
    count: int,
) -> Result<Option<int>, ParseFailure> {
    if which >= parts.len() || parts[which].len() == 0 {
        Ok(None)
    } else {
        match place_of(parts[which], count) {
            Some(p) => Ok(Some(p)),
            None => Err(ParseFailure::InvalidReference),
        }
    }
}

/// The corner that a word of a face statement names.
pub open spec fn corner_of(word: Seq<char>, s: ObjView) -> Result<Corner, ParseFailure> {
    let parts = corner_parts(word);
    if parts.len() > 3 {
        Err(ParseFailure::UnexpectedToken)
    } else {
        match place_of(parts[0], s.positions.len() as int / 3) {
            None => Err(ParseFailure::InvalidReference),
            Some(position) => match optional_place(parts, 1, s.uvs.len() as int / 2) {
                Err(e) => Err(e),
                Ok(uv) => match optional_place(parts, 2, s.normals.len() as int / 3) {
                    Err(e) => Err(e),
                    Ok(normal) => Ok(Corner { position, uv, normal }),
                },
            },
        }
    }
}

/// The state with one more corner among its triangles.
pub open spec fn with_corner(s: ObjView, c: Corner) -> ObjView {
    ObjView {
        out_vertices: s.out_vertices + s.positions.subrange(3 * c.position, 3 * c.position + 3),
        out_normals: match c.normal {
            Some(n) => s.out_normals + s.normals.subrange(3 * n, 3 * n + 3),
            None => s.out_normals,
        },
        out_uvs: match c.uv {
            Some(t) => s.out_uvs + s.uvs.subrange(2 * t, 2 * t + 2),
            None => s.out_uvs,
        },
        ..s
    }
}

/// The corners that the words from `from` up to `upto` name.
pub open spec fn corners_of(
    w: Seq<Seq<char>>,
    s: ObjView,
    from: int,
    upto: int,
) -> Result<Seq<Corner>, ParseFailure>
    decreases upto - from,
{
    if upto <= from {
        Ok(Seq::empty())
    } else {
        match corners_of(w, s, from, upto - 1) {
            Err(e) => Err(e),
            Ok(before) => match corner_of(w[upto - 1], s) {
                Err(e) => Err(e),
                Ok(c) => Ok(before.push(c)),
            },
        }
    }
}

/// The state with the first `n` triangles of the fan around the first corner.
pub open spec fn with_fan(s: ObjView, corners: Seq<Corner>, n: int) -> ObjView
    decreases n,
{
    if n <= 0 {
        s
    } else {
        with_corner(
            with_corner(with_corner(with_fan(s, corners, n - 1), corners[0]), corners[n]),
            corners[n + 1],
        )
    }
}

/// The numbers that the words from `from` up to `upto` spell.
pub open spec fn scalars_of(w: Seq<Seq<char>>, from: int, upto: int) -> Option<Seq<Scalar>>
    decreases upto - from,
{
    if upto <= from {
        Some(Seq::empty())
    } else {
        match scalars_of(w, from, upto - 1) {
            None => None,
            Some(before) => match scalar_of(w[upto - 1]) {
                None => None,
                Some(x) => Some(before.push(x)),
            },
        }
    }
}

/// The names with `name` among them: added at the end unless already there.
pub open spec fn with_name(names: Seq<Seq<char>>, name: Seq<char>) -> Seq<Seq<char>> {
    if names.contains(name) {
        names
    } else {
        names.push(name)
    }
}

/// The state behind one line, given as its words.
pub open spec fn obj_step(s: ObjView, w: Seq<Seq<char>>) -> Result<ObjView, ParseFailure> {
    if w.len() == 0 {
        Ok(s)
    } else if w[0] == "v"@ {
        if w.len() < 4 {
            Err(ParseFailure::UnexpectedToken)
        } else {
            match scalars_of(w, 1, 4) {
                None => Err(ParseFailure::InvalidNumber),
                Some(xyz) => Ok(ObjView { positions: s.positions + xyz, ..s }),
            }
        }
    } else if w[0] == "vn"@ {
        if w.len() < 4 {
            Err(ParseFailure::UnexpectedToken)
        } else {
            match scalars_of(w, 1, 4) {
                None => Err(ParseFailure::InvalidNumber),
                Some(xyz) => Ok(ObjView { normals: s.normals + xyz, ..s }),
            }
        }
    } else if w[0] == "vt"@ {
        if w.len() < 2 {
            Err(ParseFailure::UnexpectedToken)
        } else if w.len() == 2 {
            match scalar_of(w[1]) {
                None => Err(ParseFailure::InvalidNumber),
                Some(u) => Ok(ObjView { uvs: s.uvs.push(u).push(0), ..s }),
            }
        } else {
            match scalars_of(w, 1, 3) {
                None => Err(ParseFailure::InvalidNumber),
                Some(uv) => Ok(ObjView { uvs: s.uvs + uv, ..s }),
            }
        }
    } else if w[0] == "f"@ {
        if w.len() < 4 {
            Err(ParseFailure::UnexpectedToken)
        } else {
            match corners_of(w, s, 1, w.len() as int) {
                Err(e) => Err(e),
                Ok(corners) => Ok(with_fan(s, corners, corners.len() - 2)),
            }
        }
    } else if w[0] == "usemtl"@ {
        if w.len() < 2 {
            Err(ParseFailure::UnexpectedToken)
        } else {
            Ok(ObjView { materials: with_name(s.materials, w[1]), ..s })
        }
    } else {
        Ok(s)
    }
}

/// The state behind the first `n` lines.
pub open spec fn obj_state(ls: Seq<Seq<char>>, n: int) -> Result<ObjView, ParseFailure>
    decreases n,
{
    if n <= 0 {
        Ok(obj_start())
    } else {
        match obj_state(ls, n - 1) {
            Err(e) => Err(e),
            Ok(s) => obj_step(s, words(ls[n - 1])),
        }
    }
}

/// The materials of the given names, with nothing known of them but the name.
pub open spec fn named_materials(names: Seq<Seq<char>>) -> Option<Seq<MaterialView>> {
    if names.len() == 0 {
        None
    } else {
        Some(
            Seq::new(
                names.len(),
                |i: int|
                    MaterialView { name: names[i], color: None, metalness: None, roughness: None },
            ),
        )
    }
}

/// The mesh of a state: its triangles' corners, with normals where every
/// corner has one and texture coordinates where every corner has one.
pub open spec fn obj_finish(s: ObjView) -> Result<Mesh, ParseFailure> {
    mesh_of(
        s.out_vertices,
        if s.out_normals.len() == s.out_vertices.len() {
            Some(s.out_normals)
        } else {
            None
        },
        if s.out_uvs.len() * 3 == s.out_vertices.len() * 2 {
            Some(s.out_uvs)
        } else {
            None
        },
        soup_indices(s.out_vertices.len() as int / 3),
        named_materials(s.materials),
    )
}

/// The mesh that an OBJ text holds.
pub open spec fn obj_text_mesh(s: Seq<char>) -> Result<Mesh, ParseFailure> {
    match obj_state(lines(s), lines(s).len() as int) {
        Err(e) => Err(e),
        Ok(state) => obj_finish(state),
    }
}

/// The mesh that an OBJ file holds.
pub open spec fn obj_mesh(bytes: Seq<u8>) -> Result<Mesh, ParseFailure> {
    match text_of(bytes) {
        None => Err(ParseFailure::InvalidText),
        Some(s) => obj_text_mesh(s),
    }
}

/// What has been read of an OBJ file.
struct ObjState {
    positions: Vec<Scalar>,
    normals: Vec<Scalar>,
    uvs: Vec<Scalar>,
    out_vertices: Vec<Scalar>,
    out_normals: Vec<Scalar>,
    out_uvs: Vec<Scalar>,
    materials: Vec<Vec<char>>,
}

impl View for ObjState {
    type V = ObjView;

    closed spec fn view(&self) -> ObjView {
        ObjView {
            positions: self.positions@,
            normals: self.normals@,
            uvs: self.uvs@,
            out_vertices: self.out_vertices@,
            out_normals: self.out_normals@,
            out_uvs: self.out_uvs@,
            materials: texts(self.materials@),
        }
    }
}

/// A corner of a face, as places in the buffers.
struct Places {
    position: usize,
    uv: Option<usize>,
    normal: Option<usize>,
}

impl View for Places {
    type V = Corner;

    closed spec fn view(&self) -> Corner {
        Corner {
            position: self.position as int,
            uv: match self.uv {
                Some(t) => Some(t as int),
                None => None,
            },
            normal: match self.normal {
                Some(n) => Some(n as int),
                None => None,
            },
        }
    }
}

/// The views of a list of corners.
spec fn corner_views(v: Seq<Places>) -> Seq<Corner> {
    Seq::new(v.len(), |i: int| v[i]@)
}

fn split_corner(word: &[char]) -> (r: Vec<Vec<char>>)
    ensures
        texts(r@) == corner_parts(word@),
        r.len() >= 1,
{
    let mut out: Vec<Vec<char>> = Vec::new();
    let mut current: Vec<char> = Vec::new();
    let mut i: usize = 0;
    while i < word.len()
        invariant
            i <= word.len(),
            texts(out@) + parts_from(word@, i as int, current@) == corner_parts(word@),
        decreases word.len() - i,
    {
        let c = word[i];
        if c == '/' {
            out.push(current);
            current = Vec::new();
        } else {
            current.push(c);
        }
        i += 1;
    }
    out.push(current);
    out
}

fn find_place(index: &[char], count: usize) -> (r: Option<usize>)
    ensures
        match place_of(index@, count as int) {
            Some(p) => r == Some(p as usize) && 0 <= p < count,
            None => r is None,
        },
{
    if index.len() > 0 && index[0] == '-' {
        let digits = copy_range(index, 1, index.len());
        match parse_unsigned(digits.as_slice()) {
            Some(n) => if 1 <= n && n <= count as u64 {
                Some(count - n as usize)
            } else {
                None
            },
            None => None,
        }
    } else {
        match parse_unsigned(index) {
            Some(n) => if 1 <= n && n <= count as u64 {
                Some((n - 1) as usize)
            } else {
                None
            },
            None => None,
        }
    }
}

fn find_optional_place(parts: &Vec<Vec<char>>, which: usize, count: usize) -> (r: Result<
    Option<usize>,
    ParseFailure,
>)
    ensures
        match optional_place(texts(parts@), which as int, count as int) {
            Ok(Some(p)) => r == Ok::<_, ParseFailure>(Some(p as usize)) && 0 <= p < count,
            Ok(None) => r == Ok::<Option<usize>, ParseFailure>(None),
            Err(e) => r == Err::<Option<usize>, _>(e),
        },
{
    if which >= parts.len() || parts[which].len() == 0 {
        Ok(None)
    } else {
        match find_place(parts[which].as_slice(), count) {
            Some(p) => Ok(Some(p)),
            None => Err(ParseFailure::InvalidReference),
        }
    }
}

fn read_corner(word: &[char], state: &ObjState) -> (r: Result<Places, ParseFailure>)
    ensures
        match corner_of(word@, state@) {
            Ok(c) => r matches Ok(p) && p@ == c && corner_fits(c, state@),
            Err(e) => r matches Err(x) && x == e,
        },
{
    let parts = split_corner(word);
    if parts.len() > 3 {
        return Err(ParseFailure::UnexpectedToken);
    }
    let position = match find_place(parts[0].as_slice(), state.positions.len() / 3) {
        None => {
            return Err(ParseFailure::InvalidReference);
        },
        Some(p) => p,
    };
    let uv = match find_optional_place(&parts, 1, state.uvs.len() / 2) {
        Err(e) => {
            return Err(e);
        },
        Ok(t) => t,
    };
    let normal = match find_optional_place(&parts, 2, state.normals.len() / 3) {
        Err(e) => {
            return Err(e);
        },
        Ok(n) => n,
    };
    Ok(Places { position, uv, normal })
}

/// Whether the places of a corner lie inside the buffers of a state.
pub open spec fn corner_fits(c: Corner, s: ObjView) -> bool {
    &&& 0 <= c.position < s.positions.len() as int / 3
    &&& (c.uv matches Some(t) ==> 0 <= t < s.uvs.len() as int / 2)
    &&& (c.normal matches Some(n) ==> 0 <= n < s.normals.len() as int / 3)
}

fn push_range(out: &mut Vec<Scalar>, from: &Vec<Scalar>, start: usize, count: usize)
    requires
        start + count <= from.len(),
    ensures
        final(out)@ == old(out)@ + from@.subrange(start as int, start + count),
{
    let mut i: usize = 0;
    while i < count
        invariant
            i <= count,
            start + count <= from.len(),
            out@ == old(out)@ + from@.subrange(start as int, start + i),
        decreases count - i,
    {
        out.push(from[start + i]);
        i += 1;
    }
}

fn add_corner(state: &mut ObjState, c: &Places)
    requires
        corner_fits(c@, old(state)@),
    ensures
        final(state)@ == with_corner(old(state)@, c@),
{
    assert(c.position < state.positions.len() / 3);
    assert(c.normal matches Some(n) ==> n < state.normals.len() / 3);
    assert(c.uv matches Some(t) ==> t < state.uvs.len() / 2);
    push_range(&mut state.out_vertices, &state.positions, 3 * c.position, 3);
    match c.normal {
        Some(n) => {
            push_range(&mut state.out_normals, &state.normals, 3 * n, 3);
        },
        None => {},
    }
    match c.uv {
        Some(t) => {
            push_range(&mut state.out_uvs, &state.uvs, 2 * t, 2);
        },
        None => {},
    }
}

proof fn lemma_corners_fail(w: Seq<Seq<char>>, s: ObjView, from: int, have: int, want: int)
    requires
        from <= have <= want,
        corners_of(w, s, from, have) is Err,
    ensures
        corners_of(w, s, from, want) == corners_of(w, s, from, have),
    decreases want - have,
{
    if have < want {
        lemma_corners_fail(w, s, from, have, want - 1);
    }
}

proof fn lemma_scalars_fail(w: Seq<Seq<char>>, from: int, have: int, want: int)
    requires
        from <= have <= want,
        scalars_of(w, from, have) is None,
    ensures
        scalars_of(w, from, want) is None,
    decreases want - have,
{
    if have < want {
        lemma_scalars_fail(w, from, have, want - 1);
    }
}

fn read_scalars(w: &Vec<Vec<char>>, from: usize, upto: usize) -> (r: Option<Vec<Scalar>>)
    requires
        from <= upto <= w.len(),
    ensures
        match scalars_of(texts(w@), from as int, upto as int) {
            Some(xs) => r matches Some(v) && v@ == xs && xs.len() == upto - from,
            None => r is None,
        },
{
    let mut out: Vec<Scalar> = Vec::new();
    let mut i: usize = from;
    while i < upto
        invariant
            from <= i <= upto <= w.len(),
            out@.len() == i - from,
            scalars_of(texts(w@), from as int, i as int) == Some(out@),
        decreases upto - i,
    {
        assert(texts(w@)[i as int] == w@[i as int]@);
        match parse_scalar(w[i].as_slice()) {
            None => {
                proof {
                    lemma_scalars_fail(texts(w@), from as int, i + 1, upto as int);
                }
                return None;
            },
            Some(x) => {
                out.push(x);
            },
        }
        i += 1;
    }
    Some(out)
}

fn read_corners(w: &Vec<Vec<char>>, state: &ObjState) -> (r: Result<Vec<Places>, ParseFailure>)
    requires
        1 <= w.len(),
    ensures
        match corners_of(texts(w@), state@, 1, w.len() as int) {
            Ok(cs) => r matches Ok(v) && corner_views(v@) == cs && cs.len() == w.len() - 1
                && forall|i: int| 0 <= i < cs.len() ==> corner_fits(#[trigger] cs[i], state@),
            Err(e) => r matches Err(x) && x == e,
        },
{
    let mut out: Vec<Places> = Vec::new();
    let mut i: usize = 1;
    assert(corner_views(out@) =~= Seq::empty());
    while i < w.len()
        invariant
            1 <= i <= w.len(),
            out@.len() == i - 1,
            corners_of(texts(w@), state@, 1, i as int) == Ok::<_, ParseFailure>(corner_views(out@)),
            forall|j: int|
                0 <= j < out@.len() ==> corner_fits(#[trigger] corner_views(out@)[j], state@),
        decreases w.len() - i,
    {
        let ghost before = corner_views(out@);
        match read_corner(w[i].as_slice(), state) {
            Err(e) => {
                proof {
                    lemma_corners_fail(texts(w@), state@, 1, i + 1, w.len() as int);
                }
                return Err(e);
            },
            Ok(c) => {
                out.push(c);
                assert(corner_views(out@) =~= before.push(c@));
            },
        }
        i += 1;
    }
    Ok(out)
}

proof fn lemma_fan_keeps_inputs(s: ObjView, corners: Seq<Corner>, n: int)
    ensures
        with_fan(s, corners, n).positions == s.positions,
        with_fan(s, corners, n).normals == s.normals,
        with_fan(s, corners, n).uvs == s.uvs,
        with_fan(s, corners, n).materials == s.materials,
    decreases n,
{
    if n > 0 {
        lemma_fan_keeps_inputs(s, corners, n - 1);
    }
}

fn add_fan(state: &mut ObjState, corners: &Vec<Places>)
    requires
        corners.len() >= 3,
        forall|i: int|
            0 <= i < corners.len() ==> corner_fits(#[trigger] corner_views(corners@)[i], old(state)@),
    ensures
        final(state)@ == with_fan(old(state)@, corner_views(corners@), corners.len() - 2),
{
    let mut n: usize = 0;
    let ghost start = state@;
    let ghost cs = corner_views(corners@);
    while n < corners.len() - 2
        invariant
            n <= corners.len() - 2,
            corners.len() >= 3,
            cs == corner_views(corners@),
            state@ == with_fan(start, cs, n as int),
            forall|i: int| 0 <= i < corners.len() ==> corner_fits(#[trigger] cs[i], start),
        decreases corners.len() - 2 - n,
    {
        proof {
            lemma_fan_keeps_inputs(start, cs, n as int);
            assert(corner_fits(cs[n + 2], start));
        }
        add_corner(state, &corners[0]);
        add_corner(state, &corners[n + 1]);
        add_corner(state, &corners[n + 2]);
        n += 1;
    }
}

fn holds_name(names: &Vec<Vec<char>>, name: &[char]) -> (r: bool)
    ensures
        r == texts(names@).contains(name@),
{
    let mut i: usize = 0;
    while i < names.len()
        invariant
            i <= names.len(),
            forall|j: int| 0 <= j < i ==> texts(names@)[j] != name@,
        decreases names.len() - i,
    {
        if crate::text::text_eq(names[i].as_slice(), name) {
            assert(texts(names@)[i as int] == name@);
            return true;
        }
        i += 1;
    }
    false
}

fn apply_line(state: &mut ObjState, w: &Vec<Vec<char>>) -> (r: Result<(), ParseFailure>)
    ensures
        match obj_step(old(state)@, texts(w@)) {
            Ok(next) => r is Ok && final(state)@ == next,
            Err(e) => r matches Err(x) && x == e,
        },
{
    if w.len() == 0 {
        return Ok(());
    }
    let head = w[0].as_slice();
    if text_is(head, "v") {
        if w.len() < 4 {
            return Err(ParseFailure::UnexpectedToken);
        }
        match read_scalars(w, 1, 4) {
            None => Err(ParseFailure::InvalidNumber),
            Some(xyz) => {
                push_range(&mut state.positions, &xyz, 0, 3);
                assert(xyz@.subrange(0, 3) =~= xyz@);
                Ok(())
            },
        }
    } else if text_is(head, "vn") {
        if w.len() < 4 {
            return Err(ParseFailure::UnexpectedToken);
        }
        match read_scalars(w, 1, 4) {
            None => Err(ParseFailure::InvalidNumber),
            Some(xyz) => {
                push_range(&mut state.normals, &xyz, 0, 3);
                assert(xyz@.subrange(0, 3) =~= xyz@);
                Ok(())
            },
        }
    } else if text_is(head, "vt") {
        if w.len() < 2 {
            return Err(ParseFailure::UnexpectedToken);
        }
        if w.len() == 2 {
            match parse_scalar(w[1].as_slice()) {
                None => Err(ParseFailure::InvalidNumber),
                Some(u) => {
                    state.uvs.push(u);
                    state.uvs.push(0);
                    Ok(())
                },
            }
        } else {
            match read_scalars(w, 1, 3) {
                None => Err(ParseFailure::InvalidNumber),
                Some(uv) => {
                    push_range(&mut state.uvs, &uv, 0, 2);
                    assert(uv@.subrange(0, 2) =~= uv@);
                    Ok(())
                },
            }
        }
    } else if text_is(head, "f") {
        if w.len() < 4 {
            return Err(ParseFailure::UnexpectedToken);
        }
        match read_corners(w, state) {
            Err(e) => Err(e),
            Ok(corners) => {
                add_fan(state, &corners);
                Ok(())
            },
        }
    } else if text_is(head, "usemtl") {
        if w.len() < 2 {
            return Err(ParseFailure::UnexpectedToken);
        }
        if !holds_name(&state.materials, w[1].as_slice()) {
            let ghost before = texts(state.materials@);
            let name = copy_range(w[1].as_slice(), 0, w[1].len());
            assert(name@ =~= w@[1]@);
            state.materials.push(name);
            assert(texts(state.materials@) =~= before.push(w@[1]@));
        }
        Ok(())
    } else {
        Ok(())
    }
}

fn make_materials(names: &Vec<Vec<char>>) -> (r: Option<Vec<Material>>)
    ensures
        r.deep_view() == named_materials(texts(names@)),
{
    if names.len() == 0 {
        return None;
    }
    let mut out: Vec<Material> = Vec::new();
    let mut i: usize = 0;
    while i < names.len()
        invariant
            i <= names.len(),
            out.deep_view() == Seq::new(
                i as nat,
                |j: int|
                    MaterialView {
                        name: texts(names@)[j],
                        color: None,
                        metalness: None,
                        roughness: None,
                    },
            ),
        decreases names.len() - i,
    {
        let ghost before = out.deep_view();
        let m = Material {
            name: string_from_chars(names[i].as_slice()),
            color: None,
            metalness: None,
            roughness: None,
        };
        out.push(m);
        assert(out.deep_view() =~= before.push(m.deep_view()));
        i += 1;
    }
    Some(out)
}

proof fn lemma_state_fails(ls: Seq<Seq<char>>, have: int, want: int)
    requires
        0 <= have <= want,
        obj_state(ls, have) is Err,
    ensures
        obj_state(ls, want) == obj_state(ls, have),
    decreases want - have,
{
    if have < want {
        lemma_state_fails(ls, have, want - 1);
    }
}

fn decode_obj_text(s: &[char]) -> (r: Result<ThreeDModelData, ParseFailure>)
    ensures
        viewed(r) == obj_text_mesh(s@),
        viewed(r) matches Ok(mesh) ==> mesh.well_formed(),
{
    let ls = split_lines(s);
    let mut state = ObjState {
        positions: Vec::new(),
        normals: Vec::new(),
        uvs: Vec::new(),
        out_vertices: Vec::new(),
        out_normals: Vec::new(),
        out_uvs: Vec::new(),
        materials: Vec::new(),
    };
    assert(texts(state.materials@) =~= Seq::empty());
    let mut i: usize = 0;
    while i < ls.len()
        invariant
            i <= ls.len(),
            texts(ls@) == lines(s@),
            obj_state(lines(s@), i as int) == Ok::<_, ParseFailure>(state@),
        decreases ls.len() - i,
    {
        let w = split_words(ls[i].as_slice());
        match apply_line(&mut state, &w) {
            Err(e) => {
                proof {
                    lemma_state_fails(lines(s@), i + 1, lines(s@).len() as int);
                }
                return Err(e);
            },
            Ok(()) => {},
        }
        i += 1;
    }
    let indices = make_soup_indices(state.out_vertices.len() / 3);
    let materials = make_materials(&state.materials);
    let normals = if state.out_normals.len() == state.out_vertices.len() {
        Some(state.out_normals)
    } else {
        None
    };
    let uvs = if state.out_vertices.len() % 3 == 0 && state.out_uvs.len() == state.out_vertices.len()
        / 3 * 2 {
        Some(state.out_uvs)
    } else {
        None
    };
    build_model(state.out_vertices, normals, uvs, indices, materials)
}

/// Reads an OBJ file.
pub fn load_obj_model(bytes: &[u8]) -> (r: Result<ThreeDModelData, ParseFailure>)
    ensures
        viewed(r) == obj_mesh(bytes@),
        viewed(r) matches Ok(mesh) ==> mesh.well_formed(),
{
    match decode_text(bytes) {
        None => Err(ParseFailure::InvalidText),
        Some(s) => decode_obj_text(s.as_slice()),
    }
}

/// Every mesh that an OBJ file decodes to is well-formed.
pub proof fn lemma_obj_mesh_is_well_formed(bytes: Seq<u8>)
    ensures
        obj_mesh(bytes) matches Ok(mesh) ==> mesh.well_formed(),
{
}

} // verus!

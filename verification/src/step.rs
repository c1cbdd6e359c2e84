//! STEP files (ISO 10303-21) with faceted geometry.
//!
//! The decoder reads the points (`CARTESIAN_POINT`) and the polygons
//! (`POLY_LOOP`) of a file. Each polygon becomes a fan of triangles around
//! its first point. Each colour (`COLOUR_RGB`) becomes a material. Faces that are bounded by curves (`EDGE_LOOP`,
//! `VERTEX_LOOP`, `ADVANCED_FACE`) would have to be tessellated; a file that
//! holds one is rejected as holding an entity that the decoder does not read.
use crate::error::{viewed, ParseFailure};
use crate::geometry::{
    build_model, mesh_of, Color, Material, MaterialView, Mesh, ThreeDModelData, ONE,
};
use crate::markup::{
    after_item, ahead, atom_at, atom_value, balanced, is_item, is_kind, item_at,
    lemma_nesting_of_push, list_at, nesting, never_negative, read_atom, skip_item, Token,
    TokenKind, TokenView,
};
use crate::number::{parse_scalar, scalar_of};
use crate::scalar::Scalar;
use crate::stl::{make_soup_indices, soup_indices};
use crate::text::{
    char_is_space, copy_range, decode_text, is_space, parse_unsigned, text_is, text_of,
    unsigned_of,
};
use vstd::prelude::*;

verus! {

/// What the reader is in the middle of.
#[derive(Clone, Copy, Debug, PartialEq, Eq, Structural)]
pub enum StepMode {
    /// Between tokens.
    Between,
    /// Inside a word, a number or a reference.
    Word,
    /// Inside a string.
    Quoted,
    /// Behind an apostrophe inside a string: the string ends here unless
    /// another apostrophe follows.
    QuoteSeen,
    /// Behind `/`.
    Slash,
    /// Inside a comment.
    Comment,
    /// Inside a comment, behind `*`.
    CommentStar,
}

/// What has been read of an exchange file.
pub struct Lexing {
    pub tokens: Seq<TokenView>,
    /// The number of brackets that are open.
    pub depth: int,
    pub mode: StepMode,
    /// The characters of the word or string that is being read.
    pub current: Seq<char>,
}

/// A token that holds a value and no name.
pub open spec fn plain(kind: TokenKind, value: Seq<char>) -> TokenView {
    TokenView { kind, name: Seq::empty(), value }
}

/// The state with the word that is being read closed as an atom.
pub open spec fn word_done(s: Lexing) -> Lexing {
    if s.mode == StepMode::Word {
        Lexing {
            tokens: s.tokens.push(plain(TokenKind::Atom, s.current)),
            mode: StepMode::Between,
            current: Seq::empty(),
            ..s
        }
    } else {
        s
    }
}

/// The state with the string that was read closed as a text token.
pub open spec fn string_done(s: Lexing) -> Lexing {
    Lexing {
        tokens: s.tokens.push(plain(TokenKind::Text, s.current)),
        mode: StepMode::Between,
        current: Seq::empty(),
        ..s
    }
}

/// The state behind one more character, outside strings and comments.
pub open spec fn lex_plain(s: Lexing, c: char) -> Result<Lexing, ParseFailure> {
    if c == '(' {
        let w = word_done(s);
        Ok(
            Lexing {
                tokens: w.tokens.push(plain(TokenKind::Open, Seq::empty())),
                depth: w.depth + 1,
                ..w
            },
        )
    } else if c == ')' {
        let w = word_done(s);
        if w.depth <= 0 {
            Err(ParseFailure::InvalidSyntax)
        } else {
            Ok(
                Lexing {
                    tokens: w.tokens.push(plain(TokenKind::Close, Seq::empty())),
                    depth: w.depth - 1,
                    ..w
                },
            )
        }
    } else if c == ',' || is_space(c) {
        Ok(word_done(s))
    } else if c == '=' || c == ';' {
        let w = word_done(s);
        Ok(Lexing { tokens: w.tokens.push(plain(TokenKind::Atom, seq![c])), ..w })
    } else if c == '\'' {
        Ok(Lexing { mode: StepMode::Quoted, ..word_done(s) })
    } else if c == '/' {
        Ok(Lexing { mode: StepMode::Slash, ..word_done(s) })
    } else {
        Ok(Lexing { mode: StepMode::Word, current: s.current.push(c), ..s })
    }
}

/// The state behind one more character.
pub open spec fn lex_char(s: Lexing, c: char) -> Result<Lexing, ParseFailure> {
    match s.mode {
        StepMode::Between => lex_plain(s, c),
        StepMode::Word => lex_plain(s, c),
        StepMode::Quoted => if c == '\'' {
            Ok(Lexing { mode: StepMode::QuoteSeen, ..s })
        } else {
            Ok(Lexing { current: s.current.push(c), ..s })
        },
        StepMode::QuoteSeen => if c == '\'' {
            Ok(Lexing { mode: StepMode::Quoted, current: s.current.push(c), ..s })
        } else {
            lex_plain(string_done(s), c)
        },
        StepMode::Slash => if c == '*' {
            Ok(Lexing { mode: StepMode::Comment, ..s })
        } else {
            Err(ParseFailure::InvalidSyntax)
        },
        StepMode::Comment => if c == '*' {
            Ok(Lexing { mode: StepMode::CommentStar, ..s })
        } else {
            Ok(s)
        },
        StepMode::CommentStar => if c == '/' {
            Ok(Lexing { mode: StepMode::Between, ..s })
        } else if c == '*' {
            Ok(s)
        } else {
            Ok(Lexing { mode: StepMode::Comment, ..s })
        },
    }
}

/// The state before the first character.
pub open spec fn lex_start() -> Lexing {
    Lexing { tokens: Seq::empty(), depth: 0, mode: StepMode::Between, current: Seq::empty() }
}

/// The state behind the first `n` characters.
pub open spec fn lex_upto(text: Seq<char>, n: int) -> Result<Lexing, ParseFailure>
    decreases n,
{
    if n <= 0 {
        Ok(lex_start())
    } else {
        match lex_upto(text, n - 1) {
            Err(e) => Err(e),
            Ok(s) => lex_char(s, text[n - 1]),
        }
    }
}

/// The tokens of a state at the end of the text.
pub open spec fn lex_end(s: Lexing) -> Result<Seq<TokenView>, ParseFailure> {
    if s.mode == StepMode::Quoted || s.mode == StepMode::Slash || s.mode == StepMode::Comment
        || s.mode == StepMode::CommentStar {
        Err(ParseFailure::Truncated)
    } else {
        let w = if s.mode == StepMode::QuoteSeen {
            string_done(s)
        } else {
            word_done(s)
        };
        if w.depth != 0 {
            Err(ParseFailure::Truncated)
        } else {
            Ok(w.tokens)
        }
    }
}

/// The tokens of an exchange file: brackets, words, and strings as text.
pub open spec fn step_tokens(text: Seq<char>) -> Result<Seq<TokenView>, ParseFailure> {
    match lex_upto(text, text.len() as int) {
        Err(e) => Err(e),
        Ok(s) => lex_end(s),
    }
}

/// A point of the file: the number of its instance and its coordinates.
pub struct PointView {
    pub id: u64,
    pub x: Scalar,
    pub y: Scalar,
    pub z: Scalar,
}

/// The instance number that a reference such as `#12` names.
pub open spec fn reference_of(word: Seq<char>) -> Option<u64> {
    if word.len() > 0 && word[0] == '#' {
        unsigned_of(word.subrange(1, word.len() as int))
    } else {
        None
    }
}

/// The name of the entity that the instance at `at` is of, if an instance
/// begins there: a reference, `=`, a name and a list of parameters.
pub open spec fn instance_at(t: Seq<TokenView>, at: int) -> Option<Seq<char>> {
    if atom_at(t, at) && reference_of(t[at].value) is Some && atom_at(t, at + 1) && t[at
        + 1].value == "="@ && atom_at(t, at + 2) && list_at(t, at + 3) {
        Some(t[at + 2].value)
    } else {
        None
    }
}

/// The first item from `from` on, among the items of this level, that is a list.
pub open spec fn find_list(t: Seq<TokenView>, from: int) -> Option<int>
    decreases t.len() - from,
{
    if !item_at(t, from) {
        None
    } else if list_at(t, from) {
        Some(from)
    } else {
        find_list(t, after_item(t, from))
    }
}

/// Whether an entity of this name bounds a face by curves.
pub open spec fn needs_tessellation(name: Seq<char>) -> bool {
    name == "ADVANCED_FACE"@ || name == "EDGE_LOOP"@ || name == "VERTEX_LOOP"@
}

/// The point that the instance at `at` defines, if it is a point in space:
/// a `CARTESIAN_POINT` whose list holds three numbers.
pub open spec fn point_at(t: Seq<TokenView>, at: int) -> Result<Option<PointView>, ParseFailure> {
    match find_list(t, at + 4) {
        None => Ok(None),
        Some(c) => if !(atom_at(t, c + 1) && atom_at(t, c + 2) && atom_at(t, c + 3) && !item_at(
            t,
            c + 4,
        )) {
            Ok(None)
        } else {
            match (scalar_of(t[c + 1].value), scalar_of(t[c + 2].value), scalar_of(t[c + 3].value)) {
                (Some(x), Some(y), Some(z)) => Ok(
                    Some(PointView { id: reference_of(t[at].value)->0, x, y, z }),
                ),
                _ => Err(ParseFailure::InvalidNumber),
            }
        },
    }
}

/// The points so far and those that the instances from `from` on define.
/// An instance of an entity that needs tessellation is a failure.
pub open spec fn points_from(t: Seq<TokenView>, from: int, points: Seq<PointView>) -> Result<
    Seq<PointView>,
    ParseFailure,
>
    decreases t.len() - from,
{
    if !item_at(t, from) {
        Ok(points)
    } else {
        match instance_at(t, from) {
            None => points_from(t, after_item(t, from), points),
            Some(name) => if needs_tessellation(name) {
                Err(ParseFailure::UnsupportedEntity)
            } else if name != "CARTESIAN_POINT"@ {
                points_from(t, after_item(t, from), points)
            } else {
                match point_at(t, from) {
                    Err(e) => Err(e),
                    Ok(None) => points_from(t, after_item(t, from), points),
                    Ok(Some(p)) => points_from(t, after_item(t, from), points.push(p)),
                }
            },
        }
    }
}

/// The coordinates of the point with this instance number: those of the
/// first such point from `from` on.
pub open spec fn coordinates_of(points: Seq<PointView>, id: u64, from: int) -> Option<Seq<Scalar>>
    decreases points.len() - from,
{
    if from < 0 || from >= points.len() {
        None
    } else if points[from].id == id {
        Some(seq![points[from].x, points[from].y, points[from].z])
    } else {
        coordinates_of(points, id, from + 1)
    }
}

/// The coordinates of the corners so far and of the points that the
/// references from `from` on name, three for each.
pub open spec fn corners_from(
    t: Seq<TokenView>,
    from: int,
    points: Seq<PointView>,
    corners: Seq<Scalar>,
) -> Result<Seq<Scalar>, ParseFailure>
    decreases t.len() - from,
{
    if !item_at(t, from) {
        Ok(corners)
    } else {
        match atom_value(t, from) {
            None => Err(ParseFailure::UnexpectedToken),
            Some(word) => match reference_of(word) {
                None => Err(ParseFailure::UnexpectedToken),
                Some(id) => match coordinates_of(points, id, 0) {
                    None => Err(ParseFailure::InvalidReference),
                    Some(xyz) => corners_from(t, after_item(t, from), points, corners + xyz),
                },
            },
        }
    }
}

/// The vertices so far and the first `n` triangles of the fan around the
/// first corner of a polygon.
pub open spec fn fan(vertices: Seq<Scalar>, corners: Seq<Scalar>, n: int) -> Seq<Scalar>
    decreases n,
{
    if n <= 0 {
        vertices
    } else {
        fan(vertices, corners, n - 1) + corners.subrange(0, 3) + corners.subrange(3 * n, 3 * n + 6)
    }
}

/// The vertices so far and the triangles of the polygon that the instance at `at` defines.
pub open spec fn loop_at(
    t: Seq<TokenView>,
    at: int,
    points: Seq<PointView>,
    vertices: Seq<Scalar>,
) -> Result<Seq<Scalar>, ParseFailure> {
    match find_list(t, at + 4) {
        None => Err(ParseFailure::UnexpectedToken),
        Some(c) => match corners_from(t, c + 1, points, Seq::empty()) {
            Err(e) => Err(e),
            Ok(corners) => if corners.len() < 9 {
                Err(ParseFailure::UnexpectedToken)
            } else {
                Ok(fan(vertices, corners, corners.len() as int / 3 - 2))
            },
        },
    }
}

/// The vertices so far and the triangles of the polygons from `from` on.
pub open spec fn loops_from(
    t: Seq<TokenView>,
    from: int,
    points: Seq<PointView>,
    vertices: Seq<Scalar>,
) -> Result<Seq<Scalar>, ParseFailure>
    decreases t.len() - from,
{
    if !item_at(t, from) {
        Ok(vertices)
    } else if instance_at(t, from) != Some("POLY_LOOP"@) {
        loops_from(t, after_item(t, from), points, vertices)
    } else {
        match loop_at(t, from, points, vertices) {
            Err(e) => Err(e),
            Ok(next) => loops_from(t, after_item(t, from), points, next),
        }
    }
}

/// The material that the colour at `at` gives: the name of the colour, and
/// its red, green and blue with full opacity.
pub open spec fn colour_at(t: Seq<TokenView>, at: int) -> Result<MaterialView, ParseFailure> {
    if !(0 <= at + 4 < t.len() && t[at + 4].kind == TokenKind::Text && atom_at(t, at + 5)
        && atom_at(t, at + 6) && atom_at(t, at + 7) && !item_at(t, at + 8)) {
        Err(ParseFailure::UnexpectedToken)
    } else {
        match (scalar_of(t[at + 5].value), scalar_of(t[at + 6].value), scalar_of(t[at + 7].value)) {
            (Some(r), Some(g), Some(b)) => Ok(
                MaterialView {
                    name: t[at + 4].value,
                    color: Some(Color { r, g, b, a: ONE }),
                    metalness: None,
                    roughness: None,
                },
            ),
            _ => Err(ParseFailure::InvalidNumber),
        }
    }
}

/// The materials so far and those of the colours from `from` on.
pub open spec fn colours_from(t: Seq<TokenView>, from: int, materials: Seq<MaterialView>) -> Result<
    Seq<MaterialView>,
    ParseFailure,
>
    decreases t.len() - from,
{
    if !item_at(t, from) {
        Ok(materials)
    } else if instance_at(t, from) != Some("COLOUR_RGB"@) {
        colours_from(t, after_item(t, from), materials)
    } else {
        match colour_at(t, from) {
            Err(e) => Err(e),
            Ok(m) => colours_from(t, after_item(t, from), materials.push(m)),
        }
    }
}

/// The materials of a file: absent where the file holds no colour.
pub open spec fn materials_of(list: Seq<MaterialView>) -> Option<Seq<MaterialView>> {
    if list.len() == 0 {
        None
    } else {
        Some(list)
    }
}

/// Whether the tokens begin as an exchange file does.
pub open spec fn has_step_header(t: Seq<TokenView>) -> bool {
    atom_at(t, 0) && t[0].value == "ISO-10303-21"@ && atom_at(t, 1) && t[1].value == ";"@
}

/// Whether the tokens end as an exchange file does.
pub open spec fn has_step_trailer(t: Seq<TokenView>) -> bool {
    t.len() >= 4 && atom_at(t, t.len() - 2) && t[t.len() - 2].value == "END-ISO-10303-21"@
        && atom_at(t, t.len() - 1) && t[t.len() - 1].value == ";"@
}

/// The mesh that the tokens of an exchange file hold.
pub open spec fn step_token_mesh(t: Seq<TokenView>) -> Result<Mesh, ParseFailure> {
    if !has_step_header(t) {
        Err(ParseFailure::MalformedHeader)
    } else if !has_step_trailer(t) {
        Err(ParseFailure::Truncated)
    } else {
        match points_from(t, 0, Seq::empty()) {
            Err(e) => Err(e),
            Ok(points) => match loops_from(t, 0, points, Seq::empty()) {
                Err(e) => Err(e),
                Ok(vertices) => match colours_from(t, 0, Seq::empty()) {
                    Err(e) => Err(e),
                    Ok(colours) => mesh_of(
                        vertices,
                        None,
                        None,
                        soup_indices(vertices.len() as int / 3),
                        materials_of(colours),
                    ),
                },
            },
        }
    }
}

/// The mesh that a STEP file holds.
pub open spec fn step_mesh(bytes: Seq<u8>) -> Result<Mesh, ParseFailure> {
    match text_of(bytes) {
        None => Err(ParseFailure::InvalidText),
        Some(text) => match step_tokens(text) {
            Err(e) => Err(e),
            Ok(t) => step_token_mesh(t),
        },
    }
}

proof fn lemma_lex_fails(text: Seq<char>, have: int, want: int)
    requires
        0 <= have <= want,
        lex_upto(text, have) is Err,
    ensures
        lex_upto(text, want) == lex_upto(text, have),
    decreases want - have,
{
    if have < want {
        lemma_lex_fails(text, have, want - 1);
    }
}

struct Lexer {
    tokens: Vec<Token>,
    depth: usize,
    mode: StepMode,
    current: Vec<char>,
}

impl View for Lexer {
    type V = Lexing;

    closed spec fn view(&self) -> Lexing {
        Lexing {
            tokens: self.tokens.deep_view(),
            depth: self.depth as int,
            mode: self.mode,
            current: self.current@,
        }
    }
}

fn push_token(tokens: &mut Vec<Token>, kind: TokenKind, value: Vec<char>)
    ensures
        final(tokens).deep_view() == old(tokens).deep_view().push(plain(kind, value@)),
        final(tokens).len() == old(tokens).len() + 1,
{
    let token = Token { kind, name: Vec::new(), value };
    tokens.push(token);
}

fn take(buffer: &mut Vec<char>) -> (r: Vec<char>)
    ensures
        r@ == old(buffer)@,
        final(buffer)@ == Seq::<char>::empty(),
{
    let mut taken: Vec<char> = Vec::new();
    core::mem::swap(&mut taken, buffer);
    taken
}

fn finish_word(s: &mut Lexer)
    requires
        old(s).depth <= old(s).tokens.len(),
    ensures
        final(s)@ == word_done(old(s)@),
        final(s).depth <= final(s).tokens.len(),
{
    if s.mode == StepMode::Word {
        let word = take(&mut s.current);
        push_token(&mut s.tokens, TokenKind::Atom, word);
        s.mode = StepMode::Between;
    }
}

fn finish_string(s: &mut Lexer)
    requires
        old(s).depth <= old(s).tokens.len(),
    ensures
        final(s)@ == string_done(old(s)@),
        final(s).depth <= final(s).tokens.len(),
{
    let word = take(&mut s.current);
    push_token(&mut s.tokens, TokenKind::Text, word);
    s.mode = StepMode::Between;
}

fn step_plain(s: &mut Lexer, c: char) -> (r: Result<(), ParseFailure>)
    requires
        old(s).depth <= old(s).tokens.len(),
    ensures
        match lex_plain(old(s)@, c) {
            Ok(next) => r is Ok && final(s)@ == next,
            Err(e) => r matches Err(x) && x == e,
        },
        final(s).depth <= final(s).tokens.len(),
{
    if c == '(' {
        finish_word(s);
        push_token(&mut s.tokens, TokenKind::Open, Vec::new());
        s.depth += 1;
        Ok(())
    } else if c == ')' {
        finish_word(s);
        if s.depth == 0 {
            return Err(ParseFailure::InvalidSyntax);
        }
        push_token(&mut s.tokens, TokenKind::Close, Vec::new());
        s.depth -= 1;
        Ok(())
    } else if c == ',' || char_is_space(c) {
        finish_word(s);
        Ok(())
    } else if c == '=' || c == ';' {
        finish_word(s);
        let mut word: Vec<char> = Vec::new();
        word.push(c);
        push_token(&mut s.tokens, TokenKind::Atom, word);
        Ok(())
    } else if c == '\'' {
        finish_word(s);
        s.mode = StepMode::Quoted;
        Ok(())
    } else if c == '/' {
        finish_word(s);
        s.mode = StepMode::Slash;
        Ok(())
    } else {
        s.current.push(c);
        s.mode = StepMode::Word;
        Ok(())
    }
}

fn step(s: &mut Lexer, c: char) -> (r: Result<(), ParseFailure>)
    requires
        old(s).depth <= old(s).tokens.len(),
    ensures
        match lex_char(old(s)@, c) {
            Ok(next) => r is Ok && final(s)@ == next,
            Err(e) => r matches Err(x) && x == e,
        },
        final(s).depth <= final(s).tokens.len(),
{
    match s.mode {
        StepMode::Between => step_plain(s, c),
        StepMode::Word => step_plain(s, c),
        StepMode::Quoted => {
            if c == '\'' {
                s.mode = StepMode::QuoteSeen;
            } else {
                s.current.push(c);
            }
            Ok(())
        },
        StepMode::QuoteSeen => {
            if c == '\'' {
                s.current.push(c);
                s.mode = StepMode::Quoted;
                Ok(())
            } else {
                finish_string(s);
                step_plain(s, c)
            }
        },
        StepMode::Slash => {
            if c == '*' {
                s.mode = StepMode::Comment;
                Ok(())
            } else {
                Err(ParseFailure::InvalidSyntax)
            }
        },
        StepMode::Comment => {
            if c == '*' {
                s.mode = StepMode::CommentStar;
            }
            Ok(())
        },
        StepMode::CommentStar => {
            if c == '/' {
                s.mode = StepMode::Between;
            } else if c == '*' {
            } else {
                s.mode = StepMode::Comment;
            }
            Ok(())
        },
    }
}

/// Reads the text of an exchange file into tokens.
pub fn tokenize_step(text: &[char]) -> (r: Result<Vec<Token>, ParseFailure>)
    ensures
        match step_tokens(text@) {
            Ok(tokens) => r matches Ok(v) && v.deep_view() == tokens,
            Err(e) => r matches Err(x) && x == e,
        },
        r matches Ok(v) ==> balanced(v.deep_view()),
{
    proof {
        lemma_step_tokens_are_balanced(text@);
    }
    let mut lexer = Lexer {
        tokens: Vec::new(),
        depth: 0,
        mode: StepMode::Between,
        current: Vec::new(),
    };
    assert(lexer.tokens.deep_view() =~= Seq::empty());
    let mut i: usize = 0;
    while i < text.len()
        invariant
            i <= text.len(),
            lexer.depth <= lexer.tokens.len(),
            lex_upto(text@, i as int) == Ok::<_, ParseFailure>(lexer@),
        decreases text.len() - i,
    {
        match step(&mut lexer, text[i]) {
            Err(e) => {
                proof {
                    lemma_lex_fails(text@, i + 1, text@.len() as int);
                }
                return Err(e);
            },
            Ok(()) => {},
        }
        i += 1;
    }
    if lexer.mode == StepMode::Quoted || lexer.mode == StepMode::Slash || lexer.mode
        == StepMode::Comment || lexer.mode == StepMode::CommentStar {
        return Err(ParseFailure::Truncated);
    }
    if lexer.mode == StepMode::QuoteSeen {
        finish_string(&mut lexer);
    } else {
        finish_word(&mut lexer);
    }
    if lexer.depth != 0 {
        return Err(ParseFailure::Truncated);
    }
    Ok(lexer.tokens)
}

/// A point of the file.
struct Point {
    id: u64,
    x: Scalar,
    y: Scalar,
    z: Scalar,
}

impl DeepView for Point {
    type V = PointView;

    closed spec fn deep_view(&self) -> PointView {
        PointView { id: self.id, x: self.x, y: self.y, z: self.z }
    }
}

fn read_reference(word: &[char]) -> (r: Option<u64>)
    ensures
        r == reference_of(word@),
{
    if word.len() > 0 && word[0] == '#' {
        let digits = copy_range(word, 1, word.len());
        parse_unsigned(digits.as_slice())
    } else {
        None
    }
}

fn atom_is(t: &Vec<Token>, at: usize, word: &str) -> (r: bool)
    ensures
        r == (atom_at(t.deep_view(), at as int) && t.deep_view()[at as int].value == word@),
{
    match read_atom(t, at) {
        Some(v) => text_is(v.as_slice(), word),
        None => false,
    }
}

fn read_instance(t: &Vec<Token>, at: usize) -> (r: Option<&Vec<char>>)
    requires
        at < t.len(),
    ensures
        match instance_at(t.deep_view(), at as int) {
            Some(name) => r matches Some(v) && v@ == name,
            None => r is None,
        },
{
    match read_atom(t, at) {
        None => None,
        Some(word) => {
            if read_reference(word.as_slice()).is_none() {
                return None;
            }
            if !atom_is(t, ahead(t, at, 1), "=") {
                return None;
            }
            if !is_kind(t, ahead(t, at, 3), TokenKind::Open) {
                return None;
            }
            read_atom(t, ahead(t, at, 2))
        },
    }
}

fn seek_list(t: &Vec<Token>, from: usize) -> (r: Option<usize>)
    requires
        from <= t.len(),
    ensures
        match find_list(t.deep_view(), from as int) {
            Some(at) => r == Some(at as usize) && from <= at < t.len(),
            None => r is None,
        },
{
    let mut pos: usize = from;
    while is_item(t, pos)
        invariant
            from <= pos <= t.len(),
            find_list(t.deep_view(), pos as int) == find_list(t.deep_view(), from as int),
        decreases t.len() - pos,
    {
        if is_kind(t, pos, TokenKind::Open) {
            return Some(pos);
        }
        pos = skip_item(t, pos);
    }
    None
}

fn read_point(t: &Vec<Token>, at: usize) -> (r: Result<Option<Point>, ParseFailure>)
    requires
        at < t.len(),
        instance_at(t.deep_view(), at as int) is Some,
    ensures
        crate::error::viewed(r) == point_at(t.deep_view(), at as int),
{
    let c = match seek_list(t, ahead(t, at, 4)) {
        None => {
            return Ok(None);
        },
        Some(c) => c,
    };
    let (a, b, d) = match (
        read_atom(t, ahead(t, c, 1)),
        read_atom(t, ahead(t, c, 2)),
        read_atom(t, ahead(t, c, 3)),
    ) {
        (Some(a), Some(b), Some(d)) => (a, b, d),
        _ => {
            return Ok(None);
        },
    };
    if is_item(t, ahead(t, c, 4)) {
        return Ok(None);
    }
    let id = match read_atom(t, at) {
        Some(word) => match read_reference(word.as_slice()) {
            Some(id) => id,
            None => {
                return Ok(None);
            },
        },
        None => {
            return Ok(None);
        },
    };
    match (parse_scalar(a.as_slice()), parse_scalar(b.as_slice()), parse_scalar(d.as_slice())) {
        (Some(x), Some(y), Some(z)) => Ok(Some(Point { id, x, y, z })),
        _ => Err(ParseFailure::InvalidNumber),
    }
}

fn is_curved(name: &[char]) -> (r: bool)
    ensures
        r == needs_tessellation(name@),
{
    text_is(name, "ADVANCED_FACE") || text_is(name, "EDGE_LOOP") || text_is(name, "VERTEX_LOOP")
}

fn read_points(t: &Vec<Token>) -> (r: Result<Vec<Point>, ParseFailure>)
    ensures
        crate::error::viewed(r) == points_from(t.deep_view(), 0, Seq::empty()),
{
    let mut out: Vec<Point> = Vec::new();
    assert(out.deep_view() =~= Seq::empty());
    let mut pos: usize = 0;
    while is_item(t, pos)
        invariant
            pos <= t.len(),
            points_from(t.deep_view(), pos as int, out.deep_view()) == points_from(
                t.deep_view(),
                0,
                Seq::empty(),
            ),
        decreases t.len() - pos,
    {
        match read_instance(t, pos) {
            None => {},
            Some(name) => {
                if is_curved(name.as_slice()) {
                    return Err(ParseFailure::UnsupportedEntity);
                }
                if text_is(name.as_slice(), "CARTESIAN_POINT") {
                    match read_point(t, pos) {
                        Err(e) => {
                            return Err(e);
                        },
                        Ok(None) => {},
                        Ok(Some(p)) => {
                            let ghost before = out.deep_view();
                            out.push(p);
                            assert(out.deep_view() =~= before.push(p.deep_view()));
                        },
                    }
                }
            },
        }
        pos = skip_item(t, pos);
    }
    Ok(out)
}

fn push_coordinates(points: &Vec<Point>, id: u64, corners: &mut Vec<Scalar>) -> (r: bool)
    ensures
        match coordinates_of(points.deep_view(), id, 0) {
            Some(xyz) => r && final(corners)@ == old(corners)@ + xyz,
            None => !r && final(corners)@ == old(corners)@,
        },
{
    let mut i: usize = 0;
    while i < points.len()
        invariant
            i <= points.len(),
            corners@ == old(corners)@,
            coordinates_of(points.deep_view(), id, i as int) == coordinates_of(
                points.deep_view(),
                id,
                0,
            ),
        decreases points.len() - i,
    {
        if points[i].id == id {
            corners.push(points[i].x);
            corners.push(points[i].y);
            corners.push(points[i].z);
            return true;
        }
        i += 1;
    }
    false
}

fn read_corners(t: &Vec<Token>, from: usize, points: &Vec<Point>) -> (r: Result<
    Vec<Scalar>,
    ParseFailure,
>)
    requires
        from <= t.len(),
    ensures
        match corners_from(t.deep_view(), from as int, points.deep_view(), Seq::empty()) {
            Ok(corners) => r matches Ok(v) && v@ == corners,
            Err(e) => r matches Err(x) && x == e,
        },
{
    let mut out: Vec<Scalar> = Vec::new();
    let mut pos: usize = from;
    while is_item(t, pos)
        invariant
            from <= pos <= t.len(),
            corners_from(t.deep_view(), pos as int, points.deep_view(), out@) == corners_from(
                t.deep_view(),
                from as int,
                points.deep_view(),
                Seq::empty(),
            ),
        decreases t.len() - pos,
    {
        match read_atom(t, pos) {
            None => {
                return Err(ParseFailure::UnexpectedToken);
            },
            Some(word) => match read_reference(word.as_slice()) {
                None => {
                    return Err(ParseFailure::UnexpectedToken);
                },
                Some(id) => {
                    if !push_coordinates(points, id, &mut out) {
                        return Err(ParseFailure::InvalidReference);
                    }
                },
            },
        }
        pos = skip_item(t, pos);
    }
    Ok(out)
}

fn push_slice(out: &mut Vec<Scalar>, from: &Vec<Scalar>, start: usize, count: usize)
    requires
        start + count <= from.len(),
    ensures
        final(out)@ == old(out)@ + from@.subrange(start as int, start + count),
{
    let mut i: usize = 0;
    while i < count
        invariant
            i <= count,
            start + count <= from.len(),
            out@ == old(out)@ + from@.subrange(start as int, start + i),
        decreases count - i,
    {
        out.push(from[start + i]);
        i += 1;
    }
}

fn read_loop(t: &Vec<Token>, at: usize, points: &Vec<Point>, vertices: &mut Vec<Scalar>) -> (r:
    Result<(), ParseFailure>)
    requires
        at < t.len(),
    ensures
        match loop_at(t.deep_view(), at as int, points.deep_view(), old(vertices)@) {
            Ok(next) => r is Ok && final(vertices)@ == next,
            Err(e) => r matches Err(x) && x == e,
        },
{
    let c = match seek_list(t, ahead(t, at, 4)) {
        None => {
            return Err(ParseFailure::UnexpectedToken);
        },
        Some(c) => c,
    };
    let corners = match read_corners(t, c + 1, points) {
        Err(e) => {
            return Err(e);
        },
        Ok(x) => x,
    };
    if corners.len() < 9 {
        return Err(ParseFailure::UnexpectedToken);
    }
    let count = corners.len() / 3 - 2;
    let mut n: usize = 0;
    while n < count
        invariant
            n <= count,
            count == corners.len() / 3 - 2,
            corners.len() >= 9,
            vertices@ == fan(old(vertices)@, corners@, n as int),
        decreases count - n,
    {
        push_slice(vertices, &corners, 0, 3);
        push_slice(vertices, &corners, 3 * (n + 1), 6);
        n += 1;
    }
    Ok(())
}

fn is_poly_loop(t: &Vec<Token>, at: usize) -> (r: bool)
    requires
        at < t.len(),
    ensures
        r == (instance_at(t.deep_view(), at as int) == Some("POLY_LOOP"@)),
{
    match read_instance(t, at) {
        Some(name) => text_is(name.as_slice(), "POLY_LOOP"),
        None => false,
    }
}

fn read_loops(t: &Vec<Token>, points: &Vec<Point>) -> (r: Result<Vec<Scalar>, ParseFailure>)
    ensures
        match loops_from(t.deep_view(), 0, points.deep_view(), Seq::empty()) {
            Ok(vertices) => r matches Ok(v) && v@ == vertices,
            Err(e) => r matches Err(x) && x == e,
        },
{
    let mut out: Vec<Scalar> = Vec::new();
    let mut pos: usize = 0;
    while is_item(t, pos)
        invariant
            pos <= t.len(),
            loops_from(t.deep_view(), pos as int, points.deep_view(), out@) == loops_from(
                t.deep_view(),
                0,
                points.deep_view(),
                Seq::empty(),
            ),
        decreases t.len() - pos,
    {
        if is_poly_loop(t, pos) {
            match read_loop(t, pos, points, &mut out) {
                Err(e) => {
                    return Err(e);
                },
                Ok(()) => {},
            }
        }
        pos = skip_item(t, pos);
    }
    Ok(out)
}

fn check_header(t: &Vec<Token>) -> (r: bool)
    ensures
        r == has_step_header(t.deep_view()),
{
    atom_is(t, 0, "ISO-10303-21") && atom_is(t, 1, ";")
}

fn check_trailer(t: &Vec<Token>) -> (r: bool)
    ensures
        r == has_step_trailer(t.deep_view()),
{
    t.len() >= 4 && atom_is(t, t.len() - 2, "END-ISO-10303-21") && atom_is(t, t.len() - 1, ";")
}

fn is_instance_of(t: &Vec<Token>, at: usize, name: &str) -> (r: bool)
    requires
        at < t.len(),
    ensures
        r == (instance_at(t.deep_view(), at as int) == Some(name@)),
{
    match read_instance(t, at) {
        Some(found) => text_is(found.as_slice(), name),
        None => false,
    }
}

fn read_colour(t: &Vec<Token>, at: usize) -> (r: Result<Material, ParseFailure>)
    requires
        at < t.len(),
    ensures
        viewed(r) == colour_at(t.deep_view(), at as int),
{
    let n = ahead(t, at, 4);
    if !is_kind(t, n, TokenKind::Text) || is_item(t, ahead(t, at, 8)) {
        return Err(ParseFailure::UnexpectedToken);
    }
    let (r, g, b) = match (
        read_atom(t, ahead(t, at, 5)),
        read_atom(t, ahead(t, at, 6)),
        read_atom(t, ahead(t, at, 7)),
    ) {
        (Some(r), Some(g), Some(b)) => (r, g, b),
        _ => {
            return Err(ParseFailure::UnexpectedToken);
        },
    };
    assert(t.deep_view()[n as int] == t@[n as int].deep_view());
    match (parse_scalar(r.as_slice()), parse_scalar(g.as_slice()), parse_scalar(b.as_slice())) {
        (Some(r), Some(g), Some(b)) => Ok(
            Material {
                name: crate::text::string_from_chars(t[n].value.as_slice()),
                color: Some(Color { r, g, b, a: ONE }),
                metalness: None,
                roughness: None,
            },
        ),
        _ => Err(ParseFailure::InvalidNumber),
    }
}

fn read_colours(t: &Vec<Token>) -> (r: Result<Vec<Material>, ParseFailure>)
    ensures
        viewed(r) == colours_from(t.deep_view(), 0, Seq::empty()),
{
    let mut out: Vec<Material> = Vec::new();
    assert(out.deep_view() =~= Seq::empty());
    let mut pos: usize = 0;
    while is_item(t, pos)
        invariant
            pos <= t.len(),
            colours_from(t.deep_view(), pos as int, out.deep_view()) == colours_from(
                t.deep_view(),
                0,
                Seq::empty(),
            ),
        decreases t.len() - pos,
    {
        if is_instance_of(t, pos, "COLOUR_RGB") {
            match read_colour(t, pos) {
                Err(e) => {
                    return Err(e);
                },
                Ok(m) => {
                    let ghost before = out.deep_view();
                    out.push(m);
                    assert(out.deep_view() =~= before.push(m.deep_view()));
                },
            }
        }
        pos = skip_item(t, pos);
    }
    Ok(out)
}

/// Makes the mesh of the tokens of an exchange file.
pub fn read_step_tokens(t: &Vec<Token>) -> (r: Result<ThreeDModelData, ParseFailure>)
    ensures
        viewed(r) == step_token_mesh(t.deep_view()),
        viewed(r) matches Ok(mesh) ==> mesh.well_formed(),
{
    if !check_header(t) {
        return Err(ParseFailure::MalformedHeader);
    }
    if !check_trailer(t) {
        return Err(ParseFailure::Truncated);
    }
    let points = match read_points(t) {
        Err(e) => {
            return Err(e);
        },
        Ok(x) => x,
    };
    let vertices = match read_loops(t, &points) {
        Err(e) => {
            return Err(e);
        },
        Ok(x) => x,
    };
    let colours = match read_colours(t) {
        Err(e) => {
            return Err(e);
        },
        Ok(x) => x,
    };
    let indices = make_soup_indices(vertices.len() / 3);
    let materials = if colours.len() == 0 {
        None
    } else {
        Some(colours)
    };
    build_model(vertices, None, None, indices, materials)
}

/// Reads a STEP file.
pub fn load_step_model(bytes: &[u8]) -> (r: Result<ThreeDModelData, ParseFailure>)
    ensures
        viewed(r) == step_mesh(bytes@),
        viewed(r) matches Ok(mesh) ==> mesh.well_formed(),
{
    let text = match decode_text(bytes) {
        None => {
            return Err(ParseFailure::InvalidText);
        },
        Some(x) => x,
    };
    match tokenize_step(text.as_slice()) {
        Err(e) => Err(e),
        Ok(t) => read_step_tokens(&t),
    }
}

/// Every mesh that a STEP file decodes to is well-formed.
pub proof fn lemma_step_mesh_is_well_formed(bytes: Seq<u8>)
    ensures
        step_mesh(bytes) matches Ok(mesh) ==> mesh.well_formed(),
{
}

/// Whether the brackets read so far are sound: as many brackets are open as
/// the tokens say, and none was closed that was not open.
pub open spec fn sound(s: Lexing) -> bool {
    s.depth == nesting(s.tokens, s.tokens.len() as int) && never_negative(s.tokens)
}

proof fn lemma_word_keeps_sound(s: Lexing)
    requires
        sound(s),
    ensures
        sound(word_done(s)),
        sound(string_done(s)),
{
    lemma_nesting_of_push(s.tokens, plain(TokenKind::Atom, s.current));
    lemma_nesting_of_push(s.tokens, plain(TokenKind::Text, s.current));
}

proof fn lemma_plain_keeps_sound(s: Lexing, c: char)
    requires
        sound(s),
    ensures
        lex_plain(s, c) matches Ok(next) ==> sound(next),
{
    lemma_word_keeps_sound(s);
    let w = word_done(s);
    lemma_nesting_of_push(w.tokens, plain(TokenKind::Open, Seq::empty()));
    lemma_nesting_of_push(w.tokens, plain(TokenKind::Atom, seq![c]));
    if w.depth > 0 {
        lemma_nesting_of_push(w.tokens, plain(TokenKind::Close, Seq::empty()));
    }
}

proof fn lemma_char_keeps_sound(s: Lexing, c: char)
    requires
        sound(s),
    ensures
        lex_char(s, c) matches Ok(next) ==> sound(next),
{
    lemma_plain_keeps_sound(s, c);
    lemma_word_keeps_sound(s);
    lemma_plain_keeps_sound(string_done(s), c);
}

proof fn lemma_lexing_is_sound(text: Seq<char>, n: int)
    ensures
        lex_upto(text, n) matches Ok(s) ==> sound(s),
    decreases n,
{
    if n > 0 {
        lemma_lexing_is_sound(text, n - 1);
        if let Ok(s) = lex_upto(text, n - 1) {
            lemma_char_keeps_sound(s, text[n - 1]);
        }
    }
}

/// The tokens of an exchange file are balanced.
pub proof fn lemma_step_tokens_are_balanced(text: Seq<char>)
    ensures
        step_tokens(text) matches Ok(t) ==> balanced(t),
{
    lemma_lexing_is_sound(text, text.len() as int);
    if let Ok(s) = lex_upto(text, text.len() as int) {
        lemma_word_keeps_sound(s);
    }
}

} // verus!

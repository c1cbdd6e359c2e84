//! XML documents: elements with attributes, character data, comments,
//! processing instructions and a document type declaration without an
//! internal subset. The five predefined entities are resolved.
use crate::error::ParseFailure;
use crate::markup::{
    balanced, lemma_nesting_of_push, nesting, never_negative, Token, TokenKind, TokenView,
};
use crate::text::{char_is_space, is_space, text_is};
use vstd::prelude::*;

verus! {

/// What the reader is in the middle of.
#[derive(Clone, Copy, Debug, PartialEq, Eq, Structural)]
pub enum XmlMode {
    /// Character data between tags.
    Content,
    /// Behind `<`.
    Less,
    /// The name of a start tag.
    OpenName,
    /// Inside a start tag, between attributes.
    InTag,
    /// The name of an attribute.
    AttrName,
    /// Behind the name of an attribute, before `=`.
    AfterName,
    /// Behind `=`, before the quote.
    BeforeValue,
    /// An attribute value in double quotes.
    ValueDouble,
    /// An attribute value in single quotes.
    ValueSingle,
    /// Behind the `/` of an empty-element tag.
    Slash,
    /// The name of an end tag.
    CloseName,
    /// Behind the name of an end tag.
    CloseEnd,
    /// Behind `<!`.
    Bang,
    /// Behind `<!-`.
    BangDash,
    /// Inside a comment.
    Comment,
    /// Inside a comment, behind `-`.
    CommentDash,
    /// Inside a comment, behind `--`.
    CommentEnd,
    /// Inside a declaration such as the document type.
    Declaration,
    /// Inside a processing instruction.
    Instruction,
    /// Inside a processing instruction, behind `?`.
    InstructionEnd,
}

/// What has been read of a document.
pub struct Scan {
    pub tokens: Seq<TokenView>,
    /// The names of the elements that are open, the innermost last.
    pub open: Seq<Seq<char>>,
    pub mode: XmlMode,
    /// The characters of the name, value or character data that is being read.
    pub current: Seq<char>,
    /// The name of the attribute whose value is being read.
    pub attr: Seq<char>,
}

/// The character that a predefined entity stands for.
pub open spec fn entity_char(name: Seq<char>) -> Option<char> {
    if name == "lt"@ {
        Some('<')
    } else if name == "gt"@ {
        Some('>')
    } else if name == "amp"@ {
        Some('&')
    } else if name == "quot"@ {
        Some('"')
    } else if name == "apos"@ {
        Some('\'')
    } else {
        None
    }
}

/// The text from `from` on with its entities resolved, behind `out`, where
/// `entity` holds the name of an entity that is being read.
pub open spec fn resolved_from(
    s: Seq<char>,
    from: int,
    out: Seq<char>,
    entity: Option<Seq<char>>,
) -> Option<Seq<char>>
    decreases s.len() - from,
{
    if from < 0 || from >= s.len() {
        if entity is None {
            Some(out)
        } else {
            None
        }
    } else {
        match entity {
            None => if s[from] == '&' {
                resolved_from(s, from + 1, out, Some(Seq::empty()))
            } else {
                resolved_from(s, from + 1, out.push(s[from]), None)
            },
            Some(name) => if s[from] == ';' {
                match entity_char(name) {
                    Some(c) => resolved_from(s, from + 1, out.push(c), None),
                    None => None,
                }
            } else {
                resolved_from(s, from + 1, out, Some(name.push(s[from])))
            },
        }
    }
}

/// The text with each predefined entity replaced by its character; `None`
/// where the text holds another entity or an `&` without its `;`.
pub open spec fn resolved(s: Seq<char>) -> Option<Seq<char>> {
    resolved_from(s, 0, Seq::empty(), None)
}

/// Whether every character is white space.
pub open spec fn all_space(s: Seq<char>) -> bool {
    forall|i: int| 0 <= i < s.len() ==> is_space(#[trigger] s[i])
}

/// Whether a character can stand in a name.
pub open spec fn is_name_char(c: char) -> bool {
    !is_space(c) && c != '<' && c != '>' && c != '/' && c != '=' && c != '"' && c != '\''
        && c != '!' && c != '?'
}

/// The state with the character data that was read closed as a text token.
/// Character data of white space alone is dropped; other character data
/// outside every element is an error.
pub open spec fn text_closed(s: Scan) -> Result<Scan, ParseFailure> {
    if all_space(s.current) {
        Ok(Scan { current: Seq::empty(), ..s })
    } else if s.open.len() == 0 {
        Err(ParseFailure::UnexpectedToken)
    } else {
        match resolved(s.current) {
            None => Err(ParseFailure::InvalidSyntax),
            Some(value) => Ok(
                Scan {
                    tokens: s.tokens.push(
                        TokenView { kind: TokenKind::Text, name: Seq::empty(), value },
                    ),
                    current: Seq::empty(),
                    ..s
                },
            ),
        }
    }
}

/// The state with the element whose name was read opened.
pub open spec fn element_opened(s: Scan, mode: XmlMode) -> Scan {
    Scan {
        tokens: s.tokens.push(
            TokenView { kind: TokenKind::Open, name: s.current, value: Seq::empty() },
        ),
        open: s.open.push(s.current),
        mode,
        current: Seq::empty(),
        ..s
    }
}

/// The state with the innermost element closed.
pub open spec fn element_closed(s: Scan) -> Result<Scan, ParseFailure> {
    if s.open.len() == 0 {
        Err(ParseFailure::InvalidSyntax)
    } else {
        Ok(
            Scan {
                tokens: s.tokens.push(
                    TokenView { kind: TokenKind::Close, name: Seq::empty(), value: Seq::empty() },
                ),
                open: s.open.drop_last(),
                mode: XmlMode::Content,
                current: Seq::empty(),
                ..s
            },
        )
    }
}

/// The state with the end tag whose name was read applied: the name must be
/// that of the innermost open element.
pub open spec fn end_tag(s: Scan) -> Result<Scan, ParseFailure> {
    if s.open.len() == 0 || s.open.last() != s.current {
        Err(ParseFailure::InvalidSyntax)
    } else {
        element_closed(s)
    }
}

/// The state with the attribute whose value was read added.
pub open spec fn attribute_closed(s: Scan) -> Result<Scan, ParseFailure> {
    match resolved(s.current) {
        None => Err(ParseFailure::InvalidSyntax),
        Some(value) => Ok(
            Scan {
                tokens: s.tokens.push(TokenView { kind: TokenKind::Attribute, name: s.attr, value }),
                mode: XmlMode::InTag,
                current: Seq::empty(),
                attr: Seq::empty(),
                ..s
            },
        ),
    }
}

/// The state in another mode.
pub open spec fn moved(s: Scan, mode: XmlMode) -> Result<Scan, ParseFailure> {
    Ok(Scan { mode, ..s })
}

/// The state with one more character in what is being read.
pub open spec fn grown(s: Scan, c: char) -> Result<Scan, ParseFailure> {
    Ok(Scan { current: s.current.push(c), ..s })
}

/// The state behind one more character.
pub open spec fn xml_char(s: Scan, c: char) -> Result<Scan, ParseFailure> {
    match s.mode {
        XmlMode::Content => if c == '<' {
            match text_closed(s) {
                Err(e) => Err(e),
                Ok(t) => moved(t, XmlMode::Less),
            }
        } else {
            grown(s, c)
        },
        XmlMode::Less => if c == '/' {
            moved(s, XmlMode::CloseName)
        } else if c == '!' {
            moved(s, XmlMode::Bang)
        } else if c == '?' {
            moved(s, XmlMode::Instruction)
        } else if is_name_char(c) {
            Ok(Scan { mode: XmlMode::OpenName, current: seq![c], ..s })
        } else {
            Err(ParseFailure::InvalidSyntax)
        },
        XmlMode::OpenName => if is_space(c) {
            Ok(element_opened(s, XmlMode::InTag))
        } else if c == '>' {
            Ok(element_opened(s, XmlMode::Content))
        } else if c == '/' {
            Ok(element_opened(s, XmlMode::Slash))
        } else if is_name_char(c) {
            grown(s, c)
        } else {
            Err(ParseFailure::InvalidSyntax)
        },
        XmlMode::InTag => if is_space(c) {
            Ok(s)
        } else if c == '>' {
            moved(s, XmlMode::Content)
        } else if c == '/' {
            moved(s, XmlMode::Slash)
        } else if is_name_char(c) {
            Ok(Scan { mode: XmlMode::AttrName, current: seq![c], ..s })
        } else {
            Err(ParseFailure::InvalidSyntax)
        },
        XmlMode::AttrName => if c == '=' {
            Ok(Scan { mode: XmlMode::BeforeValue, attr: s.current, current: Seq::empty(), ..s })
        } else if is_space(c) {
            Ok(Scan { mode: XmlMode::AfterName, attr: s.current, current: Seq::empty(), ..s })
        } else if is_name_char(c) {
            grown(s, c)
        } else {
            Err(ParseFailure::InvalidSyntax)
        },
        XmlMode::AfterName => if is_space(c) {
            Ok(s)
        } else if c == '=' {
            moved(s, XmlMode::BeforeValue)
        } else {
            Err(ParseFailure::InvalidSyntax)
        },
        XmlMode::BeforeValue => if is_space(c) {
            Ok(s)
        } else if c == '"' {
            moved(s, XmlMode::ValueDouble)
        } else if c == '\'' {
            moved(s, XmlMode::ValueSingle)
        } else {
            Err(ParseFailure::InvalidSyntax)
        },
        XmlMode::ValueDouble => if c == '"' {
            attribute_closed(s)
        } else if c == '<' {
            Err(ParseFailure::InvalidSyntax)
        } else {
            grown(s, c)
        },
        XmlMode::ValueSingle => if c == '\'' {
            attribute_closed(s)
        } else if c == '<' {
            Err(ParseFailure::InvalidSyntax)
        } else {
            grown(s, c)
        },
        XmlMode::Slash => if c == '>' {
            element_closed(s)
        } else {
            Err(ParseFailure::InvalidSyntax)
        },
        XmlMode::CloseName => if c == '>' {
            end_tag(s)
        } else if is_space(c) {
            moved(s, XmlMode::CloseEnd)
        } else if is_name_char(c) {
            grown(s, c)
        } else {
            Err(ParseFailure::InvalidSyntax)
        },
        XmlMode::CloseEnd => if is_space(c) {
            Ok(s)
        } else if c == '>' {
            end_tag(s)
        } else {
            Err(ParseFailure::InvalidSyntax)
        },
        XmlMode::Bang => if c == '-' {
            moved(s, XmlMode::BangDash)
        } else if c == '[' {
            Err(ParseFailure::UnsupportedEntity)
        } else if c == '>' {
            moved(s, XmlMode::Content)
        } else {
            moved(s, XmlMode::Declaration)
        },
        XmlMode::BangDash => if c == '-' {
            moved(s, XmlMode::Comment)
        } else {
            Err(ParseFailure::InvalidSyntax)
        },
        XmlMode::Comment => if c == '-' {
            moved(s, XmlMode::CommentDash)
        } else {
            Ok(s)
        },
        XmlMode::CommentDash => if c == '-' {
            moved(s, XmlMode::CommentEnd)
        } else {
            moved(s, XmlMode::Comment)
        },
        XmlMode::CommentEnd => if c == '>' {
            moved(s, XmlMode::Content)
        } else if c == '-' {
            Ok(s)
        } else {
            moved(s, XmlMode::Comment)
        },
        XmlMode::Declaration => if c == '>' {
            moved(s, XmlMode::Content)
        } else if c == '[' {
            Err(ParseFailure::UnsupportedEntity)
        } else {
            Ok(s)
        },
        XmlMode::Instruction => if c == '?' {
            moved(s, XmlMode::InstructionEnd)
        } else {
            Ok(s)
        },
        XmlMode::InstructionEnd => if c == '>' {
            moved(s, XmlMode::Content)
        } else if c == '?' {
            Ok(s)
        } else {
            moved(s, XmlMode::Instruction)
        },
    }
}

/// The state before the first character.
pub open spec fn scan_start() -> Scan {
    Scan {
        tokens: Seq::empty(),
        open: Seq::empty(),
        mode: XmlMode::Content,
        current: Seq::empty(),
        attr: Seq::empty(),
    }
}

/// The state behind the first `n` characters.
pub open spec fn scan_upto(text: Seq<char>, n: int) -> Result<Scan, ParseFailure>
    decreases n,
{
    if n <= 0 {
        Ok(scan_start())
    } else {
        match scan_upto(text, n - 1) {
            Err(e) => Err(e),
            Ok(s) => xml_char(s, text[n - 1]),
        }
    }
}

/// The tokens of a state at the end of the text: a tag, a comment or an
/// element that is still open makes the text incomplete.
pub open spec fn scan_end(s: Scan) -> Result<Seq<TokenView>, ParseFailure> {
    if s.mode != XmlMode::Content {
        Err(ParseFailure::Truncated)
    } else {
        match text_closed(s) {
            Err(e) => Err(e),
            Ok(t) => if t.open.len() != 0 {
                Err(ParseFailure::Truncated)
            } else {
                Ok(t.tokens)
            },
        }
    }
}

/// The tokens of an XML text.
pub open spec fn xml_tokens(text: Seq<char>) -> Result<Seq<TokenView>, ParseFailure> {
    match scan_upto(text, text.len() as int) {
        Err(e) => Err(e),
        Ok(s) => scan_end(s),
    }
}

proof fn lemma_scan_fails(text: Seq<char>, have: int, want: int)
    requires
        0 <= have <= want,
        scan_upto(text, have) is Err,
    ensures
        scan_upto(text, want) == scan_upto(text, have),
    decreases want - have,
{
    if have < want {
        lemma_scan_fails(text, have, want - 1);
    }
}

fn entity_of(name: &[char]) -> (r: Option<char>)
    ensures
        r == entity_char(name@),
{
    if text_is(name, "lt") {
        Some('<')
    } else if text_is(name, "gt") {
        Some('>')
    } else if text_is(name, "amp") {
        Some('&')
    } else if text_is(name, "quot") {
        Some('"')
    } else if text_is(name, "apos") {
        Some('\'')
    } else {
        None
    }
}

/// Replaces each predefined entity of a text by its character.
pub fn resolve(s: &[char]) -> (r: Option<Vec<char>>)
    ensures
        match resolved(s@) {
            Some(text) => r matches Some(v) && v@ == text,
            None => r is None,
        },
{
    let mut out: Vec<char> = Vec::new();
    let mut name: Vec<char> = Vec::new();
    let mut inside = false;
    let mut i: usize = 0;
    while i < s.len()
        invariant
            i <= s.len(),
            resolved_from(
                s@,
                i as int,
                out@,
                if inside {
                    Some(name@)
                } else {
                    None
                },
            ) == resolved(s@),
        decreases s.len() - i,
    {
        let c = s[i];
        if inside {
            if c == ';' {
                match entity_of(name.as_slice()) {
                    Some(e) => {
                        out.push(e);
                        inside = false;
                    },
                    None => {
                        return None;
                    },
                }
            } else {
                name.push(c);
            }
        } else if c == '&' {
            name = Vec::new();
            inside = true;
        } else {
            out.push(c);
        }
        i += 1;
    }
    if inside {
        None
    } else {
        Some(out)
    }
}

fn is_all_space(s: &[char]) -> (r: bool)
    ensures
        r == all_space(s@),
{
    let mut i: usize = 0;
    while i < s.len()
        invariant
            i <= s.len(),
            forall|j: int| 0 <= j < i ==> is_space(#[trigger] s@[j]),
        decreases s.len() - i,
    {
        if !char_is_space(s[i]) {
            return false;
        }
        i += 1;
    }
    true
}

fn name_char(c: char) -> (r: bool)
    ensures
        r == is_name_char(c),
{
    !char_is_space(c) && c != '<' && c != '>' && c != '/' && c != '=' && c != '"' && c != '\''
        && c != '!' && c != '?'
}

struct Scanner {
    tokens: Vec<Token>,
    open: Vec<Vec<char>>,
    mode: XmlMode,
    current: Vec<char>,
    attr: Vec<char>,
}

impl View for Scanner {
    type V = Scan;

    closed spec fn view(&self) -> Scan {
        Scan {
            tokens: self.tokens.deep_view(),
            open: crate::text::texts(self.open@),
            mode: self.mode,
            current: self.current@,
            attr: self.attr@,
        }
    }
}

fn push_token(tokens: &mut Vec<Token>, kind: TokenKind, name: Vec<char>, value: Vec<char>)
    ensures
        final(tokens).deep_view() == old(tokens).deep_view().push(
            TokenView { kind, name: name@, value: value@ },
        ),
{
    let token = Token { kind, name, value };
    tokens.push(token);
}

fn take(buffer: &mut Vec<char>) -> (r: Vec<char>)
    ensures
        r@ == old(buffer)@,
        final(buffer)@ == Seq::<char>::empty(),
{
    let mut taken: Vec<char> = Vec::new();
    core::mem::swap(&mut taken, buffer);
    taken
}

fn close_text(s: &mut Scanner) -> (r: Result<(), ParseFailure>)
    ensures
        match text_closed(old(s)@) {
            Ok(next) => r is Ok && final(s)@ == next,
            Err(e) => r matches Err(x) && x == e,
        },
{
    if is_all_space(s.current.as_slice()) {
        s.current = Vec::new();
        return Ok(());
    }
    if s.open.len() == 0 {
        return Err(ParseFailure::UnexpectedToken);
    }
    match resolve(s.current.as_slice()) {
        None => Err(ParseFailure::InvalidSyntax),
        Some(value) => {
            push_token(&mut s.tokens, TokenKind::Text, Vec::new(), value);
            s.current = Vec::new();
            Ok(())
        },
    }
}

fn open_element(s: &mut Scanner, mode: XmlMode)
    ensures
        final(s)@ == element_opened(old(s)@, mode),
{
    let name = take(&mut s.current);
    let copy = crate::text::copy_range(name.as_slice(), 0, name.len());
    assert(copy@ =~= name@);
    let ghost before = crate::text::texts(s.open@);
    push_token(&mut s.tokens, TokenKind::Open, name, Vec::new());
    s.open.push(copy);
    assert(crate::text::texts(s.open@) =~= before.push(copy@));
    s.mode = mode;
}

fn close_element(s: &mut Scanner) -> (r: Result<(), ParseFailure>)
    ensures
        match element_closed(old(s)@) {
            Ok(next) => r is Ok && final(s)@ == next,
            Err(e) => r matches Err(x) && x == e,
        },
{
    if s.open.len() == 0 {
        return Err(ParseFailure::InvalidSyntax);
    }
    let ghost before = crate::text::texts(s.open@);
    push_token(&mut s.tokens, TokenKind::Close, Vec::new(), Vec::new());
    s.open.pop();
    assert(crate::text::texts(s.open@) =~= before.drop_last());
    s.mode = XmlMode::Content;
    s.current = Vec::new();
    Ok(())
}

fn apply_end_tag(s: &mut Scanner) -> (r: Result<(), ParseFailure>)
    ensures
        match end_tag(old(s)@) {
            Ok(next) => r is Ok && final(s)@ == next,
            Err(e) => r matches Err(x) && x == e,
        },
{
    if s.open.len() == 0 {
        return Err(ParseFailure::InvalidSyntax);
    }
    if !crate::text::text_eq(s.open[s.open.len() - 1].as_slice(), s.current.as_slice()) {
        return Err(ParseFailure::InvalidSyntax);
    }
    close_element(s)
}

fn close_attribute(s: &mut Scanner) -> (r: Result<(), ParseFailure>)
    ensures
        match attribute_closed(old(s)@) {
            Ok(next) => r is Ok && final(s)@ == next,
            Err(e) => r matches Err(x) && x == e,
        },
{
    match resolve(s.current.as_slice()) {
        None => Err(ParseFailure::InvalidSyntax),
        Some(value) => {
            let name = take(&mut s.attr);
            push_token(&mut s.tokens, TokenKind::Attribute, name, value);
            s.mode = XmlMode::InTag;
            s.current = Vec::new();
            Ok(())
        },
    }
}

fn start_name(s: &mut Scanner, mode: XmlMode, c: char)
    ensures
        final(s)@ == (Scan { mode, current: seq![c], ..old(s)@ }),
{
    let mut name: Vec<char> = Vec::new();
    name.push(c);
    s.current = name;
    s.mode = mode;
}

fn name_attribute(s: &mut Scanner, mode: XmlMode)
    ensures
        final(s)@ == (Scan { mode, attr: old(s)@.current, current: Seq::empty(), ..old(s)@ }),
{
    s.attr = take(&mut s.current);
    s.mode = mode;
}

fn step(s: &mut Scanner, c: char) -> (r: Result<(), ParseFailure>)
    ensures
        match xml_char(old(s)@, c) {
            Ok(next) => r is Ok && final(s)@ == next,
            Err(e) => r matches Err(x) && x == e,
        },
{
    let invalid: Result<(), ParseFailure> = Err(ParseFailure::InvalidSyntax);
    match s.mode {
        XmlMode::Content => {
            if c == '<' {
                match close_text(s) {
                    Err(e) => {
                        return Err(e);
                    },
                    Ok(()) => {},
                }
                s.mode = XmlMode::Less;
            } else {
                s.current.push(c);
            }
            Ok(())
        },
        XmlMode::Less => {
            if c == '/' {
                s.mode = XmlMode::CloseName;
            } else if c == '!' {
                s.mode = XmlMode::Bang;
            } else if c == '?' {
                s.mode = XmlMode::Instruction;
            } else if name_char(c) {
                start_name(s, XmlMode::OpenName, c);
            } else {
                return invalid;
            }
            Ok(())
        },
        XmlMode::OpenName => {
            if char_is_space(c) {
                open_element(s, XmlMode::InTag);
            } else if c == '>' {
                open_element(s, XmlMode::Content);
            } else if c == '/' {
                open_element(s, XmlMode::Slash);
            } else if name_char(c) {
                s.current.push(c);
            } else {
                return invalid;
            }
            Ok(())
        },
        XmlMode::InTag => {
            if char_is_space(c) {
            } else if c == '>' {
                s.mode = XmlMode::Content;
            } else if c == '/' {
                s.mode = XmlMode::Slash;
            } else if name_char(c) {
                start_name(s, XmlMode::AttrName, c);
            } else {
                return invalid;
            }
            Ok(())
        },
        XmlMode::AttrName => {
            if c == '=' {
                name_attribute(s, XmlMode::BeforeValue);
            } else if char_is_space(c) {
                name_attribute(s, XmlMode::AfterName);
            } else if name_char(c) {
                s.current.push(c);
            } else {
                return invalid;
            }
            Ok(())
        },
        XmlMode::AfterName => {
            if char_is_space(c) {
            } else if c == '=' {
                s.mode = XmlMode::BeforeValue;
            } else {
                return invalid;
            }
            Ok(())
        },
        XmlMode::BeforeValue => {
            if char_is_space(c) {
            } else if c == '"' {
                s.mode = XmlMode::ValueDouble;
            } else if c == '\'' {
                s.mode = XmlMode::ValueSingle;
            } else {
                return invalid;
            }
            Ok(())
        },
        XmlMode::ValueDouble => {
            if c == '"' {
                close_attribute(s)
            } else if c == '<' {
                invalid
            } else {
                s.current.push(c);
                Ok(())
            }
        },
        XmlMode::ValueSingle => {
            if c == '\'' {
                close_attribute(s)
            } else if c == '<' {
                invalid
            } else {
                s.current.push(c);
                Ok(())
            }
        },
        XmlMode::Slash => {
            if c == '>' {
                close_element(s)
            } else {
                invalid
            }
        },
        XmlMode::CloseName => {
            if c == '>' {
                apply_end_tag(s)
            } else if char_is_space(c) {
                s.mode = XmlMode::CloseEnd;
                Ok(())
            } else if name_char(c) {
                s.current.push(c);
                Ok(())
            } else {
                invalid
            }
        },
        XmlMode::CloseEnd => {
            if char_is_space(c) {
                Ok(())
            } else if c == '>' {
                apply_end_tag(s)
            } else {
                invalid
            }
        },
        XmlMode::Bang => {
            if c == '-' {
                s.mode = XmlMode::BangDash;
            } else if c == '[' {
                return Err(ParseFailure::UnsupportedEntity);
            } else if c == '>' {
                s.mode = XmlMode::Content;
            } else {
                s.mode = XmlMode::Declaration;
            }
            Ok(())
        },
        XmlMode::BangDash => {
            if c == '-' {
                s.mode = XmlMode::Comment;
                Ok(())
            } else {
                invalid
            }
        },
        XmlMode::Comment => {
            if c == '-' {
                s.mode = XmlMode::CommentDash;
            }
            Ok(())
        },
        XmlMode::CommentDash => {
            if c == '-' {
                s.mode = XmlMode::CommentEnd;
            } else {
                s.mode = XmlMode::Comment;
            }
            Ok(())
        },
        XmlMode::CommentEnd => {
            if c == '>' {
                s.mode = XmlMode::Content;
            } else if c == '-' {
            } else {
                s.mode = XmlMode::Comment;
            }
            Ok(())
        },
        XmlMode::Declaration => {
            if c == '>' {
                s.mode = XmlMode::Content;
            } else if c == '[' {
                return Err(ParseFailure::UnsupportedEntity);
            }
            Ok(())
        },
        XmlMode::Instruction => {
            if c == '?' {
                s.mode = XmlMode::InstructionEnd;
            }
            Ok(())
        },
        XmlMode::InstructionEnd => {
            if c == '>' {
                s.mode = XmlMode::Content;
            } else if c == '?' {
            } else {
                s.mode = XmlMode::Instruction;
            }
            Ok(())
        },
    }
}

/// Reads an XML text into tokens.
pub fn tokenize_xml(text: &[char]) -> (r: Result<Vec<Token>, ParseFailure>)
    ensures
        match xml_tokens(text@) {
            Ok(tokens) => r matches Ok(v) && v.deep_view() == tokens,
            Err(e) => r matches Err(x) && x == e,
        },
        r matches Ok(v) ==> balanced(v.deep_view()),
{
    proof {
        lemma_xml_tokens_are_balanced(text@);
    }
    let mut scanner = Scanner {
        tokens: Vec::new(),
        open: Vec::new(),
        mode: XmlMode::Content,
        current: Vec::new(),
        attr: Vec::new(),
    };
    assert(scanner.tokens.deep_view() =~= Seq::empty());
    assert(crate::text::texts(scanner.open@) =~= Seq::empty());
    let mut i: usize = 0;
    while i < text.len()
        invariant
            i <= text.len(),
            scan_upto(text@, i as int) == Ok::<_, ParseFailure>(scanner@),
        decreases text.len() - i,
    {
        match step(&mut scanner, text[i]) {
            Err(e) => {
                proof {
                    lemma_scan_fails(text@, i + 1, text@.len() as int);
                }
                return Err(e);
            },
            Ok(()) => {},
        }
        i += 1;
    }
    if scanner.mode != XmlMode::Content {
        return Err(ParseFailure::Truncated);
    }
    match close_text(&mut scanner) {
        Err(e) => {
            return Err(e);
        },
        Ok(()) => {},
    }
    if scanner.open.len() != 0 {
        return Err(ParseFailure::Truncated);
    }
    Ok(scanner.tokens)
}

/// Whether the elements read so far are sound: as many elements are open
/// as the tokens say, and none was closed that was not open.
pub open spec fn sound(s: Scan) -> bool {
    s.open.len() == nesting(s.tokens, s.tokens.len() as int) && never_negative(s.tokens)
}

proof fn lemma_parts_keep_sound(s: Scan, mode: XmlMode)
    requires
        sound(s),
    ensures
        text_closed(s) matches Ok(next) ==> sound(next),
        sound(element_opened(s, mode)),
        element_closed(s) matches Ok(next) ==> sound(next),
        end_tag(s) matches Ok(next) ==> sound(next),
        attribute_closed(s) matches Ok(next) ==> sound(next),
{
    if let Some(value) = resolved(s.current) {
        lemma_nesting_of_push(
            s.tokens,
            TokenView { kind: TokenKind::Text, name: Seq::empty(), value },
        );
        lemma_nesting_of_push(s.tokens, TokenView { kind: TokenKind::Attribute, name: s.attr, value });
    }
    lemma_nesting_of_push(
        s.tokens,
        TokenView { kind: TokenKind::Open, name: s.current, value: Seq::empty() },
    );
    if s.open.len() > 0 {
        lemma_nesting_of_push(
            s.tokens,
            TokenView { kind: TokenKind::Close, name: Seq::empty(), value: Seq::empty() },
        );
    }
}

proof fn lemma_char_keeps_sound(s: Scan, c: char)
    requires
        sound(s),
    ensures
        xml_char(s, c) matches Ok(next) ==> sound(next),
{
    lemma_parts_keep_sound(s, XmlMode::InTag);
    lemma_parts_keep_sound(s, XmlMode::Content);
    lemma_parts_keep_sound(s, XmlMode::Slash);
}

proof fn lemma_scan_is_sound(text: Seq<char>, n: int)
    ensures
        scan_upto(text, n) matches Ok(s) ==> sound(s),
    decreases n,
{
    if n > 0 {
        lemma_scan_is_sound(text, n - 1);
        if let Ok(s) = scan_upto(text, n - 1) {
            lemma_char_keeps_sound(s, text[n - 1]);
        }
    }
}

/// The tokens of an XML text are balanced.
pub proof fn lemma_xml_tokens_are_balanced(text: Seq<char>)
    ensures
        xml_tokens(text) matches Ok(t) ==> balanced(t),
{
    lemma_scan_is_sound(text, text.len() as int);
    if let Ok(s) = scan_upto(text, text.len() as int) {
        lemma_parts_keep_sound(s, XmlMode::Content);
    }
}

} // verus!

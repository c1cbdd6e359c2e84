//! S-expressions, as KiCad writes them: lists in round brackets, words, and
//! strings in double quotes with backslash escapes.
use crate::error::ParseFailure;
use crate::markup::{
    balanced, lemma_nesting_of_push, nesting, never_negative, Token, TokenKind, TokenView,
};
use crate::text::{char_is_space, is_space};
use vstd::prelude::*;

verus! {

/// What the reader is in the middle of.
#[derive(Clone, Copy, Debug, PartialEq, Eq, Structural)]
pub enum Mode {
    /// Between tokens.
    Between,
    /// Inside a word.
    Word,
    /// Inside a quoted string.
    Quoted,
    /// Inside a quoted string, behind a backslash.
    Escaped,
}

/// What has been read of an S-expression.
pub struct Reading {
    pub tokens: Seq<TokenView>,
    /// The number of lists that are open.
    pub depth: int,
    pub mode: Mode,
    /// The characters of the word or string that is being read.
    pub current: Seq<char>,
}

/// The atom token of a text.
pub open spec fn atom(value: Seq<char>) -> TokenView {
    TokenView { kind: TokenKind::Atom, name: Seq::empty(), value }
}

/// The token of a kind that has neither name nor value.
pub open spec fn bracket(kind: TokenKind) -> TokenView {
    TokenView { kind, name: Seq::empty(), value: Seq::empty() }
}

/// The character that stands for `c` behind a backslash.
pub open spec fn unescaped(c: char) -> char {
    if c == 'n' {
        '\n'
    } else if c == 't' {
        '\t'
    } else if c == 'r' {
        '\r'
    } else {
        c
    }
}

/// The state with the word that is being read closed as an atom. A word
/// outside every list is an error.
pub open spec fn word_closed(s: Reading) -> Result<Reading, ParseFailure> {
    if s.mode != Mode::Word {
        Ok(s)
    } else if s.depth <= 0 {
        Err(ParseFailure::UnexpectedToken)
    } else {
        Ok(
            Reading {
                tokens: s.tokens.push(atom(s.current)),
                mode: Mode::Between,
                current: Seq::empty(),
                ..s
            },
        )
    }
}

/// The state behind one more character.
pub open spec fn read_char(s: Reading, c: char) -> Result<Reading, ParseFailure> {
    if s.mode == Mode::Escaped {
        Ok(Reading { mode: Mode::Quoted, current: s.current.push(unescaped(c)), ..s })
    } else if s.mode == Mode::Quoted {
        if c == '\\' {
            Ok(Reading { mode: Mode::Escaped, ..s })
        } else if c == '"' {
            if s.depth <= 0 {
                Err(ParseFailure::UnexpectedToken)
            } else {
                Ok(
                    Reading {
                        tokens: s.tokens.push(atom(s.current)),
                        mode: Mode::Between,
                        current: Seq::empty(),
                        ..s
                    },
                )
            }
        } else {
            Ok(Reading { current: s.current.push(c), ..s })
        }
    } else if c == '(' || c == ')' || c == '"' || is_space(c) {
        match word_closed(s) {
            Err(e) => Err(e),
            Ok(w) => if c == '(' {
                Ok(
                    Reading {
                        tokens: w.tokens.push(bracket(TokenKind::Open)),
                        depth: w.depth + 1,
                        ..w
                    },
                )
            } else if c == ')' {
                if w.depth <= 0 {
                    Err(ParseFailure::InvalidSyntax)
                } else {
                    Ok(
                        Reading {
                            tokens: w.tokens.push(bracket(TokenKind::Close)),
                            depth: w.depth - 1,
                            ..w
                        },
                    )
                }
            } else if c == '"' {
                Ok(Reading { mode: Mode::Quoted, ..w })
            } else {
                Ok(w)
            },
        }
    } else {
        Ok(Reading { mode: Mode::Word, current: s.current.push(c), ..s })
    }
}

/// The state before the first character.
pub open spec fn reading_start() -> Reading {
    Reading { tokens: Seq::empty(), depth: 0, mode: Mode::Between, current: Seq::empty() }
}

/// The state behind the first `n` characters.
pub open spec fn read_upto(text: Seq<char>, n: int) -> Result<Reading, ParseFailure>
    decreases n,
{
    if n <= 0 {
        Ok(reading_start())
    } else {
        match read_upto(text, n - 1) {
            Err(e) => Err(e),
            Ok(s) => read_char(s, text[n - 1]),
        }
    }
}

/// The tokens of a state at the end of the text: a string or a list that
/// is still open makes the text incomplete.
pub open spec fn read_end(s: Reading) -> Result<Seq<TokenView>, ParseFailure> {
    if s.mode == Mode::Quoted || s.mode == Mode::Escaped {
        Err(ParseFailure::Truncated)
    } else {
        match word_closed(s) {
            Err(e) => Err(e),
            Ok(w) => if w.depth != 0 {
                Err(ParseFailure::Truncated)
            } else {
                Ok(w.tokens)
            },
        }
    }
}

/// The tokens of an S-expression text.
pub open spec fn sexpr_tokens(text: Seq<char>) -> Result<Seq<TokenView>, ParseFailure> {
    match read_upto(text, text.len() as int) {
        Err(e) => Err(e),
        Ok(s) => read_end(s),
    }
}

proof fn lemma_read_fails(text: Seq<char>, have: int, want: int)
    requires
        0 <= have <= want,
        read_upto(text, have) is Err,
    ensures
        read_upto(text, want) == read_upto(text, have),
    decreases want - have,
{
    if have < want {
        lemma_read_fails(text, have, want - 1);
    }
}

struct Reader {
    tokens: Vec<Token>,
    depth: usize,
    mode: Mode,
    current: Vec<char>,
}

impl View for Reader {
    type V = Reading;

    closed spec fn view(&self) -> Reading {
        Reading {
            tokens: self.tokens.deep_view(),
            depth: self.depth as int,
            mode: self.mode,
            current: self.current@,
        }
    }
}

fn push_token(tokens: &mut Vec<Token>, kind: TokenKind, value: Vec<char>)
    ensures
        final(tokens).deep_view() == old(tokens).deep_view().push(
            TokenView { kind, name: Seq::empty(), value: value@ },
        ),
        final(tokens).len() == old(tokens).len() + 1,
{
    let token = Token { kind, name: Vec::new(), value };
    tokens.push(token);
}

fn close_word(r: &mut Reader) -> (out: Result<(), ParseFailure>)
    requires
        old(r).depth <= old(r).tokens.len(),
    ensures
        match word_closed(old(r)@) {
            Ok(next) => out is Ok && final(r)@ == next,
            Err(e) => out matches Err(x) && x == e,
        },
        final(r).depth <= final(r).tokens.len(),
        final(r).depth == old(r).depth,
{
    if r.mode != Mode::Word {
        return Ok(());
    }
    if r.depth == 0 {
        return Err(ParseFailure::UnexpectedToken);
    }
    let mut word: Vec<char> = Vec::new();
    core::mem::swap(&mut word, &mut r.current);
    push_token(&mut r.tokens, TokenKind::Atom, word);
    r.mode = Mode::Between;
    Ok(())
}

fn unescape(c: char) -> (r: char)
    ensures
        r == unescaped(c),
{
    if c == 'n' {
        '\n'
    } else if c == 't' {
        '\t'
    } else if c == 'r' {
        '\r'
    } else {
        c
    }
}

fn step(r: &mut Reader, c: char) -> (out: Result<(), ParseFailure>)
    requires
        old(r).depth <= old(r).tokens.len(),
    ensures
        match read_char(old(r)@, c) {
            Ok(next) => out is Ok && final(r)@ == next,
            Err(e) => out matches Err(x) && x == e,
        },
        final(r).depth <= final(r).tokens.len(),
{
    if r.mode == Mode::Escaped {
        r.current.push(unescape(c));
        r.mode = Mode::Quoted;
        Ok(())
    } else if r.mode == Mode::Quoted {
        if c == '\\' {
            r.mode = Mode::Escaped;
            Ok(())
        } else if c == '"' {
            if r.depth == 0 {
                return Err(ParseFailure::UnexpectedToken);
            }
            let mut word: Vec<char> = Vec::new();
            core::mem::swap(&mut word, &mut r.current);
            push_token(&mut r.tokens, TokenKind::Atom, word);
            r.mode = Mode::Between;
            Ok(())
        } else {
            r.current.push(c);
            Ok(())
        }
    } else if c == '(' || c == ')' || c == '"' || char_is_space(c) {
        match close_word(r) {
            Err(e) => {
                return Err(e);
            },
            Ok(()) => {},
        }
        if c == '(' {
            push_token(&mut r.tokens, TokenKind::Open, Vec::new());
            r.depth += 1;
            Ok(())
        } else if c == ')' {
            if r.depth == 0 {
                return Err(ParseFailure::InvalidSyntax);
            }
            push_token(&mut r.tokens, TokenKind::Close, Vec::new());
            r.depth -= 1;
            Ok(())
        } else if c == '"' {
            r.mode = Mode::Quoted;
            Ok(())
        } else {
            Ok(())
        }
    } else {
        r.current.push(c);
        r.mode = Mode::Word;
        Ok(())
    }
}

/// Reads an S-expression text into tokens.
pub fn tokenize(text: &[char]) -> (r: Result<Vec<Token>, ParseFailure>)
    ensures
        match sexpr_tokens(text@) {
            Ok(tokens) => r matches Ok(v) && v.deep_view() == tokens,
            Err(e) => r matches Err(x) && x == e,
        },
        r matches Ok(v) ==> balanced(v.deep_view()),
{
    proof {
        lemma_sexpr_tokens_are_balanced(text@);
    }
    let mut reader = Reader {
        tokens: Vec::new(),
        depth: 0,
        mode: Mode::Between,
        current: Vec::new(),
    };
    assert(reader.tokens.deep_view() =~= Seq::empty());
    let mut i: usize = 0;
    while i < text.len()
        invariant
            i <= text.len(),
            reader.depth <= reader.tokens.len(),
            read_upto(text@, i as int) == Ok::<_, ParseFailure>(reader@),
        decreases text.len() - i,
    {
        match step(&mut reader, text[i]) {
            Err(e) => {
                proof {
                    lemma_read_fails(text@, i + 1, text@.len() as int);
                }
                return Err(e);
            },
            Ok(()) => {},
        }
        i += 1;
    }
    if reader.mode == Mode::Quoted || reader.mode == Mode::Escaped {
        return Err(ParseFailure::Truncated);
    }
    match close_word(&mut reader) {
        Err(e) => {
            return Err(e);
        },
        Ok(()) => {},
    }
    if reader.depth != 0 {
        return Err(ParseFailure::Truncated);
    }
    Ok(reader.tokens)
}

/// Whether the brackets read so far are sound: as many lists are open as
/// the tokens say, and no list was closed that was not open.
pub open spec fn sound(s: Reading) -> bool {
    s.depth == nesting(s.tokens, s.tokens.len() as int) && never_negative(s.tokens)
}

proof fn lemma_char_keeps_sound(s: Reading, c: char)
    requires
        sound(s),
    ensures
        read_char(s, c) matches Ok(next) ==> sound(next),
{
    if s.depth > 0 {
        lemma_nesting_of_push(s.tokens, atom(s.current));
    }
    if let Ok(w) = word_closed(s) {
        lemma_nesting_of_push(w.tokens, bracket(TokenKind::Open));
        if w.depth > 0 {
            lemma_nesting_of_push(w.tokens, bracket(TokenKind::Close));
        }
    }
}

proof fn lemma_reading_is_sound(text: Seq<char>, n: int)
    ensures
        read_upto(text, n) matches Ok(s) ==> sound(s),
    decreases n,
{
    if n > 0 {
        lemma_reading_is_sound(text, n - 1);
        if let Ok(s) = read_upto(text, n - 1) {
            lemma_char_keeps_sound(s, text[n - 1]);
        }
    }
}

/// The tokens of an S-expression text are balanced.
pub proof fn lemma_sexpr_tokens_are_balanced(text: Seq<char>)
    ensures
        sexpr_tokens(text) matches Ok(t) ==> balanced(t),
{
    lemma_reading_is_sound(text, text.len() as int);
    if let Ok(s) = read_upto(text, text.len() as int) {
        if s.mode == Mode::Word && s.depth > 0 {
            lemma_nesting_of_push(s.tokens, atom(s.current));
        }
    }
}

} // verus!

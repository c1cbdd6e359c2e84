//! Nested documents as flat sequences of tokens.
//!
//! Both S-expressions and XML are read into one sequence of tokens, in which
//! `Open` and `Close` bracket the items of a list or element. An item is
//! either one token that is neither of the two, or an `Open`, the items
//! inside, and the `Close` that belongs to it.
use crate::text::text_is;
use vstd::prelude::*;

verus! {

/// What a token is.
#[derive(Clone, Copy, Debug, PartialEq, Eq, Structural)]
pub enum TokenKind {
    /// The beginning of a list or element; an element has its name here.
    Open,
    /// The end of a list or element.
    Close,
    /// A word or a quoted string of an S-expression, in `value`.
    Atom,
    /// An attribute of the element that was opened last, as `name` and `value`.
    Attribute,
    /// Character data of an element, in `value`.
    Text,
}

/// One token of a document.
#[derive(Debug, PartialEq)]
pub struct Token {
    pub kind: TokenKind,
    pub name: Vec<char>,
    pub value: Vec<char>,
}

/// A token, with its texts as sequences of characters.
pub struct TokenView {
    pub kind: TokenKind,
    pub name: Seq<char>,
    pub value: Seq<char>,
}

impl DeepView for Token {
    type V = TokenView;

    open spec fn deep_view(&self) -> TokenView {
        TokenView { kind: self.kind, name: self.name@, value: self.value@ }
    }
}

/// The position behind the `Close` that brings the nesting, `depth` at
/// `from`, back to zero; the end of the sequence if there is none.
pub open spec fn list_end(t: Seq<TokenView>, from: int, depth: int) -> int
    decreases t.len() - from,
{
    if from < 0 || from >= t.len() || depth <= 0 {
        from
    } else if t[from].kind == TokenKind::Open {
        list_end(t, from + 1, depth + 1)
    } else if t[from].kind == TokenKind::Close {
        list_end(t, from + 1, depth - 1)
    } else {
        list_end(t, from + 1, depth)
    }
}

/// The position behind the item that begins at `at`.
pub open spec fn after_item(t: Seq<TokenView>, at: int) -> int {
    if 0 <= at < t.len() && t[at].kind == TokenKind::Open && at < list_end(t, at + 1, 1)
        <= t.len() {
        list_end(t, at + 1, 1)
    } else {
        at + 1
    }
}

/// Whether an item begins at `at`: the position lies inside the sequence
/// and holds no `Close`.
pub open spec fn item_at(t: Seq<TokenView>, at: int) -> bool {
    0 <= at < t.len() && t[at].kind != TokenKind::Close
}

/// Whether a list begins at `at`.
pub open spec fn list_at(t: Seq<TokenView>, at: int) -> bool {
    0 <= at < t.len() && t[at].kind == TokenKind::Open
}

/// Whether the token at `at` is an atom.
pub open spec fn atom_at(t: Seq<TokenView>, at: int) -> bool {
    0 <= at < t.len() && t[at].kind == TokenKind::Atom
}

/// Whether a list begins at `at` whose first item is the atom `word`.
pub open spec fn headed(t: Seq<TokenView>, at: int, word: Seq<char>) -> bool {
    list_at(t, at) && atom_at(t, at + 1) && t[at + 1].value == word
}

/// Whether an element of the given name begins at `at`.
pub open spec fn named(t: Seq<TokenView>, at: int, name: Seq<char>) -> bool {
    list_at(t, at) && t[at].name == name
}

/// The first item from `from` on, among the items up to the next `Close`
/// of this level, that is a list headed by `word`.
pub open spec fn find_headed(t: Seq<TokenView>, from: int, word: Seq<char>) -> Option<int>
    decreases t.len() - from,
{
    if !item_at(t, from) {
        None
    } else if headed(t, from, word) {
        Some(from)
    } else {
        find_headed(t, after_item(t, from), word)
    }
}

/// The first item from `from` on, among the items up to the next `Close`
/// of this level, that is an element of the given name.
pub open spec fn find_named(t: Seq<TokenView>, from: int, name: Seq<char>) -> Option<int>
    decreases t.len() - from,
{
    if !item_at(t, from) {
        None
    } else if named(t, from, name) {
        Some(from)
    } else {
        find_named(t, after_item(t, from), name)
    }
}

/// The value of the atom at `at`, if there is one.
pub open spec fn atom_value(t: Seq<TokenView>, at: int) -> Option<Seq<char>> {
    if atom_at(t, at) {
        Some(t[at].value)
    } else {
        None
    }
}

/// The value of the attribute `name` among the attributes that stand from
/// `from` on; the attributes of an element stand right behind its `Open`.
pub open spec fn attribute_from(t: Seq<TokenView>, from: int, name: Seq<char>) -> Option<Seq<char>>
    decreases t.len() - from,
{
    if from < 0 || from >= t.len() || t[from].kind != TokenKind::Attribute {
        None
    } else if t[from].name == name {
        Some(t[from].value)
    } else {
        attribute_from(t, from + 1, name)
    }
}

/// The value of the attribute `name` of the element that begins at `at`.
pub open spec fn attribute(t: Seq<TokenView>, at: int, name: Seq<char>) -> Option<Seq<char>> {
    attribute_from(t, at + 1, name)
}

/// The position behind the attributes that stand from `from` on.
pub open spec fn attributes_end(t: Seq<TokenView>, from: int) -> int
    decreases t.len() - from,
{
    if from < 0 || from >= t.len() || t[from].kind != TokenKind::Attribute {
        from
    } else {
        attributes_end(t, from + 1)
    }
}

/// Where the items inside the element at `at` begin: behind its attributes.
pub open spec fn content_start(t: Seq<TokenView>, at: int) -> int {
    attributes_end(t, at + 1)
}

/// The net nesting of the first `n` tokens: the number of `Open` less the
/// number of `Close` among them.
pub open spec fn nesting(t: Seq<TokenView>, n: int) -> int
    decreases n,
{
    if n <= 0 {
        0
    } else if t[n - 1].kind == TokenKind::Open {
        nesting(t, n - 1) + 1
    } else if t[n - 1].kind == TokenKind::Close {
        nesting(t, n - 1) - 1
    } else {
        nesting(t, n - 1)
    }
}

/// Whether every `Close` has its `Open` before it and every `Open` its
/// `Close` behind it.
pub open spec fn balanced(t: Seq<TokenView>) -> bool {
    &&& nesting(t, t.len() as int) == 0
    &&& forall|n: int| 0 <= n <= t.len() ==> #[trigger] nesting(t, n) >= 0
}

/// A list ends behind the place where the search for its end begins, and
/// not beyond the end of the tokens.
pub proof fn lemma_list_end_bounds(t: Seq<TokenView>, from: int, depth: int)
    requires
        0 <= from <= t.len(),
    ensures
        from <= list_end(t, from, depth) <= t.len(),
    decreases t.len() - from,
{
    if from < t.len() && depth > 0 {
        if t[from].kind == TokenKind::Open {
            lemma_list_end_bounds(t, from + 1, depth + 1);
        } else if t[from].kind == TokenKind::Close {
            lemma_list_end_bounds(t, from + 1, depth - 1);
        } else {
            lemma_list_end_bounds(t, from + 1, depth);
        }
    }
}

/// The item behind another begins further on, and not beyond the end.
pub proof fn lemma_after_item_bounds(t: Seq<TokenView>, at: int)
    requires
        0 <= at < t.len(),
    ensures
        at < after_item(t, at) <= t.len(),
{
    lemma_list_end_bounds(t, at + 1, 1);
}

/// The nesting of the first tokens does not depend on the tokens behind them.
pub proof fn lemma_nesting_of_prefix(t: Seq<TokenView>, last: TokenView, n: int)
    requires
        0 <= n <= t.len(),
    ensures
        nesting(t.push(last), n) == nesting(t, n),
    decreases n,
{
    if n > 0 {
        lemma_nesting_of_prefix(t, last, n - 1);
    }
}

/// The nesting behind one more token.
pub open spec fn nesting_step(kind: TokenKind) -> int {
    if kind == TokenKind::Open {
        1
    } else if kind == TokenKind::Close {
        -1
    } else {
        0
    }
}

/// Whether no `Close` among the tokens lacks its `Open`.
pub open spec fn never_negative(t: Seq<TokenView>) -> bool {
    forall|n: int| 0 <= n <= t.len() ==> #[trigger] nesting(t, n) >= 0
}

/// Tokens in which no `Close` lacks its `Open` stay so with one more token
/// behind them, unless that token is a `Close` at nesting zero.
pub proof fn lemma_nesting_of_push(t: Seq<TokenView>, last: TokenView)
    requires
        never_negative(t),
        nesting(t, t.len() as int) + nesting_step(last.kind) >= 0,
    ensures
        never_negative(t.push(last)),
        nesting(t.push(last), t.len() as int + 1) == nesting(t, t.len() as int) + nesting_step(
            last.kind,
        ),
{
    lemma_nesting_of_prefix(t, last, t.len() as int);
    assert forall|n: int| 0 <= n <= t.len() + 1 implies #[trigger] nesting(t.push(last), n)
        >= 0 by {
        if n <= t.len() {
            lemma_nesting_of_prefix(t, last, n);
        }
    }
}

proof fn lemma_list_closes(t: Seq<TokenView>, from: int, depth: int)
    requires
        balanced(t),
        0 <= from <= t.len(),
        depth > 0,
        nesting(t, from) >= depth,
    ensures
        from < list_end(t, from, depth) <= t.len(),
        t[list_end(t, from, depth) - 1].kind == TokenKind::Close,
        nesting(t, list_end(t, from, depth)) == nesting(t, from) - depth,
        forall|p: int|
            from <= p < list_end(t, from, depth) ==> #[trigger] nesting(t, p) > nesting(t, from)
                - depth,
    decreases t.len() - from,
{
    if from < t.len() {
        if t[from].kind == TokenKind::Open {
            lemma_list_closes(t, from + 1, depth + 1);
        } else if t[from].kind == TokenKind::Close {
            if depth > 1 {
                lemma_list_closes(t, from + 1, depth - 1);
            }
        } else {
            lemma_list_closes(t, from + 1, depth);
        }
    }
}

/// In balanced tokens every list has its end: the item that begins with an
/// `Open` ends with the `Close` that brings the nesting back to what it was
/// before the `Open`, and the nesting stays above that in between.
pub proof fn lemma_list_has_its_close(t: Seq<TokenView>, at: int)
    requires
        balanced(t),
        list_at(t, at),
    ensures
        at + 1 < after_item(t, at) <= t.len(),
        t[after_item(t, at) - 1].kind == TokenKind::Close,
        nesting(t, after_item(t, at)) == nesting(t, at),
        forall|p: int| at < p < after_item(t, at) ==> #[trigger] nesting(t, p) > nesting(t, at),
{
    lemma_list_closes(t, at + 1, 1);
}

/// The position behind the item that begins at `at`.
pub fn skip_item(t: &Vec<Token>, at: usize) -> (r: usize)
    requires
        at < t.len(),
    ensures
        r == after_item(t.deep_view(), at as int),
        at < r <= t.len(),
{
    proof {
        lemma_after_item_bounds(t.deep_view(), at as int);
    }
    if !is_kind(t, at, TokenKind::Open) {
        return at + 1;
    }
    let mut pos: usize = at + 1;
    let mut depth: usize = 1;
    while pos < t.len() && depth > 0
        invariant
            at < pos <= t.len(),
            depth <= pos - at,
            list_end(t.deep_view(), pos as int, depth as int) == list_end(
                t.deep_view(),
                at + 1,
                1,
            ),
        decreases t.len() - pos,
    {
        if is_kind(t, pos, TokenKind::Open) {
            depth += 1;
        } else if is_kind(t, pos, TokenKind::Close) {
            depth -= 1;
        }
        pos += 1;
    }
    pos
}

/// Whether the token at `at` is of the given kind.
pub fn is_kind(t: &Vec<Token>, at: usize, kind: TokenKind) -> (r: bool)
    ensures
        r == (at < t.len() && t.deep_view()[at as int].kind == kind),
{
    if at >= t.len() {
        return false;
    }
    t[at].kind == kind
}

/// Whether an item begins at `at`.
pub fn is_item(t: &Vec<Token>, at: usize) -> (r: bool)
    ensures
        r == item_at(t.deep_view(), at as int),
{
    at < t.len() && !is_kind(t, at, TokenKind::Close)
}

/// Whether a list begins at `at` whose first item is the atom `word`.
pub fn is_headed(t: &Vec<Token>, at: usize, word: &str) -> (r: bool)
    ensures
        r == headed(t.deep_view(), at as int, word@),
{
    if at >= t.len() || at + 1 >= t.len() {
        return false;
    }
    if !is_kind(t, at, TokenKind::Open) || !is_kind(t, at + 1, TokenKind::Atom) {
        return false;
    }
    text_is(t[at + 1].value.as_slice(), word)
}

/// Whether an element of the given name begins at `at`.
pub fn is_named(t: &Vec<Token>, at: usize, name: &str) -> (r: bool)
    ensures
        r == named(t.deep_view(), at as int, name@),
{
    if !is_kind(t, at, TokenKind::Open) {
        return false;
    }
    text_is(t[at].name.as_slice(), name)
}

/// Finds, among the items from `from` on, the first list headed by `word`.
pub fn seek_headed(t: &Vec<Token>, from: usize, word: &str) -> (r: Option<usize>)
    ensures
        match find_headed(t.deep_view(), from as int, word@) {
            Some(at) => r == Some(at as usize) && headed(t.deep_view(), at, word@) && from <= at < t.len(),
            None => r is None,
        },
{
    let mut pos: usize = from;
    while is_item(t, pos)
        invariant
            from <= pos,
            find_headed(t.deep_view(), pos as int, word@) == find_headed(
                t.deep_view(),
                from as int,
                word@,
            ),
        decreases t.len() - pos,
    {
        if is_headed(t, pos, word) {
            return Some(pos);
        }
        pos = skip_item(t, pos);
    }
    None
}

/// Finds, among the items from `from` on, the first element of the given name.
pub fn seek_named(t: &Vec<Token>, from: usize, name: &str) -> (r: Option<usize>)
    ensures
        match find_named(t.deep_view(), from as int, name@) {
            Some(at) => r == Some(at as usize) && named(t.deep_view(), at, name@) && from <= at < t.len(),
            None => r is None,
        },
{
    let mut pos: usize = from;
    while is_item(t, pos)
        invariant
            from <= pos,
            find_named(t.deep_view(), pos as int, name@) == find_named(
                t.deep_view(),
                from as int,
                name@,
            ),
        decreases t.len() - pos,
    {
        if is_named(t, pos, name) {
            return Some(pos);
        }
        pos = skip_item(t, pos);
    }
    None
}

/// The value of the atom at `at`, if there is one.
pub fn read_atom(t: &Vec<Token>, at: usize) -> (r: Option<&Vec<char>>)
    ensures
        match atom_value(t.deep_view(), at as int) {
            Some(v) => r matches Some(found) && found@ == v,
            None => r is None,
        },
{
    if is_kind(t, at, TokenKind::Atom) {
        Some(&t[at].value)
    } else {
        None
    }
}

/// The value of the attribute `name` of the element that begins at `at`.
pub fn read_attribute<'a>(t: &'a Vec<Token>, at: usize, name: &str) -> (r: Option<&'a Vec<char>>)
    requires
        at < t.len(),
    ensures
        match attribute(t.deep_view(), at as int, name@) {
            Some(v) => r matches Some(found) && found@ == v,
            None => r is None,
        },
{
    let mut pos: usize = at + 1;
    while is_kind(t, pos, TokenKind::Attribute)
        invariant
            at < pos,
            attribute_from(t.deep_view(), pos as int, name@) == attribute(
                t.deep_view(),
                at as int,
                name@,
            ),
        decreases t.len() - pos,
    {
        if text_is(t[pos].name.as_slice(), name) {
            return Some(&t[pos].value);
        }
        pos += 1;
    }
    None
}

/// Where the items inside the element at `at` begin.
pub fn skip_attributes(t: &Vec<Token>, at: usize) -> (r: usize)
    requires
        at < t.len(),
    ensures
        r == content_start(t.deep_view(), at as int),
        at < r <= t.len(),
{
    let mut pos: usize = at + 1;
    while is_kind(t, pos, TokenKind::Attribute)
        invariant
            at < pos <= t.len(),
            attributes_end(t.deep_view(), pos as int) == content_start(t.deep_view(), at as int),
        decreases t.len() - pos,
    {
        pos += 1;
    }
    pos
}

/// The position `plus` tokens behind `at`, or the end of the sequence where
/// that lies beyond it.
pub fn ahead(t: &Vec<Token>, at: usize, plus: usize) -> (r: usize)
    requires
        at <= t.len(),
    ensures
        r == if at + plus <= t.len() {
            at + plus
        } else {
            t.len() as int
        },
        at <= r <= t.len(),
{
    if plus <= t.len() - at {
        at + plus
    } else {
        t.len()
    }
}

} // verus!

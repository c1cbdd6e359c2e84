//! Text as sequences of characters: decoding, character classes, splitting
//! into lines and words, and unsigned decimal numbers.
use vstd::prelude::*;
use vstd::utf8::{decode_utf8, valid_utf8};

verus! {

/// The characters that a byte sequence spells in UTF-8, if it is valid UTF-8.
pub open spec fn text_of(bytes: Seq<u8>) -> Option<Seq<char>> {
    if valid_utf8(bytes) {
        Some(decode_utf8(bytes))
    } else {
        None
    }
}

/// [`core::str::from_utf8`]: succeeds exactly on valid UTF-8, and the string
/// slice it returns consists of the very bytes it was given.
#[verifier::external_body]
fn str_from_utf8(bytes: &[u8]) -> (r: Option<&str>)
    ensures
        r is Some <==> valid_utf8(bytes@),
        r matches Some(s) ==> vstd::utf8::encode_utf8(s@) == bytes@,
{
    core::str::from_utf8(bytes).ok()
}

/// [`FromIterator<char>`] for `String`: the string that consists of the given characters.
#[verifier::external_body]
pub(crate) fn string_from_chars(chars: &[char]) -> (r: String)
    ensures
        r@ == chars@,
{
    String::from_iter(chars.iter())
}

/// [`char::from_u32`]: the character of a code, for every code that is a
/// Unicode scalar value, and nothing for every other code.
#[verifier::external_body]
pub(crate) fn char_from_code(code: u32) -> (r: Option<char>)
    ensures
        r is Some <==> vstd::utf8::is_scalar(code),
        r matches Some(c) ==> c as u32 == code,
{
    char::from_u32(code)
}

/// The characters of a string slice, as a vector.
pub fn str_chars(s: &str) -> (r: Vec<char>)
    ensures
        r@ == s@,
{
    let mut out: Vec<char> = Vec::new();
    for c in it: s.chars()
        invariant
            out@ == it.seq().take(it.index() as int),
    {
        out.push(c);
    }
    out
}

/// Decodes UTF-8 bytes into characters.
pub fn decode_text(bytes: &[u8]) -> (r: Option<Vec<char>>)
    ensures
        match text_of(bytes@) {
            Some(t) => r matches Some(v) && v@ == t,
            None => r is None,
        },
{
    match str_from_utf8(bytes) {
        None => None,
        Some(s) => {
            proof {
                vstd::utf8::encode_utf8_decode_utf8(s@);
            }
            Some(str_chars(s))
        },
    }
}

/// Blank, tab, line feed or carriage return.
pub open spec fn is_space(c: char) -> bool {
    c == ' ' || c == '\t' || c == '\n' || c == '\r'
}

/// One of the ten decimal digits.
pub open spec fn is_digit(c: char) -> bool {
    '0' <= c <= '9'
}

/// The number that a decimal digit stands for.
pub open spec fn digit_value(c: char) -> int {
    c as int - 48
}

/// The lower-case form of an ASCII capital; every other character is itself.
pub open spec fn lower(c: char) -> char {
    if 'A' <= c <= 'Z' {
        ((c as u8) + 32) as char
    } else {
        c
    }
}

/// The text with every ASCII capital in lower case.
pub open spec fn lowered(s: Seq<char>) -> Seq<char> {
    Seq::new(s.len(), |i: int| lower(s[i]))
}

/// Whether a character is blank, tab, line feed or carriage return.
pub fn char_is_space(c: char) -> (r: bool)
    ensures
        r == is_space(c),
{
    c == ' ' || c == '\t' || c == '\n' || c == '\r'
}

/// Whether a character is a decimal digit.
pub fn char_is_digit(c: char) -> (r: bool)
    ensures
        r == is_digit(c),
{
    '0' <= c && c <= '9'
}

/// The lower-case form of an ASCII capital; every other character itself.
pub fn char_lower(c: char) -> (r: char)
    ensures
        r == lower(c),
{
    if 'A' <= c && c <= 'Z' {
        ((c as u8) + 32) as char
    } else {
        c
    }
}

/// Lower-cases the ASCII capitals of a text.
pub fn to_lower(s: &[char]) -> (r: Vec<char>)
    ensures
        r@ == lowered(s@),
{
    let mut out: Vec<char> = Vec::new();
    let mut i: usize = 0;
    while i < s.len()
        invariant
            i <= s.len(),
            out@ == lowered(s@.take(i as int)),
        decreases s.len() - i,
    {
        out.push(char_lower(s[i]));
        i += 1;
    }
    out
}

/// Whether a text is, character for character, the given string.
pub fn text_is(s: &[char], word: &str) -> (r: bool)
    ensures
        r == (s@ == word@),
{
    let n = word.unicode_len();
    if s.len() != n {
        return false;
    }
    let mut i: usize = 0;
    while i < n
        invariant
            i <= n,
            n == s.len(),
            n == word@.len(),
            s@.take(i as int) == word@.take(i as int),
        decreases n - i,
    {
        if s[i] != word.get_char(i) {
            return false;
        }
        i += 1;
    }
    assert(s@.take(n as int) =~= s@);
    assert(word@.take(n as int) =~= word@);
    true
}

/// Whether two texts are equal.
pub fn text_eq(a: &[char], b: &[char]) -> (r: bool)
    ensures
        r == (a@ == b@),
{
    if a.len() != b.len() {
        return false;
    }
    let mut i: usize = 0;
    while i < a.len()
        invariant
            i <= a.len(),
            a.len() == b.len(),
            a@.take(i as int) == b@.take(i as int),
        decreases a.len() - i,
    {
        if a[i] != b[i] {
            return false;
        }
        i += 1;
    }
    assert(a@.take(a.len() as int) =~= a@);
    assert(b@.take(b.len() as int) =~= b@);
    true
}

/// A copy of the characters from `from` up to `to`.
pub fn copy_range(s: &[char], from: usize, to: usize) -> (r: Vec<char>)
    requires
        from <= to <= s.len(),
    ensures
        r@ == s@.subrange(from as int, to as int),
{
    let mut out: Vec<char> = Vec::new();
    let mut i: usize = from;
    while i < to
        invariant
            from <= i <= to <= s.len(),
            out@ == s@.subrange(from as int, i as int),
        decreases to - i,
    {
        out.push(s[i]);
        i += 1;
    }
    out
}

/// The views of a sequence of texts.
pub open spec fn texts(v: Seq<Vec<char>>) -> Seq<Seq<char>> {
    Seq::new(v.len(), |i: int| v[i]@)
}

/// The sequence that holds `item` if it is not empty, and nothing otherwise.
pub open spec fn unless_empty(item: Seq<char>) -> Seq<Seq<char>> {
    if item.len() > 0 {
        seq![item]
    } else {
        Seq::empty()
    }
}

/// The words of `s` from position `from` on, where `current` holds the
/// characters of the word that is being read. Words are the maximal runs of
/// characters that are not white space.
pub open spec fn words_from(s: Seq<char>, from: int, current: Seq<char>) -> Seq<Seq<char>>
    decreases s.len() - from,
{
    if from < 0 || from >= s.len() {
        unless_empty(current)
    } else if is_space(s[from]) {
        unless_empty(current) + words_from(s, from + 1, Seq::empty())
    } else {
        words_from(s, from + 1, current.push(s[from]))
    }
}

/// The words of a text: its maximal runs of characters that are not white space, in order.
pub open spec fn words(s: Seq<char>) -> Seq<Seq<char>> {
    words_from(s, 0, Seq::empty())
}

/// Splits a text into its words.
pub fn split_words(s: &[char]) -> (r: Vec<Vec<char>>)
    ensures
        texts(r@) == words(s@),
{
    let mut out: Vec<Vec<char>> = Vec::new();
    let mut current: Vec<char> = Vec::new();
    let mut i: usize = 0;
    while i < s.len()
        invariant
            i <= s.len(),
            texts(out@) + words_from(s@, i as int, current@) == words(s@),
        decreases s.len() - i,
    {
        let c = s[i];
        if char_is_space(c) {
            if current.len() > 0 {
                out.push(current);
                current = Vec::new();
            }
            assert(current@ =~= Seq::<char>::empty());
        } else {
            current.push(c);
        }
        i += 1;
    }
    if current.len() > 0 {
        out.push(current);
    }
    out
}

/// The lines of `s` from position `from` on, where `current` holds the
/// characters of the line that is being read. A line ends at a line feed or at
/// the end of the text; the line feed is not part of it.
pub open spec fn lines_from(s: Seq<char>, from: int, current: Seq<char>) -> Seq<Seq<char>>
    decreases s.len() - from,
{
    if from < 0 || from >= s.len() {
        unless_empty(current)
    } else if s[from] == '\n' {
        seq![current] + lines_from(s, from + 1, Seq::empty())
    } else {
        lines_from(s, from + 1, current.push(s[from]))
    }
}

/// The lines of a text. A text that ends in a line feed has no empty last line.
pub open spec fn lines(s: Seq<char>) -> Seq<Seq<char>> {
    lines_from(s, 0, Seq::empty())
}

/// Splits a text into its lines.
pub fn split_lines(s: &[char]) -> (r: Vec<Vec<char>>)
    ensures
        texts(r@) == lines(s@),
{
    let mut out: Vec<Vec<char>> = Vec::new();
    let mut current: Vec<char> = Vec::new();
    let mut i: usize = 0;
    while i < s.len()
        invariant
            i <= s.len(),
            texts(out@) + lines_from(s@, i as int, current@) == lines(s@),
        decreases s.len() - i,
    {
        let c = s[i];
        if c == '\n' {
            out.push(current);
            current = Vec::new();
        } else {
            current.push(c);
        }
        i += 1;
    }
    if current.len() > 0 {
        out.push(current);
    }
    out
}

/// Whether every character is a decimal digit.
pub open spec fn all_digits(s: Seq<char>) -> bool {
    forall|i: int| 0 <= i < s.len() ==> is_digit(#[trigger] s[i])
}

/// The number that a run of decimal digits spells.
pub open spec fn decimal_value(s: Seq<char>) -> nat
    decreases s.len(),
{
    if s.len() == 0 {
        0
    } else {
        (decimal_value(s.drop_last()) * 10 + digit_value(s.last())) as nat
    }
}

/// The number that a text spells in decimal digits, if it consists of digits
/// alone, has at least one, and spells a number that fits in 64 bits.
pub open spec fn unsigned_of(s: Seq<char>) -> Option<u64> {
    if s.len() > 0 && all_digits(s) && decimal_value(s) <= u64::MAX {
        Some(decimal_value(s) as u64)
    } else {
        None
    }
}

proof fn lemma_decimal_prefix(s: Seq<char>, n: int)
    requires
        all_digits(s),
        0 <= n <= s.len(),
    ensures
        decimal_value(s.take(n)) <= decimal_value(s),
    decreases s.len() - n,
{
    if n == s.len() {
        assert(s.take(n) =~= s);
    } else {
        lemma_decimal_prefix(s, n + 1);
        assert(s.take(n + 1).drop_last() =~= s.take(n));
    }
}

/// Reads an unsigned decimal number.
pub fn parse_unsigned(s: &[char]) -> (r: Option<u64>)
    ensures
        r == unsigned_of(s@),
{
    if s.len() == 0 {
        return None;
    }
    let mut acc: u64 = 0;
    let mut i: usize = 0;
    while i < s.len()
        invariant
            i <= s.len(),
            all_digits(s@.take(i as int)),
            acc == decimal_value(s@.take(i as int)),
        decreases s.len() - i,
    {
        let c = s[i];
        if !char_is_digit(c) {
            return None;
        }
        let d: u64 = (c as u8 - 48) as u64;
        proof {
            assert(s@.take(i + 1).drop_last() =~= s@.take(i as int));
            assert(all_digits(s@.take(i + 1))) by {
                assert forall|j: int| 0 <= j < i + 1 implies is_digit(
                    #[trigger] s@.take(i + 1)[j],
                ) by {}
            }
        }
        if acc > (u64::MAX - d) / 10 {
            proof {
                if all_digits(s@) {
                    lemma_decimal_prefix(s@, i + 1);
                }
            }
            return None;
        }
        acc = acc * 10 + d;
        i += 1;
    }
    assert(s@.take(i as int) =~= s@);
    Some(acc)
}

/// The text without the blanks at its ends.
pub open spec fn trimmed(s: Seq<char>) -> Seq<char>
    decreases s.len(),
{
    if s.len() > 0 && s[0] == ' ' {
        trimmed(s.subrange(1, s.len() as int))
    } else if s.len() > 0 && s.last() == ' ' {
        trimmed(s.drop_last())
    } else {
        s
    }
}

/// Removes the blanks at both ends of a text.
pub fn trim(s: &[char]) -> (r: Vec<char>)
    ensures
        r@ == trimmed(s@),
{
    let mut from: usize = 0;
    let mut to: usize = s.len();
    assert(s@.subrange(0, s.len() as int) =~= s@);
    while from < to && s[from] == ' '
        invariant
            from <= to <= s.len(),
            to == s.len(),
            trimmed(s@.subrange(from as int, to as int)) == trimmed(s@),
        decreases to - from,
    {
        assert(s@.subrange(from as int, to as int).subrange(1, to - from) =~= s@.subrange(
            from + 1,
            to as int,
        ));
        from += 1;
    }
    while from < to && s[to - 1] == ' '
        invariant
            from <= to <= s.len(),
            from == to || s@[from as int] != ' ',
            trimmed(s@.subrange(from as int, to as int)) == trimmed(s@),
        decreases to - from,
    {
        assert(s@.subrange(from as int, to as int).drop_last() =~= s@.subrange(
            from as int,
            to - 1,
        ));
        to -= 1;
    }
    copy_range(s, from, to)
}

/// Whether a text is not empty and holds no white space.
pub open spec fn solid(w: Seq<char>) -> bool {
    w.len() > 0 && forall|j: int| 0 <= j < w.len() ==> !is_space(#[trigger] w[j])
}

proof fn lemma_word_is_solid(current: Seq<char>)
    requires
        forall|j: int| 0 <= j < current.len() ==> !is_space(#[trigger] current[j]),
    ensures
        forall|i: int|
            0 <= i < unless_empty(current).len() ==> solid(#[trigger] unless_empty(current)[i]),
{
}

proof fn lemma_words_from_are_solid(s: Seq<char>, from: int, current: Seq<char>)
    requires
        forall|j: int| 0 <= j < current.len() ==> !is_space(#[trigger] current[j]),
    ensures
        forall|i: int|
            0 <= i < words_from(s, from, current).len() ==> solid(
                #[trigger] words_from(s, from, current)[i],
            ),
    decreases s.len() - from,
{
    lemma_word_is_solid(current);
    if 0 <= from < s.len() {
        if is_space(s[from]) {
            lemma_words_from_are_solid(s, from + 1, Seq::empty());
            let head = unless_empty(current);
            let tail = words_from(s, from + 1, Seq::empty());
            assert forall|i: int| 0 <= i < (head + tail).len() implies solid(
                #[trigger] (head + tail)[i],
            ) by {}
        } else {
            let next = current.push(s[from]);
            assert forall|j: int| 0 <= j < next.len() implies !is_space(#[trigger] next[j]) by {}
            lemma_words_from_are_solid(s, from + 1, next);
            assert(words_from(s, from, current) == words_from(s, from + 1, next));
        }
    }
}

/// No word of a text is empty, and none holds white space.
pub proof fn lemma_words_are_solid(s: Seq<char>)
    ensures
        forall|i: int| 0 <= i < words(s).len() ==> solid(#[trigger] words(s)[i]),
{
    lemma_words_from_are_solid(s, 0, Seq::empty());
}

/// A text in lower case stays as it is when it is put in lower case again.
pub proof fn lemma_lowered_twice(s: Seq<char>)
    ensures
        lowered(lowered(s)) == lowered(s),
{
}

} // verus!

//! The document information of PDF files.
//!
//! The decoder follows the `/Info` entry of the trailer to the information
//! dictionary and reads its `/Title`, `/Author`, `/Subject` and `/Keywords`,
//! and follows `/Root` and `/Pages` to the page tree for the page count. It
//! reads objects that stand in the file as plain text; what a file keeps in
//! compressed object streams stays absent from the result. A string is
//! read as UTF-16 where it begins with the mark of UTF-16, and else byte by
//! byte as ASCII or the upper half of Latin-1.
use crate::error::ParseFailure;
use crate::hardware::{DocumentMetadata, Metadata};
use crate::text::{char_from_code, str_chars, string_from_chars, trim, trimmed};
use vstd::prelude::*;

verus! {

/// Whether a byte is white space in a PDF file.
pub open spec fn is_blank(b: u8) -> bool {
    b == 0 || b == 9 || b == 10 || b == 12 || b == 13 || b == 32
}

/// Whether a byte is a decimal digit.
pub open spec fn is_digit_byte(b: u8) -> bool {
    48 <= b <= 57
}

/// Whether a byte can stand inside a name or a number: it is neither white
/// space nor one of the delimiters `( ) < > [ ] { } / %`.
pub open spec fn is_regular(b: u8) -> bool {
    !is_blank(b) && b != 40 && b != 41 && b != 60 && b != 62 && b != 91 && b != 93 && b != 123
        && b != 125 && b != 47 && b != 37
}

/// Whether the bytes at `at` spell `word`.
pub open spec fn spells(bytes: Seq<u8>, at: int, word: Seq<char>) -> bool {
    &&& 0 <= at
    &&& at + word.len() <= bytes.len()
    &&& forall|i: int| 0 <= i < word.len() ==> bytes[at + i] == #[trigger] word[i] as u32
}

/// Whether the word `word` stands at `at` and ends there.
pub open spec fn word_at(bytes: Seq<u8>, at: int, word: Seq<char>) -> bool {
    spells(bytes, at, word) && (at + word.len() == bytes.len() || !is_regular(
        bytes[at + word.len()],
    ))
}

/// The first place from `from` on, before `to`, where the word stands.
pub open spec fn find_word(bytes: Seq<u8>, word: Seq<char>, from: int, to: int) -> Option<int>
    decreases to - from,
{
    if from < 0 || from >= to {
        None
    } else if word_at(bytes, from, word) {
        Some(from)
    } else {
        find_word(bytes, word, from + 1, to)
    }
}

/// The end of the run of white space that starts at `from`.
pub open spec fn blanks_end(bytes: Seq<u8>, from: int) -> int
    decreases bytes.len() - from,
{
    if 0 <= from < bytes.len() && is_blank(bytes[from]) {
        blanks_end(bytes, from + 1)
    } else {
        from
    }
}

/// The end of the run of digits that starts at `from`.
pub open spec fn digits_end(bytes: Seq<u8>, from: int) -> int
    decreases bytes.len() - from,
{
    if 0 <= from < bytes.len() && is_digit_byte(bytes[from]) {
        digits_end(bytes, from + 1)
    } else {
        from
    }
}

/// The number that the digits from `from` up to `to` spell.
pub open spec fn digits_value(bytes: Seq<u8>, from: int, to: int) -> nat
    decreases to - from,
{
    if to <= from {
        0
    } else {
        (digits_value(bytes, from, to - 1) * 10 + (bytes[to - 1] - 48)) as nat
    }
}

/// A number in the file: its value and the place behind it.
pub struct Numeral {
    pub value: u64,
    pub end: int,
}

/// The number that stands at `at`, if one of at least one digit stands
/// there that fits in 64 bits.
pub open spec fn numeral_at(bytes: Seq<u8>, at: int) -> Option<Numeral> {
    let end = digits_end(bytes, at);
    if end > at && digits_value(bytes, at, end) <= u64::MAX {
        Some(Numeral { value: digits_value(bytes, at, end) as u64, end })
    } else {
        None
    }
}

/// The number of the object that the reference behind `at` names: white
/// space, number, white space, generation, white space, `R`.
pub open spec fn reference_at(bytes: Seq<u8>, at: int) -> Option<u64> {
    match numeral_at(bytes, blanks_end(bytes, at)) {
        None => None,
        Some(number) => {
            let g = blanks_end(bytes, number.end);
            match numeral_at(bytes, g) {
                None => None,
                Some(generation) => {
                    let r = blanks_end(bytes, generation.end);
                    if g > number.end && r > generation.end && word_at(bytes, r, "R"@) {
                        Some(number.value)
                    } else {
                        None
                    }
                },
            }
        },
    }
}

/// Where the body of the object `number` begins, if its header stands at
/// `at`: number, generation and `obj`, with no digit before them.
pub open spec fn object_at(bytes: Seq<u8>, at: int, number: u64) -> Option<int> {
    if at > 0 && is_digit_byte(bytes[at - 1]) {
        None
    } else {
        match numeral_at(bytes, at) {
            None => None,
            Some(n) => {
                let g = blanks_end(bytes, n.end);
                match numeral_at(bytes, g) {
                    None => None,
                    Some(generation) => {
                        let o = blanks_end(bytes, generation.end);
                        if n.value == number && g > n.end && o > generation.end && word_at(
                            bytes,
                            o,
                            "obj"@,
                        ) {
                            Some(o + 3)
                        } else {
                            None
                        }
                    },
                }
            },
        }
    }
}

/// Where the body of the first object of this number begins, searching from `from`.
pub open spec fn find_object(bytes: Seq<u8>, number: u64, from: int) -> Option<int>
    decreases bytes.len() - from,
{
    if from < 0 || from >= bytes.len() {
        None
    } else {
        match object_at(bytes, from, number) {
            Some(body) => Some(body),
            None => find_object(bytes, number, from + 1),
        }
    }
}

/// Where the body that begins at `start` ends: at the next `endobj`, or at
/// the end of the file.
pub open spec fn body_end(bytes: Seq<u8>, start: int) -> int {
    match find_word(bytes, "endobj"@, start, bytes.len() as int) {
        Some(e) => e,
        None => bytes.len() as int,
    }
}

/// How a string in round brackets is being read.
#[derive(Clone, Copy, Debug, PartialEq, Eq, Structural)]
pub enum StringMode {
    Plain,
    /// Behind a backslash.
    Escape,
    /// Behind a backslash and a carriage return.
    EscapeReturn,
    /// Behind a backslash and one octal digit.
    Code1,
    /// Behind a backslash and two octal digits.
    Code2,
}

/// Whether a byte is an octal digit.
pub open spec fn is_octal(b: u8) -> bool {
    48 <= b <= 55
}

/// The byte that stands for `b` behind a backslash.
pub open spec fn escaped(b: u8) -> u8 {
    if b == 110 {
        10
    } else if b == 114 {
        13
    } else if b == 116 {
        9
    } else if b == 98 {
        8
    } else if b == 102 {
        12
    } else {
        b
    }
}

/// Whether a character code is being read.
pub open spec fn in_code(mode: StringMode) -> bool {
    mode == StringMode::Code1 || mode == StringMode::Code2
}

/// A string of the file: the bytes it stands for, and the place behind it.
pub struct Piece {
    pub raw: Seq<u8>,
    pub end: int,
}

/// The bytes of the string whose inside begins at `from`, behind `out`:
/// brackets inside it are balanced, a backslash escapes the byte behind it,
/// and a backslash with up to three octal digits stands for the byte of
/// that code. `code` holds the digits of a code that is being read. `None`
/// where the string does not end.
pub open spec fn string_from(
    bytes: Seq<u8>,
    from: int,
    depth: int,
    mode: StringMode,
    code: int,
    out: Seq<u8>,
) -> Option<Piece>
    decreases bytes.len() - from, (if in_code(mode) {
        1int
    } else {
        0int
    }),
{
    if from < 0 || from >= bytes.len() {
        None
    } else {
        let b = bytes[from];
        match mode {
            StringMode::Escape => if b == 10 {
                string_from(bytes, from + 1, depth, StringMode::Plain, 0, out)
            } else if b == 13 {
                string_from(bytes, from + 1, depth, StringMode::EscapeReturn, 0, out)
            } else if is_octal(b) {
                string_from(bytes, from + 1, depth, StringMode::Code1, b - 48, out)
            } else {
                string_from(bytes, from + 1, depth, StringMode::Plain, 0, out.push(escaped(b)))
            },
            StringMode::Code1 => if is_octal(b) {
                string_from(bytes, from + 1, depth, StringMode::Code2, code * 8 + (b - 48), out)
            } else {
                string_from(bytes, from, depth, StringMode::Plain, 0, out.push(code as u8))
            },
            StringMode::Code2 => if is_octal(b) {
                string_from(
                    bytes,
                    from + 1,
                    depth,
                    StringMode::Plain,
                    0,
                    out.push(((code * 8 + (b - 48)) % 256) as u8),
                )
            } else {
                string_from(bytes, from, depth, StringMode::Plain, 0, out.push(code as u8))
            },
            _ => if mode == StringMode::EscapeReturn && b == 10 {
                string_from(bytes, from + 1, depth, StringMode::Plain, 0, out)
            } else if b == 92 {
                string_from(bytes, from + 1, depth, StringMode::Escape, 0, out)
            } else if b == 40 {
                string_from(bytes, from + 1, depth + 1, StringMode::Plain, 0, out.push(b))
            } else if b == 41 {
                if depth <= 0 {
                    Some(Piece { raw: out, end: from + 1 })
                } else {
                    string_from(bytes, from + 1, depth - 1, StringMode::Plain, 0, out.push(b))
                }
            } else {
                string_from(bytes, from + 1, depth, StringMode::Plain, 0, out.push(b))
            },
        }
    }
}

/// The number that a hexadecimal digit stands for.
pub open spec fn hex_value(b: u8) -> Option<int> {
    if 48 <= b <= 57 {
        Some(b - 48)
    } else if 65 <= b <= 70 {
        Some(b - 55)
    } else if 97 <= b <= 102 {
        Some(b - 87)
    } else {
        None
    }
}

/// The bytes of the string in angle brackets whose inside begins at
/// `from`, behind `out`: two hexadecimal digits make a byte, white space
/// between them counts for nothing, and a last digit alone has a zero
/// behind it. `pending` holds the first digit of a byte that is being read.
/// `None` where the string does not end or holds another character.
pub open spec fn hex_from(bytes: Seq<u8>, from: int, pending: Option<int>, out: Seq<u8>) -> Option<
    Piece,
>
    decreases bytes.len() - from,
{
    if from < 0 || from >= bytes.len() {
        None
    } else if bytes[from] == 62 {
        match pending {
            Some(high) => Some(Piece { raw: out.push((high * 16) as u8), end: from + 1 }),
            None => Some(Piece { raw: out, end: from + 1 }),
        }
    } else if is_blank(bytes[from]) {
        hex_from(bytes, from + 1, pending, out)
    } else {
        match hex_value(bytes[from]) {
            None => None,
            Some(digit) => match pending {
                None => hex_from(bytes, from + 1, Some(digit), out),
                Some(high) => hex_from(bytes, from + 1, None, out.push((high * 16 + digit) as u8)),
            },
        }
    }
}

/// Whether a byte stands for the character of the same code.
pub open spec fn is_text_byte(b: u8) -> bool {
    (32 <= b < 127) || b == 9 || b == 10 || b == 13 || b >= 161
}

/// The text of the bytes from `from` on, each standing for the character
/// of its code, behind `out`.
pub open spec fn narrow_from(raw: Seq<u8>, from: int, out: Seq<char>) -> Option<Seq<char>>
    decreases raw.len() - from,
{
    if from < 0 || from >= raw.len() {
        Some(out)
    } else if !is_text_byte(raw[from]) {
        None
    } else {
        narrow_from(raw, from + 1, out.push(raw[from] as char))
    }
}

/// The UTF-16 unit that two bytes hold, high byte first.
pub open spec fn unit_at(raw: Seq<u8>, at: int) -> int {
    raw[at] * 256 + raw[at + 1]
}

/// Whether a unit is the first of a surrogate pair.
pub open spec fn is_high_surrogate(unit: int) -> bool {
    0xD800 <= unit < 0xDC00
}

/// Whether a unit is the second of a surrogate pair.
pub open spec fn is_low_surrogate(unit: int) -> bool {
    0xDC00 <= unit < 0xE000
}

/// The code point that a surrogate pair stands for.
pub open spec fn paired(high: int, low: int) -> int {
    0x10000 + (high - 0xD800) * 1024 + (low - 0xDC00)
}

/// The text of the UTF-16 units from `from` on, high byte first, behind
/// `out`. `None` where a byte is left over or a surrogate stands alone.
pub open spec fn wide_from(raw: Seq<u8>, from: int, out: Seq<char>) -> Option<Seq<char>>
    decreases raw.len() - from,
{
    if from < 0 || from >= raw.len() {
        Some(out)
    } else if from + 1 >= raw.len() {
        None
    } else if is_high_surrogate(unit_at(raw, from)) {
        if from + 3 < raw.len() && is_low_surrogate(unit_at(raw, from + 2)) {
            wide_from(
                raw,
                from + 4,
                out.push((paired(unit_at(raw, from), unit_at(raw, from + 2)) as u32) as char),
            )
        } else {
            None
        }
    } else if is_low_surrogate(unit_at(raw, from)) {
        None
    } else {
        wide_from(raw, from + 2, out.push((unit_at(raw, from) as u32) as char))
    }
}

/// Whether the bytes of a string begin with the mark of UTF-16.
pub open spec fn is_wide(raw: Seq<u8>) -> bool {
    raw.len() >= 2 && raw[0] == 254 && raw[1] == 255
}

/// The text that the bytes of a string stand for. A string that begins
/// with the mark of UTF-16 is read as UTF-16. Every other string holds one
/// byte for each character, and is `None` where a byte is none of ASCII and
/// of the upper half of Latin-1.
pub open spec fn string_text(raw: Seq<u8>) -> Option<Seq<char>> {
    if is_wide(raw) {
        wide_from(raw, 2, Seq::empty())
    } else {
        narrow_from(raw, 0, Seq::empty())
    }
}

/// The string that begins at `at`, in round or in angle brackets.
pub open spec fn string_at(bytes: Seq<u8>, at: int) -> Option<Piece> {
    if 0 <= at < bytes.len() && bytes[at] == 40 {
        string_from(bytes, at + 1, 0, StringMode::Plain, 0, Seq::empty())
    } else if 0 <= at < bytes.len() && bytes[at] == 60 && !(at + 1 < bytes.len() && bytes[at + 1]
        == 60) {
        hex_from(bytes, at + 1, None, Seq::empty())
    } else {
        None
    }
}

/// The text under the key `key` in the dictionary that stands between
/// `from` and `to`: the string behind the key.
pub open spec fn entry_text(bytes: Seq<u8>, key: Seq<char>, from: int, to: int) -> Option<Seq<char>> {
    match find_word(bytes, key, from, to) {
        None => None,
        Some(k) => match string_at(bytes, blanks_end(bytes, k + key.len())) {
            None => None,
            Some(piece) => string_text(piece.raw),
        },
    }
}

/// The object that the key `key` refers to in the region between `from` and
/// `to`: where its body begins.
pub open spec fn entry_object(bytes: Seq<u8>, key: Seq<char>, from: int, to: int) -> Option<int> {
    match find_word(bytes, key, from, to) {
        None => None,
        Some(k) => match reference_at(bytes, k + key.len()) {
            None => None,
            Some(number) => find_object(bytes, number, 0),
        },
    }
}

/// The number under the key `key` in the region between `from` and `to`.
pub open spec fn entry_number(bytes: Seq<u8>, key: Seq<char>, from: int, to: int) -> Option<u64> {
    match find_word(bytes, key, from, to) {
        None => None,
        Some(k) => match numeral_at(bytes, blanks_end(bytes, k + key.len())) {
            None => None,
            Some(n) => Some(n.value),
        },
    }
}

/// The number of pages: the `/Count` of the page tree that the catalog names.
pub open spec fn page_count(bytes: Seq<u8>) -> Option<u32> {
    match entry_object(bytes, "/Root"@, 0, bytes.len() as int) {
        None => None,
        Some(catalog) => match entry_object(bytes, "/Pages"@, catalog, body_end(bytes, catalog)) {
            None => None,
            Some(pages) => match entry_number(bytes, "/Count"@, pages, body_end(bytes, pages)) {
                Some(n) if n <= u32::MAX => Some(n as u32),
                _ => None,
            },
        },
    }
}

/// Whether a character separates keywords.
pub open spec fn is_keyword_break(c: char) -> bool {
    c == ',' || c == ';'
}

/// The sequence that holds the trimmed text if it is not empty.
pub open spec fn keyword(current: Seq<char>) -> Seq<Seq<char>> {
    if trimmed(current).len() > 0 {
        seq![trimmed(current)]
    } else {
        Seq::empty()
    }
}

/// The keywords of `s` from `from` on, where `current` holds the keyword
/// that is being read: the texts between commas and semicolons, trimmed,
/// without the empty ones.
pub open spec fn keywords_from(s: Seq<char>, from: int, current: Seq<char>) -> Seq<Seq<char>>
    decreases s.len() - from,
{
    if from < 0 || from >= s.len() {
        keyword(current)
    } else if is_keyword_break(s[from]) {
        keyword(current) + keywords_from(s, from + 1, Seq::empty())
    } else {
        keywords_from(s, from + 1, current.push(s[from]))
    }
}

/// The tags that a keyword list gives.
pub open spec fn tags_of(keywords: Option<Seq<char>>) -> Seq<Seq<char>> {
    match keywords {
        Some(s) => keywords_from(s, 0, Seq::empty()),
        None => Seq::empty(),
    }
}

/// Whether the bytes begin as a PDF file does.
pub open spec fn is_pdf(bytes: Seq<u8>) -> bool {
    spells(bytes, 0, "%PDF-"@)
}

/// Where the information dictionary stands, if the trailer names one.
pub open spec fn info_body(bytes: Seq<u8>) -> Option<int> {
    entry_object(bytes, "/Info"@, 0, bytes.len() as int)
}

/// The text of an entry of the information dictionary.
pub open spec fn info_text(bytes: Seq<u8>, key: Seq<char>) -> Option<Seq<char>> {
    match info_body(bytes) {
        None => None,
        Some(body) => entry_text(bytes, key, body, body_end(bytes, body)),
    }
}

/// The metadata that a PDF file states.
pub open spec fn pdf_metadata(bytes: Seq<u8>) -> Result<Metadata, ParseFailure> {
    if !is_pdf(bytes) {
        Err(ParseFailure::MalformedHeader)
    } else {
        Ok(
            Metadata {
                title: info_text(bytes, "/Title"@),
                author: info_text(bytes, "/Author"@),
                version: None,
                revision: None,
                pages: page_count(bytes),
                manufacturer: None,
                part_number: None,
                description: info_text(bytes, "/Subject"@),
                tags: tags_of(info_text(bytes, "/Keywords"@)),
            },
        )
    }
}

fn blank(b: u8) -> (r: bool)
    ensures
        r == is_blank(b),
{
    b == 0 || b == 9 || b == 10 || b == 12 || b == 13 || b == 32
}

pub(crate) fn regular(b: u8) -> (r: bool)
    ensures
        r == is_regular(b),
{
    !blank(b) && b != 40 && b != 41 && b != 60 && b != 62 && b != 91 && b != 93 && b != 123 && b
        != 125 && b != 47 && b != 37
}

pub(crate) fn has_spelling(bytes: &[u8], at: usize, word: &[char]) -> (r: bool)
    ensures
        r == spells(bytes@, at as int, word@),
        r ==> at + word.len() <= bytes.len(),
{
    if at > bytes.len() || word.len() > bytes.len() - at {
        return false;
    }
    let mut i: usize = 0;
    while i < word.len()
        invariant
            i <= word.len(),
            at + word.len() <= bytes.len(),
            forall|j: int| 0 <= j < i ==> bytes@[at + j] == #[trigger] word@[j] as u32,
        decreases word.len() - i,
    {
        if bytes[at + i] as u32 != word[i] as u32 {
            return false;
        }
        i += 1;
    }
    true
}

pub(crate) fn has_word(bytes: &[u8], at: usize, word: &[char]) -> (r: bool)
    ensures
        r == word_at(bytes@, at as int, word@),
{
    if !has_spelling(bytes, at, word) {
        return false;
    }
    let end = at + word.len();
    end == bytes.len() || !regular(bytes[end])
}

pub(crate) fn seek_word(bytes: &[u8], word: &[char], from: usize, to: usize) -> (r: Option<usize>)
    ensures
        r is Some <==> find_word(bytes@, word@, from as int, to as int) is Some,
        r matches Some(at) ==> find_word(bytes@, word@, from as int, to as int) == Some(at as int)
            && from <= at < to && at + word.len() <= bytes.len(),
{
    let mut pos: usize = from;
    while pos < to
        invariant
            from <= pos,
            find_word(bytes@, word@, pos as int, to as int) == find_word(
                bytes@,
                word@,
                from as int,
                to as int,
            ),
        decreases to - pos,
    {
        if has_word(bytes, pos, word) {
            return Some(pos);
        }
        pos += 1;
    }
    None
}

pub(crate) fn skip_blanks(bytes: &[u8], from: usize) -> (r: usize)
    requires
        from <= bytes.len(),
    ensures
        r == blanks_end(bytes@, from as int),
        from <= r <= bytes.len(),
{
    let mut i: usize = from;
    while i < bytes.len() && blank(bytes[i])
        invariant
            from <= i <= bytes.len(),
            blanks_end(bytes@, i as int) == blanks_end(bytes@, from as int),
        decreases bytes.len() - i,
    {
        i += 1;
    }
    i
}

proof fn lemma_digits_grow(bytes: Seq<u8>, from: int, mid: int, to: int)
    requires
        from <= mid <= to,
    ensures
        digits_value(bytes, from, mid) <= digits_value(bytes, from, to) || exists|i: int|
            mid <= i < to && !is_digit_byte(#[trigger] bytes[i]),
    decreases to - mid,
{
    if mid < to {
        lemma_digits_grow(bytes, from, mid, to - 1);
    }
}

proof fn lemma_digits_run(bytes: Seq<u8>, from: int)
    requires
        0 <= from <= bytes.len(),
    ensures
        from <= digits_end(bytes, from) <= bytes.len(),
        forall|i: int| from <= i < digits_end(bytes, from) ==> is_digit_byte(#[trigger] bytes[i]),
    decreases bytes.len() - from,
{
    if from < bytes.len() && is_digit_byte(bytes[from]) {
        lemma_digits_run(bytes, from + 1);
    }
}

/// A number in the file: its value and the place behind it.
struct Number {
    value: u64,
    end: usize,
}

fn read_numeral(bytes: &[u8], at: usize) -> (r: Option<Number>)
    requires
        at <= bytes.len(),
    ensures
        match numeral_at(bytes@, at as int) {
            Some(n) => r matches Some(found) && found.value == n.value && found.end == n.end
                && at < found.end <= bytes.len(),
            None => r is None,
        },
{
    let mut i: usize = at;
    let mut value: u64 = 0;
    let mut over = false;
    while i < bytes.len() && bytes[i] >= 48 && bytes[i] <= 57
        invariant
            at <= i <= bytes.len(),
            digits_end(bytes@, i as int) == digits_end(bytes@, at as int),
            !over ==> value == digits_value(bytes@, at as int, i as int),
            over ==> exists|m: int|
                at <= m <= i && digits_value(bytes@, at as int, m) > u64::MAX && forall|j: int|
                    at <= j < m ==> is_digit_byte(#[trigger] bytes@[j]),
            forall|j: int| at <= j < i ==> is_digit_byte(#[trigger] bytes@[j]),
        decreases bytes.len() - i,
    {
        let d = (bytes[i] - 48) as u64;
        if !over {
            if value > (u64::MAX - d) / 10 {
                over = true;
                assert(digits_value(bytes@, at as int, i + 1) > u64::MAX);
            } else {
                value = value * 10 + d;
            }
        }
        i += 1;
    }
    if i == at {
        return None;
    }
    if over {
        proof {
            let m = choose|m: int|
                at <= m <= i && digits_value(bytes@, at as int, m) > u64::MAX && forall|j: int|
                    at <= j < m ==> is_digit_byte(#[trigger] bytes@[j]);
            lemma_digits_grow(bytes@, at as int, m, i as int);
        }
        return None;
    }
    Some(Number { value, end: i })
}

fn read_reference(bytes: &[u8], at: usize, r_word: &[char]) -> (r: Option<u64>)
    requires
        at <= bytes.len(),
        r_word@ == "R"@,
    ensures
        r == reference_at(bytes@, at as int),
{
    let number = match read_numeral(bytes, skip_blanks(bytes, at)) {
        None => {
            return None;
        },
        Some(n) => n,
    };
    let g = skip_blanks(bytes, number.end);
    let generation = match read_numeral(bytes, g) {
        None => {
            return None;
        },
        Some(n) => n,
    };
    let r = skip_blanks(bytes, generation.end);
    if g > number.end && r > generation.end && has_word(bytes, r, r_word) {
        Some(number.value)
    } else {
        None
    }
}

fn read_object(bytes: &[u8], at: usize, number: u64, obj_word: &[char]) -> (r: Option<usize>)
    requires
        at < bytes.len(),
        obj_word@ == "obj"@,
    ensures
        r is Some <==> object_at(bytes@, at as int, number) is Some,
        r matches Some(body) ==> object_at(bytes@, at as int, number) == Some(body as int) && body
            <= bytes.len(),
{
    if at > 0 && bytes[at - 1] >= 48 && bytes[at - 1] <= 57 {
        return None;
    }
    let n = match read_numeral(bytes, at) {
        None => {
            return None;
        },
        Some(n) => n,
    };
    let g = skip_blanks(bytes, n.end);
    let generation = match read_numeral(bytes, g) {
        None => {
            return None;
        },
        Some(x) => x,
    };
    let o = skip_blanks(bytes, generation.end);
    proof {
        reveal_strlit("obj");
    }
    if n.value == number && g > n.end && o > generation.end && has_word(bytes, o, obj_word) {
        Some(o + 3)
    } else {
        None
    }
}

/// The words that the decoder looks for.
struct Words {
    r: Vec<char>,
    obj: Vec<char>,
    endobj: Vec<char>,
}

fn make_words() -> (w: Words)
    ensures
        w.r@ == "R"@,
        w.obj@ == "obj"@,
        w.endobj@ == "endobj"@,
{
    Words { r: str_chars("R"), obj: str_chars("obj"), endobj: str_chars("endobj") }
}

fn seek_object(bytes: &[u8], number: u64, w: &Words) -> (r: Option<usize>)
    requires
        w.obj@ == "obj"@,
    ensures
        r is Some <==> find_object(bytes@, number, 0) is Some,
        r matches Some(body) ==> find_object(bytes@, number, 0) == Some(body as int) && body
            <= bytes.len(),
{
    let mut pos: usize = 0;
    while pos < bytes.len()
        invariant
            w.obj@ == "obj"@,
            find_object(bytes@, number, pos as int) == find_object(bytes@, number, 0),
        decreases bytes.len() - pos,
    {
        match read_object(bytes, pos, number, w.obj.as_slice()) {
            Some(body) => {
                return Some(body);
            },
            None => {},
        }
        pos += 1;
    }
    None
}

fn find_body_end(bytes: &[u8], start: usize, w: &Words) -> (r: usize)
    requires
        w.endobj@ == "endobj"@,
    ensures
        r == body_end(bytes@, start as int),
        r <= bytes.len(),
{
    match seek_word(bytes, w.endobj.as_slice(), start, bytes.len()) {
        Some(e) => e,
        None => bytes.len(),
    }
}

fn unescape(b: u8) -> (r: u8)
    ensures
        r == escaped(b),
{
    if b == 110 {
        10
    } else if b == 114 {
        13
    } else if b == 116 {
        9
    } else if b == 98 {
        8
    } else if b == 102 {
        12
    } else {
        b
    }
}

/// A string of the file: the bytes it stands for, and the place behind it.
pub(crate) struct Found {
    pub(crate) raw: Vec<u8>,
    pub(crate) end: usize,
}

/// Whether a string that was read is the string of the file.
pub(crate) open spec fn found_is(r: Option<Found>, piece: Option<Piece>) -> bool {
    match piece {
        Some(p) => r matches Some(f) && f.raw@ == p.raw && f.end == p.end,
        None => r is None,
    }
}

fn read_string(bytes: &[u8], start: usize) -> (r: Option<Found>)
    ensures
        found_is(r, string_from(bytes@, start as int, 0, StringMode::Plain, 0, Seq::empty())),
        r matches Some(f) ==> start < f.end <= bytes.len(),
{
    let mut out: Vec<u8> = Vec::new();
    let mut depth: usize = 0;
    let mut mode = StringMode::Plain;
    let mut code: u16 = 0;
    let mut pos: usize = start;
    while pos < bytes.len()
        invariant
            start <= pos,
            depth <= pos - start,
            code < 64,
            mode == StringMode::Code1 ==> code < 8,
            string_from(bytes@, pos as int, depth as int, mode, code as int, out@) == string_from(
                bytes@,
                start as int,
                0,
                StringMode::Plain,
                0,
                Seq::empty(),
            ),
        decreases bytes.len() - pos, (if in_code(mode) {
            1int
        } else {
            0int
        }),
    {
        let b = bytes[pos];
        let octal = 48 <= b && b <= 55;
        match mode {
            StringMode::Escape => {
                if b == 10 {
                    mode = StringMode::Plain;
                } else if b == 13 {
                    mode = StringMode::EscapeReturn;
                } else if octal {
                    mode = StringMode::Code1;
                    code = (b - 48) as u16;
                } else {
                    out.push(unescape(b));
                    mode = StringMode::Plain;
                }
                if !octal {
                    code = 0;
                }
                pos += 1;
            },
            StringMode::Code1 => {
                if octal {
                    code = code * 8 + (b - 48) as u16;
                    mode = StringMode::Code2;
                    pos += 1;
                } else {
                    out.push(code as u8);
                    code = 0;
                    mode = StringMode::Plain;
                }
            },
            StringMode::Code2 => {
                if octal {
                    out.push(((code * 8 + (b - 48) as u16) % 256) as u8);
                    pos += 1;
                } else {
                    out.push(code as u8);
                }
                code = 0;
                mode = StringMode::Plain;
            },
            _ => {
                if mode == StringMode::EscapeReturn && b == 10 {
                    mode = StringMode::Plain;
                } else if b == 92 {
                    mode = StringMode::Escape;
                } else if b == 40 {
                    out.push(b);
                    depth += 1;
                    mode = StringMode::Plain;
                } else if b == 41 {
                    if depth == 0 {
                        return Some(Found { raw: out, end: pos + 1 });
                    }
                    out.push(b);
                    depth -= 1;
                    mode = StringMode::Plain;
                } else {
                    out.push(b);
                    mode = StringMode::Plain;
                }
                code = 0;
                pos += 1;
            },
        }
    }
    None
}

fn hex_digit(b: u8) -> (r: Option<u8>)
    ensures
        match hex_value(b) {
            Some(d) => r == Some(d as u8) && 0 <= d < 16,
            None => r is None,
        },
{
    if 48 <= b && b <= 57 {
        Some(b - 48)
    } else if 65 <= b && b <= 70 {
        Some(b - 55)
    } else if 97 <= b && b <= 102 {
        Some(b - 87)
    } else {
        None
    }
}

/// The number that a pending digit stands for.
spec fn pending_value(pending: Option<u8>) -> Option<int> {
    match pending {
        Some(h) => Some(h as int),
        None => None,
    }
}

fn read_hex_string(bytes: &[u8], start: usize) -> (r: Option<Found>)
    ensures
        found_is(r, hex_from(bytes@, start as int, None, Seq::empty())),
        r matches Some(f) ==> start < f.end <= bytes.len(),
{
    let mut out: Vec<u8> = Vec::new();
    let mut pending: Option<u8> = None;
    let mut pos: usize = start;
    while pos < bytes.len()
        invariant
            start <= pos,
            pending matches Some(h) ==> h < 16,
            hex_from(bytes@, pos as int, pending_value(pending), out@) == hex_from(
                bytes@,
                start as int,
                None,
                Seq::empty(),
            ),
        decreases bytes.len() - pos,
    {
        let b = bytes[pos];
        if b == 62 {
            match pending {
                Some(high) => {
                    out.push(high * 16);
                },
                None => {},
            }
            return Some(Found { raw: out, end: pos + 1 });
        } else if blank(b) {
        } else {
            match hex_digit(b) {
                None => {
                    return None;
                },
                Some(digit) => match pending {
                    None => {
                        pending = Some(digit);
                    },
                    Some(high) => {
                        out.push(high * 16 + digit);
                        pending = None;
                    },
                },
            }
        }
        pos += 1;
    }
    None
}

fn text_byte(b: u8) -> (r: bool)
    ensures
        r == is_text_byte(b),
{
    (32 <= b && b < 127) || b == 9 || b == 10 || b == 13 || b >= 161
}

pub(crate) fn decode_string(raw: &[u8]) -> (r: Option<Vec<char>>)
    ensures
        match string_text(raw@) {
            Some(text) => r matches Some(v) && v@ == text,
            None => r is None,
        },
{
    let mut out: Vec<char> = Vec::new();
    if raw.len() >= 2 && raw[0] == 254 && raw[1] == 255 {
        let mut i: usize = 2;
        while i < raw.len()
            invariant
                2 <= i,
                is_wide(raw@),
                wide_from(raw@, i as int, out@) == wide_from(raw@, 2, Seq::empty()),
            decreases raw.len() - i,
        {
            if raw.len() - i < 2 {
                return None;
            }
            let unit: u32 = raw[i] as u32 * 256 + raw[i + 1] as u32;
            if 0xD800 <= unit && unit < 0xDC00 {
                if raw.len() - i < 4 {
                    return None;
                }
                let low: u32 = raw[i + 2] as u32 * 256 + raw[i + 3] as u32;
                if !(0xDC00 <= low && low < 0xE000) {
                    return None;
                }
                let code: u32 = 0x10000 + (unit - 0xD800) * 1024 + (low - 0xDC00);
                assert(vstd::utf8::is_scalar(code));
                match char_from_code(code) {
                    Some(c) => {
                        proof {
                            vstd::utf8::char_u32_cast(c, code);
                        }
                        out.push(c);
                    },
                    None => {
                        return None;
                    },
                }
                i += 4;
            } else if 0xDC00 <= unit && unit < 0xE000 {
                return None;
            } else {
                assert(vstd::utf8::is_scalar(unit));
                match char_from_code(unit) {
                    Some(c) => {
                        proof {
                            vstd::utf8::char_u32_cast(c, unit);
                        }
                        out.push(c);
                    },
                    None => {
                        return None;
                    },
                }
                i += 2;
            }
        }
        Some(out)
    } else {
        let mut i: usize = 0;
        while i < raw.len()
            invariant
                !is_wide(raw@),
                narrow_from(raw@, i as int, out@) == narrow_from(raw@, 0, Seq::empty()),
            decreases raw.len() - i,
        {
            if !text_byte(raw[i]) {
                return None;
            }
            out.push(raw[i] as char);
            i += 1;
        }
        Some(out)
    }
}

pub(crate) fn read_string_at(bytes: &[u8], at: usize) -> (r: Option<Found>)
    ensures
        found_is(r, string_at(bytes@, at as int)),
        r matches Some(f) ==> at < f.end <= bytes.len(),
{
    if at >= bytes.len() {
        None
    } else if bytes[at] == 40 {
        read_string(bytes, at + 1)
    } else if bytes[at] == 60 && !(at + 1 < bytes.len() && bytes[at + 1] == 60) {
        read_hex_string(bytes, at + 1)
    } else {
        None
    }
}

fn read_entry_text(bytes: &[u8], key: &str, from: usize, to: usize) -> (r: Option<Vec<char>>)
    ensures
        match entry_text(bytes@, key@, from as int, to as int) {
            Some(text) => r matches Some(v) && v@ == text,
            None => r is None,
        },
{
    let word = str_chars(key);
    match seek_word(bytes, word.as_slice(), from, to) {
        None => None,
        Some(k) => match read_string_at(bytes, skip_blanks(bytes, k + word.len())) {
            None => None,
            Some(found) => decode_string(found.raw.as_slice()),
        },
    }
}

fn read_entry_object(bytes: &[u8], key: &str, from: usize, to: usize, w: &Words) -> (r: Option<
    usize,
>)
    requires
        w.r@ == "R"@,
        w.obj@ == "obj"@,
    ensures
        r is Some <==> entry_object(bytes@, key@, from as int, to as int) is Some,
        r matches Some(body) ==> entry_object(bytes@, key@, from as int, to as int) == Some(
            body as int,
        ) && body <= bytes.len(),
{
    let word = str_chars(key);
    match seek_word(bytes, word.as_slice(), from, to) {
        None => None,
        Some(k) => match read_reference(bytes, k + word.len(), w.r.as_slice()) {
            None => None,
            Some(number) => seek_object(bytes, number, w),
        },
    }
}

fn read_entry_number(bytes: &[u8], key: &str, from: usize, to: usize) -> (r: Option<u64>)
    ensures
        r == entry_number(bytes@, key@, from as int, to as int),
{
    let word = str_chars(key);
    match seek_word(bytes, word.as_slice(), from, to) {
        None => None,
        Some(k) => match read_numeral(bytes, skip_blanks(bytes, k + word.len())) {
            None => None,
            Some(n) => Some(n.value),
        },
    }
}

fn read_page_count(bytes: &[u8], w: &Words) -> (r: Option<u32>)
    requires
        w.r@ == "R"@,
        w.obj@ == "obj"@,
        w.endobj@ == "endobj"@,
    ensures
        r == page_count(bytes@),
{
    let catalog = match read_entry_object(bytes, "/Root", 0, bytes.len(), w) {
        None => {
            return None;
        },
        Some(x) => x,
    };
    let pages = match read_entry_object(
        bytes,
        "/Pages",
        catalog,
        find_body_end(bytes, catalog, w),
        w,
    ) {
        None => {
            return None;
        },
        Some(x) => x,
    };
    match read_entry_number(bytes, "/Count", pages, find_body_end(bytes, pages, w)) {
        Some(n) => if n <= 0xffff_ffff {
            Some(n as u32)
        } else {
            None
        },
        None => None,
    }
}

fn push_keyword(out: &mut Vec<String>, current: &Vec<char>)
    ensures
        final(out).deep_view() == old(out).deep_view() + keyword(current@),
{
    let word = trim(current.as_slice());
    if word.len() > 0 {
        let text = string_from_chars(word.as_slice());
        out.push(text);
    }
}

fn split_keywords(s: &[char]) -> (r: Vec<String>)
    ensures
        r.deep_view() == keywords_from(s@, 0, Seq::empty()),
{
    let mut out: Vec<String> = Vec::new();
    let mut current: Vec<char> = Vec::new();
    let mut i: usize = 0;
    while i < s.len()
        invariant
            i <= s.len(),
            out.deep_view() + keywords_from(s@, i as int, current@) == keywords_from(
                s@,
                0,
                Seq::empty(),
            ),
        decreases s.len() - i,
    {
        let c = s[i];
        if c == ',' || c == ';' {
            push_keyword(&mut out, &current);
            current = Vec::new();
        } else {
            current.push(c);
        }
        i += 1;
    }
    push_keyword(&mut out, &current);
    out
}

fn to_string(text: Option<Vec<char>>) -> (r: Option<String>)
    ensures
        r.deep_view() == match text {
            Some(v) => Some(v@),
            None => None,
        },
{
    match text {
        Some(v) => Some(string_from_chars(v.as_slice())),
        None => None,
    }
}

pub(crate) fn has_pdf_header(bytes: &[u8]) -> (r: bool)
    ensures
        r == is_pdf(bytes@),
{
    let word = str_chars("%PDF-");
    has_spelling(bytes, 0, word.as_slice())
}

/// Reads the document information of a PDF file.
pub fn decode_pdf_metadata(bytes: &[u8]) -> (r: Result<DocumentMetadata, ParseFailure>)
    ensures
        crate::error::viewed(r) == pdf_metadata(bytes@),
{
    if !has_pdf_header(bytes) {
        return Err(ParseFailure::MalformedHeader);
    }
    let w = make_words();
    let pages = read_page_count(bytes, &w);
    match read_entry_object(bytes, "/Info", 0, bytes.len(), &w) {
        None => {
            let tags: Vec<String> = Vec::new();
            assert(tags.deep_view() =~= Seq::empty());
            Ok(
                DocumentMetadata {
                    title: None,
                    author: None,
                    version: None,
                    revision: None,
                    pages,
                    manufacturer: None,
                    part_number: None,
                    description: None,
                    tags,
                },
            )
        },
        Some(body) => {
            let end = find_body_end(bytes, body, &w);
            let tags = match read_entry_text(bytes, "/Keywords", body, end) {
                Some(k) => split_keywords(k.as_slice()),
                None => {
                    let none: Vec<String> = Vec::new();
                    assert(none.deep_view() =~= Seq::empty());
                    none
                },
            };
            Ok(
                DocumentMetadata {
                    title: to_string(read_entry_text(bytes, "/Title", body, end)),
                    author: to_string(read_entry_text(bytes, "/Author", body, end)),
                    version: None,
                    revision: None,
                    pages,
                    manufacturer: None,
                    part_number: None,
                    description: to_string(read_entry_text(bytes, "/Subject", body, end)),
                    tags,
                },
            )
        },
    }
}

} // verus!

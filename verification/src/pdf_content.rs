//! The text that the pages of a PDF file show, and the tables in it.
//!
//! The decoder reads the content streams that the file stores without a
//! filter. In a stream it follows the operators that show text (`Tj`, `TJ`,
//! `'`, `"`) and those that place it (`Td`, `TD`, `Tm`, `T*`): text that is
//! placed on the baseline of the text before it is the next cell of a line,
//! and text on another baseline begins a line. The lines that are not blank
//! are then read as a table, as delimited text is.
use crate::csv::{
    category_of, column_names, decode_table, empty_data, table_category, table_data, Category,
};
use crate::error::{viewed, ParseFailure};
use crate::hardware::{no_data, Extract, ExtractedData};
use crate::number::{plain_form, plain_number};
use crate::pdf::{
    decode_string, find_word, has_pdf_header, has_spelling, has_word, is_pdf, is_regular,
    read_string_at, regular, seek_word, spells, string_at, string_text, word_at,
};
use crate::text::{
    char_is_space, copy_range, is_space, lines, split_lines, str_chars, text_is, texts,
};
use vstd::prelude::*;

verus! {

/// The place to go on from: `target` where it lies ahead and inside the
/// limit, and else the next place.
pub open spec fn advance(from: int, target: int, limit: int) -> int {
    if from < target <= limit {
        target
    } else if from + 1 <= limit {
        from + 1
    } else {
        limit
    }
}

/// The end of the run of regular bytes that starts at `from`.
pub open spec fn regular_end(bytes: Seq<u8>, from: int) -> int
    decreases bytes.len() - from,
{
    if 0 <= from < bytes.len() && is_regular(bytes[from]) {
        regular_end(bytes, from + 1)
    } else {
        from
    }
}

/// The end of the line that `from` lies in.
pub open spec fn comment_end(bytes: Seq<u8>, from: int) -> int
    decreases bytes.len() - from,
{
    if 0 <= from < bytes.len() && bytes[from] != 10 && bytes[from] != 13 {
        comment_end(bytes, from + 1)
    } else {
        from
    }
}

/// The characters that the bytes from `from` up to `to` spell, each byte
/// standing for the character of its code.
pub open spec fn word_text(bytes: Seq<u8>, from: int, to: int) -> Seq<char> {
    Seq::new((to - from) as nat, |i: int| bytes[from + i] as char)
}

/// What has been shown of a content stream.
pub struct Shown {
    /// The text so far: lines end in a line feed, cells in a tab.
    pub out: Seq<char>,
    /// The strings that stand before the next operator.
    pub text: Seq<char>,
    /// The last number that stands before the next operator, in its
    /// shortest form.
    pub number: Option<Seq<char>>,
    /// The height of the baseline of the text shown last, where it is known.
    pub line: Option<Seq<char>>,
    /// Whether a text object has begun and nothing was placed in it yet.
    pub fresh: bool,
}

/// The state before anything is shown, behind the text `out`.
pub open spec fn blank_page(out: Seq<char>) -> Shown {
    Shown { out, text: Seq::empty(), number: None, line: None, fresh: false }
}

/// What separates text at the height `number` from the text before it on
/// the baseline `line`: a tab on the same baseline, a line feed on another.
pub open spec fn placed(number: Option<Seq<char>>, line: Option<Seq<char>>) -> char {
    if number is Some && number == line {
        '\t'
    } else {
        '\n'
    }
}

/// What separates text that is moved by `number` upwards from the text
/// before it: a tab where it is not moved, a line feed where it is.
pub open spec fn moved(number: Option<Seq<char>>) -> char {
    if number == Some("0"@) {
        '\t'
    } else {
        '\n'
    }
}

/// The state behind an operator.
pub open spec fn operated(s: Shown, op: Seq<char>) -> Shown {
    let done = Shown { text: Seq::empty(), number: None, ..s };
    if op == "Tj"@ || op == "TJ"@ {
        Shown { out: s.out + s.text, ..done }
    } else if op == "'"@ || op == "\""@ {
        Shown { out: s.out.push('\n') + s.text, line: None, fresh: false, ..done }
    } else if op == "T*"@ {
        Shown { out: s.out.push('\n'), line: None, fresh: false, ..done }
    } else if op == "BT"@ {
        Shown { fresh: true, ..done }
    } else if op == "Tm"@ || ((op == "Td"@ || op == "TD"@) && s.fresh) {
        Shown { out: s.out.push(placed(s.number, s.line)), line: s.number, fresh: false, ..done }
    } else if op == "Td"@ || op == "TD"@ {
        Shown {
            out: s.out.push(moved(s.number)),
            line: if moved(s.number) == '\t' {
                s.line
            } else {
                None
            },
            ..done
        }
    } else {
        done
    }
}

/// The text of a string operand: nothing where the string is no text.
pub open spec fn operand_text(raw: Seq<u8>) -> Seq<char> {
    match string_text(raw) {
        Some(t) => t,
        None => Seq::empty(),
    }
}

/// The state behind the content from `from` up to `to`.
pub open spec fn content_from(bytes: Seq<u8>, from: int, to: int, s: Shown) -> Shown
    decreases to - from,
{
    if from < 0 || from >= to || to > bytes.len() {
        s
    } else {
        let b = bytes[from];
        if b == 37 {
            content_from(bytes, advance(from, comment_end(bytes, from), to), to, s)
        } else if b == 60 && from + 1 < bytes.len() && bytes[from + 1] == 60 {
            content_from(bytes, advance(from, from + 2, to), to, s)
        } else if b == 40 || b == 60 {
            match string_at(bytes, from) {
                Some(piece) => content_from(
                    bytes,
                    advance(from, piece.end, to),
                    to,
                    Shown { text: s.text + operand_text(piece.raw), ..s },
                ),
                None => content_from(bytes, from + 1, to, s),
            }
        } else if b == 47 {
            content_from(bytes, advance(from, regular_end(bytes, from + 1), to), to, s)
        } else if !is_regular(b) {
            content_from(bytes, from + 1, to, s)
        } else {
            let end = regular_end(bytes, from);
            let word = word_text(bytes, from, end);
            let next = advance(from, end, to);
            match plain_form(word) {
                Some(x) => content_from(bytes, next, to, Shown { number: Some(x), ..s }),
                None => content_from(bytes, next, to, operated(s, word)),
            }
        }
    }
}

/// Where the data of the stream ends whose key word stands at `at`: at the
/// next `endstream`, or at the end of the file.
pub open spec fn stream_end(bytes: Seq<u8>, at: int) -> int {
    match find_word(bytes, "endstream"@, at + 6, bytes.len() as int) {
        Some(e) => e,
        None => bytes.len() as int,
    }
}

/// Whether the key word `stream` stands at `at`, and is not the end of `endstream`.
pub open spec fn stream_at(bytes: Seq<u8>, at: int) -> bool {
    word_at(bytes, at, "stream"@) && !spells(bytes, at - 3, "end"@)
}

/// The text that the streams from `from` on show, behind `out`. `object`
/// is where the object began that `from` lies in; a stream whose object
/// names a filter before it is passed over.
pub open spec fn streams_from(bytes: Seq<u8>, from: int, object: int, out: Seq<char>) -> Seq<char>
    decreases bytes.len() - from,
{
    if from < 0 || from >= bytes.len() {
        out
    } else if word_at(bytes, from, "obj"@) {
        let next = advance(from, from + 3, bytes.len() as int);
        streams_from(bytes, next, next, out)
    } else if stream_at(bytes, from) {
        let end = stream_end(bytes, from);
        streams_from(
            bytes,
            advance(from, end + 9, bytes.len() as int),
            object,
            if find_word(bytes, "/Filter"@, object, from) is None {
                content_from(bytes, from + 6, end, blank_page(out)).out
            } else {
                out
            },
        )
    } else {
        streams_from(bytes, from + 1, object, out)
    }
}

/// The text that the pages of a file show.
pub open spec fn page_text(bytes: Seq<u8>) -> Seq<char> {
    streams_from(bytes, 0, 0, Seq::empty())
}

/// Whether a text holds nothing but white space.
pub open spec fn is_blank_text(s: Seq<char>) -> bool {
    forall|i: int| 0 <= i < s.len() ==> is_space(#[trigger] s[i])
}

/// Those of the first `n` lines that are not blank, in order.
pub open spec fn filled_lines(ls: Seq<Seq<char>>, n: int) -> Seq<Seq<char>>
    decreases n,
{
    if n <= 0 {
        Seq::empty()
    } else if is_blank_text(ls[n - 1]) {
        filled_lines(ls, n - 1)
    } else {
        filled_lines(ls, n - 1).push(ls[n - 1])
    }
}

/// The lines of the text that a file shows, without the blank ones.
pub open spec fn page_lines(bytes: Seq<u8>) -> Seq<Seq<char>> {
    filled_lines(lines(page_text(bytes)), lines(page_text(bytes)).len() as int)
}

/// The summary of a document in which no table was recognised.
pub open spec fn nothing_recognised() -> Seq<char> {
    "No structured hardware data was found in the document."@
}

/// Whether the lines begin with the first line of a table of a known category.
pub open spec fn is_table(ls: Seq<Seq<char>>) -> bool {
    ls.len() > 0 && category_of(column_names(ls[0])) != Category::Unknown
}

/// The hardware data of a PDF file: the table that its pages show, where
/// the first line that is not blank names the columns of a category, and
/// else no data, with a summary that says so.
pub open spec fn pdf_data(bytes: Seq<u8>) -> Result<Extract, ParseFailure> {
    if !is_pdf(bytes) {
        Err(ParseFailure::MalformedHeader)
    } else if is_table(page_lines(bytes)) {
        Ok(table_data(page_lines(bytes)))
    } else {
        Ok(no_data(Some(nothing_recognised())))
    }
}

fn step_to(from: usize, target: usize, limit: usize) -> (r: usize)
    requires
        from < limit,
    ensures
        r == advance(from as int, target as int, limit as int),
        from < r <= limit,
{
    if from < target && target <= limit {
        target
    } else {
        from + 1
    }
}

fn skip_regular(bytes: &[u8], from: usize) -> (r: usize)
    requires
        from <= bytes.len(),
    ensures
        r == regular_end(bytes@, from as int),
        from <= r <= bytes.len(),
{
    let mut i: usize = from;
    while i < bytes.len() && regular(bytes[i])
        invariant
            from <= i <= bytes.len(),
            regular_end(bytes@, i as int) == regular_end(bytes@, from as int),
        decreases bytes.len() - i,
    {
        i += 1;
    }
    i
}

fn skip_comment(bytes: &[u8], from: usize) -> (r: usize)
    requires
        from <= bytes.len(),
    ensures
        r == comment_end(bytes@, from as int),
        from <= r <= bytes.len(),
{
    let mut i: usize = from;
    while i < bytes.len() && bytes[i] != 10 && bytes[i] != 13
        invariant
            from <= i <= bytes.len(),
            comment_end(bytes@, i as int) == comment_end(bytes@, from as int),
        decreases bytes.len() - i,
    {
        i += 1;
    }
    i
}

fn read_word(bytes: &[u8], from: usize, to: usize) -> (r: Vec<char>)
    requires
        from <= to <= bytes.len(),
    ensures
        r@ == word_text(bytes@, from as int, to as int),
{
    let mut out: Vec<char> = Vec::new();
    let mut i: usize = from;
    while i < to
        invariant
            from <= i <= to <= bytes.len(),
            out@ == word_text(bytes@, from as int, i as int),
        decreases to - i,
    {
        out.push(bytes[i] as char);
        i += 1;
        assert(out@ =~= word_text(bytes@, from as int, i as int));
    }
    out
}

fn append(out: &mut Vec<char>, more: &Vec<char>)
    ensures
        final(out)@ == old(out)@ + more@,
{
    let mut i: usize = 0;
    assert(out@ =~= old(out)@ + more@.take(0));
    while i < more.len()
        invariant
            i <= more.len(),
            out@ == old(out)@ + more@.take(i as int),
        decreases more.len() - i,
    {
        out.push(more[i]);
        i += 1;
        assert(out@ =~= old(out)@ + more@.take(i as int));
    }
    assert(more@.take(more.len() as int) =~= more@);
}

/// What has been shown of a content stream.
struct Shower {
    out: Vec<char>,
    text: Vec<char>,
    number: Option<Vec<char>>,
    line: Option<Vec<char>>,
    fresh: bool,
}

/// The view of a number that was read.
spec fn number_view(number: Option<Vec<char>>) -> Option<Seq<char>> {
    match number {
        Some(v) => Some(v@),
        None => None,
    }
}

impl View for Shower {
    type V = Shown;

    closed spec fn view(&self) -> Shown {
        Shown {
            out: self.out@,
            text: self.text@,
            number: number_view(self.number),
            line: number_view(self.line),
            fresh: self.fresh,
        }
    }
}

fn place(number: &Option<Vec<char>>, line: &Option<Vec<char>>) -> (r: char)
    ensures
        r == placed(number_view(*number), number_view(*line)),
{
    match (number, line) {
        (Some(a), Some(b)) => if crate::text::text_eq(a.as_slice(), b.as_slice()) {
            '\t'
        } else {
            '\n'
        },
        _ => '\n',
    }
}

fn shift(number: &Option<Vec<char>>) -> (r: char)
    ensures
        r == moved(number_view(*number)),
{
    match number {
        Some(y) => if text_is(y.as_slice(), "0") {
            '\t'
        } else {
            '\n'
        },
        None => '\n',
    }
}

fn take_number(number: &mut Option<Vec<char>>) -> (r: Option<Vec<char>>)
    ensures
        r == *old(number),
        *final(number) == None::<Vec<char>>,
{
    let mut taken: Option<Vec<char>> = None;
    core::mem::swap(&mut taken, number);
    taken
}

fn operate(s: &mut Shower, op: &[char])
    ensures
        final(s)@ == operated(old(s)@, op@),
{
    if text_is(op, "Tj") || text_is(op, "TJ") {
        append(&mut s.out, &s.text);
    } else if text_is(op, "'") || text_is(op, "\"") {
        s.out.push('\n');
        append(&mut s.out, &s.text);
        s.line = None;
        s.fresh = false;
    } else if text_is(op, "T*") {
        s.out.push('\n');
        s.line = None;
        s.fresh = false;
    } else if text_is(op, "BT") {
        s.fresh = true;
    } else if text_is(op, "Tm") || ((text_is(op, "Td") || text_is(op, "TD")) && s.fresh) {
        s.out.push(place(&s.number, &s.line));
        s.line = take_number(&mut s.number);
        s.fresh = false;
    } else if text_is(op, "Td") || text_is(op, "TD") {
        let mark = shift(&s.number);
        s.out.push(mark);
        if mark != '\t' {
            s.line = None;
        }
    }
    s.text = Vec::new();
    s.number = None;
}

fn add_operand(s: &mut Shower, raw: &Vec<u8>)
    ensures
        final(s)@ == (Shown { text: old(s)@.text + operand_text(raw@), ..old(s)@ }),
{
    match decode_string(raw.as_slice()) {
        Some(t) => {
            append(&mut s.text, &t);
        },
        None => {
            assert(s.text@ + Seq::<char>::empty() =~= s.text@);
        },
    }
}

fn show_content(bytes: &[u8], start: usize, end: usize, s: &mut Shower)
    ensures
        final(s)@ == content_from(bytes@, start as int, end as int, old(s)@),
{
    if end > bytes.len() {
        return ;
    }
    let mut pos: usize = start;
    while pos < end
        invariant
            end <= bytes.len(),
            content_from(bytes@, pos as int, end as int, s@) == content_from(
                bytes@,
                start as int,
                end as int,
                old(s)@,
            ),
        decreases end - pos,
    {
        let b = bytes[pos];
        if b == 37 {
            pos = step_to(pos, skip_comment(bytes, pos), end);
        } else if b == 60 && pos + 1 < bytes.len() && bytes[pos + 1] == 60 {
            pos = step_to(pos, pos + 2, end);
        } else if b == 40 || b == 60 {
            match read_string_at(bytes, pos) {
                Some(found) => {
                    add_operand(s, &found.raw);
                    pos = step_to(pos, found.end, end);
                },
                None => {
                    pos += 1;
                },
            }
        } else if b == 47 {
            pos = step_to(pos, skip_regular(bytes, pos + 1), end);
        } else if !regular(b) {
            pos += 1;
        } else {
            let stop = skip_regular(bytes, pos);
            let word = read_word(bytes, pos, stop);
            match plain_number(word.as_slice()) {
                Some(x) => {
                    s.number = Some(x);
                },
                None => {
                    operate(s, word.as_slice());
                },
            }
            pos = step_to(pos, stop, end);
        }
    }
}

/// The words that the decoder looks for.
struct Keys {
    obj: Vec<char>,
    stream: Vec<char>,
    end: Vec<char>,
    endstream: Vec<char>,
    filter: Vec<char>,
}

fn make_keys() -> (k: Keys)
    ensures
        k.obj@ == "obj"@,
        k.stream@ == "stream"@,
        k.end@ == "end"@,
        k.endstream@ == "endstream"@,
        k.filter@ == "/Filter"@,
{
    Keys {
        obj: str_chars("obj"),
        stream: str_chars("stream"),
        end: str_chars("end"),
        endstream: str_chars("endstream"),
        filter: str_chars("/Filter"),
    }
}

fn is_stream(bytes: &[u8], at: usize, k: &Keys) -> (r: bool)
    requires
        k.stream@ == "stream"@,
        k.end@ == "end"@,
    ensures
        r == stream_at(bytes@, at as int),
{
    has_word(bytes, at, k.stream.as_slice()) && !(at >= 3 && has_spelling(
        bytes,
        at - 3,
        k.end.as_slice(),
    ))
}

fn find_stream_end(bytes: &[u8], at: usize, k: &Keys) -> (r: usize)
    requires
        k.endstream@ == "endstream"@,
        at + 6 <= bytes.len(),
    ensures
        r == stream_end(bytes@, at as int),
        at < r <= bytes.len(),
{
    match seek_word(bytes, k.endstream.as_slice(), at + 6, bytes.len()) {
        Some(e) => e,
        None => bytes.len(),
    }
}

/// The text that the pages of a file show.
pub fn read_page_text(bytes: &[u8]) -> (r: Vec<char>)
    ensures
        r@ == page_text(bytes@),
{
    let k = make_keys();
    let mut out: Vec<char> = Vec::new();
    let mut object: usize = 0;
    let mut pos: usize = 0;
    while pos < bytes.len()
        invariant
            k.obj@ == "obj"@,
            k.stream@ == "stream"@,
            k.end@ == "end"@,
            k.endstream@ == "endstream"@,
            k.filter@ == "/Filter"@,
            streams_from(bytes@, pos as int, object as int, out@) == page_text(bytes@),
        decreases bytes.len() - pos,
    {
        if has_word(bytes, pos, k.obj.as_slice()) {
            proof {
                reveal_strlit("obj");
            }
            pos = step_to(pos, pos + 3, bytes.len());
            object = pos;
        } else if is_stream(bytes, pos, &k) {
            proof {
                reveal_strlit("stream");
            }
            let end = find_stream_end(bytes, pos, &k);
            if seek_word(bytes, k.filter.as_slice(), object, pos).is_none() {
                let mut s = Shower { out, text: Vec::new(), number: None, line: None, fresh: false };
                show_content(bytes, pos + 6, end, &mut s);
                out = s.out;
            }
            if bytes.len() >= 9 && end <= bytes.len() - 9 {
                pos = step_to(pos, end + 9, bytes.len());
            } else {
                pos += 1;
            }
        } else {
            pos += 1;
        }
    }
    out
}

fn is_blank_line(s: &[char]) -> (r: bool)
    ensures
        r == is_blank_text(s@),
{
    let mut i: usize = 0;
    while i < s.len()
        invariant
            i <= s.len(),
            forall|j: int| 0 <= j < i ==> is_space(#[trigger] s@[j]),
        decreases s.len() - i,
    {
        if !char_is_space(s[i]) {
            return false;
        }
        i += 1;
    }
    true
}

/// The lines that are not blank, in order.
pub fn keep_filled(ls: &Vec<Vec<char>>) -> (r: Vec<Vec<char>>)
    ensures
        texts(r@) == filled_lines(texts(ls@), ls.len() as int),
{
    let mut out: Vec<Vec<char>> = Vec::new();
    let mut i: usize = 0;
    assert(texts(out@) =~= Seq::<Seq<char>>::empty());
    while i < ls.len()
        invariant
            i <= ls.len(),
            texts(out@) == filled_lines(texts(ls@), i as int),
        decreases ls.len() - i,
    {
        let ghost before = texts(out@);
        assert(texts(ls@)[i as int] == ls@[i as int]@);
        if !is_blank_line(ls[i].as_slice()) {
            let line = copy_range(ls[i].as_slice(), 0, ls[i].len());
            assert(line@ =~= ls@[i as int]@);
            out.push(line);
            assert(texts(out@) =~= before.push(line@));
        }
        i += 1;
    }
    out
}

/// Data that says that no table was recognised in a document.
pub fn unrecognised_document() -> (r: ExtractedData)
    ensures
        r.deep_view() == no_data(Some(nothing_recognised())),
{
    empty_data(Some("No structured hardware data was found in the document.".to_owned()))
}

/// Reads the hardware data of the table that the given lines hold, where
/// their first line names the columns of a category.
pub fn decode_shown_lines(ls: &Vec<Vec<char>>) -> (r: ExtractedData)
    ensures
        r.deep_view() == if is_table(texts(ls@)) {
            table_data(texts(ls@))
        } else {
            no_data(Some(nothing_recognised()))
        },
{
    if ls.len() == 0 {
        return unrecognised_document();
    }
    assert(texts(ls@)[0] == ls@[0]@);
    match table_category(ls[0].as_slice()) {
        Category::Unknown => unrecognised_document(),
        _ => decode_table(ls),
    }
}

/// Reads the hardware data of a PDF file.
pub fn decode_pdf_data(bytes: &[u8]) -> (r: Result<ExtractedData, ParseFailure>)
    ensures
        viewed(r) == pdf_data(bytes@),
{
    if !has_pdf_header(bytes) {
        return Err(ParseFailure::MalformedHeader);
    }
    let text = read_page_text(bytes);
    let ls = keep_filled(&split_lines(text.as_slice()));
    Ok(decode_shown_lines(&ls))
}

/// The data that a PDF file holds meets the invariants of the model.
pub proof fn lemma_pdf_data_is_well_formed(bytes: Seq<u8>)
    ensures
        pdf_data(bytes) matches Ok(d) ==> d.well_formed(),
{
    crate::csv::lemma_table_data_is_well_formed(page_lines(bytes));
}

} // verus!

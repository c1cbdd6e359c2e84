//! Decimal literals and the real numbers they stand for.
use crate::json::{json_document, json_real, parse_json, value_real};
use crate::scalar::{is_finite, scalar_is_finite};
use crate::text::{char_is_digit, is_digit};
use vstd::prelude::*;

verus! {

/// The end of the run of digits that starts at `from`.
pub open spec fn run_end(s: Seq<char>, from: int) -> int
    decreases s.len() - from,
{
    if 0 <= from < s.len() && is_digit(s[from]) {
        run_end(s, from + 1)
    } else {
        from
    }
}

/// The end of the run of zeros that starts at `from` and stops before `to`.
pub open spec fn zeros_end(s: Seq<char>, from: int, to: int) -> int
    decreases to - from,
{
    if 0 <= from < to <= s.len() && s[from] == '0' {
        zeros_end(s, from + 1, to)
    } else {
        from
    }
}

/// Whether the character is a plus or a minus sign.
pub open spec fn is_sign(c: char) -> bool {
    c == '+' || c == '-'
}

/// Where the parts of a decimal literal begin and end.
pub struct Shape {
    /// The first digit of the integer part.
    pub int_start: int,
    /// The end of the integer part.
    pub int_end: int,
    /// The first digit of the fraction, behind the point if there is one.
    pub frac_start: int,
    /// The end of the fraction; where the exponent begins, if there is one.
    pub frac_end: int,
    /// The first digit of the exponent.
    pub exp_digits: int,
    /// The end of the literal.
    pub end: int,
}

/// The parts of `s` read as a decimal literal: an optional sign, digits with
/// an optional point among them, and an optional exponent.
pub open spec fn shape(s: Seq<char>) -> Shape {
    let int_start: int = if s.len() > 0 && is_sign(s[0]) {
        1
    } else {
        0
    };
    let int_end = run_end(s, int_start);
    let frac_start = if int_end < s.len() && s[int_end] == '.' {
        int_end + 1
    } else {
        int_end
    };
    let frac_end = run_end(s, frac_start);
    let has_exp = frac_end < s.len() && (s[frac_end] == 'e' || s[frac_end] == 'E');
    let exp_digits = if !has_exp {
        frac_end
    } else if frac_end + 1 < s.len() && is_sign(s[frac_end + 1]) {
        frac_end + 2
    } else {
        frac_end + 1
    };
    let end = if has_exp {
        run_end(s, exp_digits)
    } else {
        frac_end
    };
    Shape { int_start, int_end, frac_start, frac_end, exp_digits, end }
}

/// Whether a text is a decimal literal: it has at least one digit before the
/// exponent, an exponent has at least one digit, and nothing follows.
pub open spec fn is_literal(s: Seq<char>) -> bool {
    let p = shape(s);
    &&& (p.int_end - p.int_start) + (p.frac_end - p.frac_start) >= 1
    &&& p.end == s.len()
    &&& p.exp_digits > p.frac_end ==> p.end > p.exp_digits
}

/// The text made of an optional minus sign, the digits from `first` to
/// `int_end` (a zero if there are none), the digits from `frac_start` to
/// `frac_end` behind a point (nothing if there are none), and the characters
/// from `frac_end` to `end`.
pub open spec fn form_of(
    s: Seq<char>,
    negative: bool,
    first: int,
    int_end: int,
    frac_start: int,
    frac_end: int,
    end: int,
) -> Seq<char> {
    (if negative {
        seq!['-']
    } else {
        Seq::empty()
    }) + (if first == int_end {
        seq!['0']
    } else {
        s.subrange(first, int_end)
    }) + (if frac_end > frac_start {
        seq!['.'] + s.subrange(frac_start, frac_end)
    } else {
        Seq::empty()
    }) + s.subrange(frac_end, end)
}

/// The literal in the form that JSON takes: no plus sign, no leading zeros,
/// a digit before the point, and no point without digits behind it.
pub open spec fn json_form(s: Seq<char>) -> Seq<char> {
    let p = shape(s);
    form_of(
        s,
        s.len() > 0 && s[0] == '-',
        zeros_end(s, p.int_start, p.int_end),
        p.int_end,
        p.frac_start,
        p.frac_end,
        p.end,
    )
}

/// The bytes of a text of ASCII characters.
pub open spec fn ascii_bytes(s: Seq<char>) -> Seq<u8> {
    Seq::new(s.len(), |i: int| s[i] as u8)
}

/// The real number that a text stands for: the text must be a decimal
/// literal, and the number it spells, read by `serde_json`, must be finite.
pub open spec fn scalar_of(s: Seq<char>) -> Option<u64> {
    if !is_literal(s) {
        None
    } else {
        match json_document(ascii_bytes(json_form(s))) {
            None => None,
            Some(v) => scalar_of_value(json_real(v)),
        }
    }
}

/// A pattern that `serde_json` gave for a number, kept where it is finite.
pub open spec fn scalar_of_value(found: Option<u64>) -> Option<u64> {
    match found {
        Some(bits) if is_finite(bits) => Some(bits),
        _ => None,
    }
}

/// Keeps a pattern where it is finite.
pub fn finite_scalar(found: Option<u64>) -> (r: Option<u64>)
    ensures
        r == scalar_of_value(found),
{
    match found {
        Some(bits) => {
            if scalar_is_finite(bits) {
                Some(bits)
            } else {
                None
            }
        },
        None => None,
    }
}

/// Whether every character from `from` up to `to` is a digit.
pub open spec fn digits_between(s: Seq<char>, from: int, to: int) -> bool {
    forall|i: int| from <= i < to ==> is_digit(#[trigger] s[i])
}

fn scan_digits(s: &[char], from: usize) -> (r: usize)
    requires
        from <= s.len(),
    ensures
        r == run_end(s@, from as int),
        from <= r <= s.len(),
        digits_between(s@, from as int, r as int),
{
    let mut i: usize = from;
    while i < s.len() && char_is_digit(s[i])
        invariant
            from <= i <= s.len(),
            run_end(s@, i as int) == run_end(s@, from as int),
            digits_between(s@, from as int, i as int),
        decreases s.len() - i,
    {
        i += 1;
    }
    i
}

fn scan_zeros(s: &[char], from: usize, to: usize) -> (r: usize)
    requires
        from <= to <= s.len(),
    ensures
        r == zeros_end(s@, from as int, to as int),
        from <= r <= to,
{
    let mut i: usize = from;
    while i < to && s[i] == '0'
        invariant
            from <= i <= to <= s.len(),
            zeros_end(s@, i as int, to as int) == zeros_end(s@, from as int, to as int),
        decreases to - i,
    {
        i += 1;
    }
    i
}

/// Whether every character from `from` up to `to` is an ASCII character.
pub open spec fn ascii_between(s: Seq<char>, from: int, to: int) -> bool {
    forall|i: int| from <= i < to ==> (#[trigger] s[i] as u32) < 128
}

fn push_ascii(out: &mut Vec<u8>, s: &[char], from: usize, to: usize)
    requires
        from <= to <= s.len(),
        ascii_between(s@, from as int, to as int),
    ensures
        final(out)@ == old(out)@ + ascii_bytes(s@.subrange(from as int, to as int)),
{
    let mut i: usize = from;
    while i < to
        invariant
            from <= i <= to <= s.len(),
            ascii_between(s@, from as int, to as int),
            out@ == old(out)@ + ascii_bytes(s@.subrange(from as int, i as int)),
        decreases to - i,
    {
        let c = s[i];
        out.push(c as u8);
        i += 1;
    }
}

fn build_form(
    s: &[char],
    negative: bool,
    first: usize,
    int_end: usize,
    frac_start: usize,
    frac_end: usize,
    end: usize,
) -> (out: Vec<u8>)
    requires
        first <= int_end <= frac_start <= frac_end <= end <= s.len(),
        ascii_between(s@, first as int, int_end as int),
        ascii_between(s@, frac_start as int, frac_end as int),
        ascii_between(s@, frac_end as int, end as int),
    ensures
        out@ == ascii_bytes(
            form_of(
                s@,
                negative,
                first as int,
                int_end as int,
                frac_start as int,
                frac_end as int,
                end as int,
            ),
        ),
{
    let mut out: Vec<u8> = Vec::new();
    if negative {
        out.push(45u8);
    }
    if first == int_end {
        out.push(48u8);
    } else {
        push_ascii(&mut out, s, first, int_end);
    }
    if frac_end > frac_start {
        out.push(46u8);
        push_ascii(&mut out, s, frac_start, frac_end);
    }
    push_ascii(&mut out, s, frac_end, end);
    out
}

proof fn lemma_digits_are_ascii(s: Seq<char>, from: int, to: int)
    requires
        0 <= from <= to <= s.len(),
        digits_between(s, from, to),
    ensures
        ascii_between(s, from, to),
{
    assert forall|i: int| from <= i < to implies (#[trigger] s[i] as u32) < 128 by {}
}

/// The positions of a literal's parts.
struct Parts {
    int_start: usize,
    int_end: usize,
    frac_start: usize,
    frac_end: usize,
    exp_digits: usize,
    end: usize,
}

fn read_shape(s: &[char]) -> (p: Parts)
    ensures
        shape(s@) == (Shape {
            int_start: p.int_start as int,
            int_end: p.int_end as int,
            frac_start: p.frac_start as int,
            frac_end: p.frac_end as int,
            exp_digits: p.exp_digits as int,
            end: p.end as int,
        }),
        p.int_start <= p.int_end <= p.frac_start <= p.frac_end <= p.exp_digits,
        p.frac_end <= p.end <= s.len(),
        p.int_start <= 1,
        digits_between(s@, p.int_start as int, p.int_end as int),
        digits_between(s@, p.frac_start as int, p.frac_end as int),
        p.exp_digits <= p.end ==> ascii_between(s@, p.frac_end as int, p.end as int),
{
    let n = s.len();
    let int_start: usize = if n > 0 && (s[0] == '+' || s[0] == '-') {
        1
    } else {
        0
    };
    let int_end = scan_digits(s, int_start);
    let frac_start: usize = if int_end < n && s[int_end] == '.' {
        int_end + 1
    } else {
        int_end
    };
    let frac_end = scan_digits(s, frac_start);
    let has_exp = frac_end < n && (s[frac_end] == 'e' || s[frac_end] == 'E');
    let exp_digits: usize = if !has_exp {
        frac_end
    } else if frac_end + 1 < n && (s[frac_end + 1] == '+' || s[frac_end + 1] == '-') {
        frac_end + 2
    } else {
        frac_end + 1
    };
    let end: usize = if has_exp {
        if exp_digits <= n {
            scan_digits(s, exp_digits)
        } else {
            exp_digits
        }
    } else {
        frac_end
    };
    proof {
        if exp_digits <= end && has_exp {
            lemma_digits_are_ascii(s@, exp_digits as int, end as int);
            assert forall|i: int| frac_end <= i < end implies (#[trigger] s@[i] as u32) < 128 by {}
        }
    }
    Parts { int_start, int_end, frac_start, frac_end, exp_digits, end }
}

/// Reads a decimal literal.
pub fn parse_scalar(s: &[char]) -> (r: Option<u64>)
    ensures
        r == scalar_of(s@),
{
    let p = read_shape(s);
    if (p.int_end - p.int_start) + (p.frac_end - p.frac_start) < 1 || p.end != s.len() || (
    p.exp_digits > p.frac_end && p.end <= p.exp_digits) {
        return None;
    }
    let first = scan_zeros(s, p.int_start, p.int_end);
    proof {
        lemma_digits_are_ascii(s@, p.int_start as int, p.int_end as int);
        lemma_digits_are_ascii(s@, p.frac_start as int, p.frac_end as int);
    }
    let out = build_form(s, s[0] == '-', first, p.int_end, p.frac_start, p.frac_end, p.end);
    match parse_json(out.as_slice()) {
        None => None,
        Some(v) => finite_scalar(value_real(&v)),
    }
}

/// The start of the run of zeros that ends at `to` and begins no earlier than `from`.
pub open spec fn zeros_start(s: Seq<char>, from: int, to: int) -> int
    decreases to - from,
{
    if 0 <= from < to <= s.len() && s[to - 1] == '0' {
        zeros_start(s, from, to - 1)
    } else {
        to
    }
}

/// Whether a text is a decimal literal without an exponent.
pub open spec fn is_plain(s: Seq<char>) -> bool {
    is_literal(s) && shape(s).exp_digits == shape(s).frac_end
}

/// A decimal literal without an exponent in its shortest form: no plus
/// sign, no zeros before the integer part or behind the fraction, no point
/// without a fraction, and `0` for every spelling of zero. Two literals
/// spell the same number exactly if their shortest forms are the same text.
pub open spec fn plain_form(s: Seq<char>) -> Option<Seq<char>> {
    if !is_plain(s) {
        None
    } else {
        let p = shape(s);
        let whole = s.subrange(zeros_end(s, p.int_start, p.int_end), p.int_end);
        let part = s.subrange(p.frac_start, zeros_start(s, p.frac_start, p.frac_end));
        if whole.len() == 0 && part.len() == 0 {
            Some(seq!['0'])
        } else {
            Some(
                (if s[0] == '-' {
                    seq!['-']
                } else {
                    Seq::empty()
                }) + (if whole.len() == 0 {
                    seq!['0']
                } else {
                    whole
                }) + (if part.len() == 0 {
                    Seq::empty()
                } else {
                    seq!['.'] + part
                }),
            )
        }
    }
}

fn scan_zeros_back(s: &[char], from: usize, to: usize) -> (r: usize)
    requires
        from <= to <= s.len(),
    ensures
        r == zeros_start(s@, from as int, to as int),
        from <= r <= to,
{
    let mut i: usize = to;
    while from < i && s[i - 1] == '0'
        invariant
            from <= i <= to <= s.len(),
            zeros_start(s@, from as int, i as int) == zeros_start(s@, from as int, to as int),
        decreases i,
    {
        i -= 1;
    }
    i
}

fn push_chars(out: &mut Vec<char>, s: &[char], from: usize, to: usize)
    requires
        from <= to <= s.len(),
    ensures
        final(out)@ == old(out)@ + s@.subrange(from as int, to as int),
{
    let mut i: usize = from;
    assert(out@ =~= old(out)@ + s@.subrange(from as int, from as int));
    while i < to
        invariant
            from <= i <= to <= s.len(),
            out@ == old(out)@ + s@.subrange(from as int, i as int),
        decreases to - i,
    {
        out.push(s[i]);
        i += 1;
        assert(out@ =~= old(out)@ + s@.subrange(from as int, i as int));
    }
}

/// The shortest form of a decimal literal without an exponent.
pub fn plain_number(s: &[char]) -> (r: Option<Vec<char>>)
    ensures
        match plain_form(s@) {
            Some(form) => r matches Some(v) && v@ == form,
            None => r is None,
        },
{
    let p = read_shape(s);
    if (p.int_end - p.int_start) + (p.frac_end - p.frac_start) < 1 || p.end != s.len()
        || p.exp_digits != p.frac_end {
        return None;
    }
    let first = scan_zeros(s, p.int_start, p.int_end);
    let last = scan_zeros_back(s, p.frac_start, p.frac_end);
    let mut out: Vec<char> = Vec::new();
    if first == p.int_end && last == p.frac_start {
        out.push('0');
        assert(out@ =~= seq!['0']);
        return Some(out);
    }
    let ghost sign: Seq<char> = if s@[0] == '-' {
        seq!['-']
    } else {
        Seq::empty()
    };
    let ghost whole: Seq<char> = if first == p.int_end {
        seq!['0']
    } else {
        s@.subrange(first as int, p.int_end as int)
    };
    if s[0] == '-' {
        out.push('-');
    }
    assert(out@ =~= sign);
    if first == p.int_end {
        out.push('0');
    } else {
        push_chars(&mut out, s, first, p.int_end);
    }
    assert(out@ =~= sign + whole);
    if last > p.frac_start {
        out.push('.');
        push_chars(&mut out, s, p.frac_start, last);
        assert(out@ =~= sign + whole + (seq!['.'] + s@.subrange(
            p.frac_start as int,
            last as int,
        )));
    } else {
        assert(out@ =~= sign + whole + Seq::<char>::empty());
    }
    Some(out)
}

} // verus!

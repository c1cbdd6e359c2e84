//! Hardware data in plain and delimited text.
//!
//! The first line of a table names its columns. The delimiter is the one of
//! comma, semicolon and tab that the first line holds most often. A table
//! whose columns name what a category requires is read as that category:
//! registers (`name`, `address`, `description`, `bit_width`, `access`),
//! pinouts (`pin_number`, `name`, `pin_type`), timing constraints (`name`,
//! `parameter`, `unit`) or electrical specifications (`parameter`, `unit`).
//! A row that lacks a required cell, or whose numbers do not fit, is passed
//! over.
use crate::hardware::{
    limits_fit, no_data, ElectricalSpec, ElectricalSpecView, Extract, ExtractedData, Pinout,
    PinoutView, RegisterMap, RegisterMapView, TimingConstraint, TimingConstraintView,
};
use crate::json_document::check_limits;
use crate::number::{parse_scalar, scalar_of};
use crate::scalar::Scalar;
use crate::text::{
    lines, lowered, parse_unsigned, split_lines, string_from_chars, text_is, texts, to_lower, trim,
    trimmed, unsigned_of,
};
use vstd::prelude::*;

verus! {

/// How often a character stands among the first `n` of a line.
pub open spec fn count_of(line: Seq<char>, c: char, n: int) -> nat
    decreases n,
{
    if n <= 0 {
        0
    } else if line[n - 1] == c {
        count_of(line, c, n - 1) + 1
    } else {
        count_of(line, c, n - 1)
    }
}

/// The delimiter of a table, judged by its first line.
pub open spec fn delimiter_of(header: Seq<char>) -> char {
    let commas = count_of(header, ',', header.len() as int);
    let semicolons = count_of(header, ';', header.len() as int);
    let tabs = count_of(header, '\t', header.len() as int);
    if semicolons > commas && semicolons >= tabs {
        ';'
    } else if tabs > commas {
        '\t'
    } else {
        ','
    }
}

/// The cells of a line from `from` on, where `current` holds the cell that
/// is being read. Inside double quotes a delimiter is part of the cell, and
/// two double quotes stand for one.
pub open spec fn cells_from(
    line: Seq<char>,
    from: int,
    delimiter: char,
    quoted: bool,
    current: Seq<char>,
) -> Seq<Seq<char>>
    decreases line.len() - from,
{
    if from < 0 || from >= line.len() {
        seq![current]
    } else if quoted {
        if line[from] != '"' {
            cells_from(line, from + 1, delimiter, true, current.push(line[from]))
        } else if from + 1 < line.len() && line[from + 1] == '"' {
            cells_from(line, from + 2, delimiter, true, current.push('"'))
        } else {
            cells_from(line, from + 1, delimiter, false, current)
        }
    } else if line[from] == '"' {
        cells_from(line, from + 1, delimiter, true, current)
    } else if line[from] == delimiter {
        seq![current] + cells_from(line, from + 1, delimiter, false, Seq::empty())
    } else if line[from] == '\r' {
        cells_from(line, from + 1, delimiter, false, current)
    } else {
        cells_from(line, from + 1, delimiter, false, current.push(line[from]))
    }
}

/// The cells of a line, each without the blanks at its ends.
pub open spec fn cells_of(line: Seq<char>, delimiter: char) -> Seq<Seq<char>> {
    let raw = cells_from(line, 0, delimiter, false, Seq::empty());
    Seq::new(raw.len(), |i: int| trimmed(raw[i]))
}

/// The column names of a table: the cells of its first line in lower case.
pub open spec fn column_names(header: Seq<char>) -> Seq<Seq<char>> {
    let cells = cells_of(header, delimiter_of(header));
    Seq::new(cells.len(), |i: int| lowered(cells[i]))
}

/// The first column, from `from` on, of the given name.
pub open spec fn column(names: Seq<Seq<char>>, name: Seq<char>, from: int) -> Option<int>
    decreases names.len() - from,
{
    if from < 0 || from >= names.len() {
        None
    } else if names[from] == name {
        Some(from)
    } else {
        column(names, name, from + 1)
    }
}

/// The cell of a row in a column, if the table has the column and the row a
/// cell there that is not empty.
pub open spec fn cell(cells: Seq<Seq<char>>, names: Seq<Seq<char>>, name: Seq<char>) -> Option<
    Seq<char>,
> {
    match column(names, name, 0) {
        Some(i) if i < cells.len() && cells[i].len() > 0 => Some(cells[i]),
        _ => None,
    }
}

/// Whether the table has a column of this name.
pub open spec fn has_column(names: Seq<Seq<char>>, name: Seq<char>) -> bool {
    column(names, name, 0) is Some
}

/// What a table lists.
#[derive(Clone, Copy, Debug, PartialEq, Eq, Structural)]
pub enum Category {
    Registers,
    Pinouts,
    Timing,
    Electrical,
    Unknown,
}

/// Whether the table has one of the columns `min`, `typ` and `max`.
pub open spec fn has_limits(names: Seq<Seq<char>>) -> bool {
    has_column(names, "min"@) || has_column(names, "typ"@) || has_column(names, "max"@)
}

/// The category that the columns of a table belong to.
pub open spec fn category_of(names: Seq<Seq<char>>) -> Category {
    if has_column(names, "name"@) && has_column(names, "address"@) && has_column(
        names,
        "description"@,
    ) && has_column(names, "bit_width"@) && has_column(names, "access"@) {
        Category::Registers
    } else if has_column(names, "pin_number"@) && has_column(names, "name"@) && has_column(
        names,
        "pin_type"@,
    ) {
        Category::Pinouts
    } else if has_column(names, "name"@) && has_column(names, "parameter"@) && has_column(
        names,
        "unit"@,
    ) && has_limits(names) {
        Category::Timing
    } else if has_column(names, "parameter"@) && has_column(names, "unit"@) && has_limits(names) {
        Category::Electrical
    } else {
        Category::Unknown
    }
}

/// A 32-bit number that a cell spells.
pub open spec fn small_number(text: Option<Seq<char>>) -> Option<u32> {
    match text {
        Some(s) => match unsigned_of(s) {
            Some(n) if n <= u32::MAX => Some(n as u32),
            _ => None,
        },
        None => None,
    }
}

/// The register that a row describes, if it has every required cell.
pub open spec fn register_row(cells: Seq<Seq<char>>, names: Seq<Seq<char>>) -> Option<
    RegisterMapView,
> {
    match (
        cell(cells, names, "name"@),
        cell(cells, names, "address"@),
        cell(cells, names, "description"@),
        small_number(cell(cells, names, "bit_width"@)),
        cell(cells, names, "access"@),
    ) {
        (Some(name), Some(address), Some(description), Some(bit_width), Some(access)) => Some(
            RegisterMapView {
                name,
                address,
                description,
                bit_width,
                access,
                fields: None,
                reset_value: cell(cells, names, "reset_value"@),
            },
        ),
        _ => None,
    }
}

/// The pin that a row describes, if it has every required cell.
pub open spec fn pinout_row(cells: Seq<Seq<char>>, names: Seq<Seq<char>>) -> Option<PinoutView> {
    match (cell(cells, names, "pin_number"@), cell(cells, names, "name"@), cell(
        cells,
        names,
        "pin_type"@,
    )) {
        (Some(pin_number), Some(name), Some(pin_type)) => Some(
            PinoutView {
                pin_number,
                name,
                pin_type,
                description: cell(cells, names, "description"@),
                function: cell(cells, names, "function"@),
            },
        ),
        _ => None,
    }
}

/// A limit that a cell states: absent where the cell is empty, and a
/// failure where the cell is no number.
pub open spec fn limit(text: Option<Seq<char>>) -> Result<Option<Scalar>, ()> {
    match text {
        None => Ok(None),
        Some(s) => match scalar_of(s) {
            Some(x) => Ok(Some(x)),
            None => Err(()),
        },
    }
}

/// The limits that a row states, if they make a constraint.
pub open spec fn limits_row(cells: Seq<Seq<char>>, names: Seq<Seq<char>>) -> Option<
    (Option<Scalar>, Option<Scalar>, Option<Scalar>),
> {
    match (
        limit(cell(cells, names, "min"@)),
        limit(cell(cells, names, "typ"@)),
        limit(cell(cells, names, "max"@)),
    ) {
        (Ok(min), Ok(typ), Ok(max)) => if limits_fit(min, typ, max) {
            Some((min, typ, max))
        } else {
            None
        },
        _ => None,
    }
}

/// The timing constraint that a row describes.
pub open spec fn timing_row(cells: Seq<Seq<char>>, names: Seq<Seq<char>>) -> Option<
    TimingConstraintView,
> {
    match (
        cell(cells, names, "name"@),
        cell(cells, names, "parameter"@),
        cell(cells, names, "unit"@),
        limits_row(cells, names),
    ) {
        (Some(name), Some(parameter), Some(unit), Some(limits)) => Some(
            TimingConstraintView {
                name,
                parameter,
                min: limits.0,
                typ: limits.1,
                max: limits.2,
                unit,
                condition: cell(cells, names, "condition"@),
            },
        ),
        _ => None,
    }
}

/// The electrical specification that a row describes.
pub open spec fn electrical_row(cells: Seq<Seq<char>>, names: Seq<Seq<char>>) -> Option<
    ElectricalSpecView,
> {
    match (cell(cells, names, "parameter"@), cell(cells, names, "unit"@), limits_row(cells, names)) {
        (Some(parameter), Some(unit), Some(limits)) => Some(
            ElectricalSpecView {
                parameter,
                min: limits.0,
                typ: limits.1,
                max: limits.2,
                unit,
                condition: cell(cells, names, "condition"@),
            },
        ),
        _ => None,
    }
}

/// The entries that the rows from the second line up to line `n` give,
/// each row read by `f`.
pub open spec fn rows_upto<T>(
    ls: Seq<Seq<char>>,
    n: int,
    delimiter: char,
    f: spec_fn(Seq<Seq<char>>) -> Option<T>,
) -> Seq<T>
    decreases n,
{
    if n <= 1 {
        Seq::empty()
    } else {
        match f(cells_of(ls[n - 1], delimiter)) {
            Some(entry) => rows_upto(ls, n - 1, delimiter, f).push(entry),
            None => rows_upto(ls, n - 1, delimiter, f),
        }
    }
}

/// The summary of a text in which no table was recognised.
pub open spec fn nothing_found() -> Seq<char> {
    "No structured hardware data was found in the text."@
}

/// The hardware data that the lines of a table hold.
pub open spec fn table_data(ls: Seq<Seq<char>>) -> Extract {
    if ls.len() == 0 {
        no_data(Some(nothing_found()))
    } else {
        let names = column_names(ls[0]);
        let d = delimiter_of(ls[0]);
        let n = ls.len() as int;
        match category_of(names) {
            Category::Registers => Extract {
                register_maps: Some(
                    rows_upto(ls, n, d, |cells: Seq<Seq<char>>| register_row(cells, names)),
                ),
                ..no_data(None)
            },
            Category::Pinouts => Extract {
                pinouts: Some(rows_upto(ls, n, d, |cells: Seq<Seq<char>>| pinout_row(cells, names))),
                ..no_data(None)
            },
            Category::Timing => Extract {
                timing_constraints: Some(
                    rows_upto(ls, n, d, |cells: Seq<Seq<char>>| timing_row(cells, names)),
                ),
                ..no_data(None)
            },
            Category::Electrical => Extract {
                electrical_specs: Some(
                    rows_upto(ls, n, d, |cells: Seq<Seq<char>>| electrical_row(cells, names)),
                ),
                ..no_data(None)
            },
            Category::Unknown => no_data(Some(nothing_found())),
        }
    }
}

/// The hardware data of a delimited text.
pub open spec fn csv_data(text: Seq<char>) -> Extract {
    table_data(lines(text))
}

fn count_char(line: &[char], c: char) -> (r: usize)
    ensures
        r == count_of(line@, c, line.len() as int),
{
    let mut n: usize = 0;
    let mut i: usize = 0;
    while i < line.len()
        invariant
            i <= line.len(),
            n <= i,
            n == count_of(line@, c, i as int),
        decreases line.len() - i,
    {
        if line[i] == c {
            n += 1;
        }
        i += 1;
    }
    n
}

fn find_delimiter(header: &[char]) -> (r: char)
    ensures
        r == delimiter_of(header@),
{
    let commas = count_char(header, ',');
    let semicolons = count_char(header, ';');
    let tabs = count_char(header, '\t');
    if semicolons > commas && semicolons >= tabs {
        ';'
    } else if tabs > commas {
        '\t'
    } else {
        ','
    }
}

fn split_cells(line: &[char], delimiter: char) -> (r: Vec<Vec<char>>)
    ensures
        texts(r@) == cells_of(line@, delimiter),
{
    let mut out: Vec<Vec<char>> = Vec::new();
    let mut current: Vec<char> = Vec::new();
    let mut quoted = false;
    let mut i: usize = 0;
    let ghost goal = cells_from(line@, 0, delimiter, false, Seq::empty());
    let ghost mut done: Seq<Seq<char>> = Seq::empty();
    while i < line.len()
        invariant
            i <= line.len(),
            done + cells_from(line@, i as int, delimiter, quoted, current@) == goal,
            texts(out@) == Seq::new(done.len(), |j: int| trimmed(done[j])),
        decreases line.len() - i,
    {
        let c = line[i];
        if quoted {
            if c != '"' {
                current.push(c);
                i += 1;
            } else if i + 1 < line.len() && line[i + 1] == '"' {
                current.push('"');
                i += 2;
            } else {
                quoted = false;
                i += 1;
            }
        } else if c == '"' {
            quoted = true;
            i += 1;
        } else if c == delimiter {
            let ghost before = texts(out@);
            let ghost cur = current@;
            let cell = trim(current.as_slice());
            out.push(cell);
            current = Vec::new();
            proof {
                done = done.push(cur);
                assert(texts(out@) =~= before.push(trimmed(cur)));
            }
            i += 1;
        } else if c == '\r' {
            i += 1;
        } else {
            current.push(c);
            i += 1;
        }
    }
    let ghost before = texts(out@);
    let ghost cur = current@;
    let cell = trim(current.as_slice());
    out.push(cell);
    proof {
        assert(texts(out@) =~= before.push(trimmed(cur)));
    }
    out
}

fn read_column_names(header: &[char]) -> (r: Vec<Vec<char>>)
    ensures
        texts(r@) == column_names(header@),
{
    let cells = split_cells(header, find_delimiter(header));
    let mut out: Vec<Vec<char>> = Vec::new();
    let mut i: usize = 0;
    while i < cells.len()
        invariant
            i <= cells.len(),
            texts(out@) == Seq::new(i as nat, |j: int| lowered(texts(cells@)[j])),
        decreases cells.len() - i,
    {
        let ghost before = texts(out@);
        let name = to_lower(cells[i].as_slice());
        out.push(name);
        i += 1;
        assert(texts(out@) =~= before.push(name@));
    }
    out
}

fn find_column(names: &Vec<Vec<char>>, name: &str) -> (r: Option<usize>)
    ensures
        r is Some <==> column(texts(names@), name@, 0) is Some,
        r matches Some(i) ==> column(texts(names@), name@, 0) == Some(i as int) && i < names.len(),
{
    let mut i: usize = 0;
    while i < names.len()
        invariant
            i <= names.len(),
            column(texts(names@), name@, i as int) == column(texts(names@), name@, 0),
        decreases names.len() - i,
    {
        if text_is(names[i].as_slice(), name) {
            return Some(i);
        }
        i += 1;
    }
    None
}

fn read_cell<'a>(cells: &'a Vec<Vec<char>>, names: &Vec<Vec<char>>, name: &str) -> (r: Option<
    &'a Vec<char>,
>)
    ensures
        match cell(texts(cells@), texts(names@), name@) {
            Some(text) => r matches Some(v) && v@ == text,
            None => r is None,
        },
{
    match find_column(names, name) {
        Some(i) => {
            if i < cells.len() {
                if cells[i].len() > 0 {
                    return Some(&cells[i]);
                }
            }
            None
        },
        None => None,
    }
}

fn cell_string(cells: &Vec<Vec<char>>, names: &Vec<Vec<char>>, name: &str) -> (r: Option<String>)
    ensures
        r.deep_view() == cell(texts(cells@), texts(names@), name@),
{
    match read_cell(cells, names, name) {
        Some(v) => Some(string_from_chars(v.as_slice())),
        None => None,
    }
}

fn cell_number(cells: &Vec<Vec<char>>, names: &Vec<Vec<char>>, name: &str) -> (r: Option<u32>)
    ensures
        r == small_number(cell(texts(cells@), texts(names@), name@)),
{
    match read_cell(cells, names, name) {
        Some(v) => match parse_unsigned(v.as_slice()) {
            Some(n) => if n <= 0xffff_ffff {
                Some(n as u32)
            } else {
                None
            },
            None => None,
        },
        None => None,
    }
}

fn cell_limit(cells: &Vec<Vec<char>>, names: &Vec<Vec<char>>, name: &str) -> (r: Result<
    Option<Scalar>,
    (),
>)
    ensures
        r == limit(cell(texts(cells@), texts(names@), name@)),
{
    match read_cell(cells, names, name) {
        None => Ok(None),
        Some(v) => match parse_scalar(v.as_slice()) {
            Some(x) => Ok(Some(x)),
            None => Err(()),
        },
    }
}

fn read_limits(cells: &Vec<Vec<char>>, names: &Vec<Vec<char>>) -> (r: Option<
    (Option<Scalar>, Option<Scalar>, Option<Scalar>),
>)
    ensures
        r == limits_row(texts(cells@), texts(names@)),
{
    match (cell_limit(cells, names, "min"), cell_limit(cells, names, "typ"), cell_limit(
        cells,
        names,
        "max",
    )) {
        (Ok(min), Ok(typ), Ok(max)) => if check_limits(min, typ, max) {
            Some((min, typ, max))
        } else {
            None
        },
        _ => None,
    }
}

fn read_register_row(cells: &Vec<Vec<char>>, names: &Vec<Vec<char>>) -> (r: Option<RegisterMap>)
    ensures
        r.deep_view() == register_row(texts(cells@), texts(names@)),
{
    match (
        cell_string(cells, names, "name"),
        cell_string(cells, names, "address"),
        cell_string(cells, names, "description"),
        cell_number(cells, names, "bit_width"),
        cell_string(cells, names, "access"),
    ) {
        (Some(name), Some(address), Some(description), Some(bit_width), Some(access)) => Some(
            RegisterMap {
                name,
                address,
                description,
                bit_width,
                access,
                fields: None,
                reset_value: cell_string(cells, names, "reset_value"),
            },
        ),
        _ => None,
    }
}

fn read_pinout_row(cells: &Vec<Vec<char>>, names: &Vec<Vec<char>>) -> (r: Option<Pinout>)
    ensures
        r.deep_view() == pinout_row(texts(cells@), texts(names@)),
{
    match (cell_string(cells, names, "pin_number"), cell_string(cells, names, "name"), cell_string(
        cells,
        names,
        "pin_type",
    )) {
        (Some(pin_number), Some(name), Some(pin_type)) => Some(
            Pinout {
                pin_number,
                name,
                pin_type,
                description: cell_string(cells, names, "description"),
                function: cell_string(cells, names, "function"),
            },
        ),
        _ => None,
    }
}

fn read_timing_row(cells: &Vec<Vec<char>>, names: &Vec<Vec<char>>) -> (r: Option<TimingConstraint>)
    ensures
        r.deep_view() == timing_row(texts(cells@), texts(names@)),
{
    match (
        cell_string(cells, names, "name"),
        cell_string(cells, names, "parameter"),
        cell_string(cells, names, "unit"),
        read_limits(cells, names),
    ) {
        (Some(name), Some(parameter), Some(unit), Some(limits)) => Some(
            TimingConstraint {
                name,
                parameter,
                min: limits.0,
                typ: limits.1,
                max: limits.2,
                unit,
                condition: cell_string(cells, names, "condition"),
            },
        ),
        _ => None,
    }
}

fn read_electrical_row(cells: &Vec<Vec<char>>, names: &Vec<Vec<char>>) -> (r: Option<
    ElectricalSpec,
>)
    ensures
        r.deep_view() == electrical_row(texts(cells@), texts(names@)),
{
    match (cell_string(cells, names, "parameter"), cell_string(cells, names, "unit"), read_limits(
        cells,
        names,
    )) {
        (Some(parameter), Some(unit), Some(limits)) => Some(
            ElectricalSpec {
                parameter,
                min: limits.0,
                typ: limits.1,
                max: limits.2,
                unit,
                condition: cell_string(cells, names, "condition"),
            },
        ),
        _ => None,
    }
}

fn has(names: &Vec<Vec<char>>, name: &str) -> (r: bool)
    ensures
        r == has_column(texts(names@), name@),
{
    find_column(names, name).is_some()
}

fn find_category(names: &Vec<Vec<char>>) -> (r: Category)
    ensures
        r == category_of(texts(names@)),
{
    let limits = has(names, "min") || has(names, "typ") || has(names, "max");
    if has(names, "name") && has(names, "address") && has(names, "description") && has(
        names,
        "bit_width",
    ) && has(names, "access") {
        Category::Registers
    } else if has(names, "pin_number") && has(names, "name") && has(names, "pin_type") {
        Category::Pinouts
    } else if has(names, "name") && has(names, "parameter") && has(names, "unit") && limits {
        Category::Timing
    } else if has(names, "parameter") && has(names, "unit") && limits {
        Category::Electrical
    } else {
        Category::Unknown
    }
}

fn read_registers(ls: &Vec<Vec<char>>, names: &Vec<Vec<char>>, d: char) -> (r: Vec<RegisterMap>)
    requires
        ls.len() >= 1,
    ensures
        r.deep_view() == rows_upto(
            texts(ls@),
            ls.len() as int,
            d,
            |cells: Seq<Seq<char>>| register_row(cells, texts(names@)),
        ),
{
    let ghost f = |cells: Seq<Seq<char>>| register_row(cells, texts(names@));
    let mut out: Vec<RegisterMap> = Vec::new();
    let mut i: usize = 1;
    while i < ls.len()
        invariant
            1 <= i <= ls.len(),
            f == (|cells: Seq<Seq<char>>| register_row(cells, texts(names@))),
            out.deep_view() == rows_upto(texts(ls@), i as int, d, f),
        decreases ls.len() - i,
    {
        let cells = split_cells(ls[i].as_slice(), d);
        match read_register_row(&cells, names) {
            Some(entry) => {
                out.push(entry);
            },
            None => {},
        }
        i += 1;
    }
    out
}

fn read_pinouts(ls: &Vec<Vec<char>>, names: &Vec<Vec<char>>, d: char) -> (r: Vec<Pinout>)
    requires
        ls.len() >= 1,
    ensures
        r.deep_view() == rows_upto(
            texts(ls@),
            ls.len() as int,
            d,
            |cells: Seq<Seq<char>>| pinout_row(cells, texts(names@)),
        ),
{
    let ghost f = |cells: Seq<Seq<char>>| pinout_row(cells, texts(names@));
    let mut out: Vec<Pinout> = Vec::new();
    let mut i: usize = 1;
    while i < ls.len()
        invariant
            1 <= i <= ls.len(),
            f == (|cells: Seq<Seq<char>>| pinout_row(cells, texts(names@))),
            out.deep_view() == rows_upto(texts(ls@), i as int, d, f),
        decreases ls.len() - i,
    {
        let cells = split_cells(ls[i].as_slice(), d);
        match read_pinout_row(&cells, names) {
            Some(entry) => {
                out.push(entry);
            },
            None => {},
        }
        i += 1;
    }
    out
}

fn read_timings(ls: &Vec<Vec<char>>, names: &Vec<Vec<char>>, d: char) -> (r: Vec<TimingConstraint>)
    requires
        ls.len() >= 1,
    ensures
        r.deep_view() == rows_upto(
            texts(ls@),
            ls.len() as int,
            d,
            |cells: Seq<Seq<char>>| timing_row(cells, texts(names@)),
        ),
{
    let ghost f = |cells: Seq<Seq<char>>| timing_row(cells, texts(names@));
    let mut out: Vec<TimingConstraint> = Vec::new();
    let mut i: usize = 1;
    while i < ls.len()
        invariant
            1 <= i <= ls.len(),
            f == (|cells: Seq<Seq<char>>| timing_row(cells, texts(names@))),
            out.deep_view() == rows_upto(texts(ls@), i as int, d, f),
        decreases ls.len() - i,
    {
        let cells = split_cells(ls[i].as_slice(), d);
        match read_timing_row(&cells, names) {
            Some(entry) => {
                out.push(entry);
            },
            None => {},
        }
        i += 1;
    }
    out
}

fn read_electricals(ls: &Vec<Vec<char>>, names: &Vec<Vec<char>>, d: char) -> (r: Vec<ElectricalSpec>)
    requires
        ls.len() >= 1,
    ensures
        r.deep_view() == rows_upto(
            texts(ls@),
            ls.len() as int,
            d,
            |cells: Seq<Seq<char>>| electrical_row(cells, texts(names@)),
        ),
{
    let ghost f = |cells: Seq<Seq<char>>| electrical_row(cells, texts(names@));
    let mut out: Vec<ElectricalSpec> = Vec::new();
    let mut i: usize = 1;
    while i < ls.len()
        invariant
            1 <= i <= ls.len(),
            f == (|cells: Seq<Seq<char>>| electrical_row(cells, texts(names@))),
            out.deep_view() == rows_upto(texts(ls@), i as int, d, f),
        decreases ls.len() - i,
    {
        let cells = split_cells(ls[i].as_slice(), d);
        match read_electrical_row(&cells, names) {
            Some(entry) => {
                out.push(entry);
            },
            None => {},
        }
        i += 1;
    }
    out
}

/// Data without any category and with the given summary.
pub fn empty_data(summary: Option<String>) -> (r: ExtractedData)
    ensures
        r.deep_view() == no_data(summary.deep_view()),
{
    ExtractedData {
        register_maps: None,
        timing_constraints: None,
        pinouts: None,
        electrical_specs: None,
        configurations: None,
        summary,
    }
}

/// Data that says that nothing was recognised in a text.
pub fn unrecognised_text() -> (r: ExtractedData)
    ensures
        r.deep_view() == no_data(Some(nothing_found())),
{
    empty_data(Some("No structured hardware data was found in the text.".to_owned()))
}

/// The category that a table with the given first line lists.
pub fn table_category(header: &[char]) -> (r: Category)
    ensures
        r == category_of(column_names(header@)),
{
    let names = read_column_names(header);
    find_category(&names)
}

/// Reads the hardware data of a table, given as its lines.
pub fn decode_table(ls: &Vec<Vec<char>>) -> (r: ExtractedData)
    ensures
        r.deep_view() == table_data(texts(ls@)),
{
    if ls.len() == 0 {
        return unrecognised_text();
    }
    assert(texts(ls@)[0] == ls@[0]@);
    let names = read_column_names(ls[0].as_slice());
    let d = find_delimiter(ls[0].as_slice());
    match find_category(&names) {
        Category::Registers => {
            let mut data = empty_data(None);
            data.register_maps = Some(read_registers(ls, &names, d));
            data
        },
        Category::Pinouts => {
            let mut data = empty_data(None);
            data.pinouts = Some(read_pinouts(ls, &names, d));
            data
        },
        Category::Timing => {
            let mut data = empty_data(None);
            data.timing_constraints = Some(read_timings(ls, &names, d));
            data
        },
        Category::Electrical => {
            let mut data = empty_data(None);
            data.electrical_specs = Some(read_electricals(ls, &names, d));
            data
        },
        Category::Unknown => unrecognised_text(),
    }
}

/// Reads the hardware data of a delimited text.
pub fn decode_csv_data(text: &[char]) -> (r: ExtractedData)
    ensures
        r.deep_view() == csv_data(text@),
{
    let ls = split_lines(text);
    decode_table(&ls)
}

/// Where `f` gives only entries with the property `p`, every entry of the
/// rows has it.
pub proof fn lemma_rows_keep<T>(
    ls: Seq<Seq<char>>,
    n: int,
    delimiter: char,
    f: spec_fn(Seq<Seq<char>>) -> Option<T>,
    p: spec_fn(T) -> bool,
)
    requires
        forall|cells: Seq<Seq<char>>| (#[trigger] f(cells)) matches Some(x) ==> p(x),
    ensures
        forall|i: int|
            0 <= i < rows_upto(ls, n, delimiter, f).len() ==> p(
                #[trigger] rows_upto(ls, n, delimiter, f)[i],
            ),
    decreases n,
{
    if n > 1 {
        lemma_rows_keep(ls, n - 1, delimiter, f, p);
        let before = rows_upto(ls, n - 1, delimiter, f);
        let rows = rows_upto(ls, n, delimiter, f);
        assert forall|i: int| 0 <= i < rows.len() implies p(#[trigger] rows[i]) by {
            if i < before.len() {
                assert(rows[i] == before[i]);
            }
        }
    }
}

/// The data that a table holds meets the invariants of the model.
pub proof fn lemma_table_data_is_well_formed(ls: Seq<Seq<char>>)
    ensures
        table_data(ls).well_formed(),
{
    if ls.len() > 0 {
        let names = column_names(ls[0]);
        let d = delimiter_of(ls[0]);
        let n = ls.len() as int;
        match category_of(names) {
            Category::Registers => {
                let f = |cells: Seq<Seq<char>>| register_row(cells, names);
                let p = |x: RegisterMapView| x.well_formed();
                assert forall|cells: Seq<Seq<char>>| (#[trigger] f(cells)) is Some implies p(f(cells)->0) by {}
                lemma_rows_keep(ls, n, d, f, p);
            },
            Category::Timing => {
                let f = |cells: Seq<Seq<char>>| timing_row(cells, names);
                let p = |x: TimingConstraintView| limits_fit(x.min, x.typ, x.max);
                assert forall|cells: Seq<Seq<char>>| (#[trigger] f(cells)) is Some implies p(f(cells)->0) by {}
                lemma_rows_keep(ls, n, d, f, p);
            },
            Category::Electrical => {
                let f = |cells: Seq<Seq<char>>| electrical_row(cells, names);
                let p = |x: ElectricalSpecView| limits_fit(x.min, x.typ, x.max);
                assert forall|cells: Seq<Seq<char>>| (#[trigger] f(cells)) is Some implies p(f(cells)->0) by {}
                lemma_rows_keep(ls, n, d, f, p);
            },
            _ => {},
        }
    }
}

} // verus!

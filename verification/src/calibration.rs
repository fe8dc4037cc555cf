//! The line grammar of UMIK-style microphone calibration files.
//!
//! A file holds an optional sensitivity/serial header, optional quoted
//! metadata lines, `#`/`;` comments, and data rows of two or three columns
//! separated by spaces, tabs or commas:
//! `frequency_hz correction_db [phase_degrees]`.
//!
//! [`scan_calibration_text`] classifies every line; the numeric columns and
//! header values are handed on as text, exactly as they appear.

use vstd::prelude::*;
use crate::error::{DspError, DspErrorView};
use crate::text::{
    ascii_lowercase, chars_of, copy_range, in_class, exec_all_in_class, exec_find, exec_find_class, exec_skip_class,
    find, find_class, find_from, first_non_blank, last_non_blank_end, all_in_class, lemma_find_class_bounds,
    lemma_find_from_bounds,
    lemma_skip_class_bounds, lowercase_chars, skip_class, string_from_chars, trim, trim_chars, CharClass,
};

verus! {

/// Version tag persisted with calibrations read by this grammar.
pub const UMIK_CALIBRATION_PARSER_VERSION: &'static str = "umik-calibration-parser-v2";

// ---------------------------------------------------------------------------
// Line-level helpers
// ---------------------------------------------------------------------------

/// `(trimmed contents, true)` for a line wrapped in double quotes, else `(line, false)`.
pub open spec fn spec_strip_outer_quotes(line: Seq<char>) -> (Seq<char>, bool) {
    if line.len() >= 2 && line[0] == '"' && line[line.len() - 1] == '"' {
        (trim(line.subrange(1, line.len() - 1)), true)
    } else {
        (line, false)
    }
}

/// The text that follows `marker` (matched case-insensitively) after any
/// spaces, tabs, `=` or `:`, as far as it continues with characters of
/// `value_class`; `None` when the marker is absent or nothing follows.
pub open spec fn value_after(line: Seq<char>, marker_at: Option<int>, marker_len: nat, value_class: CharClass) -> Option<Seq<char>> {
    match marker_at {
        None => None,
        Some(p) => {
            let t = skip_class(line, p + marker_len, CharClass::HeaderSeparator);
            let e = skip_class(line, t, value_class);
            if e == t {
                None
            } else {
                Some(line.subrange(t, e))
            }
        },
    }
}

/// The numeric text of a header value such as `Sens Factor = -18.4dB`.
pub open spec fn header_token(line: Seq<char>, marker: Seq<char>) -> Option<Seq<char>> {
    value_after(line, find(ascii_lowercase(line), marker), marker.len(), CharClass::NumberChar)
}

/// The serial number after `serno` (or, failing that, `serial`), matched
/// case-insensitively.
pub open spec fn spec_serial_number(line: Seq<char>) -> Option<Seq<char>> {
    let lower = ascii_lowercase(line);
    match find(lower, "serno"@) {
        Some(p) => value_after(line, Some(p), 5, CharClass::SerialChar),
        None => value_after(line, find(lower, "serial"@), 6, CharClass::SerialChar),
    }
}

/// The first column separated by ASCII whitespace or commas, if any.
pub open spec fn spec_leading_column(line: Seq<char>) -> Option<Seq<char>> {
    let i = skip_class(line, 0, CharClass::ColumnSeparator);
    if i >= line.len() {
        None
    } else {
        Some(line.subrange(i, find_class(line, i, CharClass::ColumnSeparator)))
    }
}

/// The non-empty columns of `data` from position `from` on.
pub open spec fn columns_from(data: Seq<char>, from: int) -> Seq<Seq<char>>
    decreases data.len() - from,
{
    if from < 0 || from >= data.len() {
        seq![]
    } else {
        let j = skip_class(data, from, CharClass::ColumnSeparator);
        if j >= data.len() {
            seq![]
        } else {
            proof {
                lemma_skip_class_bounds(data, from, CharClass::ColumnSeparator);
                lemma_find_class_bounds(data, j + 1, CharClass::ColumnSeparator);
            }
            let e = find_class(data, j + 1, CharClass::ColumnSeparator);
            seq![data.subrange(j, e)] + columns_from(data, e)
        }
    }
}

/// Every column is non-empty and holds no separator.
pub proof fn lemma_columns_are_nonempty_and_unseparated(data: Seq<char>, from: int)
    ensures
        forall|k: int| 0 <= k < columns_from(data, from).len() ==> (#[trigger] columns_from(data, from)[k]).len() > 0
            && forall|m: int| 0 <= m < columns_from(data, from)[k].len() ==> !in_class(
                CharClass::ColumnSeparator,
                #[trigger] columns_from(data, from)[k][m],
            ),
    decreases data.len() - from,
{
    if 0 <= from < data.len() {
        let j = skip_class(data, from, CharClass::ColumnSeparator);
        if j < data.len() {
            lemma_skip_class_bounds(data, from, CharClass::ColumnSeparator);
            lemma_find_class_bounds(data, j + 1, CharClass::ColumnSeparator);
            let e = find_class(data, j + 1, CharClass::ColumnSeparator);
            lemma_columns_are_nonempty_and_unseparated(data, e);
            let rest = columns_from(data, e);
            let all = columns_from(data, from);
            assert(all == seq![data.subrange(j, e)] + rest);
            assert forall|k: int| 0 <= k < all.len() implies (#[trigger] all[k]).len() > 0
                && forall|m: int| 0 <= m < all[k].len() ==> !in_class(CharClass::ColumnSeparator, #[trigger] all[k][m]) by {
                if k == 0 {
                    assert(all[0] == data.subrange(j, e));
                    assert forall|m: int| 0 <= m < all[0].len() implies !in_class(
                        CharClass::ColumnSeparator,
                        #[trigger] all[0][m],
                    ) by {
                        assert(all[0][m] == data[j + m]);
                    }
                } else {
                    assert(all[k] == rest[k - 1]);
                }
            }
        }
    }
}

// ---------------------------------------------------------------------------
// Line classification
// ---------------------------------------------------------------------------

/// The data columns of a line: nothing before its comment, two or three
/// columns, or a malformed column count.
#[derive(Debug, Clone, PartialEq, Eq)]
pub enum DataRow {
    Empty,
    Columns(Vec<String>),
    Malformed,
}

pub enum DataRowView {
    Empty,
    Columns(Seq<Seq<char>>),
    Malformed,
}

/// How one line of a calibration file reads.
#[derive(Debug, Clone, PartialEq, Eq)]
pub enum CalibrationLine {
    /// A sensitivity header: the numeric text after `sens factor` and after
    /// `sensitivity`, and any serial number on the same line.
    Sensitivity {
        line: usize,
        sens_factor_token: Option<String>,
        sensitivity_token: Option<String>,
        serial_number: Option<String>,
    },
    /// A fully quoted line. When its leading column reads as a number it is
    /// a data row (`data`); otherwise it is descriptive metadata that may
    /// carry a serial number.
    Quoted {
        line: usize,
        leading_column: Option<String>,
        serial_number: Option<String>,
        data: DataRow,
    },
    /// An unquoted data row (never [`DataRow::Empty`]).
    Data { line: usize, data: DataRow },
}

/// A [`CalibrationLine`] as a value.
pub enum CalibrationLineView {
    Sensitivity {
        line: nat,
        sens_factor_token: Option<Seq<char>>,
        sensitivity_token: Option<Seq<char>>,
        serial_number: Option<Seq<char>>,
    },
    Quoted { line: nat, leading_column: Option<Seq<char>>, serial_number: Option<Seq<char>>, data: DataRowView },
    Data { line: nat, data: DataRowView },
}

pub open spec fn optional_text(value: Option<String>) -> Option<Seq<char>> {
    match value {
        Some(text) => Some(text@),
        None => None,
    }
}

pub open spec fn texts(values: Seq<String>) -> Seq<Seq<char>> {
    values.map_values(|text: String| text@)
}

impl View for DataRow {
    type V = DataRowView;

    open spec fn view(&self) -> DataRowView {
        match self {
            DataRow::Empty => DataRowView::Empty,
            DataRow::Columns(columns) => DataRowView::Columns(texts(columns@)),
            DataRow::Malformed => DataRowView::Malformed,
        }
    }
}

impl View for CalibrationLine {
    type V = CalibrationLineView;

    open spec fn view(&self) -> CalibrationLineView {
        match self {
            CalibrationLine::Sensitivity { line, sens_factor_token, sensitivity_token, serial_number } => {
                CalibrationLineView::Sensitivity {
                    line: *line as nat,
                    sens_factor_token: optional_text(*sens_factor_token),
                    sensitivity_token: optional_text(*sensitivity_token),
                    serial_number: optional_text(*serial_number),
                }
            },
            CalibrationLine::Quoted { line, leading_column, serial_number, data } => CalibrationLineView::Quoted {
                line: *line as nat,
                leading_column: optional_text(*leading_column),
                serial_number: optional_text(*serial_number),
                data: data@,
            },
            CalibrationLine::Data { line, data } => CalibrationLineView::Data { line: *line as nat, data: data@ },
        }
    }
}

/// The data columns of `content`, up to its first `#` or `;`.
pub open spec fn data_row(content: Seq<char>) -> DataRowView {
    let data = trim(content.take(find_class(content, 0, CharClass::CommentStart)));
    if data.len() == 0 {
        DataRowView::Empty
    } else if 2 <= columns_from(data, 0).len() <= 3 {
        DataRowView::Columns(columns_from(data, 0))
    } else {
        DataRowView::Malformed
    }
}

/// How a line reads, or `None` for a blank line, a comment, or an unquoted
/// line that holds nothing before its comment.
pub open spec fn classify_line(piece: Seq<char>, line: nat) -> Option<CalibrationLineView> {
    let trimmed = trim(piece.skip(skip_class(piece, 0, CharClass::ByteOrderMark)));
    if trimmed.len() == 0 || trimmed[0] == '#' || trimmed[0] == ';' {
        None
    } else {
        let content = spec_strip_outer_quotes(trimmed).0;
        let quoted = spec_strip_outer_quotes(trimmed).1;
        let lower = ascii_lowercase(content);
        if find(lower, "sens factor"@) is Some || find(lower, "sensitivity"@) is Some {
            Some(
                CalibrationLineView::Sensitivity {
                    line,
                    sens_factor_token: header_token(content, "sens factor"@),
                    sensitivity_token: header_token(content, "sensitivity"@),
                    serial_number: spec_serial_number(content),
                },
            )
        } else if quoted {
            Some(
                CalibrationLineView::Quoted {
                    line,
                    leading_column: spec_leading_column(content),
                    serial_number: spec_serial_number(content),
                    data: data_row(content),
                },
            )
        } else if data_row(content) is Empty {
            None
        } else {
            Some(CalibrationLineView::Data { line, data: data_row(content) })
        }
    }
}

/// `pattern` occurs somewhere in `s`.
pub open spec fn contains_text(s: Seq<char>, pattern: Seq<char>) -> bool {
    exists|i: int| 0 <= i && i + pattern.len() <= s.len() && #[trigger] s.subrange(i, i + pattern.len()) == pattern
}

proof fn lemma_find_from_reaches(s: Seq<char>, pattern: Seq<char>, from: int, i: int)
    requires
        0 <= from <= i,
        i + pattern.len() <= s.len(),
        s.subrange(i, i + pattern.len()) == pattern,
    ensures
        find_from(s, pattern, from) is Some,
    decreases i - from,
{
    if s.subrange(from, from + pattern.len()) != pattern {
        lemma_find_from_reaches(s, pattern, from + 1, i);
    }
}

/// Quoting does not change how a sensitivity header reads: a line whose
/// trimmed text mentions `sens factor` or `sensitivity` (in any ASCII case)
/// is the sensitivity header also when the whole line is wrapped in double
/// quotes, as miniDSP downloads write it, with the value after each marker
/// and the serial number read from the text inside the quotes.
pub proof fn lemma_quoted_header_reads_as_header(text: Seq<char>, line: nat)
    requires
        contains_text(ascii_lowercase(trim(text)), "sens factor"@) || contains_text(
            ascii_lowercase(trim(text)),
            "sensitivity"@,
        ),
    ensures
        classify_line(seq!['"'] + text + seq!['"'], line) == Some(
            CalibrationLineView::Sensitivity {
                line,
                sens_factor_token: header_token(trim(text), "sens factor"@),
                sensitivity_token: header_token(trim(text), "sensitivity"@),
                serial_number: spec_serial_number(trim(text)),
            },
        ),
{
    let piece = seq!['"'] + text + seq!['"'];
    let n = piece.len() as int;
    assert(piece[0] == '"' && piece[n - 1] == '"');
    assert(skip_class(piece, 0, CharClass::ByteOrderMark) == 0);
    assert(piece.skip(0) == piece);
    assert(first_non_blank(piece, 0) == 0);
    assert(last_non_blank_end(piece, n) == n);
    assert(trim(piece) == piece.subrange(0, n));
    assert(piece.subrange(0, n) == piece);
    assert(piece.subrange(1, n - 1) == text);
    let content = trim(text);
    assert(spec_strip_outer_quotes(piece) == (content, true));
    let lower = ascii_lowercase(content);
    if contains_text(lower, "sens factor"@) {
        let marker = "sens factor"@;
        let i = choose|i: int| 0 <= i && i + marker.len() <= lower.len() && #[trigger] lower.subrange(i, i + marker.len()) == marker;
        lemma_find_from_reaches(lower, "sens factor"@, 0, i);
    } else {
        let marker = "sensitivity"@;
        let i = choose|i: int| 0 <= i && i + marker.len() <= lower.len() && #[trigger] lower.subrange(i, i + marker.len()) == marker;
        lemma_find_from_reaches(lower, "sensitivity"@, 0, i);
    }
}

/// The line starting at `from` as `str::lines` yields it: up to the next
/// line feed, without the line feed and one carriage return before it.
pub open spec fn line_at(text: Seq<char>, from: int) -> Seq<char> {
    let e = find_class(text, from, CharClass::LineFeed);
    let raw = text.subrange(from, e);
    if e < text.len() && raw.len() > 0 && raw[raw.len() - 1] == '\r' {
        raw.drop_last()
    } else {
        raw
    }
}

/// The classified lines of `text` from position `from`, numbering the first
/// one `line`.
pub open spec fn scan_lines(text: Seq<char>, from: int, line: nat) -> Seq<CalibrationLineView>
    decreases text.len() + 1 - from,
{
    if from < 0 || from >= text.len() {
        seq![]
    } else {
        proof {
            lemma_find_class_bounds(text, from, CharClass::LineFeed);
        }
        let e = find_class(text, from, CharClass::LineFeed);
        match classify_line(line_at(text, from), line) {
            None => scan_lines(text, e + 1, line + 1),
            Some(event) => seq![event] + scan_lines(text, e + 1, line + 1),
        }
    }
}

/// The line number a classified line carries.
pub open spec fn line_number(event: CalibrationLineView) -> nat {
    match event {
        CalibrationLineView::Sensitivity { line, .. } => line,
        CalibrationLineView::Quoted { line, .. } => line,
        CalibrationLineView::Data { line, .. } => line,
    }
}

/// Classified lines come out in file order, each numbered at least `line`
/// and after the one before it, and an unquoted data line always holds data.
pub proof fn lemma_scanned_lines_are_in_order(text: Seq<char>, from: int, line: nat)
    ensures
        forall|i: int|
            0 <= i < scan_lines(text, from, line).len() ==> line_number(#[trigger] scan_lines(text, from, line)[i])
                >= line,
        forall|i: int, j: int|
            0 <= i < j < scan_lines(text, from, line).len() ==> line_number(#[trigger] scan_lines(text, from, line)[i])
                < line_number(#[trigger] scan_lines(text, from, line)[j]),
        forall|i: int|
            0 <= i < scan_lines(text, from, line).len() ==> (#[trigger] scan_lines(text, from, line)[i] matches CalibrationLineView::Data {
                data,
                ..
            } ==> !(data is Empty)),
    decreases text.len() + 1 - from,
{
    if 0 <= from < text.len() {
        lemma_find_class_bounds(text, from, CharClass::LineFeed);
        let e = find_class(text, from, CharClass::LineFeed);
        let rest = scan_lines(text, e + 1, line + 1);
        let all = scan_lines(text, from, line);
        lemma_scanned_lines_are_in_order(text, e + 1, line + 1);
        match classify_line(line_at(text, from), line) {
            None => {
                assert(all == rest);
            },
            Some(event) => {
                assert(all == seq![event] + rest);
                assert(line_number(event) == line);
                assert forall|i: int| 0 <= i < all.len() implies line_number(#[trigger] all[i]) >= line by {
                    if i > 0 {
                        assert(all[i] == rest[i - 1]);
                    }
                }
                assert forall|i: int, j: int| 0 <= i < j < all.len() implies line_number(#[trigger] all[i])
                    < line_number(#[trigger] all[j]) by {
                    assert(all[j] == rest[j - 1]);
                    if i > 0 {
                        assert(all[i] == rest[i - 1]);
                    }
                }
                assert forall|i: int| 0 <= i < all.len() implies (#[trigger] all[i] matches CalibrationLineView::Data {
                    data,
                    ..
                } ==> !(data is Empty)) by {
                    if i > 0 {
                        assert(all[i] == rest[i - 1]);
                    }
                }
            },
        }
    }
}

pub open spec fn lines_view(lines: Seq<CalibrationLine>) -> Seq<CalibrationLineView> {
    lines.map_values(|l: CalibrationLine| l@)
}

// ---------------------------------------------------------------------------
// Executable counterparts
// ---------------------------------------------------------------------------

fn copy_optional(value: Option<Vec<char>>) -> (text: Option<String>)
    ensures
        optional_text(text) == match value {
            Some(v) => Some(v@),
            None => None,
        },
{
    match value {
        Some(v) => Some(string_from_chars(v.as_slice())),
        None => None,
    }
}

fn exec_strip_outer_quotes(line: &Vec<char>) -> (stripped: (Vec<char>, bool))
    ensures
        stripped.0@ == spec_strip_outer_quotes(line@).0,
        stripped.1 == spec_strip_outer_quotes(line@).1,
{
    let n = line.len();
    if n >= 2 && line[0] == '"' && line[n - 1] == '"' {
        let inner = copy_range(line, 1, n - 1);
        (trim_chars(&inner), true)
    } else {
        let mut copy: Vec<char> = Vec::new();
        let mut i: usize = 0;
        while i < n
            invariant
                n == line@.len(),
                i <= n,
                copy@ == line@.take(i as int),
            decreases n - i,
        {
            copy.push(line[i]);
            i += 1;
            assert(line@.take(i as int) == line@.take(i - 1).push(line@[i - 1]));
        }
        assert(line@.take(n as int) == line@);
        (copy, false)
    }
}

fn exec_value_after(line: &Vec<char>, marker_at: Option<usize>, marker_len: usize, value_class: CharClass) -> (value: Option<Vec<char>>)
    requires
        marker_at matches Some(p) ==> p + marker_len <= line@.len(),
    ensures
        match value {
            Some(v) => value_after(line@, match marker_at { Some(p) => Some(p as int), None => None }, marker_len as nat, value_class) == Some(v@),
            None => value_after(line@, match marker_at { Some(p) => Some(p as int), None => None }, marker_len as nat, value_class) is None,
        },
{
    let n = line.len();
    match marker_at {
        None => None,
        Some(p) => {
            assert(p + marker_len <= n);
            let t = exec_skip_class(line, p + marker_len, CharClass::HeaderSeparator);
            let e = exec_skip_class(line, t, value_class);
            if e == t {
                None
            } else {
                Some(copy_range(line, t, e))
            }
        },
    }
}

fn exec_find_marker(lower: &Vec<char>, marker: &str) -> (found: (Option<usize>, usize))
    ensures
        found.1 == marker@.len(),
        match found.0 {
            Some(p) => find(lower@, marker@) == Some(p as int) && p + marker@.len() <= lower@.len(),
            None => find(lower@, marker@) is None,
        },
{
    let pattern = chars_of(marker);
    let found = exec_find(lower, &pattern);
    proof {
        lemma_find_from_bounds(lower@, marker@, 0);
    }
    (found, pattern.len())
}

fn exec_header_token(content: &Vec<char>, lower: &Vec<char>, marker: &str) -> (token: Option<Vec<char>>)
    requires
        lower@ == ascii_lowercase(content@),
    ensures
        match token {
            Some(v) => header_token(content@, marker@) == Some(v@),
            None => header_token(content@, marker@) is None,
        },
{
    let (found, marker_len) = exec_find_marker(lower, marker);
    exec_value_after(content, found, marker_len, CharClass::NumberChar)
}

fn exec_serial_number(content: &Vec<char>, lower: &Vec<char>) -> (serial: Option<Vec<char>>)
    requires
        lower@ == ascii_lowercase(content@),
    ensures
        match serial {
            Some(v) => spec_serial_number(content@) == Some(v@),
            None => spec_serial_number(content@) is None,
        },
{
    proof {
        reveal_strlit("serno");
        reveal_strlit("serial");
    }
    match exec_find_marker(lower, "serno").0 {
        Some(p) => exec_value_after(content, Some(p), 5, CharClass::SerialChar),
        None => {
            let found = exec_find_marker(lower, "serial").0;
            exec_value_after(content, found, 6, CharClass::SerialChar)
        },
    }
}

fn exec_leading_column(content: &Vec<char>) -> (column: Option<Vec<char>>)
    ensures
        match column {
            Some(v) => spec_leading_column(content@) == Some(v@),
            None => spec_leading_column(content@) is None,
        },
{
    let i = exec_skip_class(content, 0, CharClass::ColumnSeparator);
    if i >= content.len() {
        None
    } else {
        let e = exec_find_class(content, i, CharClass::ColumnSeparator);
        Some(copy_range(content, i, e))
    }
}

fn exec_columns(data: &Vec<char>) -> (columns: Vec<String>)
    ensures
        texts(columns@) == columns_from(data@, 0),
{
    let mut columns: Vec<String> = Vec::new();
    let mut from: usize = 0;
    while from < data.len()
        invariant
            from <= data@.len(),
            columns_from(data@, 0) == texts(columns@) + columns_from(data@, from as int),
        ensures
            texts(columns@) == columns_from(data@, 0),
        decreases data@.len() - from,
    {
        let j = exec_skip_class(data, from, CharClass::ColumnSeparator);
        if j >= data.len() {
            assert(columns_from(data@, from as int) == Seq::<Seq<char>>::empty());
            assert(texts(columns@) + Seq::<Seq<char>>::empty() == texts(columns@));
            break;
        }
        proof {
            lemma_skip_class_bounds(data@, from as int, CharClass::ColumnSeparator);
            lemma_find_class_bounds(data@, j + 1, CharClass::ColumnSeparator);
        }
        let e = exec_find_class(data, j + 1, CharClass::ColumnSeparator);
        let column = copy_range(data, j, e);
        let ghost before = columns@;
        columns.push(string_from_chars(column.as_slice()));
        proof {
            assert(texts(columns@) == texts(before).push(data@.subrange(j as int, e as int)));
            assert(columns_from(data@, from as int) == seq![data@.subrange(j as int, e as int)] + columns_from(
                data@,
                e as int,
            ));
            assert(texts(before) + columns_from(data@, from as int) == texts(columns@) + columns_from(
                data@,
                e as int,
            ));
        }
        from = e;
    }
    proof {
        if from >= data@.len() {
            assert(columns_from(data@, from as int) == Seq::<Seq<char>>::empty());
            assert(texts(columns@) + Seq::<Seq<char>>::empty() == texts(columns@));
        }
    }
    columns
}

fn exec_data_row(content: &Vec<char>) -> (row: DataRow)
    ensures
        row@ == data_row(content@),
{
    let comment = exec_find_class(content, 0, CharClass::CommentStart);
    let before_comment = copy_range(content, 0, comment);
    assert(before_comment@ == content@.take(comment as int));
    let data = trim_chars(&before_comment);
    if data.len() == 0 {
        return DataRow::Empty;
    }
    let columns = exec_columns(&data);
    if 2 <= columns.len() && columns.len() <= 3 {
        DataRow::Columns(columns)
    } else {
        DataRow::Malformed
    }
}

fn exec_classify_line(piece: &Vec<char>, line: usize) -> (event: Option<CalibrationLine>)
    ensures
        match event {
            Some(e) => classify_line(piece@, line as nat) == Some(e@),
            None => classify_line(piece@, line as nat) is None,
        },
{
    let b = exec_skip_class(piece, 0, CharClass::ByteOrderMark);
    let without_bom = copy_range(piece, b, piece.len());
    assert(without_bom@ == piece@.skip(b as int));
    let trimmed = trim_chars(&without_bom);
    if trimmed.len() == 0 || trimmed[0] == '#' || trimmed[0] == ';' {
        return None;
    }
    let (content, quoted) = exec_strip_outer_quotes(&trimmed);
    let lower = lowercase_chars(&content);
    let has_sens_factor = exec_find_marker(&lower, "sens factor").0.is_some();
    let has_sensitivity = exec_find_marker(&lower, "sensitivity").0.is_some();
    if has_sens_factor || has_sensitivity {
        let sens_factor_token = copy_optional(exec_header_token(&content, &lower, "sens factor"));
        let sensitivity_token = copy_optional(exec_header_token(&content, &lower, "sensitivity"));
        let serial_number = copy_optional(exec_serial_number(&content, &lower));
        return Some(CalibrationLine::Sensitivity { line, sens_factor_token, sensitivity_token, serial_number });
    }
    let data = exec_data_row(&content);
    if quoted {
        let leading_column = copy_optional(exec_leading_column(&content));
        let serial_number = copy_optional(exec_serial_number(&content, &lower));
        return Some(CalibrationLine::Quoted { line, leading_column, serial_number, data });
    }
    match data {
        DataRow::Empty => None,
        _ => Some(CalibrationLine::Data { line, data }),
    }
}

/// The serial number on a header line: the letters, digits, `-` and `_`
/// after `serno` (or, failing that, `serial`), matched case-insensitively,
/// skipping spaces, tabs, `=` and `:`.
pub fn parse_serial_number(line: &str) -> (serial: Option<String>)
    ensures
        optional_text(serial) == spec_serial_number(line@),
{
    let chars = chars_of(line);
    let lower = lowercase_chars(&chars);
    copy_optional(exec_serial_number(&chars, &lower))
}

/// A line wrapped in double quotes yields its trimmed contents and `true`;
/// any other line is returned unchanged with `false`.
pub fn strip_outer_quotes(line: &str) -> (stripped: (String, bool))
    ensures
        stripped.0@ == spec_strip_outer_quotes(line@).0,
        stripped.1 == spec_strip_outer_quotes(line@).1,
{
    let chars = chars_of(line);
    let (content, quoted) = exec_strip_outer_quotes(&chars);
    (string_from_chars(content.as_slice()), quoted)
}

/// The first column of a line, separated by ASCII whitespace or commas.
pub fn leading_column(line: &str) -> (column: Option<String>)
    ensures
        optional_text(column) == spec_leading_column(line@),
{
    let chars = chars_of(line);
    copy_optional(exec_leading_column(&chars))
}

/// The error for a rejected calibration line.
pub fn calibration_parse_error(line: usize, message: String) -> (error: DspError)
    ensures
        error@ == (DspErrorView::CalibrationParse { line: line as nat, message: message@ }),
{
    DspError::CalibrationParse { line, message }
}

/// Classifies every line of a calibration file in order, numbering lines
/// from one. A file that holds nothing but byte-order marks, spaces,
/// tabs and line breaks is rejected as empty.
pub fn scan_calibration_text(text: &str) -> (r: Result<Vec<CalibrationLine>, DspError>)
    requires
        text@.len() < usize::MAX,
    ensures
        match r {
            Err(e) => all_in_class(text@, CharClass::EmptyFiller) && e@ == DspErrorView::EmptyInput(
                "microphone calibration text"@,
            ),
            Ok(lines) => !all_in_class(text@, CharClass::EmptyFiller) && lines_view(lines@) == scan_lines(text@, 0, 1),
        },
{
    let chars = chars_of(text);
    if exec_all_in_class(&chars, CharClass::EmptyFiller) {
        return Err(DspError::EmptyInput("microphone calibration text"));
    }
    let mut lines: Vec<CalibrationLine> = Vec::new();
    let mut from: usize = 0;
    let mut line: usize = 1;
    while from < chars.len()
        invariant
            chars@ == text@,
            chars@.len() < usize::MAX,
            from <= chars@.len() + 1,
            line <= from + 1,
            scan_lines(chars@, 0, 1) == lines_view(lines@) + scan_lines(chars@, from as int, line as nat),
        decreases chars@.len() + 1 - from,
    {
        let e = exec_find_class(&chars, from, CharClass::LineFeed);
        let raw_end = if e < chars.len() && e > from && chars[e - 1] == '\r' {
            e - 1
        } else {
            e
        };
        let piece = copy_range(&chars, from, raw_end);
        proof {
            let raw = chars@.subrange(from as int, e as int);
            if e < chars@.len() && raw.len() > 0 && raw[raw.len() - 1] == '\r' {
                assert(raw.drop_last() == chars@.subrange(from as int, raw_end as int));
            }
            assert(piece@ == line_at(chars@, from as int));
        }
        let event = exec_classify_line(&piece, line);
        let ghost before = lines@;
        match event {
            None => {},
            Some(found) => {
                let ghost found_view = found@;
                lines.push(found);
                proof {
                    assert(lines_view(lines@) == lines_view(before).push(found_view));
                    assert(lines_view(before) + (seq![found_view] + scan_lines(chars@, e + 1, (line + 1) as nat)) == lines_view(
                        lines@,
                    ) + scan_lines(chars@, e + 1, (line + 1) as nat));
                }
            },
        }
        from = e + 1;
        line = line + 1;
    }
    proof {
        assert(scan_lines(chars@, from as int, line as nat) == Seq::<CalibrationLineView>::empty());
        assert(lines_view(lines@) + Seq::<CalibrationLineView>::empty() == lines_view(lines@));
    }
    Ok(lines)
}

} // verus!

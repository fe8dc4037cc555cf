//! Character classes, lexicographic order and string building blocks with
//! exact specifications.

use vstd::prelude::*;

verus! {

// ---------------------------------------------------------------------------
// Reading and writing strings as character sequences
// ---------------------------------------------------------------------------

/// The characters of a string slice, in order.
pub fn chars_of(s: &str) -> (out: Vec<char>)
    ensures
        out@ == s@,
{
    let mut out: Vec<char> = Vec::new();
    for c in it: s.chars()
        invariant
            out@ == it.seq().take(it.index() as int),
    {
        out.push(c);
    }
    out
}

/// `String::push`: appends one character.
#[verifier::external_body]
pub(crate) fn push_char(s: &mut String, c: char)
    ensures
        final(s)@ == old(s)@.push(c),
{
    s.push(c);
}

/// Appends every character of `chars` to `s`.
pub fn push_chars(s: &mut String, chars: &[char])
    ensures
        final(s)@ == old(s)@ + chars@,
{
    let mut i: usize = 0;
    while i < chars.len()
        invariant
            i <= chars@.len(),
            s@ == old(s)@ + chars@.take(i as int),
        decreases chars@.len() - i,
    {
        push_char(s, chars[i]);
        i += 1;
        assert(chars@.take(i as int) == chars@.take((i - 1) as int).push(chars@[i - 1]));
    }
    assert(chars@.take(i as int) == chars@);
}

/// A `String` holding exactly `chars`.
pub fn string_from_chars(chars: &[char]) -> (s: String)
    ensures
        s@ == chars@,
{
    let mut s = String::new();
    push_chars(&mut s, chars);
    s
}

/// Appends a string slice.
pub fn push_str(s: &mut String, tail: &str)
    ensures
        final(s)@ == old(s)@ + tail@,
{
    let tail_chars = chars_of(tail);
    push_chars(s, tail_chars.as_slice());
}

// ---------------------------------------------------------------------------
// Decimal rendering of unsigned integers
// ---------------------------------------------------------------------------

pub open spec fn digit_char(d: nat) -> char {
    if d == 0 {
        '0'
    } else if d == 1 {
        '1'
    } else if d == 2 {
        '2'
    } else if d == 3 {
        '3'
    } else if d == 4 {
        '4'
    } else if d == 5 {
        '5'
    } else if d == 6 {
        '6'
    } else if d == 7 {
        '7'
    } else if d == 8 {
        '8'
    } else {
        '9'
    }
}

/// Base-ten digits of `n` without sign or leading zeros, as `{}` prints it.
pub open spec fn decimal(n: nat) -> Seq<char>
    decreases n,
{
    if n < 10 {
        seq![digit_char(n)]
    } else {
        decimal(n / 10).push(digit_char(n % 10))
    }
}

fn exec_digit_char(d: u128) -> (c: char)
    requires
        d < 10,
    ensures
        c == digit_char(d as nat),
{
    if d == 0 {
        '0'
    } else if d == 1 {
        '1'
    } else if d == 2 {
        '2'
    } else if d == 3 {
        '3'
    } else if d == 4 {
        '4'
    } else if d == 5 {
        '5'
    } else if d == 6 {
        '6'
    } else if d == 7 {
        '7'
    } else if d == 8 {
        '8'
    } else {
        '9'
    }
}

/// Appends the decimal rendering of `n`.
pub fn push_decimal(s: &mut String, n: u128)
    ensures
        final(s)@ == old(s)@ + decimal(n as nat),
    decreases n,
{
    if n >= 10 {
        push_decimal(s, n / 10);
    }
    push_char(s, exec_digit_char(n % 10));
}

// ---------------------------------------------------------------------------
// Character classes
// ---------------------------------------------------------------------------

/// Unicode `White_Space`, the set `char::is_whitespace` and `str::trim` use.
pub open spec fn is_unicode_whitespace(c: char) -> bool {
    let u = c as u32;
    (0x09 <= u <= 0x0d) || u == 0x20 || u == 0x85 || u == 0xa0 || u == 0x1680 || (0x2000 <= u
        <= 0x200a) || u == 0x2028 || u == 0x2029 || u == 0x202f || u == 0x205f || u == 0x3000
}

pub fn is_whitespace_char(c: char) -> (b: bool)
    ensures
        b == is_unicode_whitespace(c),
{
    let u = c as u32;
    (0x09 <= u && u <= 0x0d) || u == 0x20 || u == 0x85 || u == 0xa0 || u == 0x1680 || (0x2000 <= u
        && u <= 0x200a) || u == 0x2028 || u == 0x2029 || u == 0x202f || u == 0x205f || u == 0x3000
}

/// ASCII whitespace as `char::is_ascii_whitespace` defines it: space, tab,
/// line feed, form feed and carriage return (not vertical tab).
pub open spec fn is_ascii_whitespace(c: char) -> bool {
    c == ' ' || c == '\t' || c == '\n' || c == '\x0C' || c == '\r'
}

pub open spec fn is_ascii_digit(c: char) -> bool {
    '0' <= c <= '9'
}

pub open spec fn is_ascii_upper(c: char) -> bool {
    'A' <= c <= 'Z'
}

pub open spec fn is_ascii_alphanumeric(c: char) -> bool {
    is_ascii_digit(c) || is_ascii_upper(c) || ('a' <= c <= 'z')
}

/// `char::to_ascii_lowercase`.
pub open spec fn ascii_lower(c: char) -> char {
    if is_ascii_upper(c) {
        ((c as u32) + 32) as char
    } else {
        c
    }
}

/// `str::to_ascii_lowercase`, character by character.
pub open spec fn ascii_lowercase(s: Seq<char>) -> Seq<char> {
    s.map_values(|c: char| ascii_lower(c))
}

pub fn exec_ascii_lower(c: char) -> (l: char)
    ensures
        l == ascii_lower(c),
{
    if 'A' <= c && c <= 'Z' {
        let b = c as u8 + 32;
        proof {
            assert((c as u32) + 32 == b as u32);
        }
        b as char
    } else {
        c
    }
}

pub fn lowercase_chars(s: &Vec<char>) -> (out: Vec<char>)
    ensures
        out@ == ascii_lowercase(s@),
{
    let mut out: Vec<char> = Vec::new();
    let mut i: usize = 0;
    while i < s.len()
        invariant
            i <= s@.len(),
            out@ == ascii_lowercase(s@.take(i as int)),
        decreases s@.len() - i,
    {
        out.push(exec_ascii_lower(s[i]));
        i += 1;
        assert(ascii_lowercase(s@.take(i as int)) == ascii_lowercase(s@.take((i - 1) as int)).push(
            ascii_lower(s@[i - 1]),
        ));
    }
    assert(s@.take(i as int) == s@);
    out
}

// ---------------------------------------------------------------------------
// Whitespace trimming
// ---------------------------------------------------------------------------

/// Every character is whitespace, which is when `str::trim` leaves nothing.
pub open spec fn is_blank(s: Seq<char>) -> bool {
    forall|i: int| 0 <= i < s.len() ==> is_unicode_whitespace(#[trigger] s[i])
}

/// `s.trim().is_empty()`.
pub fn is_blank_str(s: &str) -> (b: bool)
    ensures
        b == is_blank(s@),
{
    let chars = chars_of(s);
    let mut i: usize = 0;
    while i < chars.len()
        invariant
            i <= chars@.len(),
            chars@ == s@,
            forall|j: int| 0 <= j < i ==> is_unicode_whitespace(#[trigger] chars@[j]),
        decreases chars@.len() - i,
    {
        if !is_whitespace_char(chars[i]) {
            return false;
        }
        i += 1;
    }
    true
}

/// Index of the first character that is not whitespace (the length when
/// there is none).
pub open spec fn first_non_blank(s: Seq<char>, from: int) -> int
    decreases s.len() - from,
{
    if from >= s.len() || !is_unicode_whitespace(s[from]) {
        from
    } else {
        first_non_blank(s, from + 1)
    }
}

/// One past the last character that is not whitespace, searching down from
/// `to` (zero when there is none).
pub open spec fn last_non_blank_end(s: Seq<char>, to: int) -> int
    decreases to,
{
    if to <= 0 || !is_unicode_whitespace(s[to - 1]) {
        to
    } else {
        last_non_blank_end(s, to - 1)
    }
}

/// `str::trim`: leading and trailing Unicode whitespace removed.
pub open spec fn trim(s: Seq<char>) -> Seq<char> {
    let start = first_non_blank(s, 0);
    let end = last_non_blank_end(s, s.len() as int);
    if start >= end {
        Seq::empty()
    } else {
        s.subrange(start, end)
    }
}

// ---------------------------------------------------------------------------
// Lexicographic order by code point, which is the order of `str` and
// `String` (their UTF-8 bytes compare in the same order).
// ---------------------------------------------------------------------------

pub open spec fn chars_less(a: Seq<char>, b: Seq<char>) -> bool
    decreases a.len(),
{
    if a.len() == 0 {
        b.len() > 0
    } else if b.len() == 0 {
        false
    } else if a[0] != b[0] {
        a[0] < b[0]
    } else {
        chars_less(a.drop_first(), b.drop_first())
    }
}

pub proof fn lemma_chars_less_irreflexive(a: Seq<char>)
    ensures
        !chars_less(a, a),
    decreases a.len(),
{
    if a.len() > 0 {
        lemma_chars_less_irreflexive(a.drop_first());
    }
}

pub proof fn lemma_chars_less_transitive(a: Seq<char>, b: Seq<char>, c: Seq<char>)
    requires
        chars_less(a, b),
        chars_less(b, c),
    ensures
        chars_less(a, c),
    decreases a.len(),
{
    if a.len() > 0 && b.len() > 0 && c.len() > 0 && a[0] == b[0] && b[0] == c[0] {
        lemma_chars_less_transitive(a.drop_first(), b.drop_first(), c.drop_first());
    }
}

pub proof fn lemma_chars_less_total(a: Seq<char>, b: Seq<char>)
    ensures
        a == b || chars_less(a, b) || chars_less(b, a),
    decreases a.len(),
{
    if a.len() > 0 && b.len() > 0 {
        if a[0] == b[0] {
            lemma_chars_less_total(a.drop_first(), b.drop_first());
            if a.drop_first() == b.drop_first() {
                assert(a == seq![a[0]] + a.drop_first());
                assert(b == seq![b[0]] + b.drop_first());
            }
        }
    } else if a.len() == 0 && b.len() == 0 {
        assert(a == b);
    }
}

pub proof fn lemma_chars_less_asymmetric(a: Seq<char>, b: Seq<char>)
    requires
        chars_less(a, b),
    ensures
        !chars_less(b, a),
{
    if chars_less(b, a) {
        lemma_chars_less_transitive(a, b, a);
        lemma_chars_less_irreflexive(a);
    }
}

/// Three-way comparison result of two character sequences.
pub enum Order3 {
    Less,
    Equal,
    Greater,
}

pub open spec fn order3_of(a: Seq<char>, b: Seq<char>) -> Order3 {
    if chars_less(a, b) {
        Order3::Less
    } else if a == b {
        Order3::Equal
    } else {
        Order3::Greater
    }
}

pub fn compare_chars(a: &Vec<char>, b: &Vec<char>) -> (o: Order3)
    ensures
        o == order3_of(a@, b@),
        o is Greater ==> chars_less(b@, a@),
        (o is Equal) == (a@ == b@),
{
    proof {
        lemma_chars_less_irreflexive(a@);
    }
    let mut i: usize = 0;
    while i < a.len() && i < b.len() && a[i] == b[i]
        invariant
            i <= a@.len(),
            i <= b@.len(),
            a@.take(i as int) == b@.take(i as int),
        decreases a@.len() - i,
    {
        i += 1;
        assert(a@.take(i as int) == a@.take((i - 1) as int).push(a@[i - 1]));
        assert(b@.take(i as int) == b@.take((i - 1) as int).push(b@[i - 1]));
    }
    proof {
        lemma_chars_less_after_prefix(a@, b@, i as int);
        lemma_chars_less_total(a@, b@);
        if chars_less(a@, b@) {
            lemma_chars_less_asymmetric(a@, b@);
        }
    }
    if i < a.len() && i < b.len() {
        if a[i] < b[i] {
            Order3::Less
        } else {
            Order3::Greater
        }
    } else if i == a.len() && i == b.len() {
        proof {
            assert(a@ == a@.take(i as int));
            assert(b@ == b@.take(i as int));
        }
        Order3::Equal
    } else if i == a.len() {
        Order3::Less
    } else {
        Order3::Greater
    }
}

/// Comparing after a common prefix of length `k` is comparing the rests.
proof fn lemma_chars_less_after_prefix(a: Seq<char>, b: Seq<char>, k: int)
    requires
        0 <= k <= a.len(),
        k <= b.len(),
        a.take(k) == b.take(k),
    ensures
        chars_less(a, b) == chars_less(a.skip(k), b.skip(k)),
        chars_less(b, a) == chars_less(b.skip(k), a.skip(k)),
    decreases k,
{
    if k > 0 {
        assert(a[0] == a.take(k)[0]);
        assert(b[0] == b.take(k)[0]);
        assert(a.drop_first().take(k - 1) == a.take(k).drop_first());
        assert(b.drop_first().take(k - 1) == b.take(k).drop_first());
        lemma_chars_less_after_prefix(a.drop_first(), b.drop_first(), k - 1);
        assert(a.drop_first().skip(k - 1) == a.skip(k));
        assert(b.drop_first().skip(k - 1) == b.skip(k));
    } else {
        assert(a.skip(0) == a);
        assert(b.skip(0) == b);
    }
}


// ---------------------------------------------------------------------------
// Scanning character sequences
// ---------------------------------------------------------------------------

/// Sets of characters the text formats of this project use.
#[derive(Clone, Copy, Debug, PartialEq, Eq)]
pub enum CharClass {
    /// The byte-order mark U+FEFF.
    ByteOrderMark,
    /// What may precede an empty calibration file's end: BOM, space, tab, CR, LF.
    EmptyFiller,
    /// Separators after a header key: space, tab, `=` and `:`.
    HeaderSeparator,
    /// Characters of a numeric header value: digits, `+`, `-`, `.`, `e`, `E`.
    NumberChar,
    /// Characters of a serial number: ASCII letters and digits, `-`, `_`.
    SerialChar,
    /// Column separators: ASCII whitespace and `,`.
    ColumnSeparator,
    /// Comment introducers: `#` and `;`.
    CommentStart,
    /// The line feed `\n`.
    LineFeed,
    /// ASCII digits.
    AsciiDigit,
}

pub open spec fn in_class(class: CharClass, c: char) -> bool {
    match class {
        CharClass::ByteOrderMark => c == '\u{feff}',
        CharClass::EmptyFiller => c == '\u{feff}' || c == ' ' || c == '\t' || c == '\r' || c == '\n',
        CharClass::HeaderSeparator => c == ' ' || c == '\t' || c == '=' || c == ':',
        CharClass::NumberChar => is_ascii_digit(c) || c == '+' || c == '-' || c == '.' || c == 'e' || c == 'E',
        CharClass::SerialChar => is_ascii_alphanumeric(c) || c == '-' || c == '_',
        CharClass::ColumnSeparator => is_ascii_whitespace(c) || c == ',',
        CharClass::CommentStart => c == '#' || c == ';',
        CharClass::LineFeed => c == '\n',
        CharClass::AsciiDigit => is_ascii_digit(c),
    }
}

pub fn is_in_class(class: CharClass, c: char) -> (b: bool)
    ensures
        b == in_class(class, c),
{
    match class {
        CharClass::ByteOrderMark => c == '\u{feff}',
        CharClass::EmptyFiller => c == '\u{feff}' || c == ' ' || c == '\t' || c == '\r' || c == '\n',
        CharClass::HeaderSeparator => c == ' ' || c == '\t' || c == '=' || c == ':',
        CharClass::NumberChar => ('0' <= c && c <= '9') || c == '+' || c == '-' || c == '.' || c == 'e' || c
            == 'E',
        CharClass::SerialChar => ('0' <= c && c <= '9') || ('A' <= c && c <= 'Z') || ('a' <= c && c <= 'z') || c
            == '-' || c == '_',
        CharClass::ColumnSeparator => c == ' ' || c == '\t' || c == '\n' || c == '\x0C' || c == '\r' || c == ',',
        CharClass::CommentStart => c == '#' || c == ';',
        CharClass::LineFeed => c == '\n',
        CharClass::AsciiDigit => '0' <= c && c <= '9',
    }
}

/// The first index at or after `from` whose character is outside `class`
/// (the length when every remaining character is inside).
pub open spec fn skip_class(s: Seq<char>, from: int, class: CharClass) -> int
    decreases s.len() - from,
{
    if from >= s.len() || !in_class(class, s[from]) {
        from
    } else {
        skip_class(s, from + 1, class)
    }
}

/// The first index at or after `from` whose character is inside `class`
/// (the length when there is none).
pub open spec fn find_class(s: Seq<char>, from: int, class: CharClass) -> int
    decreases s.len() - from,
{
    if from >= s.len() || in_class(class, s[from]) {
        from
    } else {
        find_class(s, from + 1, class)
    }
}

pub proof fn lemma_skip_class_bounds(s: Seq<char>, from: int, class: CharClass)
    requires
        0 <= from <= s.len(),
    ensures
        from <= skip_class(s, from, class) <= s.len(),
        forall|i: int| from <= i < skip_class(s, from, class) ==> in_class(class, #[trigger] s[i]),
        skip_class(s, from, class) < s.len() ==> !in_class(class, s[skip_class(s, from, class)]),
    decreases s.len() - from,
{
    if from < s.len() && in_class(class, s[from]) {
        lemma_skip_class_bounds(s, from + 1, class);
    }
}

pub proof fn lemma_find_class_bounds(s: Seq<char>, from: int, class: CharClass)
    requires
        0 <= from <= s.len(),
    ensures
        from <= find_class(s, from, class) <= s.len(),
        forall|i: int| from <= i < find_class(s, from, class) ==> !in_class(class, #[trigger] s[i]),
        find_class(s, from, class) < s.len() ==> in_class(class, s[find_class(s, from, class)]),
    decreases s.len() - from,
{
    if from < s.len() && !in_class(class, s[from]) {
        lemma_find_class_bounds(s, from + 1, class);
    }
}

pub fn exec_skip_class(s: &Vec<char>, from: usize, class: CharClass) -> (end: usize)
    requires
        from <= s@.len(),
    ensures
        end == skip_class(s@, from as int, class),
        from <= end <= s@.len(),
{
    let mut i = from;
    while i < s.len() && is_in_class(class, s[i])
        invariant
            from <= i <= s@.len(),
            skip_class(s@, from as int, class) == skip_class(s@, i as int, class),
        decreases s@.len() - i,
    {
        i += 1;
    }
    i
}

pub fn exec_find_class(s: &Vec<char>, from: usize, class: CharClass) -> (end: usize)
    requires
        from <= s@.len(),
    ensures
        end == find_class(s@, from as int, class),
        from <= end <= s@.len(),
{
    let mut i = from;
    while i < s.len() && !is_in_class(class, s[i])
        invariant
            from <= i <= s@.len(),
            find_class(s@, from as int, class) == find_class(s@, i as int, class),
        decreases s@.len() - i,
    {
        i += 1;
    }
    i
}

/// A copy of `s[start..end]`.
pub fn copy_range(s: &Vec<char>, start: usize, end: usize) -> (out: Vec<char>)
    requires
        start <= end <= s@.len(),
    ensures
        out@ == s@.subrange(start as int, end as int),
{
    let mut out: Vec<char> = Vec::new();
    let mut i = start;
    while i < end
        invariant
            start <= i <= end,
            end <= s@.len(),
            out@ == s@.subrange(start as int, i as int),
        decreases end - i,
    {
        out.push(s[i]);
        i += 1;
    }
    out
}

/// Every character of `s` belongs to `class`.
pub open spec fn all_in_class(s: Seq<char>, class: CharClass) -> bool {
    forall|i: int| 0 <= i < s.len() ==> in_class(class, #[trigger] s[i])
}

pub fn exec_all_in_class(s: &Vec<char>, class: CharClass) -> (b: bool)
    ensures
        b == all_in_class(s@, class),
{
    let end = exec_skip_class(s, 0, class);
    proof {
        lemma_skip_class_bounds(s@, 0, class);
    }
    end == s.len()
}

pub fn exec_first_non_blank(s: &Vec<char>) -> (start: usize)
    ensures
        start == first_non_blank(s@, 0),
        start <= s@.len(),
{
    let mut i: usize = 0;
    while i < s.len() && is_whitespace_char(s[i])
        invariant
            i <= s@.len(),
            first_non_blank(s@, 0) == first_non_blank(s@, i as int),
        decreases s@.len() - i,
    {
        i += 1;
    }
    i
}

pub fn exec_last_non_blank_end(s: &Vec<char>) -> (end: usize)
    ensures
        end == last_non_blank_end(s@, s@.len() as int),
        end <= s@.len(),
{
    let mut i: usize = s.len();
    while i > 0 && is_whitespace_char(s[i - 1])
        invariant
            i <= s@.len(),
            last_non_blank_end(s@, s@.len() as int) == last_non_blank_end(s@, i as int),
        decreases i,
    {
        i -= 1;
    }
    i
}

/// `str::trim` on a character vector.
pub fn trim_chars(s: &Vec<char>) -> (out: Vec<char>)
    ensures
        out@ == trim(s@),
{
    let start = exec_first_non_blank(s);
    let end = exec_last_non_blank_end(s);
    if start >= end {
        Vec::new()
    } else {
        copy_range(s, start, end)
    }
}

/// The first position at which `pattern` occurs in `s`, searching from `from`.
pub open spec fn find_from(s: Seq<char>, pattern: Seq<char>, from: int) -> Option<int>
    decreases s.len() + 1 - from,
{
    if from < 0 || from + pattern.len() > s.len() {
        None
    } else if s.subrange(from, from + pattern.len()) == pattern {
        Some(from)
    } else {
        find_from(s, pattern, from + 1)
    }
}

/// `str::find`: the first occurrence of `pattern` in `s`, in characters.
pub open spec fn find(s: Seq<char>, pattern: Seq<char>) -> Option<int> {
    find_from(s, pattern, 0)
}

pub proof fn lemma_find_from_bounds(s: Seq<char>, pattern: Seq<char>, from: int)
    requires
        0 <= from,
    ensures
        find_from(s, pattern, from) matches Some(p) ==> from <= p && p + pattern.len() <= s.len()
            && s.subrange(p, p + pattern.len()) == pattern,
    decreases s.len() + 1 - from,
{
    if from + pattern.len() <= s.len() && s.subrange(from, from + pattern.len()) != pattern {
        lemma_find_from_bounds(s, pattern, from + 1);
    }
}

fn matches_at(s: &Vec<char>, pattern: &Vec<char>, at: usize) -> (m: bool)
    requires
        at + pattern@.len() <= s@.len(),
    ensures
        m == (s@.subrange(at as int, at + pattern@.len()) == pattern@),
{
    let n = s.len();
    let mut k: usize = 0;
    while k < pattern.len()
        invariant
            k <= pattern@.len(),
            n == s@.len(),
            at + pattern@.len() <= s@.len(),
            s@.subrange(at as int, at + k) == pattern@.take(k as int),
        decreases pattern@.len() - k,
    {
        if s[at + k] != pattern[k] {
            proof {
                if s@.subrange(at as int, at + pattern@.len()) == pattern@ {
                    assert(s@.subrange(at as int, at + pattern@.len())[k as int] == s@[at + k]);
                }
            }
            return false;
        }
        k += 1;
        assert(s@.subrange(at as int, at + k) == s@.subrange(at as int, at + k - 1).push(s@[at + k - 1]));
        assert(pattern@.take(k as int) == pattern@.take(k - 1).push(pattern@[k - 1]));
    }
    assert(pattern@.take(k as int) == pattern@);
    true
}

pub fn exec_find(s: &Vec<char>, pattern: &Vec<char>) -> (found: Option<usize>)
    ensures
        match found {
            Some(p) => find(s@, pattern@) == Some(p as int),
            None => find(s@, pattern@) is None,
        },
{
    if pattern.len() > s.len() {
        return None;
    }
    let last = s.len() - pattern.len();
    let mut i: usize = 0;
    loop
        invariant
            i <= last,
            last + pattern@.len() == s@.len(),
            find(s@, pattern@) == find_from(s@, pattern@, i as int),
        decreases last - i,
    {
        if matches_at(s, pattern, i) {
            return Some(i);
        }
        if i == last {
            assert(find_from(s@, pattern@, i + 1) is None);
            return None;
        }
        i += 1;
    }
}

} // verus!

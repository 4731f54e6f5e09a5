//! The quantitative ordinance artifact (`quantitative_ordinances.csv`).
//!
//! A header-validated CSV of fifteen columns, one row per ordinance
//! feature.  Fields may be quoted, with `""` escaping a quote and commas
//! allowed inside quotes; each record is one physical line (a quoted line
//! break is not supported).  A row that fails to decode is skipped and
//! counted, not fatal to the whole file; numeric text the data model does
//! not compute with is kept verbatim.

use vstd::prelude::*;

use crate::error::{ArtifactKind, IngestError};
use crate::text::{
    all_digits, chars_vec, dec_val, digit_char, find_char, find_char_from, is_digit, parse_u64,
    string_from_chars,
};

verus! {

/// One quantitative ordinance feature row.
#[derive(Debug)]
pub struct OrdinanceRecord {
    pub county: String,
    pub state: String,
    pub subdivision: Option<String>,
    pub jurisdiction_type: Option<String>,
    pub fips: u32,
    pub feature: String,
    /// Numeric value, as its text in the file.
    pub value: Option<String>,
    pub units: Option<String>,
    /// Offset, as its text in the file.
    pub offset: Option<String>,
    /// Minimum distance, as its text in the file.
    pub min_dist: Option<String>,
    /// Maximum distance, as its text in the file.
    pub max_dist: Option<String>,
    pub summary: Option<String>,
    pub ord_year: Option<u32>,
    pub section: Option<String>,
    pub source: Option<String>,
}

/// The mathematical shape of an ordinance row.
pub ghost struct OrdinanceRecordView {
    pub county: Seq<char>,
    pub state: Seq<char>,
    pub subdivision: Option<Seq<char>>,
    pub jurisdiction_type: Option<Seq<char>>,
    pub fips: u32,
    pub feature: Seq<char>,
    pub value: Option<Seq<char>>,
    pub units: Option<Seq<char>>,
    pub offset: Option<Seq<char>>,
    pub min_dist: Option<Seq<char>>,
    pub max_dist: Option<Seq<char>>,
    pub summary: Option<Seq<char>>,
    pub ord_year: Option<u32>,
    pub section: Option<Seq<char>>,
    pub source: Option<Seq<char>>,
}

impl View for OrdinanceRecord {
    type V = OrdinanceRecordView;

    open spec fn view(&self) -> OrdinanceRecordView {
        OrdinanceRecordView {
            county: self.county@,
            state: self.state@,
            subdivision: view_opt(self.subdivision),
            jurisdiction_type: view_opt(self.jurisdiction_type),
            fips: self.fips,
            feature: self.feature@,
            value: view_opt(self.value),
            units: view_opt(self.units),
            offset: view_opt(self.offset),
            min_dist: view_opt(self.min_dist),
            max_dist: view_opt(self.max_dist),
            summary: view_opt(self.summary),
            ord_year: self.ord_year,
            section: view_opt(self.section),
            source: view_opt(self.source),
        }
    }
}

impl DeepView for OrdinanceRecord {
    type V = OrdinanceRecordView;

    open spec fn deep_view(&self) -> OrdinanceRecordView {
        self.view()
    }
}

/// The view of an optional string.
pub open spec fn view_opt(t: Option<String>) -> Option<Seq<char>> {
    match t {
        Some(s) => Some(s@),
        None => None,
    }
}

/// Index of the quote that closes a quoted field opened before `i`, with
/// `""` read as an escaped quote; `None` if the field never closes.
pub open spec fn close_quote(s: Seq<char>, i: int) -> Option<int>
    decreases s.len() - i,
{
    if i >= s.len() {
        None
    } else if s[i] == '"' {
        if i + 1 < s.len() && s[i + 1] == '"' {
            close_quote(s, i + 2)
        } else {
            Some(i)
        }
    } else {
        close_quote(s, i + 1)
    }
}

/// The text of the quoted span `s[a..b]`, with `""` collapsed to `"`.
pub open spec fn unescape_range(s: Seq<char>, a: int, b: int) -> Seq<char>
    decreases b - a,
{
    if a < 0 || a >= b || b > s.len() {
        Seq::empty()
    } else if s[a] == '"' {
        if a + 2 <= b {
            seq!['"'] + unescape_range(s, a + 2, b)
        } else {
            seq!['"']
        }
    } else {
        seq![s[a]] + unescape_range(s, a + 1, b)
    }
}

/// The fields of one CSV record, from position `i` on; `None` when a
/// quoted field is unterminated or not followed by a comma or the end.
pub open spec fn fields_from(s: Seq<char>, i: int) -> Option<Seq<Seq<char>>>
    decreases s.len() - i,
{
    if i < 0 {
        None
    } else if i >= s.len() {
        Some(seq![Seq::<char>::empty()])
    } else if s[i] == '"' {
        match close_quote(s, i + 1) {
            None => None,
            Some(q0) => {
                // A closing quote always lies at or after the search start;
                // the bound makes that plain for termination.
                let q = if q0 < i + 1 {
                    i + 1
                } else {
                    q0
                };
                let content = unescape_range(s, i + 1, q);
                if q + 1 >= s.len() {
                    Some(seq![content])
                } else if s[q + 1] == ',' {
                    match fields_from(s, q + 2) {
                        None => None,
                        Some(rest) => Some(seq![content] + rest),
                    }
                } else {
                    None
                }
            },
        }
    } else {
        let c0 = find_char(s, ',', i);
        let c = if c0 < i {
            i
        } else if c0 > s.len() {
            s.len() as int
        } else {
            c0
        };
        let content = s.subrange(i, c);
        if c >= s.len() {
            Some(seq![content])
        } else {
            match fields_from(s, c + 1) {
                None => None,
                Some(rest) => Some(seq![content] + rest),
            }
        }
    }
}

/// The views of a vector of split fields.
pub open spec fn views_of_fields(fs: Vec<Vec<char>>) -> Seq<Seq<char>> {
    Seq::new(fs@.len(), |i: int| fs@[i]@)
}

/// Index of the first non-digit at or after `from`, or the length of `s`.
pub open spec fn digits_end(s: Seq<char>, from: int) -> int
    decreases s.len() - from,
{
    if from >= s.len() {
        s.len() as int
    } else if !is_digit(s[from]) {
        from
    } else {
        digits_end(s, from + 1)
    }
}

/// A well-formed exponent part starting at `p`: `e` or `E`, an optional
/// sign, and digits to the end.
pub open spec fn exp_ok(t: Seq<char>, p: int) -> bool {
    p < t.len() && (t[p] == 'e' || t[p] == 'E') && {
        let p1: int = if p + 1 < t.len() && (t[p + 1] == '+' || t[p + 1] == '-') {
            p + 2
        } else {
            p + 1
        };
        p1 < t.len() && digits_end(t, p1) == t.len()
    }
}

/// Text that denotes a finite decimal number: an optional sign, digits
/// with an optional fraction (or a fraction alone), and an optional
/// exponent.
pub open spec fn is_float_text(t: Seq<char>) -> bool {
    t.len() > 0 && {
        let i1: int = if t[0] == '+' || t[0] == '-' {
            1
        } else {
            0
        };
        let d1 = digits_end(t, i1);
        if d1 > i1 {
            ||| d1 == t.len()
            ||| (d1 < t.len() && t[d1] == '.' && {
                let d2 = digits_end(t, d1 + 1);
                d2 == t.len() || exp_ok(t, d2)
            })
            ||| exp_ok(t, d1)
        } else {
            i1 < t.len() && t[i1] == '.' && {
                let d2 = digits_end(t, i1 + 1);
                d2 > i1 + 1 && (d2 == t.len() || exp_ok(t, d2))
            }
        }
    }
}

/// Digit text in range of `u32`.
pub open spec fn u32_digits(t: Seq<char>) -> bool {
    t.len() > 0 && all_digits(t) && dec_val(t) <= u32::MAX
}

/// An empty field reads as `None`.
pub open spec fn opt_text(t: Seq<char>) -> Option<Seq<char>> {
    if t.len() == 0 {
        None
    } else {
        Some(t)
    }
}

/// The record a list of fields denotes: exactly fifteen columns, `FIPS` a
/// `u32`, the numeric columns empty or number-shaped, the year empty or a
/// `u32`.
pub open spec fn row_of(fs: Seq<Seq<char>>) -> Option<OrdinanceRecordView> {
    if fs.len() == 15 && u32_digits(fs[4]) && (fs[6].len() == 0 || is_float_text(fs[6])) && (
    fs[8].len() == 0 || is_float_text(fs[8])) && (fs[9].len() == 0 || is_float_text(fs[9])) && (
    fs[10].len() == 0 || is_float_text(fs[10])) && (fs[12].len() == 0 || u32_digits(fs[12])) {
        Some(
            OrdinanceRecordView {
                county: fs[0],
                state: fs[1],
                subdivision: opt_text(fs[2]),
                jurisdiction_type: opt_text(fs[3]),
                fips: dec_val(fs[4]) as u32,
                feature: fs[5],
                value: opt_text(fs[6]),
                units: opt_text(fs[7]),
                offset: opt_text(fs[8]),
                min_dist: opt_text(fs[9]),
                max_dist: opt_text(fs[10]),
                summary: opt_text(fs[11]),
                ord_year: if fs[12].len() == 0 {
                    None
                } else {
                    Some(dec_val(fs[12]) as u32)
                },
                section: opt_text(fs[13]),
                source: opt_text(fs[14]),
            },
        )
    } else {
        None
    }
}

/// The expected header: the fifteen column names, in order.
pub open spec fn expected_header() -> Seq<Seq<char>> {
    seq![
        "county"@,
        "state"@,
        "subdivison"@,
        "jurisdiction_type"@,
        "FIPS"@,
        "feature"@,
        "value"@,
        "units"@,
        "offset"@,
        "min_dist"@,
        "max_dist"@,
        "summary"@,
        "ord_year"@,
        "section"@,
        "source"@,
    ]
}

/// End of the line that starts at `pos`: the next line break, or the end.
pub open spec fn line_end(s: Seq<char>, pos: int) -> int {
    let k0 = find_char(s, '\n', pos);
    if k0 < pos {
        pos
    } else {
        k0
    }
}

/// The line starting at `pos`, without its trailing carriage return.
pub open spec fn line_at(s: Seq<char>, pos: int) -> Seq<char> {
    let l = s.subrange(pos, line_end(s, pos));
    if l.len() > 0 && l.last() == '\r' {
        l.drop_last()
    } else {
        l
    }
}

/// The records and the skipped-row count of the lines from `pos` on.
pub open spec fn rows_from(s: Seq<char>, pos: int) -> (Seq<OrdinanceRecordView>, int)
    decreases s.len() - pos,
{
    if pos < 0 || pos >= s.len() {
        (Seq::empty(), 0)
    } else {
        let k = line_end(s, pos);
        let line = line_at(s, pos);
        let rest = if k >= s.len() {
            (Seq::<OrdinanceRecordView>::empty(), 0int)
        } else {
            rows_from(s, k + 1)
        };
        if line.len() == 0 {
            rest
        } else {
            match fields_from(line, 0) {
                Some(fs) => match row_of(fs) {
                    Some(rec) => (seq![rec] + rest.0, rest.1),
                    None => (rest.0, rest.1 + 1),
                },
                None => (rest.0, rest.1 + 1),
            }
        }
    }
}

/// Position right after the header line: empty lines are skipped, the
/// first non-empty line must be exactly the expected header.  `None` when
/// it is not; the position is the text's length when nothing follows.
pub open spec fn after_header(s: Seq<char>, pos: int) -> Option<int>
    decreases s.len() - pos,
{
    if pos < 0 || pos >= s.len() {
        Some(s.len() as int)
    } else {
        let k = line_end(s, pos);
        let line = line_at(s, pos);
        if line.len() == 0 {
            if k >= s.len() {
                Some(s.len() as int)
            } else {
                after_header(s, k + 1)
            }
        } else if fields_from(line, 0) == Some(expected_header()) {
            if k >= s.len() {
                Some(s.len() as int)
            } else {
                Some(k + 1)
            }
        } else {
            None
        }
    }
}

/// What a CSV text decodes to: its records and its skipped-row count, or
/// nothing when the header is missing or wrong.  An empty text is an
/// empty set.
pub open spec fn ordinance_set_of(s: Seq<char>) -> Option<(Seq<OrdinanceRecordView>, int)> {
    match after_header(s, 0) {
        None => None,
        Some(p) => Some(rows_from(s, p)),
    }
}

/// The decoded ordinance artifact.
#[derive(Debug)]
pub struct OrdinanceSet {
    /// The rows that decoded, in file order.
    pub records: Vec<OrdinanceRecord>,
    /// How many rows failed to decode and were skipped.
    pub skipped: usize,
}

/// Copy the characters `cs[a..b]`.
fn copy_range(cs: &Vec<char>, a: usize, b: usize) -> (r: Vec<char>)
    requires
        a <= b <= cs@.len(),
    ensures
        r@ == cs@.subrange(a as int, b as int),
{
    let mut r: Vec<char> = Vec::new();
    let mut j: usize = a;
    while j < b
        invariant
            a <= j <= b <= cs@.len(),
            r@ == cs@.subrange(a as int, j as int),
        decreases b - j,
    {
        r.push(cs[j]);
        j = j + 1;
        proof {
            assert(r@ =~= cs@.subrange(a as int, j as int));
        }
    }
    proof {
        assert(r@ =~= cs@.subrange(a as int, b as int));
    }
    r
}

/// Find the quote closing a quoted field opened before `i`.
#[verifier::loop_isolation(false)]
fn close_quote_from(cs: &Vec<char>, i: usize) -> (r: Option<usize>)
    ensures
        match r {
            Some(q) => close_quote(cs@, i as int) == Some(q as int) && i <= q < cs@.len(),
            None => close_quote(cs@, i as int) is None,
        },
{
    let n = cs.len();
    let mut j: usize = i;
    loop
        invariant
            i <= j,
            close_quote(cs@, i as int) == close_quote(cs@, j as int),
        decreases 2 + n - j,
    {
        if j >= n {
            return None;
        }
        if cs[j] == '"' {
            if j + 1 < n && cs[j + 1] == '"' {
                j = j + 2;
            } else {
                return Some(j);
            }
        } else {
            j = j + 1;
        }
    }
}

/// Collapse escaped quotes in the span `cs[a..b]`.
#[verifier::loop_isolation(false)]
fn unescape_span(cs: &Vec<char>, a: usize, b: usize) -> (r: Vec<char>)
    requires
        a <= b <= cs@.len(),
    ensures
        r@ == unescape_range(cs@, a as int, b as int),
{
    let mut r: Vec<char> = Vec::new();
    let mut j: usize = a;
    while j < b
        invariant
            a <= j,
            unescape_range(cs@, a as int, b as int) == r@ + unescape_range(cs@, j as int, b as int),
        decreases b - j,
    {
        let ghost r0 = r@;
        if cs[j] == '"' {
            r.push('"');
            if b - j >= 2 {
                proof {
                    assert(r@ =~= r0 + seq!['"']);
                    assert(r0 + (seq!['"'] + unescape_range(cs@, j + 2, b as int)) =~= r@
                        + unescape_range(cs@, j + 2, b as int));
                }
                j = j + 2;
            } else {
                proof {
                    assert(r@ =~= r0 + seq!['"']);
                    assert(r0 + seq!['"'] =~= r@ + unescape_range(cs@, b as int, b as int));
                }
                j = b;
            }
        } else {
            let c = cs[j];
            r.push(c);
            proof {
                assert(r@ =~= r0 + seq![c]);
                assert(r0 + (seq![c] + unescape_range(cs@, j + 1, b as int)) =~= r@
                    + unescape_range(cs@, j + 1, b as int));
            }
            j = j + 1;
        }
    }
    proof {
        assert(r@ + unescape_range(cs@, j as int, b as int) =~= r@);
    }
    r
}

/// Split one record line into its fields.
#[verifier::loop_isolation(false)]
fn split_fields(cs: &Vec<char>) -> (r: Option<Vec<Vec<char>>>)
    ensures
        match r {
            Some(fs) => fields_from(cs@, 0) == Some(views_of_fields(fs)),
            None => fields_from(cs@, 0) is None,
        },
{
    let n = cs.len();
    let mut fs: Vec<Vec<char>> = Vec::new();
    let mut i: usize = 0;
    loop
        invariant
            ({
                match fields_from(cs@, i as int) {
                    Some(rest) => fields_from(cs@, 0) == Some(views_of_fields(fs) + rest),
                    None => fields_from(cs@, 0) is None,
                }
            }),
        decreases n + 1 - i,
    {
        let ghost acc0 = views_of_fields(fs);
        if i >= n {
            fs.push(Vec::new());
            proof {
                assert(views_of_fields(fs) =~= acc0.push(Seq::<char>::empty()));
                assert(acc0 + seq![Seq::<char>::empty()] =~= views_of_fields(fs));
            }
            return Some(fs);
        }
        if cs[i] == '"' {
            match close_quote_from(cs, i + 1) {
                None => {
                    return None;
                },
                Some(q) => {
                    let content = unescape_span(cs, i + 1, q);
                    if q + 1 >= n {
                        let ghost cv = content@;
                        fs.push(content);
                        proof {
                            assert(views_of_fields(fs) =~= acc0.push(cv));
                            assert(acc0 + seq![cv] =~= views_of_fields(fs));
                        }
                        return Some(fs);
                    } else if cs[q + 1] == ',' {
                        let ghost cv = content@;
                        fs.push(content);
                        proof {
                            assert(views_of_fields(fs) =~= acc0.push(cv));
                            if fields_from(cs@, q + 2) is Some {
                                let rest = fields_from(cs@, q + 2)->0;
                                assert(acc0 + (seq![cv] + rest) =~= views_of_fields(fs) + rest);
                            }
                        }
                        i = q + 2;
                    } else {
                        return None;
                    }
                },
            }
        } else {
            let c = find_char_from(cs, ',', i);
            let content = copy_range(cs, i, c);
            let ghost cv = content@;
            fs.push(content);
            if c >= n {
                proof {
                    assert(views_of_fields(fs) =~= acc0.push(cv));
                    assert(acc0 + seq![cv] =~= views_of_fields(fs));
                }
                return Some(fs);
            }
            proof {
                assert(views_of_fields(fs) =~= acc0.push(cv));
                if fields_from(cs@, c + 1) is Some {
                    let rest = fields_from(cs@, c + 1)->0;
                    assert(acc0 + (seq![cv] + rest) =~= views_of_fields(fs) + rest);
                }
            }
            i = c + 1;
        }
    }
}

/// Index of the first non-digit at or after `from`.
fn digits_end_from(cs: &Vec<char>, from: usize) -> (r: usize)
    requires
        from <= cs@.len(),
    ensures
        r == digits_end(cs@, from as int),
        from <= r <= cs@.len(),
{
    let n = cs.len();
    let mut i: usize = from;
    while i < n
        invariant
            from <= i <= n,
            n == cs@.len(),
            digits_end(cs@, from as int) == digits_end(cs@, i as int),
        decreases n - i,
    {
        if !digit_char(cs[i]) {
            return i;
        }
        i = i + 1;
    }
    i
}

/// Whether `cs` is number-shaped text.
#[verifier::loop_isolation(false)]
fn float_text(cs: &Vec<char>) -> (r: bool)
    ensures
        r == is_float_text(cs@),
{
    let n = cs.len();
    if n == 0 {
        return false;
    }
    let i1: usize = if cs[0] == '+' || cs[0] == '-' {
        1
    } else {
        0
    };
    let d1 = digits_end_from(cs, i1);
    if d1 > i1 {
        if d1 == n {
            return true;
        }
        if cs[d1] == '.' {
            let d2 = digits_end_from(cs, d1 + 1);
            if d2 == n {
                return true;
            }
            return exp_at(cs, d2);
        }
        exp_at(cs, d1)
    } else {
        if i1 >= n || cs[i1] != '.' {
            return false;
        }
        let d2 = digits_end_from(cs, i1 + 1);
        if d2 <= i1 + 1 {
            return false;
        }
        if d2 == n {
            return true;
        }
        exp_at(cs, d2)
    }
}

/// Whether a well-formed exponent part starts at `p`.
fn exp_at(cs: &Vec<char>, p: usize) -> (r: bool)
    requires
        p <= cs@.len(),
    ensures
        r == exp_ok(cs@, p as int),
{
    let n = cs.len();
    if p >= n || (cs[p] != 'e' && cs[p] != 'E') {
        return false;
    }
    let p1: usize = if p + 1 < n && (cs[p + 1] == '+' || cs[p + 1] == '-') {
        p + 2
    } else {
        p + 1
    };
    p1 < n && digits_end_from(cs, p1) == n
}

/// An empty field as `None`, any other as its text.
fn opt_string(cs: &Vec<char>) -> (r: Option<String>)
    ensures
        view_opt(r) == opt_text(cs@),
{
    if cs.len() == 0 {
        None
    } else {
        Some(string_from_chars(cs))
    }
}

/// Parse a digit field in range of `u32`.
fn u32_field(cs: &Vec<char>) -> (r: Option<u32>)
    ensures
        match r {
            Some(v) => u32_digits(cs@) && v == dec_val(cs@) as u32,
            None => !u32_digits(cs@),
        },
{
    proof {
        assert(cs@.subrange(0, cs@.len() as int) =~= cs@);
    }
    match parse_u64(cs, 0, cs.len()) {
        Some(v) => if v <= 0xffff_ffff {
            Some(v as u32)
        } else {
            None
        },
        None => None,
    }
}

/// Decode one split record into a row.
fn build_row(fs: &Vec<Vec<char>>) -> (r: Option<OrdinanceRecord>)
    ensures
        match r {
            Some(rec) => row_of(views_of_fields(*fs)) == Some(rec@),
            None => row_of(views_of_fields(*fs)) is None,
        },
{
    if fs.len() != 15 {
        return None;
    }
    let fips = match u32_field(&fs[4]) {
        Some(v) => v,
        None => {
            return None;
        },
    };
    if fs[6].len() > 0 && !float_text(&fs[6]) {
        return None;
    }
    if fs[8].len() > 0 && !float_text(&fs[8]) {
        return None;
    }
    if fs[9].len() > 0 && !float_text(&fs[9]) {
        return None;
    }
    if fs[10].len() > 0 && !float_text(&fs[10]) {
        return None;
    }
    let ord_year = if fs[12].len() == 0 {
        None
    } else {
        match u32_field(&fs[12]) {
            Some(v) => Some(v),
            None => {
                return None;
            },
        }
    };
    Some(
        OrdinanceRecord {
            county: string_from_chars(&fs[0]),
            state: string_from_chars(&fs[1]),
            subdivision: opt_string(&fs[2]),
            jurisdiction_type: opt_string(&fs[3]),
            fips,
            feature: string_from_chars(&fs[5]),
            value: opt_string(&fs[6]),
            units: opt_string(&fs[7]),
            offset: opt_string(&fs[8]),
            min_dist: opt_string(&fs[9]),
            max_dist: opt_string(&fs[10]),
            summary: opt_string(&fs[11]),
            ord_year,
            section: opt_string(&fs[13]),
            source: opt_string(&fs[14]),
        },
    )
}

/// Whether the split header is exactly the expected one.
fn header_matches(fs: &Vec<Vec<char>>) -> (r: bool)
    ensures
        r == (views_of_fields(*fs) == expected_header()),
{
    if fs.len() != 15 {
        proof {
            assert(expected_header().len() == 15);
        }
        return false;
    }
    let names: [&str; 15] = [
        "county",
        "state",
        "subdivison",
        "jurisdiction_type",
        "FIPS",
        "feature",
        "value",
        "units",
        "offset",
        "min_dist",
        "max_dist",
        "summary",
        "ord_year",
        "section",
        "source",
    ];
    let mut i: usize = 0;
    while i < 15
        invariant
            i <= 15,
            fs@.len() == 15,
            names@.len() == 15,
            forall|j: int| 0 <= j < 15 ==> (#[trigger] names@[j])@ == expected_header()[j],
            forall|j: int| 0 <= j < i ==> (#[trigger] fs@[j])@ == expected_header()[j],
        decreases 15 - i,
    {
        let field = string_from_chars(&fs[i]);
        if !field.eq(&names[i].to_owned()) {
            proof {
                assert(views_of_fields(*fs)[i as int] != expected_header()[i as int]);
            }
            return false;
        }
        i = i + 1;
    }
    proof {
        assert(views_of_fields(*fs) =~= expected_header());
    }
    true
}

impl OrdinanceSet {
    /// Decode the ordinance CSV: validate the header, stream the rows,
    /// keep the rows that decode and count the ones that do not.
    #[verifier::loop_isolation(false)]
    pub fn parse(text: &str) -> (r: Result<OrdinanceSet, IngestError>)
        ensures
            match r {
                Ok(set) => ordinance_set_of(text@) == Some(
                    (set.records.deep_view(), set.skipped as int),
                ),
                Err(e) => ordinance_set_of(text@) is None && e == IngestError::MalformedArtifact(
                    ArtifactKind::Ordinances,
                ),
            },
    {
        let malformed = IngestError::MalformedArtifact(ArtifactKind::Ordinances);
        let cs = chars_vec(text);
        let n = cs.len();
        // Find and check the header line.
        let mut pos: usize = 0;
        let mut start: usize = n;
        let mut saw_header = false;
        while pos < n && !saw_header
            invariant
                pos <= n,
                n == cs@.len(),
                cs@ == text@,
                !saw_header ==> after_header(text@, 0) == after_header(text@, pos as int),
                saw_header ==> start <= n && after_header(text@, 0) == Some(start as int),
            decreases n - pos,
        {
            let k = find_char_from(&cs, '\n', pos);
            let line = text.substring_char(pos, k);
            let mut lcs = chars_vec(line);
            let ghost lv0 = lcs@;
            if lcs.len() > 0 && lcs[lcs.len() - 1] == '\r' {
                lcs.pop();
                proof {
                    assert(lcs@ =~= lv0.drop_last());
                }
            }
            proof {
                assert(lcs@ == line_at(text@, pos as int));
            }
            if lcs.len() == 0 {
                if k == n {
                    pos = n;
                    start = n;
                    saw_header = true;
                } else {
                    pos = k + 1;
                }
            } else {
                match split_fields(&lcs) {
                    Some(fsv) => {
                        if header_matches(&fsv) {
                            if k == n {
                                start = n;
                            } else {
                                start = k + 1;
                            }
                            saw_header = true;
                            pos = n;
                        } else {
                            return Err(malformed);
                        }
                    },
                    None => {
                        return Err(malformed);
                    },
                }
            }
        }
        if !saw_header {
            proof {
                assert(after_header(text@, 0) == Some(text@.len() as int));
            }
            start = n;
        }
        // Stream the record lines.
        let ghost total = rows_from(text@, start as int);
        let mut records: Vec<OrdinanceRecord> = Vec::new();
        let mut skipped: usize = 0;
        let mut rpos: usize = start;
        while rpos < n
            invariant
                rpos <= n,
                skipped <= rpos,
                records.deep_view() + rows_from(text@, rpos as int).0 == total.0,
                skipped + rows_from(text@, rpos as int).1 == total.1,
            decreases n - rpos,
        {
            let ghost acc0 = records.deep_view();
            let k = find_char_from(&cs, '\n', rpos);
            let line = text.substring_char(rpos, k);
            let mut lcs = chars_vec(line);
            let ghost lv0 = lcs@;
            if lcs.len() > 0 && lcs[lcs.len() - 1] == '\r' {
                lcs.pop();
                proof {
                    assert(lcs@ =~= lv0.drop_last());
                }
            }
            proof {
                assert(lcs@ == line_at(text@, rpos as int));
            }
            let ghost rest_next: (Seq<OrdinanceRecordView>, int) = if k >= n {
                (Seq::<OrdinanceRecordView>::empty(), 0int)
            } else {
                rows_from(text@, k + 1)
            };
            if lcs.len() > 0 {
                match split_fields(&lcs) {
                    Some(fsv) => {
                        match build_row(&fsv) {
                            Some(rec) => {
                                records.push(rec);
                                proof {
                                    assert(records.deep_view() =~= acc0.push(rec@));
                                    assert(acc0 + (seq![rec@] + rest_next.0) =~= acc0.push(rec@)
                                        + rest_next.0);
                                }
                            },
                            None => {
                                skipped = skipped + 1;
                            },
                        }
                    },
                    None => {
                        skipped = skipped + 1;
                    },
                }
            }
            proof {
                if k >= n {
                    assert(records.deep_view() + Seq::<OrdinanceRecordView>::empty()
                        =~= records.deep_view());
                }
            }
            if k == n {
                rpos = n;
            } else {
                rpos = k + 1;
            }
        }
        proof {
            assert(records.deep_view() + rows_from(text@, n as int).0 =~= records.deep_view());
        }
        Ok(OrdinanceSet { records, skipped })
    }
}

} // verus!

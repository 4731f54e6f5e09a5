//! The runtime log artifact (`logs/all.log`).
//!
//! Each physical line is an independent record of the fixed form
//! `[timestamp] LEVEL - subject: message`; the timestamp is local time
//! with millisecond precision.  Lines that do not match the form, or whose
//! level token is not recognised, are dropped: a best-effort log is
//! preferable to a failed run.  Of the parsed records only `INFO`,
//! `WARNING` and `ERROR` are retained, in their original order, to bound
//! volume.  Multi-line messages are not supported.

use vstd::prelude::*;

use crate::json::{json_parse, JsonValue};
use crate::text::{
    all_digits, chars_vec, dec_val, find_char, find_char_from, is_space, is_word_char,
    lemma_dec_val_bound, parse_u64, pow10, rtrim_end_of, trim, word_end, word_end_from, ws_end,
    ws_end_from,
};

verus! {

/// Severity levels emitted by the scraper's runtime.
#[derive(Clone, Copy, Debug, PartialEq, Eq, Structural)]
pub enum LogLevel {
    DebugToFile,
    Trace,
    Debug,
    Info,
    Warning,
    Error,
}

/// A local timestamp with millisecond precision.
#[derive(Clone, Copy, Debug, PartialEq, Eq, Structural)]
pub struct Timestamp {
    pub year: u16,
    pub month: u8,
    pub day: u8,
    pub hour: u8,
    pub minute: u8,
    pub second: u8,
    pub millisecond: u16,
}

/// One parsed log line.
#[derive(Debug)]
pub struct LogRecord {
    pub timestamp: Timestamp,
    pub level: LogLevel,
    pub subject: String,
    pub message: String,
}

/// The mathematical shape of a log record.
pub ghost struct LogRecordView {
    pub timestamp: Timestamp,
    pub level: LogLevel,
    pub subject: Seq<char>,
    pub message: Seq<char>,
}

impl View for LogRecord {
    type V = LogRecordView;

    open spec fn view(&self) -> LogRecordView {
        LogRecordView {
            timestamp: self.timestamp,
            level: self.level,
            subject: self.subject@,
            message: self.message@,
        }
    }
}

impl DeepView for LogRecord {
    type V = LogRecordView;

    open spec fn deep_view(&self) -> LogRecordView {
        self.view()
    }
}

/// The level a token denotes, if it is one of the recognised names.
pub open spec fn level_of_token(t: Seq<char>) -> Option<LogLevel> {
    if t == "DEBUG_TO_FILE"@ {
        Some(LogLevel::DebugToFile)
    } else if t == "TRACE"@ {
        Some(LogLevel::Trace)
    } else if t == "DEBUG"@ {
        Some(LogLevel::Debug)
    } else if t == "INFO"@ {
        Some(LogLevel::Info)
    } else if t == "WARNING"@ {
        Some(LogLevel::Warning)
    } else if t == "ERROR"@ {
        Some(LogLevel::Error)
    } else {
        None
    }
}

/// Only these severities are retained by the filter.
pub open spec fn retained_level(l: LogLevel) -> bool {
    l == LogLevel::Info || l == LogLevel::Warning || l == LogLevel::Error
}

pub open spec fn is_leap_year(y: int) -> bool {
    y % 4 == 0 && (y % 100 != 0 || y % 400 == 0)
}

pub open spec fn days_in_month(y: int, m: int) -> int {
    if m == 2 {
        if is_leap_year(y) {
            29
        } else {
            28
        }
    } else if m == 4 || m == 6 || m == 9 || m == 11 {
        30
    } else {
        31
    }
}

/// Parse a timestamp of the exact form `YYYY-MM-DD HH:MM:SS,mmm`, with a
/// valid calendar date and time of day.
pub open spec fn parse_timestamp(t: Seq<char>) -> Option<Timestamp> {
    if t.len() == 23 && t[4] == '-' && t[7] == '-' && t[10] == ' ' && t[13] == ':' && t[16] == ':'
        && t[19] == ',' && all_digits(t.subrange(0, 4)) && all_digits(t.subrange(5, 7))
        && all_digits(t.subrange(8, 10)) && all_digits(t.subrange(11, 13)) && all_digits(
        t.subrange(14, 16),
    ) && all_digits(t.subrange(17, 19)) && all_digits(t.subrange(20, 23)) {
        let y = dec_val(t.subrange(0, 4));
        let mo = dec_val(t.subrange(5, 7));
        let d = dec_val(t.subrange(8, 10));
        let h = dec_val(t.subrange(11, 13));
        let mi = dec_val(t.subrange(14, 16));
        let se = dec_val(t.subrange(17, 19));
        let ms = dec_val(t.subrange(20, 23));
        if 1 <= mo <= 12 && 1 <= d <= days_in_month(y, mo) && h <= 23 && mi <= 59 && se <= 59 {
            Some(
                Timestamp {
                    year: y as u16,
                    month: mo as u8,
                    day: d as u8,
                    hour: h as u8,
                    minute: mi as u8,
                    second: se as u8,
                    millisecond: ms as u16,
                },
            )
        } else {
            None
        }
    } else {
        None
    }
}

/// Parse one line of the form `[timestamp] LEVEL - subject: message`.
///
/// The subject runs to the first colon after the dash separator; the
/// message is everything after that colon and one run of whitespace.
pub open spec fn parse_line(s: Seq<char>) -> Option<LogRecordView> {
    if s.len() == 0 || s[0] != '[' {
        None
    } else {
        let rb = find_char(s, ']', 1);
        if rb >= s.len() || rb == 1 {
            None
        } else {
            match parse_timestamp(s.subrange(1, rb)) {
                None => None,
                Some(ts) => {
                    let p1 = rb + 1;
                    if p1 >= s.len() || !is_space(s[p1]) {
                        None
                    } else {
                        let lv_start = ws_end(s, p1);
                        if lv_start >= s.len() || !is_word_char(s[lv_start]) {
                            None
                        } else {
                            let lv_end = word_end(s, lv_start);
                            match level_of_token(s.subrange(lv_start, lv_end)) {
                                None => None,
                                Some(level) => parse_line_tail(s, ts, level, lv_end),
                            }
                        }
                    }
                },
            }
        }
    }
}

/// The dash separator, subject and message of a log line, from the end of
/// the level token on.
pub open spec fn parse_line_tail(s: Seq<char>, ts: Timestamp, level: LogLevel, lv_end: int) -> Option<
    LogRecordView,
> {
    if lv_end >= s.len() || !is_space(s[lv_end]) {
        None
    } else {
        let dash = ws_end(s, lv_end);
        if dash >= s.len() || s[dash] != '-' {
            None
        } else {
            let p2 = dash + 1;
            if p2 >= s.len() || !is_space(s[p2]) {
                None
            } else {
                let colon = find_char(s, ':', p2 + 1);
                if colon >= s.len() || colon < p2 + 2 {
                    None
                } else {
                    let subj_start = if ws_end(s, p2) < colon {
                        ws_end(s, p2)
                    } else {
                        colon - 1
                    };
                    let p3 = colon + 1;
                    if p3 >= s.len() || !is_space(s[p3]) || s.len() < p3 + 2 {
                        None
                    } else {
                        let msg_start = if ws_end(s, p3) < s.len() {
                            ws_end(s, p3)
                        } else {
                            s.len() - 1
                        };
                        Some(
                            LogRecordView {
                                timestamp: ts,
                                level: level,
                                subject: s.subrange(subj_start, colon),
                                message: s.subrange(msg_start, s.len() as int),
                            },
                        )
                    }
                }
            }
        }
    }
}

impl LogLevel {
    /// The level a token names, if any.
    pub fn from_token(t: &str) -> (r: Option<LogLevel>)
        ensures
            r == level_of_token(t@),
    {
        let owned = t.to_owned();
        if owned.eq(&String::from_str("DEBUG_TO_FILE")) {
            Some(LogLevel::DebugToFile)
        } else if owned.eq(&String::from_str("TRACE")) {
            Some(LogLevel::Trace)
        } else if owned.eq(&String::from_str("DEBUG")) {
            Some(LogLevel::Debug)
        } else if owned.eq(&String::from_str("INFO")) {
            Some(LogLevel::Info)
        } else if owned.eq(&String::from_str("WARNING")) {
            Some(LogLevel::Warning)
        } else if owned.eq(&String::from_str("ERROR")) {
            Some(LogLevel::Error)
        } else {
            None
        }
    }

    /// Decode a level from a JSON string token, exactly as the runtime's
    /// log format names them.
    pub fn from_json(s: &str) -> (r: Option<LogLevel>)
        ensures
            match json_parse(s@) {
                Some(doc) => match doc {
                    JsonValue::Str(t) => r == level_of_token(t@),
                    _ => r is None,
                },
                None => r is None,
            },
    {
        match JsonValue::parse(s) {
            Some(JsonValue::Str(t)) => LogLevel::from_token(t.as_str()),
            _ => None,
        }
    }
}

/// Parse the timestamp text at `cs[from..to]`.
fn parse_timestamp_at(cs: &Vec<char>, from: usize, to: usize) -> (r: Option<Timestamp>)
    requires
        from <= to <= cs@.len(),
    ensures
        r == parse_timestamp(cs@.subrange(from as int, to as int)),
{
    let ghost t = cs@.subrange(from as int, to as int);
    if to - from != 23 {
        proof {
            assert(t.len() != 23);
        }
        return None;
    }
    proof {
        assert(t[4] == cs@[from + 4]);
        assert(t[7] == cs@[from + 7]);
        assert(t[10] == cs@[from + 10]);
        assert(t[13] == cs@[from + 13]);
        assert(t[16] == cs@[from + 16]);
        assert(t[19] == cs@[from + 19]);
    }
    if !(cs[from + 4] == '-' && cs[from + 7] == '-' && cs[from + 10] == ' ' && cs[from + 13] == ':'
        && cs[from + 16] == ':' && cs[from + 19] == ',') {
        return None;
    }
    proof {
        assert(t.subrange(0, 4) =~= cs@.subrange(from as int, from + 4));
        assert(t.subrange(5, 7) =~= cs@.subrange(from + 5, from + 7));
        assert(t.subrange(8, 10) =~= cs@.subrange(from + 8, from + 10));
        assert(t.subrange(11, 13) =~= cs@.subrange(from + 11, from + 13));
        assert(t.subrange(14, 16) =~= cs@.subrange(from + 14, from + 16));
        assert(t.subrange(17, 19) =~= cs@.subrange(from + 17, from + 19));
        assert(t.subrange(20, 23) =~= cs@.subrange(from + 20, from + 23));
    }
    let y = match parse_field(cs, from, 0, 4) {
        Some(v) => v,
        None => {
            return None;
        },
    };
    let mo = match parse_field(cs, from, 5, 7) {
        Some(v) => v,
        None => {
            return None;
        },
    };
    let d = match parse_field(cs, from, 8, 10) {
        Some(v) => v,
        None => {
            return None;
        },
    };
    let h = match parse_field(cs, from, 11, 13) {
        Some(v) => v,
        None => {
            return None;
        },
    };
    let mi = match parse_field(cs, from, 14, 16) {
        Some(v) => v,
        None => {
            return None;
        },
    };
    let se = match parse_field(cs, from, 17, 19) {
        Some(v) => v,
        None => {
            return None;
        },
    };
    let ms = match parse_field(cs, from, 20, 23) {
        Some(v) => v,
        None => {
            return None;
        },
    };
    if !(1 <= mo && mo <= 12) {
        return None;
    }
    let dmax = days_in(y, mo);
    if !(1 <= d && d <= dmax && h <= 23 && mi <= 59 && se <= 59) {
        return None;
    }
    Some(
        Timestamp {
            year: y as u16,
            month: mo as u8,
            day: d as u8,
            hour: h as u8,
            minute: mi as u8,
            second: se as u8,
            millisecond: ms as u16,
        },
    )
}

/// Parse the digit field `cs[from + a .. from + b]` of a timestamp.
///
/// Returns its value exactly when the field is all digits; a timestamp
/// field has at most four digits, so its value always fits.
fn parse_field(cs: &Vec<char>, from: usize, a: usize, b: usize) -> (r: Option<u64>)
    requires
        a < b,
        b - a <= 4,
        from + b <= cs@.len(),
    ensures
        ({
            let digits = cs@.subrange(from + a, from + b);
            match r {
                Some(v) => all_digits(digits) && v == dec_val(digits) && v <= 9999,
                None => !all_digits(digits),
            }
        }),
{
    let ghost digits = cs@.subrange(from + a, from + b);
    let n = cs.len();
    let r = parse_u64(cs, from + a, from + b);
    proof {
        if all_digits(digits) {
            lemma_dec_val_bound(digits);
            assert(pow10(0) == 1);
            assert(pow10(1) == 10);
            assert(pow10(2) == 100);
            assert(pow10(3) == 1000);
            assert(pow10(4) == 10000);
            assert(pow10(digits.len()) <= 10000);
        }
    }
    r
}

/// Number of days in a month of the proleptic Gregorian calendar.
fn days_in(y: u64, m: u64) -> (r: u64)
    requires
        1 <= m <= 12,
    ensures
        r == days_in_month(y as int, m as int),
{
    if m == 2 {
        if y % 4 == 0 && (y % 100 != 0 || y % 400 == 0) {
            29
        } else {
            28
        }
    } else if m == 4 || m == 6 || m == 9 || m == 11 {
        30
    } else {
        31
    }
}

impl LogRecord {
    /// Parse one log line; `None` if it does not have the expected form.
    pub fn parse(line: &str) -> (r: Option<LogRecord>)
        ensures
            match r {
                Some(rec) => parse_line(line@) == Some(rec@),
                None => parse_line(line@) is None,
            },
    {
        let cs = chars_vec(line);
        let n = cs.len();
        if n == 0 || cs[0] != '[' {
            return None;
        }
        let rb = find_char_from(&cs, ']', 1);
        if rb >= n || rb == 1 {
            return None;
        }
        let ts = match parse_timestamp_at(&cs, 1, rb) {
            Some(ts) => ts,
            None => {
                return None;
            },
        };
        let p1 = rb + 1;
        if p1 >= n || !crate::text::space_char(cs[p1]) {
            return None;
        }
        let lv_start = ws_end_from(&cs, p1);
        if lv_start >= n || !crate::text::word_char(cs[lv_start]) {
            return None;
        }
        let lv_end = word_end_from(&cs, lv_start);
        let token = line.substring_char(lv_start, lv_end);
        let level = match LogLevel::from_token(token) {
            Some(level) => level,
            None => {
                return None;
            },
        };
        if lv_end >= n || !crate::text::space_char(cs[lv_end]) {
            return None;
        }
        let dash = ws_end_from(&cs, lv_end);
        if dash >= n || cs[dash] != '-' {
            return None;
        }
        let p2 = dash + 1;
        if p2 >= n || !crate::text::space_char(cs[p2]) {
            return None;
        }
        let colon = find_char_from(&cs, ':', p2 + 1);
        if colon >= n || colon < p2 + 2 {
            return None;
        }
        let subj_ws = ws_end_from(&cs, p2);
        let subj_start = if subj_ws < colon {
            subj_ws
        } else {
            colon - 1
        };
        let p3 = colon + 1;
        if p3 >= n || !crate::text::space_char(cs[p3]) || n - p3 < 2 {
            return None;
        }
        let msg_ws = ws_end_from(&cs, p3);
        let msg_start = if msg_ws < n {
            msg_ws
        } else {
            n - 1
        };
        let subject = line.substring_char(subj_start, colon).to_owned();
        let message = line.substring_char(msg_start, n).to_owned();
        Some(LogRecord { timestamp: ts, level, subject, message })
    }
}

/// What one line, running from `pos` to the line break at `k`,
/// contributes to the retained records.
pub open spec fn line_contrib(s: Seq<char>, pos: int, k: int) -> Seq<LogRecordView> {
    let t = trim(s.subrange(pos, k));
    if t.len() == 0 {
        Seq::<LogRecordView>::empty()
    } else {
        match parse_line(t) {
            Some(rec) => if retained_level(rec.level) {
                seq![rec]
            } else {
                Seq::<LogRecordView>::empty()
            },
            None => Seq::<LogRecordView>::empty(),
        }
    }
}

/// The retained records of the log text from position `pos` on.
pub open spec fn retained_from(s: Seq<char>, pos: int) -> Seq<LogRecordView>
    decreases s.len() - pos,
{
    if pos < 0 || pos >= s.len() {
        Seq::empty()
    } else {
        let k0 = find_char(s, '\n', pos);
        let k = if k0 < pos {
            pos
        } else {
            k0
        };
        let here = line_contrib(s, pos, k);
        if k >= s.len() {
            here
        } else {
            here + retained_from(s, k + 1)
        }
    }
}

/// All records retained from a log text: each non-empty trimmed line that
/// parses and whose level is `INFO`, `WARNING` or `ERROR`, in order.
pub open spec fn retained_records(s: Seq<char>) -> Seq<LogRecordView> {
    retained_from(s, 0)
}

/// The retained runtime log.
#[derive(Debug)]
pub struct RuntimeLogs {
    /// The retained records, in their original order.
    pub records: Vec<LogRecord>,
}

impl RuntimeLogs {
    /// Parse a runtime log text and retain only `INFO`, `WARNING` and
    /// `ERROR` records, in their original order.
    pub fn parse(text: &str) -> (r: RuntimeLogs)
        ensures
            r.records.deep_view() == retained_records(text@),
    {
        let cs = chars_vec(text);
        let n = cs.len();
        let mut records: Vec<LogRecord> = Vec::new();
        let mut pos: usize = 0;
        while pos < n
            invariant
                n == cs@.len(),
                cs@ == text@,
                pos <= n,
                records.deep_view() + retained_from(text@, pos as int) == retained_records(text@),
            decreases n - pos,
        {
            let ghost old_dv = records.deep_view();
            let k = find_char_from(&cs, '\n', pos);
            let line = text.substring_char(pos, k);
            let lcs = chars_vec(line);
            let a = ws_end_from(&lcs, 0);
            let b = rtrim_end_of(&lcs);
            let ghost t = trim(line@);
            let ghost here = line_contrib(text@, pos as int, k as int);
            if a < b {
                let tline = line.substring_char(a, b);
                proof {
                    assert(tline@ == t);
                }
                match LogRecord::parse(tline) {
                    Some(rec) => {
                        if rec.level == LogLevel::Info || rec.level == LogLevel::Warning
                            || rec.level == LogLevel::Error {
                            proof {
                                assert(here =~= seq![rec@]);
                            }
                            records.push(rec);
                        }
                    },
                    None => {},
                }
            } else {
                proof {
                    assert(t.len() == 0);
                }
            }
            proof {
                assert(records.deep_view() =~= old_dv + here);
                if k < n {
                    assert(old_dv + (here + retained_from(text@, k + 1)) =~= (old_dv + here)
                        + retained_from(text@, k + 1));
                } else {
                    assert(old_dv + here =~= (old_dv + here) + retained_from(text@, n as int));
                }
            }
            if k == n {
                pos = n;
            } else {
                pos = k + 1;
            }
        }
        RuntimeLogs { records }
    }
}

} // verus!

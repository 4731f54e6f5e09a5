//! Character-level utilities shared by the artifact decoders: whitespace
//! classification, trimming, line splitting and decimal number parsing.

use vstd::prelude::*;

verus! {

/// Whitespace, as recognised when trimming log lines.
pub open spec fn is_space(c: char) -> bool {
    c == ' ' || c == '\t' || c == '\r' || c == '\n' || c == '\u{b}' || c == '\u{c}'
}

/// ASCII decimal digit.
pub open spec fn is_digit(c: char) -> bool {
    48 <= (c as u32) && (c as u32) <= 57
}

/// Numeric value of an ASCII decimal digit.
pub open spec fn digit_val(c: char) -> int {
    (c as u32) - 48
}

/// Word character: a letter, a digit or an underscore.
pub open spec fn is_word_char(c: char) -> bool {
    ||| 97 <= (c as u32) && (c as u32) <= 122
    ||| 65 <= (c as u32) && (c as u32) <= 90
    ||| is_digit(c)
    ||| c == '_'
}

pub open spec fn all_digits(s: Seq<char>) -> bool {
    forall|i: int| 0 <= i < s.len() ==> is_digit(#[trigger] s[i])
}

/// Value of a string of decimal digits, most significant first.
pub open spec fn dec_val(s: Seq<char>) -> int
    decreases s.len(),
{
    if s.len() == 0 {
        0
    } else {
        dec_val(s.drop_last()) * 10 + digit_val(s.last())
    }
}

pub proof fn lemma_dec_val_nonneg(s: Seq<char>)
    requires
        all_digits(s),
    ensures
        dec_val(s) >= 0,
    decreases s.len(),
{
    if s.len() > 0 {
        assert(all_digits(s.drop_last()));
        lemma_dec_val_nonneg(s.drop_last());
        assert(is_digit(s.last()));
    }
}

/// A number text that denotes a `u64`: non-empty, all decimal digits, in
/// range.
pub open spec fn u64_num_text(t: Seq<char>) -> bool {
    t.len() > 0 && all_digits(t) && dec_val(t) <= u64::MAX
}

/// Ten to the `n`th power.
pub open spec fn pow10(n: nat) -> int
    decreases n,
{
    if n == 0 {
        1
    } else {
        10 * pow10((n - 1) as nat)
    }
}

/// A digit string of `n` digits denotes a value below `10^n`.
pub proof fn lemma_dec_val_bound(s: Seq<char>)
    requires
        all_digits(s),
    ensures
        0 <= dec_val(s) < pow10(s.len()),
    decreases s.len(),
{
    if s.len() > 0 {
        assert(all_digits(s.drop_last()));
        lemma_dec_val_bound(s.drop_last());
        assert(dec_val(s.drop_last()) * 10 + digit_val(s.last()) < pow10(s.len())) by (
        nonlinear_arith)
            requires
                0 <= dec_val(s.drop_last()) < pow10((s.len() - 1) as nat),
                0 <= digit_val(s.last()) <= 9,
                pow10(s.len()) == 10 * pow10((s.len() - 1) as nat),
        ;
    }
}

/// Index of the first occurrence of `c` at or after `from`, or the length
/// of `s` if there is none.
pub open spec fn find_char(s: Seq<char>, c: char, from: int) -> int
    decreases s.len() - from,
{
    if from >= s.len() {
        s.len() as int
    } else if s[from] == c {
        from
    } else {
        find_char(s, c, from + 1)
    }
}

pub proof fn lemma_find_char(s: Seq<char>, c: char, from: int)
    requires
        0 <= from <= s.len(),
    ensures
        from <= find_char(s, c, from) <= s.len(),
        find_char(s, c, from) < s.len() ==> s[find_char(s, c, from)] == c,
        forall|j: int| from <= j < find_char(s, c, from) ==> s[j] != c,
    decreases s.len() - from,
{
    if from < s.len() && s[from] != c {
        lemma_find_char(s, c, from + 1);
    }
}

/// Index of the first non-whitespace character at or after `from`, or the
/// length of `s`.
pub open spec fn ws_end(s: Seq<char>, from: int) -> int
    decreases s.len() - from,
{
    if from >= s.len() {
        s.len() as int
    } else if !is_space(s[from]) {
        from
    } else {
        ws_end(s, from + 1)
    }
}

pub proof fn lemma_ws_end(s: Seq<char>, from: int)
    requires
        0 <= from <= s.len(),
    ensures
        from <= ws_end(s, from) <= s.len(),
        ws_end(s, from) < s.len() ==> !is_space(s[ws_end(s, from)]),
        forall|j: int| from <= j < ws_end(s, from) ==> is_space(s[j]),
    decreases s.len() - from,
{
    if from < s.len() && is_space(s[from]) {
        lemma_ws_end(s, from + 1);
    }
}

/// Index of the first non-word character at or after `from`, or the length
/// of `s`.
pub open spec fn word_end(s: Seq<char>, from: int) -> int
    decreases s.len() - from,
{
    if from >= s.len() {
        s.len() as int
    } else if !is_word_char(s[from]) {
        from
    } else {
        word_end(s, from + 1)
    }
}

/// Length of `s` without trailing whitespace.
pub open spec fn rtrim_end(s: Seq<char>) -> int
    decreases s.len(),
{
    if s.len() == 0 {
        0
    } else if is_space(s.last()) {
        rtrim_end(s.drop_last())
    } else {
        s.len() as int
    }
}

/// `s` with leading and trailing whitespace removed.
pub open spec fn trim(s: Seq<char>) -> Seq<char> {
    if ws_end(s, 0) >= rtrim_end(s) {
        Seq::empty()
    } else {
        s.subrange(ws_end(s, 0), rtrim_end(s))
    }
}

pub exec fn find_char_from(cs: &Vec<char>, c: char, from: usize) -> (r: usize)
    requires
        from <= cs@.len(),
    ensures
        r == find_char(cs@, c, from as int),
        from <= r <= cs@.len(),
{
    proof {
        lemma_find_char(cs@, c, from as int);
    }
    let n = cs.len();
    let mut i: usize = from;
    while i < n
        invariant
            from <= i <= n,
            n == cs@.len(),
            find_char(cs@, c, from as int) == find_char(cs@, c, i as int),
        decreases n - i,
    {
        if cs[i] == c {
            return i;
        }
        i = i + 1;
    }
    i
}

pub exec fn ws_end_from(cs: &Vec<char>, from: usize) -> (r: usize)
    requires
        from <= cs@.len(),
    ensures
        r == ws_end(cs@, from as int),
        from <= r <= cs@.len(),
{
    proof {
        lemma_ws_end(cs@, from as int);
    }
    let n = cs.len();
    let mut i: usize = from;
    while i < n
        invariant
            from <= i <= n,
            n == cs@.len(),
            ws_end(cs@, from as int) == ws_end(cs@, i as int),
        decreases n - i,
    {
        if !space_char(cs[i]) {
            return i;
        }
        i = i + 1;
    }
    i
}

pub exec fn word_end_from(cs: &Vec<char>, from: usize) -> (r: usize)
    requires
        from <= cs@.len(),
    ensures
        r == word_end(cs@, from as int),
        from <= r <= cs@.len(),
{
    let n = cs.len();
    let mut i: usize = from;
    while i < n
        invariant
            from <= i <= n,
            n == cs@.len(),
            word_end(cs@, from as int) == word_end(cs@, i as int),
        decreases n - i,
    {
        if !word_char(cs[i]) {
            return i;
        }
        i = i + 1;
    }
    i
}

pub exec fn rtrim_end_of(cs: &Vec<char>) -> (r: usize)
    ensures
        r == rtrim_end(cs@),
        r <= cs@.len(),
{
    let mut i: usize = cs.len();
    proof {
        assert(cs@.subrange(0, cs@.len() as int) =~= cs@);
    }
    while i > 0
        invariant
            i <= cs@.len(),
            rtrim_end(cs@) == rtrim_end(cs@.subrange(0, i as int)),
        decreases i,
    {
        let ghost pre = cs@.subrange(0, i as int);
        if !space_char(cs[i - 1]) {
            proof {
                assert(pre.last() == cs@[i - 1]);
            }
            return i;
        }
        proof {
            assert(pre.last() == cs@[i - 1]);
            assert(pre.drop_last() =~= cs@.subrange(0, i - 1));
        }
        i = i - 1;
    }
    proof {
        assert(cs@.subrange(0, 0) =~= Seq::<char>::empty());
    }
    0
}

pub exec fn space_char(c: char) -> (b: bool)
    ensures
        b == is_space(c),
{
    c == ' ' || c == '\t' || c == '\r' || c == '\n' || c == '\u{b}' || c == '\u{c}'
}

pub exec fn digit_char(c: char) -> (b: bool)
    ensures
        b == is_digit(c),
{
    let u = c as u32;
    48 <= u && u <= 57
}

pub exec fn word_char(c: char) -> (b: bool)
    ensures
        b == is_word_char(c),
{
    let u = c as u32;
    (97 <= u && u <= 122) || (65 <= u && u <= 90) || (48 <= u && u <= 57) || c == '_'
}

/// The characters of `s`, in order, with random access.
pub exec fn chars_vec(s: &str) -> (r: Vec<char>)
    ensures
        r@ == s@,
{
    let n = s.unicode_len();
    let mut r: Vec<char> = Vec::new();
    let mut i: usize = 0;
    while i < n
        invariant
            n == s@.len(),
            i <= n,
            r@ == s@.subrange(0, i as int),
        decreases n - i,
    {
        r.push(s.get_char(i));
        i = i + 1;
        proof {
            assert(r@ =~= s@.subrange(0, i as int));
        }
    }
    proof {
        assert(r@ =~= s@);
    }
    r
}

/// Relies on `String`'s `FromIterator<char>` implementation: collecting
/// characters yields the string of exactly those characters, in order.
#[verifier::external_body]
pub exec fn string_from_chars(cs: &Vec<char>) -> (r: String)
    ensures
        r@ == cs@,
{
    cs.iter().collect()
}

/// The value of a digit string, if it is one and fits in `u64`.
///
/// Returns `Some` exactly when `s` is a non-empty string of ASCII decimal
/// digits whose value is at most `u64::MAX`.
pub exec fn parse_u64(s: &Vec<char>, from: usize, to: usize) -> (r: Option<u64>)
    requires
        from <= to <= s@.len(),
    ensures
        ({
            let digits = s@.subrange(from as int, to as int);
            match r {
                Option::Some(v) => from < to && all_digits(digits) && v == dec_val(digits)
                    && dec_val(digits) <= u64::MAX,
                Option::None => !(from < to && all_digits(digits) && dec_val(digits)
                    <= u64::MAX),
            }
        }),
{
    let ghost digits = s@.subrange(from as int, to as int);
    if from == to {
        return Option::None;
    }
    let mut acc: u64 = 0;
    let mut i: usize = from;
    while i < to
        invariant
            from <= i <= to <= s@.len(),
            digits == s@.subrange(from as int, to as int),
            all_digits(digits.subrange(0, i - from)),
            acc == dec_val(digits.subrange(0, i - from)),
        decreases to - i,
    {
        let c = s[i];
        if !digit_char(c) {
            proof {
                assert(digits[i - from] == c);
            }
            return Option::None;
        }
        let d: u64 = (c as u32 as u64) - 48;
        let ghost prefix = digits.subrange(0, i - from);
        let ghost next_prefix = digits.subrange(0, i + 1 - from);
        proof {
            assert(next_prefix.drop_last() =~= prefix);
            assert(next_prefix.last() == c);
            assert(all_digits(next_prefix));
        }
        if acc > (u64::MAX - d) / 10 {
            // The value no longer fits; nor can any longer digit string.
            proof {
                assert(acc * 10 + d > u64::MAX) by (nonlinear_arith)
                    requires
                        acc > (u64::MAX - d) / 10,
                        0 <= d <= 9,
                ;
                assert(dec_val(next_prefix) > u64::MAX);
                lemma_dec_val_overflow_sticks(digits, i + 1 - from);
            }
            return Option::None;
        }
        proof {
            assert(acc * 10 + d <= u64::MAX) by (nonlinear_arith)
                requires
                    acc <= (u64::MAX - d) / 10,
                    0 <= d <= 9,
            ;
        }
        acc = acc * 10 + d;
        i = i + 1;
    }
    proof {
        assert(digits.subrange(0, to - from) =~= digits);
    }
    Option::Some(acc)
}

/// Once a digit-string prefix exceeds `u64::MAX`, every longer prefix does.
proof fn lemma_dec_val_overflow_sticks(s: Seq<char>, k: int)
    requires
        0 < k <= s.len(),
        all_digits(s.subrange(0, k)),
        dec_val(s.subrange(0, k)) > u64::MAX,
    ensures
        all_digits(s) ==> dec_val(s) > u64::MAX,
    decreases s.len() - k,
{
    if all_digits(s) {
        if k == s.len() {
            assert(s.subrange(0, k) =~= s);
        } else {
            let next = s.subrange(0, k + 1);
            assert(next.drop_last() =~= s.subrange(0, k));
            assert(all_digits(next));
            lemma_dec_val_nonneg(next.drop_last());
            assert(dec_val(next) == dec_val(s.subrange(0, k)) * 10 + digit_val(next.last()));
            assert(dec_val(s.subrange(0, k)) * 10 >= dec_val(s.subrange(0, k))) by (nonlinear_arith)
                requires
                    dec_val(s.subrange(0, k)) >= 0,
            ;
            lemma_dec_val_overflow_sticks(s, k + 1);
        }
    }
}

} // verus!

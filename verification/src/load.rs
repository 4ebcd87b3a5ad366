//! Reading a persisted parameter document.
//!
//! The document is a key/value object in a small JSON-like syntax: an object
//! of `"name": value` members, where a value is a number, `true`/`false`,
//! `null`, a string, an array, or a nested object. Block comments `/* ... */`
//! and whitespace may stand between tokens. Members whose key is not a known
//! field are skipped; known fields overwrite the compiled-in default; a
//! member repeated later in the document wins. A syntactically malformed
//! document, or a known field with a value of the wrong type or out of the
//! field's machine range, is rejected whole.
//!
//! The grammar is defined once, as the spec functions below; the executable
//! reader returns exactly what they describe.

use vstd::prelude::*;
use crate::params::{Decimal, PidParams, ParamsV, Params, spec_default, spec_normalize};
use crate::text::{is_ws, is_digit, digits_val, digit_val, pow10, all_digits, lemma_pow10_add, lemma_digits_val_bound};

verus! {

/// Largest magnitude, in billionths, that a negative decimal may carry.
pub open spec fn neg_limit() -> nat {
    0x8000_0000_0000_0000
}

/// Value of a fraction digit run: the first nine digits, zero padded to
/// nine; digits beyond the ninth carry no weight.
pub open spec fn frac9_val(fs: Seq<char>) -> nat {
    if fs.len() >= 9 {
        digits_val(fs.take(9))
    } else {
        digits_val(fs) * pow10((9 - fs.len()) as nat)
    }
}

/// Index just past the run of whitespace and block comments at `i`.
/// An unterminated comment swallows the rest of the document.
pub open spec fn skip_trivia(s: Seq<char>, i: int) -> int
    decreases s.len() - i, 1int,
{
    if !(0 <= i < s.len()) {
        i
    } else if is_ws(s[i]) {
        skip_trivia(s, i + 1)
    } else if s[i] == '/' && i + 1 < s.len() && s[i + 1] == '*' {
        skip_comment(s, i + 2)
    } else {
        i
    }
}

/// Index just past the `*/` that closes a comment body starting at `i`.
pub open spec fn skip_comment(s: Seq<char>, i: int) -> int
    decreases s.len() - i, 0int,
{
    if !(0 <= i < s.len()) {
        s.len() as int
    } else if s[i] == '*' && i + 1 < s.len() && s[i + 1] == '/' {
        skip_trivia(s, i + 2)
    } else {
        skip_comment(s, i + 1)
    }
}

/// Index just past the run of digit characters at `i`.
pub open spec fn scan_digits(s: Seq<char>, i: int) -> int
    decreases s.len() - i,
{
    if 0 <= i < s.len() && is_digit(s[i]) {
        scan_digits(s, i + 1)
    } else {
        i
    }
}

/// Index of the quote closing a plain (escape-free) string body at `i`;
/// the document length when there is none or a backslash intervenes.
pub open spec fn scan_string(s: Seq<char>, i: int) -> int
    decreases s.len() - i,
{
    if !(0 <= i < s.len()) {
        s.len() as int
    } else if s[i] == '"' {
        i
    } else if s[i] == '\\' {
        s.len() as int
    } else {
        scan_string(s, i + 1)
    }
}

/// A number token: optional minus, an integer digit run, and an optional
/// fraction.  Yields the value in (possibly negative) billionths and the
/// index past the token; `None` when malformed or out of the range a
/// `Decimal` can hold.
pub open spec fn parse_dec(s: Seq<char>, i: int) -> Option<(int, int)> {
    let neg = 0 <= i < s.len() && s[i] == '-';
    let i1 = if neg { i + 1 } else { i };
    if !(0 <= i1 < s.len() && is_digit(s[i1])) {
        None
    } else {
        let j = scan_digits(s, i1);
        let ip = digits_val(s.subrange(i1, j));
        if j < s.len() && s[j] == '.' {
            if j + 1 < s.len() && is_digit(s[j + 1]) {
                let k = scan_digits(s, j + 1);
                let fr = frac9_val(s.subrange(j + 1, k));
                dec_of(neg, ip * 1_000_000_000 + fr, k)
            } else {
                None
            }
        } else {
            dec_of(neg, ip * 1_000_000_000, j)
        }
    }
}

/// Applies the sign and the `i64` range check to a decoded magnitude.
pub open spec fn dec_of(neg: bool, mag: nat, end: int) -> Option<(int, int)> {
    if neg {
        if mag <= neg_limit() {
            Some((-(mag as int), end))
        } else {
            None
        }
    } else {
        if mag <= i64::MAX as nat {
            Some((mag as int, end))
        } else {
            None
        }
    }
}

/// An unsigned integer token: a plain digit run, no sign, no fraction,
/// value at most `max`.
pub open spec fn parse_uint(s: Seq<char>, i: int, max: nat) -> Option<(nat, int)> {
    if !(0 <= i < s.len() && is_digit(s[i])) {
        None
    } else {
        let j = scan_digits(s, i);
        if j < s.len() && s[j] == '.' {
            None
        } else {
            let v = digits_val(s.subrange(i, j));
            if v <= max {
                Some((v, j))
            } else {
                None
            }
        }
    }
}

/// A `true` or `false` token.
pub open spec fn parse_bool(s: Seq<char>, i: int) -> Option<(bool, int)> {
    if 0 <= i && i + 4 <= s.len() && s.subrange(i, i + 4) == "true"@ {
        Some((true, i + 4))
    } else if 0 <= i && i + 5 <= s.len() && s.subrange(i, i + 5) == "false"@ {
        Some((false, i + 5))
    } else {
        None
    }
}

/// A controller object: `{ "kp": d, "ki": d, "kd": d }` with the three
/// gains in any order, unknown members skipped, all three required.
pub open spec fn parse_pid(s: Seq<char>, i: int) -> Option<(PidParams, int)> {
    if 0 <= i < s.len() && s[i] == '{' {
        let zero = PidParams {
            kp: Decimal { nanos: 0 },
            ki: Decimal { nanos: 0 },
            kd: Decimal { nanos: 0 },
        };
        parse_pid_members(s, skip_trivia(s, i + 1), zero, false, false, false, true)
    } else {
        None
    }
}

pub open spec fn parse_pid_members(
    s: Seq<char>,
    i: int,
    acc: PidParams,
    sk: bool,
    si: bool,
    sd: bool,
    first: bool,
) -> Option<(PidParams, int)>
    decreases s.len() - i, 1int,
{
    if !(0 <= i < s.len()) {
        None
    } else if first && s[i] == '}' {
        if sk && si && sd {
            Some((acc, i + 1))
        } else {
            None
        }
    } else if s[i] != '"' {
        None
    } else {
        let e = scan_string(s, i + 1);
        if !(e < s.len() && s[e] == '"') {
            None
        } else {
            let key = s.subrange(i + 1, e);
            let c = skip_trivia(s, e + 1);
            if !(c < s.len() && s[c] == ':') {
                None
            } else {
                let v = skip_trivia(s, c + 1);
                if key == "kp"@ {
                    match parse_dec(s, v) {
                        Some((n, j)) => parse_pid_tail(
                            s, i, j, PidParams { kp: Decimal { nanos: n as i64 }, ..acc },
                            true, si, sd,
                        ),
                        None => None,
                    }
                } else if key == "ki"@ {
                    match parse_dec(s, v) {
                        Some((n, j)) => parse_pid_tail(
                            s, i, j, PidParams { ki: Decimal { nanos: n as i64 }, ..acc },
                            sk, true, sd,
                        ),
                        None => None,
                    }
                } else if key == "kd"@ {
                    match parse_dec(s, v) {
                        Some((n, j)) => parse_pid_tail(
                            s, i, j, PidParams { kd: Decimal { nanos: n as i64 }, ..acc },
                            sk, si, true,
                        ),
                        None => None,
                    }
                } else {
                    match skip_value(s, v) {
                        Some(j) => parse_pid_tail(s, i, j, acc, sk, si, sd),
                        None => None,
                    }
                }
            }
        }
    }
}

/// After one controller member: a comma continues the object, a brace
/// closes it (all three gains must have been seen by then).
pub open spec fn parse_pid_tail(
    s: Seq<char>,
    start: int,
    j: int,
    acc: PidParams,
    sk: bool,
    si: bool,
    sd: bool,
) -> Option<(PidParams, int)>
    decreases s.len() - start, 0int,
{
    if !(start < j <= s.len()) {
        None
    } else {
        let t = skip_trivia(s, j);
        if !(t < s.len()) {
            None
        } else if s[t] == ',' {
            let n = skip_trivia(s, t + 1);
            if start < n <= s.len() {
                parse_pid_members(s, n, acc, sk, si, sd, false)
            } else {
                None
            }
        } else if s[t] == '}' {
            if sk && si && sd {
                Some((acc, t + 1))
            } else {
                None
            }
        } else {
            None
        }
    }
}

/// A histogram array: `[` unsigned integers separated by commas `]`.
pub open spec fn parse_hist(s: Seq<char>, i: int) -> Option<(Seq<u64>, int)> {
    if 0 <= i < s.len() && s[i] == '[' {
        parse_hist_items(s, skip_trivia(s, i + 1), Seq::empty(), true)
    } else {
        None
    }
}

pub open spec fn parse_hist_items(
    s: Seq<char>,
    i: int,
    acc: Seq<u64>,
    first: bool,
) -> Option<(Seq<u64>, int)>
    decreases s.len() - i, 1int,
{
    if !(0 <= i < s.len()) {
        None
    } else if first && s[i] == ']' {
        Some((acc, i + 1))
    } else {
        match parse_uint(s, i, u64::MAX as nat) {
            Some((v, j)) => parse_hist_tail(s, i, j, acc.push(v as u64)),
            None => None,
        }
    }
}

pub open spec fn parse_hist_tail(s: Seq<char>, start: int, j: int, acc: Seq<u64>) -> Option<
    (Seq<u64>, int),
>
    decreases s.len() - start, 0int,
{
    if !(start < j <= s.len()) {
        None
    } else {
        let t = skip_trivia(s, j);
        if !(t < s.len()) {
            None
        } else if s[t] == ',' {
            let n = skip_trivia(s, t + 1);
            if start < n <= s.len() {
                parse_hist_items(s, n, acc, false)
            } else {
                None
            }
        } else if s[t] == ']' {
            Some((acc, t + 1))
        } else {
            None
        }
    }
}

/// Skips one value of any shape (the value of an unknown member).
pub open spec fn skip_value(s: Seq<char>, i: int) -> Option<int>
    decreases s.len() - i, 0int,
{
    if !(0 <= i < s.len()) {
        None
    } else if s[i] == '"' {
        skip_string_body(s, i + 1)
    } else if s[i] == 't' {
        if i + 4 <= s.len() && s.subrange(i, i + 4) == "true"@ {
            Some(i + 4)
        } else {
            None
        }
    } else if s[i] == 'f' {
        if i + 5 <= s.len() && s.subrange(i, i + 5) == "false"@ {
            Some(i + 5)
        } else {
            None
        }
    } else if s[i] == 'n' {
        if i + 4 <= s.len() && s.subrange(i, i + 4) == "null"@ {
            Some(i + 4)
        } else {
            None
        }
    } else if s[i] == '-' || is_digit(s[i]) {
        let i1 = if s[i] == '-' { i + 1 } else { i };
        if !(i1 < s.len() && is_digit(s[i1])) {
            None
        } else {
            let j = scan_digits(s, i1);
            if j < s.len() && s[j] == '.' {
                if j + 1 < s.len() && is_digit(s[j + 1]) {
                    Some(scan_digits(s, j + 1))
                } else {
                    None
                }
            } else {
                Some(j)
            }
        }
    } else if s[i] == '[' {
        let n = skip_trivia(s, i + 1);
        if i < n <= s.len() {
            skip_array_items(s, n, true)
        } else {
            None
        }
    } else if s[i] == '{' {
        let n = skip_trivia(s, i + 1);
        if i < n <= s.len() {
            skip_object_members(s, n, true)
        } else {
            None
        }
    } else {
        None
    }
}

/// Skips a string body (after the opening quote), honouring backslash
/// escapes; yields the index past the closing quote.
pub open spec fn skip_string_body(s: Seq<char>, i: int) -> Option<int>
    decreases s.len() - i, 0int,
{
    if !(0 <= i < s.len()) {
        None
    } else if s[i] == '"' {
        Some(i + 1)
    } else if s[i] == '\\' {
        if i + 1 < s.len() {
            skip_string_body(s, i + 2)
        } else {
            None
        }
    } else {
        skip_string_body(s, i + 1)
    }
}

pub open spec fn skip_array_items(s: Seq<char>, i: int, first: bool) -> Option<int>
    decreases s.len() - i, 1int,
{
    if !(0 <= i < s.len()) {
        None
    } else if first && s[i] == ']' {
        Some(i + 1)
    } else {
        match skip_value(s, i) {
            Some(j) => {
                if i < j <= s.len() {
                    let t = skip_trivia(s, j);
                    if i < t < s.len() {
                        if s[t] == ',' {
                            let n = skip_trivia(s, t + 1);
                            if i < n <= s.len() {
                                skip_array_items(s, n, false)
                            } else {
                                None
                            }
                        } else if s[t] == ']' {
                            Some(t + 1)
                        } else {
                            None
                        }
                    } else {
                        None
                    }
                } else {
                    None
                }
            },
            None => None,
        }
    }
}

pub open spec fn skip_object_members(s: Seq<char>, i: int, first: bool) -> Option<int>
    decreases s.len() - i, 1int,
{
    if !(0 <= i < s.len()) {
        None
    } else if first && s[i] == '}' {
        Some(i + 1)
    } else if s[i] != '"' {
        None
    } else {
        match skip_string_body(s, i + 1) {
            Some(e) => {
                if i < e <= s.len() {
                    let c = skip_trivia(s, e);
                    if !(c < s.len() && s[c] == ':') {
                        None
                    } else {
                        let v = skip_trivia(s, c + 1);
                        if !(i < v <= s.len()) {
                            None
                        } else {
                        match skip_value(s, v) {
                            Some(j) => {
                                if i < j <= s.len() {
                                    let t = skip_trivia(s, j);
                                    if !(i < t < s.len()) {
                                        None
                                    } else if s[t] == ',' {
                                        let n = skip_trivia(s, t + 1);
                                        if i < n <= s.len() {
                                            skip_object_members(s, n, false)
                                        } else {
                                            None
                                        }
                                    } else if s[t] == '}' {
                                        Some(t + 1)
                                    } else {
                                        None
                                    }
                                } else {
                                    None
                                }
                            },
                            None => None,
                        }
                        }
                    }
                } else {
                    None
                }
            },
            None => None,
        }
    }
}

/// One member's value, keyed by the member's name: a known field parses at
/// its own type and overwrites the field; an unknown name skips its value
/// and leaves the snapshot as it was.
pub open spec fn parse_field_value(s: Seq<char>, i: int, key: Seq<char>, p: ParamsV) -> Option<
    (ParamsV, int),
> {
    if key == "control_period"@ {
        match parse_dec(s, i) {
            Some((n, j)) => Some((ParamsV { control_period: Decimal { nanos: n as i64 }, ..p }, j)),
            None => None,
        }
    } else if key == "concurrency_max"@ {
        match parse_uint(s, i, u32::MAX as nat) {
            Some((v, j)) => Some((ParamsV { concurrency_max: v as u32, ..p }, j)),
            None => None,
        }
    } else if key == "lat_target_pct"@ {
        match parse_dec(s, i) {
            Some((n, j)) => Some((ParamsV { lat_target_pct: Decimal { nanos: n as i64 }, ..p }, j)),
            None => None,
        }
    } else if key == "lat_target"@ {
        match parse_dec(s, i) {
            Some((n, j)) => Some((ParamsV { lat_target: Decimal { nanos: n as i64 }, ..p }, j)),
            None => None,
        }
    } else if key == "rps_target"@ {
        match parse_uint(s, i, u32::MAX as nat) {
            Some((v, j)) => Some((ParamsV { rps_target: v as u32, ..p }, j)),
            None => None,
        }
    } else if key == "rps_max"@ {
        match parse_uint(s, i, u32::MAX as nat) {
            Some((v, j)) => Some((ParamsV { rps_max: v as u32, ..p }, j)),
            None => None,
        }
    } else if key == "mem_frac"@ {
        match parse_dec(s, i) {
            Some((n, j)) => Some((ParamsV { mem_frac: Decimal { nanos: n as i64 }, ..p }, j)),
            None => None,
        }
    } else if key == "chunk_pages"@ {
        match parse_uint(s, i, usize::MAX as nat) {
            Some((v, j)) => Some((ParamsV { chunk_pages: v as usize, ..p }, j)),
            None => None,
        }
    } else if key == "file_frac"@ {
        match parse_dec(s, i) {
            Some((n, j)) => Some((ParamsV { file_frac: Decimal { nanos: n as i64 }, ..p }, j)),
            None => None,
        }
    } else if key == "file_size_mean"@ {
        match parse_uint(s, i, usize::MAX as nat) {
            Some((v, j)) => Some((ParamsV { file_size_mean: v as usize, ..p }, j)),
            None => None,
        }
    } else if key == "file_size_stdev_ratio"@ {
        match parse_dec(s, i) {
            Some((n, j)) => Some(
                (ParamsV { file_size_stdev_ratio: Decimal { nanos: n as i64 }, ..p }, j),
            ),
            None => None,
        }
    } else if key == "file_addr_stdev_ratio"@ {
        match parse_dec(s, i) {
            Some((n, j)) => Some(
                (ParamsV { file_addr_stdev_ratio: Decimal { nanos: n as i64 }, ..p }, j),
            ),
            None => None,
        }
    } else if key == "file_addr_rps_base_frac"@ {
        match parse_dec(s, i) {
            Some((n, j)) => Some(
                (ParamsV { file_addr_rps_base_frac: Decimal { nanos: n as i64 }, ..p }, j),
            ),
            None => None,
        }
    } else if key == "file_write_frac"@ {
        match parse_dec(s, i) {
            Some((n, j)) => Some((ParamsV { file_write_frac: Decimal { nanos: n as i64 }, ..p }, j)),
            None => None,
        }
    } else if key == "anon_size_ratio"@ {
        match parse_dec(s, i) {
            Some((n, j)) => Some((ParamsV { anon_size_ratio: Decimal { nanos: n as i64 }, ..p }, j)),
            None => None,
        }
    } else if key == "anon_size_stdev_ratio"@ {
        match parse_dec(s, i) {
            Some((n, j)) => Some(
                (ParamsV { anon_size_stdev_ratio: Decimal { nanos: n as i64 }, ..p }, j),
            ),
            None => None,
        }
    } else if key == "anon_addr_stdev_ratio"@ {
        match parse_dec(s, i) {
            Some((n, j)) => Some(
                (ParamsV { anon_addr_stdev_ratio: Decimal { nanos: n as i64 }, ..p }, j),
            ),
            None => None,
        }
    } else if key == "anon_addr_rps_base_frac"@ {
        match parse_dec(s, i) {
            Some((n, j)) => Some(
                (ParamsV { anon_addr_rps_base_frac: Decimal { nanos: n as i64 }, ..p }, j),
            ),
            None => None,
        }
    } else if key == "anon_write_frac"@ {
        match parse_dec(s, i) {
            Some((n, j)) => Some((ParamsV { anon_write_frac: Decimal { nanos: n as i64 }, ..p }, j)),
            None => None,
        }
    } else if key == "sleep_mean"@ {
        match parse_dec(s, i) {
            Some((n, j)) => Some((ParamsV { sleep_mean: Decimal { nanos: n as i64 }, ..p }, j)),
            None => None,
        }
    } else if key == "sleep_stdev_ratio"@ {
        match parse_dec(s, i) {
            Some((n, j)) => Some(
                (ParamsV { sleep_stdev_ratio: Decimal { nanos: n as i64 }, ..p }, j),
            ),
            None => None,
        }
    } else if key == "cpu_ratio"@ {
        match parse_dec(s, i) {
            Some((n, j)) => Some((ParamsV { cpu_ratio: Decimal { nanos: n as i64 }, ..p }, j)),
            None => None,
        }
    } else if key == "log_bps"@ {
        match parse_uint(s, i, u64::MAX as nat) {
            Some((v, j)) => Some((ParamsV { log_bps: v as u64, ..p }, j)),
            None => None,
        }
    } else if key == "fake_cpu_load"@ {
        match parse_bool(s, i) {
            Some((b, j)) => Some((ParamsV { fake_cpu_load: b, ..p }, j)),
            None => None,
        }
    } else if key == "acc_dist_slots"@ {
        match parse_uint(s, i, usize::MAX as nat) {
            Some((v, j)) => Some((ParamsV { acc_dist_slots: v as usize, ..p }, j)),
            None => None,
        }
    } else if key == "lat_pid"@ {
        match parse_pid(s, i) {
            Some((pid, j)) => Some((ParamsV { lat_pid: pid, ..p }, j)),
            None => None,
        }
    } else if key == "rps_pid"@ {
        match parse_pid(s, i) {
            Some((pid, j)) => Some((ParamsV { rps_pid: pid, ..p }, j)),
            None => None,
        }
    } else if key == "anon_histogram"@ {
        match parse_hist(s, i) {
            Some((h, j)) => Some((ParamsV { anon_histogram: h, ..p }, j)),
            None => None,
        }
    } else {
        match skip_value(s, i) {
            Some(j) => Some((p, j)),
            None => None,
        }
    }
}

/// The members of the top-level object, overlaid onto `p`.
pub open spec fn parse_members(s: Seq<char>, i: int, p: ParamsV, first: bool) -> Option<
    (ParamsV, int),
>
    decreases s.len() - i, 1int,
{
    if !(0 <= i < s.len()) {
        None
    } else if first && s[i] == '}' {
        Some((p, i + 1))
    } else if s[i] != '"' {
        None
    } else {
        let e = scan_string(s, i + 1);
        if !(e < s.len() && s[e] == '"') {
            None
        } else {
            let key = s.subrange(i + 1, e);
            let c = skip_trivia(s, e + 1);
            if !(c < s.len() && s[c] == ':') {
                None
            } else {
                let v = skip_trivia(s, c + 1);
                match parse_field_value(s, v, key, p) {
                    Some((p2, j)) => parse_members_tail(s, i, j, p2),
                    None => None,
                }
            }
        }
    }
}

pub open spec fn parse_members_tail(s: Seq<char>, start: int, j: int, p: ParamsV) -> Option<
    (ParamsV, int),
>
    decreases s.len() - start, 0int,
{
    if !(start < j <= s.len()) {
        None
    } else {
        let t = skip_trivia(s, j);
        if !(t < s.len()) {
            None
        } else if s[t] == ',' {
            let n = skip_trivia(s, t + 1);
            if start < n <= s.len() {
                parse_members(s, n, p, false)
            } else {
                None
            }
        } else if s[t] == '}' {
            Some((p, t + 1))
        } else {
            None
        }
    }
}

/// What loading a document yields: the defaults overlaid with every member
/// present, run through the one normalization step; `None` when the
/// document is rejected.
pub open spec fn spec_load(s: Seq<char>) -> Option<ParamsV> {
    let i = skip_trivia(s, 0);
    if 0 <= i < s.len() && s[i] == '{' {
        let b = skip_trivia(s, i + 1);
        if i < b <= s.len() {
            match parse_members(s, b, spec_default(), true) {
                Some((p, j)) => {
                    if 0 <= j <= s.len() && skip_trivia(s, j) == s.len() {
                        Some(spec_normalize(p))
                    } else {
                        None
                    }
                },
                None => None,
            }
        } else {
            None
        }
    } else {
        None
    }
}


pub proof fn lemma_scan_digits_bounds(s: Seq<char>, i: int)
    requires
        0 <= i <= s.len(),
    ensures
        i <= scan_digits(s, i) <= s.len(),
        all_digits(s.subrange(i, scan_digits(s, i))),
        scan_digits(s, i) == s.len() || !is_digit(s[scan_digits(s, i)]),
    decreases s.len() - i,
{
    let r = scan_digits(s, i);
    if i < s.len() && is_digit(s[i]) {
        lemma_scan_digits_bounds(s, i + 1);
        assert forall|k: int| 0 <= k < r - i implies is_digit(#[trigger] s.subrange(i, r)[k]) by {
            if k > 0 {
                assert(s.subrange(i + 1, r)[k - 1] == s.subrange(i, r)[k]);
            }
        }
    } else {
        assert(s.subrange(i, r) =~= Seq::empty());
    }
}

pub proof fn lemma_scan_string_bounds(s: Seq<char>, i: int)
    requires
        0 <= i <= s.len(),
    ensures
        i <= scan_string(s, i) <= s.len(),
    decreases s.len() - i,
{
    if i < s.len() && s[i] != '"' && s[i] != '\\' {
        lemma_scan_string_bounds(s, i + 1);
    }
}

/// Rejection report for a document `load` could not accept: the character
/// position at which reading stopped.
#[derive(Clone, Copy, Debug, PartialEq, Eq, Structural)]
pub struct ParseError {
    pub at: usize,
}

/// The characters of `s`, addressable by position.
fn to_chars(s: &str) -> (cs: Vec<char>)
    ensures
        cs@ == s@,
{
    let n = s.unicode_len();
    let mut cs: Vec<char> = Vec::new();
    let mut k: usize = 0;
    while k < n
        invariant
            n == s@.len(),
            0 <= k <= n,
            cs@ =~= s@.take(k as int),
        decreases n - k,
    {
        cs.push(s.get_char(k));
        proof {
            assert(cs@ =~= s@.take(k + 1));
        }
        k += 1;
    }
    proof {
        assert(cs@ =~= s@);
    }
    cs
}

fn x_skip_trivia(cs: &Vec<char>, i: usize) -> (r: usize)
    requires
        i <= cs@.len(),
    ensures
        r as int == skip_trivia(cs@, i as int),
        i <= r <= cs@.len(),
    decreases cs@.len() - i, 1int,
{
    if i >= cs.len() {
        i
    } else {
        let c = cs[i];
        if c == ' ' || c == '\n' || c == '\t' || c == '\r' {
            x_skip_trivia(cs, i + 1)
        } else if c == '/' && i + 1 < cs.len() && cs[i + 1] == '*' {
            x_skip_comment(cs, i + 2)
        } else {
            i
        }
    }
}

fn x_skip_comment(cs: &Vec<char>, i: usize) -> (r: usize)
    requires
        i <= cs@.len(),
    ensures
        r as int == skip_comment(cs@, i as int),
        i <= r <= cs@.len(),
    decreases cs@.len() - i, 0int,
{
    if i >= cs.len() {
        i
    } else if cs[i] == '*' && i + 1 < cs.len() && cs[i + 1] == '/' {
        x_skip_trivia(cs, i + 2)
    } else {
        x_skip_comment(cs, i + 1)
    }
}

fn x_scan_digits(cs: &Vec<char>, i: usize) -> (r: usize)
    requires
        i <= cs@.len(),
    ensures
        r as int == scan_digits(cs@, i as int),
        i <= r <= cs@.len(),
        all_digits(cs@.subrange(i as int, r as int)),
        r == cs@.len() || !is_digit(cs@[r as int]),
    decreases cs@.len() - i,
{
    proof {
        lemma_scan_digits_bounds(cs@, i as int);
    }
    if i < cs.len() {
        let u = cs[i] as u32;
        if 48 <= u && u <= 57 {
            return x_scan_digits(cs, i + 1);
        }
    }
    i
}

fn x_scan_string(cs: &Vec<char>, i: usize) -> (r: usize)
    requires
        i <= cs@.len(),
    ensures
        r as int == scan_string(cs@, i as int),
        i <= r <= cs@.len(),
    decreases cs@.len() - i,
{
    if i >= cs.len() {
        cs.len()
    } else if cs[i] == '"' {
        i
    } else if cs[i] == '\\' {
        cs.len()
    } else {
        x_scan_string(cs, i + 1)
    }
}

/// Value of the digit run `[i, j)` as a 128-bit integer; the flag reports a
/// value too large for any field, beyond `u64::MAX` billions of billionths.
fn x_digits_val(cs: &Vec<char>, i: usize, j: usize) -> (r: (u128, bool))
    requires
        i <= j <= cs@.len(),
        all_digits(cs@.subrange(i as int, j as int)),
    ensures
        !r.1 ==> r.0 as nat == digits_val(cs@.subrange(i as int, j as int)),
        !r.1 ==> r.0 <= 0xFFFF_FFFF_FFFF_FFFFu128 * 1_000_000_000 + 9,
        r.1 ==> digits_val(cs@.subrange(i as int, j as int)) > (u64::MAX as nat) * 1_000_000_000,
    decreases j - i,
{
    let ghost whole = cs@.subrange(i as int, j as int);
    if j == i {
        proof {
            assert(whole =~= Seq::empty());
        }
        (0, false)
    } else {
        proof {
            assert(whole.drop_last() =~= cs@.subrange(i as int, j - 1));
            assert(all_digits(cs@.subrange(i as int, j - 1)));
            assert(whole.last() == cs@[j - 1]);
            assert(is_digit(whole.last()));
        }
        let (acc, big) = x_digits_val(cs, i, j - 1);
        let u = cs[j - 1] as u32;
        let d = (u - 48) as u128;
        proof {
            assert(d as nat == digit_val(whole.last()));
        }
        if big {
            (0, true)
        } else if acc > 0xFFFF_FFFF_FFFF_FFFFu128 * 100_000_000 {
            proof {
                assert(digits_val(whole) == digits_val(whole.drop_last()) * 10 + digit_val(
                    whole.last(),
                ));
            }
            (0, true)
        } else {
            (acc * 10 + d, false)
        }
    }
}

fn x_pow10(k: usize) -> (r: u64)
    requires
        k <= 9,
    ensures
        r as nat == pow10(k as nat),
        r >= 1,
{
    proof {
        assert(pow10(0) == 1);
        assert(pow10(1) == 10);
        assert(pow10(2) == 100);
        assert(pow10(3) == 1000);
        assert(pow10(4) == 10000);
        assert(pow10(5) == 100000);
        assert(pow10(6) == 1000000);
        assert(pow10(7) == 10000000);
        assert(pow10(8) == 100000000);
        assert(pow10(9) == 1000000000);
    }
    if k == 0 { 1 }
    else if k == 1 { 10 }
    else if k == 2 { 100 }
    else if k == 3 { 1000 }
    else if k == 4 { 10000 }
    else if k == 5 { 100000 }
    else if k == 6 { 1000000 }
    else if k == 7 { 10000000 }
    else if k == 8 { 100000000 }
    else { 1000000000 }
}

/// Value in billionths of the fraction digit run `[i, j)`.
fn x_frac9(cs: &Vec<char>, i: usize, j: usize) -> (v: u64)
    requires
        i <= j <= cs@.len(),
        all_digits(cs@.subrange(i as int, j as int)),
    ensures
        v as nat == frac9_val(cs@.subrange(i as int, j as int)),
        v < 1_000_000_000,
    decreases j - i,
{
    let ghost whole = cs@.subrange(i as int, j as int);
    let cnt = j - i;
    if cnt >= 9 {
        proof {
            assert(cs@.subrange(i as int, i + 9) =~= whole.take(9));
            assert(all_digits(cs@.subrange(i as int, i + 9)));
            lemma_digits_val_bound(cs@.subrange(i as int, i + 9));
            assert(pow10(9) == 1_000_000_000) by {
                assert(pow10(0) == 1);
                assert(pow10(1) == 10);
                assert(pow10(2) == 100);
                assert(pow10(3) == 1000);
                assert(pow10(4) == 10000);
                assert(pow10(5) == 100000);
                assert(pow10(6) == 1000000);
                assert(pow10(7) == 10000000);
                assert(pow10(8) == 100000000);
            }
        }
        let (acc, big) = x_digits_val(cs, i, i + 9);
        proof {
            assert(!big);
        }
        acc as u64
    } else {
        proof {
            lemma_digits_val_bound(whole);
            assert(pow10(whole.len()) <= pow10(8)) by {
                if whole.len() < 8 {
                    lemma_pow10_add(whole.len(), (8 - whole.len()) as nat);
                    assert(pow10((8 - whole.len()) as nat) >= 1) by {
                        lemma_pow10_pos((8 - whole.len()) as nat);
                    }
                    assert(pow10(8) == pow10(whole.len()) * pow10((8 - whole.len()) as nat));
                    assert(pow10(whole.len()) * 1 <= pow10(whole.len()) * pow10(
                        (8 - whole.len()) as nat,
                    )) by (nonlinear_arith)
                        requires
                            pow10((8 - whole.len()) as nat) >= 1,
                            pow10(whole.len()) >= 0;
                }
            }
            assert(pow10(8) == 100000000) by {
                assert(pow10(0) == 1);
                assert(pow10(1) == 10);
                assert(pow10(2) == 100);
                assert(pow10(3) == 1000);
                assert(pow10(4) == 10000);
                assert(pow10(5) == 100000);
                assert(pow10(6) == 1000000);
                assert(pow10(7) == 10000000);
            }
        }
        let (acc, big) = x_digits_val(cs, i, j);
        proof {
            assert(!big);
        }
        let scale = x_pow10(9 - cnt);
        proof {
            lemma_pow10_add(cnt as nat, (9 - cnt) as nat);
            assert(((acc as nat) * (scale as nat)) < pow10(9)) by (nonlinear_arith)
                requires
                    (acc as nat) < pow10(cnt as nat),
                    (scale as nat) == pow10((9 - cnt) as nat),
                    scale >= 1,
                    pow10(9) == pow10(cnt as nat) * pow10((9 - cnt) as nat);
            assert(pow10(9) == 1000000000) by {
                assert(pow10(0) == 1);
                assert(pow10(1) == 10);
                assert(pow10(2) == 100);
                assert(pow10(3) == 1000);
                assert(pow10(4) == 10000);
                assert(pow10(5) == 100000);
                assert(pow10(6) == 1000000);
                assert(pow10(7) == 10000000);
                assert(pow10(8) == 100000000);
            }
        }
        (acc as u64) * scale
    }
}

pub proof fn lemma_pow10_pos(k: nat)
    ensures
        pow10(k) >= 1,
    decreases k,
{
    if k > 0 {
        lemma_pow10_pos((k - 1) as nat);
    }
}


/// True exactly when the characters `[a, b)` spell `lit`.
fn region_eq(cs: &Vec<char>, a: usize, b: usize, lit: &str) -> (r: bool)
    requires
        a <= b <= cs@.len(),
    ensures
        r == (cs@.subrange(a as int, b as int) == lit@),
{
    let n = lit.unicode_len();
    if b - a != n {
        proof {
            assert(cs@.subrange(a as int, b as int).len() != lit@.len());
        }
        return false;
    }
    let mut k: usize = 0;
    while k < n
        invariant
            a <= b <= cs@.len(),
            b - a == n,
            n == lit@.len(),
            0 <= k <= n,
            forall|m: int| 0 <= m < k ==> cs@[a + m] == lit@[m],
        decreases n - k,
    {
        if cs[a + k] != lit.get_char(k) {
            proof {
                assert(cs@.subrange(a as int, b as int)[k as int] != lit@[k as int]);
            }
            return false;
        }
        k += 1;
    }
    proof {
        assert(cs@.subrange(a as int, b as int) =~= lit@);
    }
    true
}

fn x_parse_dec(cs: &Vec<char>, i: usize) -> (r: Option<(i64, usize)>)
    requires
        i <= cs@.len(),
    ensures
        ({
            let sp = parse_dec(cs@, i as int);
            match r {
                Some(p) => sp == Some((p.0 as int, p.1 as int)) && i < p.1 <= cs@.len(),
                None => sp is None,
            }
        }),
{
    let neg = i < cs.len() && cs[i] == '-';
    let i1 = if neg { i + 1 } else { i };
    if !(i1 < cs.len()) {
        return None;
    }
    let u = cs[i1] as u32;
    if !(48 <= u && u <= 57) {
        return None;
    }
    let j = x_scan_digits(cs, i1);
    proof {
        assert(scan_digits(cs@, i1 as int) == scan_digits(cs@, i1 + 1));
        lemma_scan_digits_bounds(cs@, i1 + 1);
    }
    let (ip, big) = x_digits_val(cs, i1, j);
    let ghost ipv = digits_val(cs@.subrange(i1 as int, j as int));
    let fr: u64;
    let end: usize;
    if j < cs.len() && cs[j] == '.' {
        if !(j + 1 < cs.len()) {
            return None;
        }
        let u2 = cs[j + 1] as u32;
        if !(48 <= u2 && u2 <= 57) {
            return None;
        }
        let k = x_scan_digits(cs, j + 1);
        proof {
            assert(scan_digits(cs@, j + 1) == scan_digits(cs@, j + 2));
            lemma_scan_digits_bounds(cs@, j + 2);
        }
        fr = x_frac9(cs, j + 1, k);
        end = k;
    } else {
        fr = 0;
        end = j;
    }
    let ghost mag = ipv * 1_000_000_000 + fr as nat;
    if big {
        proof {
            assert(ipv * 1_000_000_000 > (u64::MAX as nat) * 1_000_000_000 * 1_000_000_000)
                by (nonlinear_arith)
                requires ipv > (u64::MAX as nat) * 1_000_000_000;
        }
        return None;
    }
    let mag128: u128 = ip * 1_000_000_000 + fr as u128;
    proof {
        assert(mag128 as nat == mag);
    }
    if neg {
        if mag128 > 0x8000_0000_0000_0000u128 {
            return None;
        }
        let v: i64 = if mag128 == 0x8000_0000_0000_0000u128 {
            i64::MIN
        } else {
            -(mag128 as i64)
        };
        Some((v, end))
    } else {
        if mag128 > 0x7FFF_FFFF_FFFF_FFFFu128 {
            return None;
        }
        Some((mag128 as i64, end))
    }
}

fn x_parse_uint(cs: &Vec<char>, i: usize, max: u64) -> (r: Option<(u64, usize)>)
    requires
        i <= cs@.len(),
    ensures
        ({
            let sp = parse_uint(cs@, i as int, max as nat);
            match r {
                Some(p) => sp == Some((p.0 as nat, p.1 as int)) && i < p.1 <= cs@.len() && p.0
                    <= max,
                None => sp is None,
            }
        }),
{
    if !(i < cs.len()) {
        return None;
    }
    let u = cs[i] as u32;
    if !(48 <= u && u <= 57) {
        return None;
    }
    let j = x_scan_digits(cs, i);
    proof {
        assert(scan_digits(cs@, i as int) == scan_digits(cs@, i + 1));
        lemma_scan_digits_bounds(cs@, i + 1);
    }
    if j < cs.len() && cs[j] == '.' {
        return None;
    }
    let (v, big) = x_digits_val(cs, i, j);
    if big {
        proof {
            assert((u64::MAX as nat) * 1_000_000_000 >= max as nat);
        }
        return None;
    }
    if v > max as u128 {
        return None;
    }
    Some((v as u64, j))
}

fn x_parse_bool(cs: &Vec<char>, i: usize) -> (r: Option<(bool, usize)>)
    requires
        i <= cs@.len(),
    ensures
        ({
            let sp = parse_bool(cs@, i as int);
            match r {
                Some(p) => sp == Some((p.0, p.1 as int)) && i < p.1 <= cs@.len(),
                None => sp is None,
            }
        }),
{
    if cs.len() >= 4 && i <= cs.len() - 4 && region_eq(cs, i, i + 4, "true") {
        Some((true, i + 4))
    } else if cs.len() >= 5 && i <= cs.len() - 5 && region_eq(cs, i, i + 5, "false") {
        Some((false, i + 5))
    } else {
        None
    }
}

fn x_parse_pid(cs: &Vec<char>, i: usize) -> (r: Option<(PidParams, usize)>)
    requires
        i <= cs@.len(),
    ensures
        ({
            let sp = parse_pid(cs@, i as int);
            match r {
                Some(p) => sp == Some((p.0, p.1 as int)) && i < p.1 <= cs@.len(),
                None => sp is None,
            }
        }),
{
    if i < cs.len() && cs[i] == '{' {
        let zero = PidParams {
            kp: Decimal { nanos: 0 },
            ki: Decimal { nanos: 0 },
            kd: Decimal { nanos: 0 },
        };
        let b = x_skip_trivia(cs, i + 1);
        x_parse_pid_members(cs, b, zero, false, false, false, true)
    } else {
        None
    }
}

fn x_parse_pid_members(
    cs: &Vec<char>,
    i: usize,
    acc: PidParams,
    sk: bool,
    si: bool,
    sd: bool,
    first: bool,
) -> (r: Option<(PidParams, usize)>)
    requires
        i <= cs@.len(),
    ensures
        ({
            let sp = parse_pid_members(cs@, i as int, acc, sk, si, sd, first);
            match r {
                Some(p) => sp == Some((p.0, p.1 as int)) && i < p.1 <= cs@.len(),
                None => sp is None,
            }
        }),
    decreases cs@.len() - i, 1int,
{
    if !(i < cs.len()) {
        return None;
    }
    if first && cs[i] == '}' {
        if sk && si && sd {
            return Some((acc, i + 1));
        } else {
            return None;
        }
    }
    if cs[i] != '"' {
        return None;
    }
    let e = x_scan_string(cs, i + 1);
    if !(e < cs.len() && cs[e] == '"') {
        return None;
    }
    let c = x_skip_trivia(cs, e + 1);
    if !(c < cs.len() && cs[c] == ':') {
        return None;
    }
    let v = x_skip_trivia(cs, c + 1);
    if region_eq(cs, i + 1, e, "kp") {
        match x_parse_dec(cs, v) {
            Some((n, j)) => x_parse_pid_tail(cs, i, j, PidParams { kp: Decimal { nanos: n }, ..acc }, true, si, sd),
            None => None,
        }
    } else if region_eq(cs, i + 1, e, "ki") {
        match x_parse_dec(cs, v) {
            Some((n, j)) => x_parse_pid_tail(cs, i, j, PidParams { ki: Decimal { nanos: n }, ..acc }, sk, true, sd),
            None => None,
        }
    } else if region_eq(cs, i + 1, e, "kd") {
        match x_parse_dec(cs, v) {
            Some((n, j)) => x_parse_pid_tail(cs, i, j, PidParams { kd: Decimal { nanos: n }, ..acc }, sk, si, true),
            None => None,
        }
    } else {
        match x_skip_value(cs, v) {
            Some(j) => x_parse_pid_tail(cs, i, j, acc, sk, si, sd),
            None => None,
        }
    }
}

fn x_parse_pid_tail(
    cs: &Vec<char>,
    start: usize,
    j: usize,
    acc: PidParams,
    sk: bool,
    si: bool,
    sd: bool,
) -> (r: Option<(PidParams, usize)>)
    requires
        start < j <= cs@.len(),
    ensures
        ({
            let sp = parse_pid_tail(cs@, start as int, j as int, acc, sk, si, sd);
            match r {
                Some(p) => sp == Some((p.0, p.1 as int)) && start < p.1 <= cs@.len(),
                None => sp is None,
            }
        }),
    decreases cs@.len() - start, 0int,
{
    let t = x_skip_trivia(cs, j);
    if !(t < cs.len()) {
        return None;
    }
    if cs[t] == ',' {
        let n = x_skip_trivia(cs, t + 1);
        x_parse_pid_members(cs, n, acc, sk, si, sd, false)
    } else if cs[t] == '}' {
        if sk && si && sd {
            Some((acc, t + 1))
        } else {
            None
        }
    } else {
        None
    }
}

fn x_parse_hist(cs: &Vec<char>, i: usize) -> (r: Option<(Vec<u64>, usize)>)
    requires
        i <= cs@.len(),
    ensures
        ({
            let sp = parse_hist(cs@, i as int);
            match r {
                Some(p) => sp == Some((p.0@, p.1 as int)) && i < p.1 <= cs@.len(),
                None => sp is None,
            }
        }),
{
    if i < cs.len() && cs[i] == '[' {
        let b = x_skip_trivia(cs, i + 1);
        let acc: Vec<u64> = Vec::new();
        proof {
            assert(acc@ =~= Seq::<u64>::empty());
        }
        x_parse_hist_items(cs, b, acc, true)
    } else {
        None
    }
}

fn x_parse_hist_items(cs: &Vec<char>, i: usize, acc: Vec<u64>, first: bool) -> (r: Option<
    (Vec<u64>, usize),
>)
    requires
        i <= cs@.len(),
    ensures
        ({
            let sp = parse_hist_items(cs@, i as int, acc@, first);
            match r {
                Some(p) => sp == Some((p.0@, p.1 as int)) && i < p.1 <= cs@.len(),
                None => sp is None,
            }
        }),
    decreases cs@.len() - i, 1int,
{
    if !(i < cs.len()) {
        return None;
    }
    if first && cs[i] == ']' {
        return Some((acc, i + 1));
    }
    match x_parse_uint(cs, i, u64::MAX) {
        Some((v, j)) => {
            let mut acc2 = acc;
            acc2.push(v);
            x_parse_hist_tail(cs, i, j, acc2)
        },
        None => None,
    }
}

fn x_parse_hist_tail(cs: &Vec<char>, start: usize, j: usize, acc: Vec<u64>) -> (r: Option<
    (Vec<u64>, usize),
>)
    requires
        start < j <= cs@.len(),
    ensures
        ({
            let sp = parse_hist_tail(cs@, start as int, j as int, acc@);
            match r {
                Some(p) => sp == Some((p.0@, p.1 as int)) && start < p.1 <= cs@.len(),
                None => sp is None,
            }
        }),
    decreases cs@.len() - start, 0int,
{
    let t = x_skip_trivia(cs, j);
    if !(t < cs.len()) {
        return None;
    }
    if cs[t] == ',' {
        let n = x_skip_trivia(cs, t + 1);
        x_parse_hist_items(cs, n, acc, false)
    } else if cs[t] == ']' {
        Some((acc, t + 1))
    } else {
        None
    }
}

fn x_skip_value(cs: &Vec<char>, i: usize) -> (r: Option<usize>)
    requires
        i <= cs@.len(),
    ensures
        ({
            let sp = skip_value(cs@, i as int);
            match r {
                Some(j) => sp == Some(j as int) && i < j <= cs@.len(),
                None => sp is None,
            }
        }),
    decreases cs@.len() - i, 0int,
{
    if !(i < cs.len()) {
        return None;
    }
    let ch = cs[i];
    if ch == '"' {
        x_skip_string_body(cs, i + 1)
    } else if ch == 't' {
        if cs.len() >= 4 && i <= cs.len() - 4 && region_eq(cs, i, i + 4, "true") {
            Some(i + 4)
        } else {
            None
        }
    } else if ch == 'f' {
        if cs.len() >= 5 && i <= cs.len() - 5 && region_eq(cs, i, i + 5, "false") {
            Some(i + 5)
        } else {
            None
        }
    } else if ch == 'n' {
        if cs.len() >= 4 && i <= cs.len() - 4 && region_eq(cs, i, i + 4, "null") {
            Some(i + 4)
        } else {
            None
        }
    } else if ch == '-' || (48 <= ch as u32 && ch as u32 <= 57) {
        let i1 = if ch == '-' { i + 1 } else { i };
        if !(i1 < cs.len()) {
            return None;
        }
        let u = cs[i1] as u32;
        if !(48 <= u && u <= 57) {
            return None;
        }
        let j = x_scan_digits(cs, i1);
        proof {
            assert(scan_digits(cs@, i1 as int) == scan_digits(cs@, i1 + 1));
            lemma_scan_digits_bounds(cs@, i1 + 1);
        }
        if j < cs.len() && cs[j] == '.' {
            if !(j + 1 < cs.len()) {
                return None;
            }
            let u2 = cs[j + 1] as u32;
            if !(48 <= u2 && u2 <= 57) {
                return None;
            }
            let k = x_scan_digits(cs, j + 1);
            proof {
                assert(scan_digits(cs@, j + 1) == scan_digits(cs@, j + 2));
                lemma_scan_digits_bounds(cs@, j + 2);
            }
            Some(k)
        } else {
            Some(j)
        }
    } else if ch == '[' {
        let n = x_skip_trivia(cs, i + 1);
        x_skip_array_items(cs, n, true)
    } else if ch == '{' {
        let n = x_skip_trivia(cs, i + 1);
        x_skip_object_members(cs, n, true)
    } else {
        None
    }
}

fn x_skip_string_body(cs: &Vec<char>, i: usize) -> (r: Option<usize>)
    requires
        i <= cs@.len(),
    ensures
        ({
            let sp = skip_string_body(cs@, i as int);
            match r {
                Some(j) => sp == Some(j as int) && i < j <= cs@.len(),
                None => sp is None,
            }
        }),
    decreases cs@.len() - i, 0int,
{
    if !(i < cs.len()) {
        return None;
    }
    if cs[i] == '"' {
        Some(i + 1)
    } else if cs[i] == '\\' {
        if i + 1 < cs.len() {
            x_skip_string_body(cs, i + 2)
        } else {
            None
        }
    } else {
        x_skip_string_body(cs, i + 1)
    }
}

fn x_skip_array_items(cs: &Vec<char>, i: usize, first: bool) -> (r: Option<usize>)
    requires
        i <= cs@.len(),
    ensures
        ({
            let sp = skip_array_items(cs@, i as int, first);
            match r {
                Some(j) => sp == Some(j as int) && i < j <= cs@.len(),
                None => sp is None,
            }
        }),
    decreases cs@.len() - i, 1int,
{
    if !(i < cs.len()) {
        return None;
    }
    if first && cs[i] == ']' {
        return Some(i + 1);
    }
    match x_skip_value(cs, i) {
        Some(j) => {
            let t = x_skip_trivia(cs, j);
            if !(t < cs.len()) {
                return None;
            }
            if cs[t] == ',' {
                let n = x_skip_trivia(cs, t + 1);
                x_skip_array_items(cs, n, false)
            } else if cs[t] == ']' {
                Some(t + 1)
            } else {
                None
            }
        },
        None => None,
    }
}

fn x_skip_object_members(cs: &Vec<char>, i: usize, first: bool) -> (r: Option<usize>)
    requires
        i <= cs@.len(),
    ensures
        ({
            let sp = skip_object_members(cs@, i as int, first);
            match r {
                Some(j) => sp == Some(j as int) && i < j <= cs@.len(),
                None => sp is None,
            }
        }),
    decreases cs@.len() - i, 1int,
{
    if !(i < cs.len()) {
        return None;
    }
    if first && cs[i] == '}' {
        return Some(i + 1);
    }
    if cs[i] != '"' {
        return None;
    }
    match x_skip_string_body(cs, i + 1) {
        Some(e) => {
            let c = x_skip_trivia(cs, e);
            if !(c < cs.len() && cs[c] == ':') {
                return None;
            }
            let v = x_skip_trivia(cs, c + 1);
            match x_skip_value(cs, v) {
                Some(j) => {
                    let t = x_skip_trivia(cs, j);
                    if !(t < cs.len()) {
                        return None;
                    }
                    if cs[t] == ',' {
                        let n = x_skip_trivia(cs, t + 1);
                        x_skip_object_members(cs, n, false)
                    } else if cs[t] == '}' {
                        Some(t + 1)
                    } else {
                        None
                    }
                },
                None => None,
            }
        },
        None => None,
    }
}

fn x_parse_field_value(cs: &Vec<char>, i: usize, ks: usize, ke: usize, p: Params) -> (r: Option<
    (Params, usize),
>)
    requires
        ks <= ke <= cs@.len(),
        i <= cs@.len(),
    ensures
        ({
            let sp = parse_field_value(cs@, i as int, cs@.subrange(ks as int, ke as int), p@);
            match r {
                Some(q) => sp == Some((q.0@, q.1 as int)) && i < q.1 <= cs@.len(),
                None => sp is None,
            }
        }),
{
    if region_eq(cs, ks, ke, "control_period") {
        match x_parse_dec(cs, i) {
            Some((n, j)) => {
                let mut q = p;
                q.control_period = Decimal { nanos: n };
                proof {
                    assert(q@ =~= (ParamsV { control_period: Decimal { nanos: n as i64 }, ..p@ }));
                }
                Some((q, j))
            },
            None => None,
        }
    } else if region_eq(cs, ks, ke, "concurrency_max") {
        match x_parse_uint(cs, i, 0xFFFF_FFFFu64) {
            Some((v, j)) => {
                let mut q = p;
                q.concurrency_max = v as u32;
                proof {
                    assert(q@ =~= (ParamsV { concurrency_max: v as u32, ..p@ }));
                }
                Some((q, j))
            },
            None => None,
        }
    } else if region_eq(cs, ks, ke, "lat_target_pct") {
        match x_parse_dec(cs, i) {
            Some((n, j)) => {
                let mut q = p;
                q.lat_target_pct = Decimal { nanos: n };
                proof {
                    assert(q@ =~= (ParamsV { lat_target_pct: Decimal { nanos: n as i64 }, ..p@ }));
                }
                Some((q, j))
            },
            None => None,
        }
    } else if region_eq(cs, ks, ke, "lat_target") {
        match x_parse_dec(cs, i) {
            Some((n, j)) => {
                let mut q = p;
                q.lat_target = Decimal { nanos: n };
                proof {
                    assert(q@ =~= (ParamsV { lat_target: Decimal { nanos: n as i64 }, ..p@ }));
                }
                Some((q, j))
            },
            None => None,
        }
    } else if region_eq(cs, ks, ke, "rps_target") {
        match x_parse_uint(cs, i, 0xFFFF_FFFFu64) {
            Some((v, j)) => {
                let mut q = p;
                q.rps_target = v as u32;
                proof {
                    assert(q@ =~= (ParamsV { rps_target: v as u32, ..p@ }));
                }
                Some((q, j))
            },
            None => None,
        }
    } else if region_eq(cs, ks, ke, "rps_max") {
        match x_parse_uint(cs, i, 0xFFFF_FFFFu64) {
            Some((v, j)) => {
                let mut q = p;
                q.rps_max = v as u32;
                proof {
                    assert(q@ =~= (ParamsV { rps_max: v as u32, ..p@ }));
                }
                Some((q, j))
            },
            None => None,
        }
    } else if region_eq(cs, ks, ke, "mem_frac") {
        match x_parse_dec(cs, i) {
            Some((n, j)) => {
                let mut q = p;
                q.mem_frac = Decimal { nanos: n };
                proof {
                    assert(q@ =~= (ParamsV { mem_frac: Decimal { nanos: n as i64 }, ..p@ }));
                }
                Some((q, j))
            },
            None => None,
        }
    } else if region_eq(cs, ks, ke, "chunk_pages") {
        match x_parse_uint(cs, i, usize::MAX as u64) {
            Some((v, j)) => {
                let mut q = p;
                q.chunk_pages = v as usize;
                proof {
                    assert(q@ =~= (ParamsV { chunk_pages: v as usize, ..p@ }));
                }
                Some((q, j))
            },
            None => None,
        }
    } else if region_eq(cs, ks, ke, "file_frac") {
        match x_parse_dec(cs, i) {
            Some((n, j)) => {
                let mut q = p;
                q.file_frac = Decimal { nanos: n };
                proof {
                    assert(q@ =~= (ParamsV { file_frac: Decimal { nanos: n as i64 }, ..p@ }));
                }
                Some((q, j))
            },
            None => None,
        }
    } else if region_eq(cs, ks, ke, "file_size_mean") {
        match x_parse_uint(cs, i, usize::MAX as u64) {
            Some((v, j)) => {
                let mut q = p;
                q.file_size_mean = v as usize;
                proof {
                    assert(q@ =~= (ParamsV { file_size_mean: v as usize, ..p@ }));
                }
                Some((q, j))
            },
            None => None,
        }
    } else if region_eq(cs, ks, ke, "file_size_stdev_ratio") {
        match x_parse_dec(cs, i) {
            Some((n, j)) => {
                let mut q = p;
                q.file_size_stdev_ratio = Decimal { nanos: n };
                proof {
                    assert(q@ =~= (ParamsV { file_size_stdev_ratio: Decimal { nanos: n as i64 }, ..p@ }));
                }
                Some((q, j))
            },
            None => None,
        }
    } else if region_eq(cs, ks, ke, "file_addr_stdev_ratio") {
        match x_parse_dec(cs, i) {
            Some((n, j)) => {
                let mut q = p;
                q.file_addr_stdev_ratio = Decimal { nanos: n };
                proof {
                    assert(q@ =~= (ParamsV { file_addr_stdev_ratio: Decimal { nanos: n as i64 }, ..p@ }));
                }
                Some((q, j))
            },
            None => None,
        }
    } else if region_eq(cs, ks, ke, "file_addr_rps_base_frac") {
        match x_parse_dec(cs, i) {
            Some((n, j)) => {
                let mut q = p;
                q.file_addr_rps_base_frac = Decimal { nanos: n };
                proof {
                    assert(q@ =~= (ParamsV { file_addr_rps_base_frac: Decimal { nanos: n as i64 }, ..p@ }));
                }
                Some((q, j))
            },
            None => None,
        }
    } else if region_eq(cs, ks, ke, "file_write_frac") {
        match x_parse_dec(cs, i) {
            Some((n, j)) => {
                let mut q = p;
                q.file_write_frac = Decimal { nanos: n };
                proof {
                    assert(q@ =~= (ParamsV { file_write_frac: Decimal { nanos: n as i64 }, ..p@ }));
                }
                Some((q, j))
            },
            None => None,
        }
    } else if region_eq(cs, ks, ke, "anon_size_ratio") {
        match x_parse_dec(cs, i) {
            Some((n, j)) => {
                let mut q = p;
                q.anon_size_ratio = Decimal { nanos: n };
                proof {
                    assert(q@ =~= (ParamsV { anon_size_ratio: Decimal { nanos: n as i64 }, ..p@ }));
                }
                Some((q, j))
            },
            None => None,
        }
    } else if region_eq(cs, ks, ke, "anon_size_stdev_ratio") {
        match x_parse_dec(cs, i) {
            Some((n, j)) => {
                let mut q = p;
                q.anon_size_stdev_ratio = Decimal { nanos: n };
                proof {
                    assert(q@ =~= (ParamsV { anon_size_stdev_ratio: Decimal { nanos: n as i64 }, ..p@ }));
                }
                Some((q, j))
            },
            None => None,
        }
    } else if region_eq(cs, ks, ke, "anon_addr_stdev_ratio") {
        match x_parse_dec(cs, i) {
            Some((n, j)) => {
                let mut q = p;
                q.anon_addr_stdev_ratio = Decimal { nanos: n };
                proof {
                    assert(q@ =~= (ParamsV { anon_addr_stdev_ratio: Decimal { nanos: n as i64 }, ..p@ }));
                }
                Some((q, j))
            },
            None => None,
        }
    } else if region_eq(cs, ks, ke, "anon_addr_rps_base_frac") {
        match x_parse_dec(cs, i) {
            Some((n, j)) => {
                let mut q = p;
                q.anon_addr_rps_base_frac = Decimal { nanos: n };
                proof {
                    assert(q@ =~= (ParamsV { anon_addr_rps_base_frac: Decimal { nanos: n as i64 }, ..p@ }));
                }
                Some((q, j))
            },
            None => None,
        }
    } else if region_eq(cs, ks, ke, "anon_write_frac") {
        match x_parse_dec(cs, i) {
            Some((n, j)) => {
                let mut q = p;
                q.anon_write_frac = Decimal { nanos: n };
                proof {
                    assert(q@ =~= (ParamsV { anon_write_frac: Decimal { nanos: n as i64 }, ..p@ }));
                }
                Some((q, j))
            },
            None => None,
        }
    } else if region_eq(cs, ks, ke, "sleep_mean") {
        match x_parse_dec(cs, i) {
            Some((n, j)) => {
                let mut q = p;
                q.sleep_mean = Decimal { nanos: n };
                proof {
                    assert(q@ =~= (ParamsV { sleep_mean: Decimal { nanos: n as i64 }, ..p@ }));
                }
                Some((q, j))
            },
            None => None,
        }
    } else if region_eq(cs, ks, ke, "sleep_stdev_ratio") {
        match x_parse_dec(cs, i) {
            Some((n, j)) => {
                let mut q = p;
                q.sleep_stdev_ratio = Decimal { nanos: n };
                proof {
                    assert(q@ =~= (ParamsV { sleep_stdev_ratio: Decimal { nanos: n as i64 }, ..p@ }));
                }
                Some((q, j))
            },
            None => None,
        }
    } else if region_eq(cs, ks, ke, "cpu_ratio") {
        match x_parse_dec(cs, i) {
            Some((n, j)) => {
                let mut q = p;
                q.cpu_ratio = Decimal { nanos: n };
                proof {
                    assert(q@ =~= (ParamsV { cpu_ratio: Decimal { nanos: n as i64 }, ..p@ }));
                }
                Some((q, j))
            },
            None => None,
        }
    } else if region_eq(cs, ks, ke, "log_bps") {
        match x_parse_uint(cs, i, u64::MAX) {
            Some((v, j)) => {
                let mut q = p;
                q.log_bps = v;
                proof {
                    assert(q@ =~= (ParamsV { log_bps: v, ..p@ }));
                }
                Some((q, j))
            },
            None => None,
        }
    } else if region_eq(cs, ks, ke, "fake_cpu_load") {
        match x_parse_bool(cs, i) {
            Some((bv, j)) => {
                let mut q = p;
                q.fake_cpu_load = bv;
                proof {
                    assert(q@ =~= (ParamsV { fake_cpu_load: bv, ..p@ }));
                }
                Some((q, j))
            },
            None => None,
        }
    } else if region_eq(cs, ks, ke, "acc_dist_slots") {
        match x_parse_uint(cs, i, usize::MAX as u64) {
            Some((v, j)) => {
                let mut q = p;
                q.acc_dist_slots = v as usize;
                proof {
                    assert(q@ =~= (ParamsV { acc_dist_slots: v as usize, ..p@ }));
                }
                Some((q, j))
            },
            None => None,
        }
    } else if region_eq(cs, ks, ke, "lat_pid") {
        match x_parse_pid(cs, i) {
            Some((pid, j)) => {
                let mut q = p;
                q.lat_pid = pid;
                proof {
                    assert(q@ =~= (ParamsV { lat_pid: pid, ..p@ }));
                }
                Some((q, j))
            },
            None => None,
        }
    } else if region_eq(cs, ks, ke, "rps_pid") {
        match x_parse_pid(cs, i) {
            Some((pid, j)) => {
                let mut q = p;
                q.rps_pid = pid;
                proof {
                    assert(q@ =~= (ParamsV { rps_pid: pid, ..p@ }));
                }
                Some((q, j))
            },
            None => None,
        }
    } else if region_eq(cs, ks, ke, "anon_histogram") {
        match x_parse_hist(cs, i) {
            Some((h, j)) => {
                let mut q = p;
                q.anon_histogram = h;
                proof {
                    assert(q@ =~= (ParamsV { anon_histogram: q.anon_histogram@, ..p@ }));
                }
                Some((q, j))
            },
            None => None,
        }
    } else {
        match x_skip_value(cs, i) {
            Some(j) => Some((p, j)),
            None => None,
        }
    }
}

fn x_parse_members(cs: &Vec<char>, i: usize, p: Params, first: bool) -> (r: Option<
    (Params, usize),
>)
    requires
        i <= cs@.len(),
    ensures
        ({
            let sp = parse_members(cs@, i as int, p@, first);
            match r {
                Some(q) => sp == Some((q.0@, q.1 as int)) && i < q.1 <= cs@.len(),
                None => sp is None,
            }
        }),
    decreases cs@.len() - i, 1int,
{
    if !(i < cs.len()) {
        return None;
    }
    if first && cs[i] == '}' {
        return Some((p, i + 1));
    }
    if cs[i] != '"' {
        return None;
    }
    let e = x_scan_string(cs, i + 1);
    if !(e < cs.len() && cs[e] == '"') {
        return None;
    }
    let c = x_skip_trivia(cs, e + 1);
    if !(c < cs.len() && cs[c] == ':') {
        return None;
    }
    let v = x_skip_trivia(cs, c + 1);
    match x_parse_field_value(cs, v, i + 1, e, p) {
        Some((p2, j)) => x_parse_members_tail(cs, i, j, p2),
        None => None,
    }
}

fn x_parse_members_tail(cs: &Vec<char>, start: usize, j: usize, p: Params) -> (r: Option<
    (Params, usize),
>)
    requires
        start < j <= cs@.len(),
    ensures
        ({
            let sp = parse_members_tail(cs@, start as int, j as int, p@);
            match r {
                Some(q) => sp == Some((q.0@, q.1 as int)) && start < q.1 <= cs@.len(),
                None => sp is None,
            }
        }),
    decreases cs@.len() - start, 0int,
{
    let t = x_skip_trivia(cs, j);
    if !(t < cs.len()) {
        return None;
    }
    if cs[t] == ',' {
        let n = x_skip_trivia(cs, t + 1);
        x_parse_members(cs, n, p, false)
    } else if cs[t] == '}' {
        Some((p, t + 1))
    } else {
        None
    }
}

impl Params {
    /// Reads a persisted document: the compiled-in defaults overlaid with
    /// every member present, then normalized; a malformed document, or one
    /// whose value has the wrong type for its field, is rejected whole and
    /// yields no snapshot.
    pub fn load(s: &str) -> (r: Result<Params, ParseError>)
        ensures
            match r {
                Ok(p) => spec_load(s@) == Some(p@),
                Err(_) => spec_load(s@) is None,
            },
    {
        let cs = to_chars(s);
        let i = x_skip_trivia(&cs, 0);
        if !(i < cs.len() && cs[i] == '{') {
            return Err(ParseError { at: i });
        }
        let b = x_skip_trivia(&cs, i + 1);
        match x_parse_members(&cs, b, Params::default(), true) {
            Some((p2, j)) => {
                let t = x_skip_trivia(&cs, j);
                if t == cs.len() {
                    let mut p3 = p2;
                    p3.loaded(None);
                    Ok(p3)
                } else {
                    Err(ParseError { at: t })
                }
            },
            None => Err(ParseError { at: b }),
        }
    }
}

} // verus!

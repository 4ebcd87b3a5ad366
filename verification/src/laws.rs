//! Laws relating the writer and the reader: a saved document always loads
//! back, and yields the saved snapshot up to the one normalization step.

use vstd::prelude::*;
use vstd::arithmetic::div_mod::lemma_fundamental_div_mod;
use vstd::seq_lib::lemma_concat_associative;
use crate::params::{Decimal, PidParams, ParamsV, spec_default, spec_normalize, FILE_FRAC_MIN_NANOS};
use crate::text::{is_ws, is_digit, digits_val, pow10, all_digits, dec_digits, fixed_digits,
    lemma_dec_digits, lemma_fixed_digits};
use crate::load::{skip_trivia, skip_comment, scan_digits, scan_string, parse_dec, parse_uint,
    parse_bool, parse_pid, parse_pid_members, parse_pid_tail, parse_hist, parse_hist_items,
    parse_hist_tail, parse_field_value, parse_members, parse_members_tail, spec_load, frac9_val,
    neg_limit};
use crate::save::{render_comment, render_uint, render_dec, render_pid, render_hist,
    render_hist_items, contains_close, spec_body, spec_save, body_a, body_b, body_b1, body_b2,
    body_c, body_d};

verus! {

pub proof fn lemma_pow10_9()
    ensures
        pow10(9) == 1_000_000_000,
{
    assert(pow10(0) == 1);
    assert(pow10(1) == 10);
    assert(pow10(2) == 100);
    assert(pow10(3) == 1000);
    assert(pow10(4) == 10000);
    assert(pow10(5) == 100000);
    assert(pow10(6) == 1000000);
    assert(pow10(7) == 10000000);
    assert(pow10(8) == 100000000);
}

/// A run of digits followed by a non-digit is scanned to exactly its end.
pub proof fn lemma_scan_digits_region(s: Seq<char>, i: int, j: int)
    requires
        0 <= i <= j <= s.len(),
        forall|k: int| i <= k < j ==> is_digit(#[trigger] s[k]),
        j == s.len() || !is_digit(s[j]),
    ensures
        scan_digits(s, i) == j,
    decreases j - i,
{
    if i < j {
        lemma_scan_digits_region(s, i + 1, j);
    }
}

/// A quote- and backslash-free run closed by a quote is scanned to the quote.
pub proof fn lemma_scan_string_region(s: Seq<char>, i: int, j: int)
    requires
        0 <= i <= j < s.len(),
        forall|k: int| i <= k < j ==> #[trigger] s[k] != '"' && s[k] != '\\',
        s[j] == '"',
    ensures
        scan_string(s, i) == j,
    decreases j - i,
{
    if i < j {
        lemma_scan_string_region(s, i + 1, j);
    }
}

/// A whitespace run before a token character is skipped to the token.
pub proof fn lemma_skip_ws_region(s: Seq<char>, i: int, j: int)
    requires
        0 <= i <= j < s.len(),
        forall|k: int| i <= k < j ==> is_ws(#[trigger] s[k]),
        !is_ws(s[j]),
        s[j] != '/',
    ensures
        skip_trivia(s, i) == j,
    decreases j - i,
{
    if i < j {
        lemma_skip_ws_region(s, i + 1, j);
    }
}

/// A comment body free of the closing pair is skipped to just past it.
pub proof fn lemma_skip_comment_region(s: Seq<char>, i: int, j: int)
    requires
        0 <= i <= j,
        j + 1 < s.len(),
        forall|k: int| i <= k < j ==> !(#[trigger] s[k] == '*' && s[k + 1] == '/'),
        s[j] == '*',
        s[j + 1] == '/',
    ensures
        skip_comment(s, i) == skip_trivia(s, j + 2),
    decreases j - i,
{
    if i < j {
        lemma_skip_comment_region(s, i + 1, j);
    }
}

/// Reading back a written decimal yields the value it was written from.
pub proof fn lemma_parse_dec_render(s: Seq<char>, i: int, nanos: i64)
    requires
        0 <= i,
        i + render_dec(nanos as int).len() < s.len(),
        s.subrange(i, i + render_dec(nanos as int).len() as int) == render_dec(nanos as int),
        !is_digit(s[i + render_dec(nanos as int).len()]),
    ensures
        parse_dec(s, i) == Some((nanos as int, i + render_dec(nanos as int).len() as int)),
{
    reveal_strlit("-");
    reveal_strlit(".");
    lemma_pow10_9();
    let r = render_dec(nanos as int);
    let m: nat = if nanos < 0 { (-nanos) as nat } else { nanos as nat };
    let sign: Seq<char> = if nanos < 0 { "-"@ } else { Seq::empty() };
    let d1 = dec_digits(m / 1_000_000_000);
    let f9 = fixed_digits(m % 1_000_000_000, 9);
    lemma_dec_digits(m / 1_000_000_000);
    lemma_fixed_digits(m % 1_000_000_000, 9);
    assert(r == sign + d1 + "."@ + f9);
    let sl: int = if nanos < 0 { 1 } else { 0 };
    assert(r.len() == sl + d1.len() + 1 + 9);
    let i1 = i + sl;
    let j = i1 + d1.len() as int;
    let e = i + r.len() as int;
    // characters of the region
    assert(forall|x: int| 0 <= x < r.len() ==> s[i + x] == #[trigger] r[x]) by {
        assert(forall|x: int|
            0 <= x < r.len() ==> s.subrange(i, i + r.len() as int)[x] == #[trigger] r[x]);
    }
    assert forall|t: int| 0 <= t < d1.len() implies s[i1 + t] == #[trigger] d1[t] by {
        assert(s[i + (sl + t)] == r[sl + t]);
        assert(r[sl + t] == d1[t]);
    }
    assert(s[j] == '.') by {
        assert(s[i + (sl + d1.len())] == r[sl + d1.len() as int]);
        assert(r[sl + d1.len() as int] == '.');
    }
    assert forall|t: int| 0 <= t < 9 implies s[j + 1 + t] == #[trigger] f9[t] by {
        assert(s[i + (sl + d1.len() + 1 + t)] == r[sl + d1.len() + 1 + t]);
        assert(r[sl + d1.len() + 1 + t] == f9[t]);
    }
    // sign handling
    if nanos < 0 {
        assert(s[i] == '-') by {
            assert(s[i + 0] == r[0]);
            assert(r[0] == '-');
        }
    } else {
        assert(s[i] == d1[0]);
        assert(is_digit(s[i]));
        assert(s[i] != '-');
    }
    // integer digit run
    assert forall|k: int| i1 <= k < j implies is_digit(#[trigger] s[k]) by {
        assert(s[i1 + (k - i1)] == d1[k - i1]);
    }
    assert(!is_digit('.')) by {
        assert('.' as u32 == 46);
    }
    lemma_scan_digits_region(s, i1, j);
    assert(s.subrange(i1, j) =~= d1);
    assert(digits_val(s.subrange(i1, j)) == m / 1_000_000_000);
    // fraction digit run
    assert forall|k: int| j + 1 <= k < e implies is_digit(#[trigger] s[k]) by {
        assert(s[j + 1 + (k - j - 1)] == f9[k - j - 1]);
    }
    assert(is_digit(s[j + 1]));
    lemma_scan_digits_region(s, j + 1, e);
    assert(s.subrange(j + 1, e) =~= f9);
    assert(frac9_val(s.subrange(j + 1, e)) == m % 1_000_000_000) by {
        assert(f9.len() == 9);
        assert(f9.take(9) =~= f9);
    }
    // the decoded magnitude is the one we wrote
    let ip = digits_val(s.subrange(i1, j));
    let fr = frac9_val(s.subrange(j + 1, e));
    assert(ip * 1_000_000_000 + fr == m) by {
        lemma_fundamental_div_mod(m as int, 1_000_000_000);
    }
    if nanos < 0 {
        assert(m <= neg_limit());
    } else {
        assert(m <= i64::MAX as nat);
    }
}

/// Reading back a written unsigned integer yields the value written.
pub proof fn lemma_parse_uint_render(s: Seq<char>, i: int, n: u64, max: nat)
    requires
        0 <= i,
        n as nat <= max,
        i + dec_digits(n as nat).len() < s.len(),
        s.subrange(i, i + dec_digits(n as nat).len() as int) == dec_digits(n as nat),
        !is_digit(s[i + dec_digits(n as nat).len()]),
        s[i + dec_digits(n as nat).len()] != '.',
    ensures
        parse_uint(s, i, max) == Some((n as nat, i + dec_digits(n as nat).len() as int)),
{
    let d1 = dec_digits(n as nat);
    lemma_dec_digits(n as nat);
    let j = i + d1.len() as int;
    assert(forall|x: int| 0 <= x < d1.len() ==> s[i + x] == #[trigger] d1[x]) by {
        assert(forall|x: int|
            0 <= x < d1.len() ==> s.subrange(i, i + d1.len() as int)[x] == #[trigger] d1[x]);
    }
    assert forall|k: int| i <= k < j implies is_digit(#[trigger] s[k]) by {
        assert(s[i + (k - i)] == d1[k - i]);
    }
    assert(is_digit(s[i]));
    lemma_scan_digits_region(s, i, j);
    assert(s.subrange(i, j) =~= d1);
}

/// Reading back a written boolean yields the value written.
pub proof fn lemma_parse_bool_render(s: Seq<char>, i: int, b: bool)
    requires
        0 <= i,
        b ==> i + 4 <= s.len() && s.subrange(i, i + 4) == "true"@,
        !b ==> i + 5 <= s.len() && s.subrange(i, i + 5) == "false"@,
    ensures
        b ==> parse_bool(s, i) == Some((true, i + 4)),
        !b ==> parse_bool(s, i) == Some((false, i + 5)),
{
    reveal_strlit("true");
    reveal_strlit("false");
    if b {
    } else {
        if i + 4 <= s.len() && s.subrange(i, i + 4) == "true"@ {
            assert(s.subrange(i, i + 4)[0] == 't');
            assert(s[i] == 't');
            assert(s.subrange(i, i + 5)[0] == 'f');
            assert(s[i] == 'f');
            assert(false);
        }
    }
}

/// A written decimal starts with a minus sign or a digit and is at least
/// eleven characters long.
pub proof fn lemma_render_dec_shape(nanos: i64)
    ensures
        render_dec(nanos as int).len() >= 11,
        render_dec(nanos as int)[0] == '-' || is_digit(render_dec(nanos as int)[0]),
        !is_ws(render_dec(nanos as int)[0]),
        render_dec(nanos as int)[0] != '/',
        render_dec(nanos as int)[0] != '"',
        render_dec(nanos as int)[0] != '}',
        render_dec(nanos as int)[0] != ']',
{
    reveal_strlit("-");
    reveal_strlit(".");
    lemma_pow10_9();
    let m: nat = if nanos < 0 { (-nanos) as nat } else { nanos as nat };
    let d1 = dec_digits(m / 1_000_000_000);
    lemma_dec_digits(m / 1_000_000_000);
    lemma_fixed_digits(m % 1_000_000_000, 9);
    let r = render_dec(nanos as int);
    let sl: int = if nanos < 0 { 1 } else { 0 };
    assert(r.len() == sl + d1.len() + 1 + 9);
    assert('/' as u32 == 47);
    assert('"' as u32 == 34);
    assert('}' as u32 == 125);
    assert(']' as u32 == 93);
    assert(' ' as u32 == 32);
    assert('\n' as u32 == 10);
    assert('\t' as u32 == 9);
    assert('\r' as u32 == 13);
    assert('-' as u32 == 45);
    if nanos < 0 {
        assert(r[0] == '-');
    } else {
        assert(r[0] == d1[0]);
        assert(is_digit(r[0]));
        assert(48 <= r[0] as u32 <= 57);
    }
}

/// A written unsigned integer starts with a digit.
pub proof fn lemma_render_uint_shape(n: u64)
    ensures
        dec_digits(n as nat).len() >= 1,
        is_digit(dec_digits(n as nat)[0]),
        !is_ws(dec_digits(n as nat)[0]),
        dec_digits(n as nat)[0] != '/',
        dec_digits(n as nat)[0] != ']',
{
    lemma_dec_digits(n as nat);
    assert(is_digit(dec_digits(n as nat)[0]));
    assert(48 <= dec_digits(n as nat)[0] as u32 <= 57);
    assert('/' as u32 == 47);
    assert(']' as u32 == 93);
    assert(' ' as u32 == 32);
    assert('\n' as u32 == 10);
    assert('\t' as u32 == 9);
    assert('\r' as u32 == 13);
}

/// Reading back a written controller object yields the gains written.
#[verifier::rlimit(100)]
pub proof fn lemma_parse_pid_render(s: Seq<char>, i: int, pid: PidParams)
    requires
        0 <= i,
        i + render_pid(pid).len() <= s.len(),
        s.subrange(i, i + render_pid(pid).len() as int) == render_pid(pid),
    ensures
        parse_pid(s, i) == Some((pid, i + render_pid(pid).len() as int)),
{
    reveal_strlit("{ \"kp\": ");
    reveal_strlit(", \"ki\": ");
    reveal_strlit(", \"kd\": ");
    reveal_strlit(" }");
    reveal_strlit("kp");
    reveal_strlit("ki");
    reveal_strlit("kd");
    let rp = render_pid(pid);
    let r1 = render_dec(pid.kp.nanos as int);
    let r2 = render_dec(pid.ki.nanos as int);
    let r3 = render_dec(pid.kd.nanos as int);
    lemma_render_dec_shape(pid.kp.nanos);
    lemma_render_dec_shape(pid.ki.nanos);
    lemma_render_dec_shape(pid.kd.nanos);
    let n1 = r1.len() as int;
    let n2 = r2.len() as int;
    let n3 = r3.len() as int;
    assert(rp.len() == 8 + n1 + 8 + n2 + 8 + n3 + 2);
    assert(forall|x: int| 0 <= x < rp.len() ==> s[i + x] == #[trigger] rp[x]) by {
        assert(forall|x: int|
            0 <= x < rp.len() ==> s.subrange(i, i + rp.len() as int)[x] == #[trigger] rp[x]);
    }
    let v1 = i + 8;
    let j1 = v1 + n1;
    let v2 = j1 + 8;
    let j2 = v2 + n2;
    let v3 = j2 + 8;
    let j3 = v3 + n3;
    let e = j3 + 2;
    // the opening brace and the first key
    assert(s[i] == '{') by { assert(s[i + 0] == rp[0]); assert(rp[0] == '{'); }
    assert(s[i + 1] == ' ') by { assert(rp[1] == ' '); }
    assert(s[i + 2] == '"') by { assert(rp[2] == '"'); }
    assert(s[i + 3] == 'k') by { assert(rp[3] == 'k'); }
    assert(s[i + 4] == 'p') by { assert(rp[4] == 'p'); }
    assert(s[i + 5] == '"') by { assert(rp[5] == '"'); }
    assert(s[i + 6] == ':') by { assert(rp[6] == ':'); }
    assert(s[i + 7] == ' ') by { assert(rp[7] == ' '); }
    lemma_skip_ws_region(s, i + 1, i + 2);
    // member "kp"
    lemma_scan_string_region(s, i + 3, i + 5);
    assert(s.subrange(i + 3, i + 5) =~= "kp"@);
    lemma_skip_ws_region(s, i + 6, i + 6);
    assert(s[v1] == r1[0]) by {
        assert(s[i + 8] == rp[8int]);
        assert(rp[8int] == r1[0]);
    }
    lemma_skip_ws_region(s, i + 7, v1);
    assert forall|t: int| 0 <= t < n1 implies s.subrange(v1, v1 + n1)[t] == r1[t] by {
        assert(s[i + (8 + t)] == rp[8 + t]);
        assert(rp[8 + t] == r1[t]);
    }
    assert(s.subrange(v1, v1 + n1) =~= r1);
    assert(s[j1] == ',') by { assert(s[i + (8 + n1 + 0)] == rp[8 + n1 + 0]); assert(rp[8 + n1 + 0] == ','); }
    assert(s[j1 + 1] == ' ') by { assert(s[i + (8 + n1 + 1)] == rp[8 + n1 + 1]); assert(rp[8 + n1 + 1] == ' '); }
    assert(s[j1 + 2] == '"') by { assert(s[i + (8 + n1 + 2)] == rp[8 + n1 + 2]); assert(rp[8 + n1 + 2] == '"'); }
    assert(s[j1 + 3] == 'k') by { assert(s[i + (8 + n1 + 3)] == rp[8 + n1 + 3]); assert(rp[8 + n1 + 3] == 'k'); }
    assert(s[j1 + 4] == 'i') by { assert(s[i + (8 + n1 + 4)] == rp[8 + n1 + 4]); assert(rp[8 + n1 + 4] == 'i'); }
    assert(s[j1 + 5] == '"') by { assert(s[i + (8 + n1 + 5)] == rp[8 + n1 + 5]); assert(rp[8 + n1 + 5] == '"'); }
    assert(s[j1 + 6] == ':') by { assert(s[i + (8 + n1 + 6)] == rp[8 + n1 + 6]); assert(rp[8 + n1 + 6] == ':'); }
    assert(s[j1 + 7] == ' ') by { assert(s[i + (8 + n1 + 7)] == rp[8 + n1 + 7]); assert(rp[8 + n1 + 7] == ' '); }
    assert(!is_digit(s[j1])) by {
        assert(',' as u32 == 44);
    }
    lemma_parse_dec_render(s, v1, pid.kp.nanos);
    lemma_skip_ws_region(s, j1, j1);
    lemma_skip_ws_region(s, j1 + 1, j1 + 2);
    // member "ki"
    lemma_scan_string_region(s, j1 + 3, j1 + 5);
    assert(s.subrange(j1 + 3, j1 + 5) =~= "ki"@);
    lemma_skip_ws_region(s, j1 + 6, j1 + 6);
    assert(s[v2] == r2[0]) by {
        assert(s[i + (8 + n1 + 8 + 0)] == rp[8 + n1 + 8 + 0]);
        assert(rp[8 + n1 + 8 + 0] == r2[0]);
    }
    lemma_skip_ws_region(s, j1 + 7, v2);
    assert forall|t: int| 0 <= t < n2 implies s.subrange(v2, v2 + n2)[t] == r2[t] by {
        assert(s[i + (8 + n1 + 8 + t)] == rp[8 + n1 + 8 + t]);
        assert(rp[8 + n1 + 8 + t] == r2[t]);
    }
    assert(s.subrange(v2, v2 + n2) =~= r2);
    assert(s[j2] == ',') by { assert(s[i + (8 + n1 + 8 + n2 + 0)] == rp[8 + n1 + 8 + n2 + 0]); assert(rp[8 + n1 + 8 + n2 + 0] == ','); }
    assert(s[j2 + 1] == ' ') by { assert(s[i + (8 + n1 + 8 + n2 + 1)] == rp[8 + n1 + 8 + n2 + 1]); assert(rp[8 + n1 + 8 + n2 + 1] == ' '); }
    assert(s[j2 + 2] == '"') by { assert(s[i + (8 + n1 + 8 + n2 + 2)] == rp[8 + n1 + 8 + n2 + 2]); assert(rp[8 + n1 + 8 + n2 + 2] == '"'); }
    assert(s[j2 + 3] == 'k') by { assert(s[i + (8 + n1 + 8 + n2 + 3)] == rp[8 + n1 + 8 + n2 + 3]); assert(rp[8 + n1 + 8 + n2 + 3] == 'k'); }
    assert(s[j2 + 4] == 'd') by { assert(s[i + (8 + n1 + 8 + n2 + 4)] == rp[8 + n1 + 8 + n2 + 4]); assert(rp[8 + n1 + 8 + n2 + 4] == 'd'); }
    assert(s[j2 + 5] == '"') by { assert(s[i + (8 + n1 + 8 + n2 + 5)] == rp[8 + n1 + 8 + n2 + 5]); assert(rp[8 + n1 + 8 + n2 + 5] == '"'); }
    assert(s[j2 + 6] == ':') by { assert(s[i + (8 + n1 + 8 + n2 + 6)] == rp[8 + n1 + 8 + n2 + 6]); assert(rp[8 + n1 + 8 + n2 + 6] == ':'); }
    assert(s[j2 + 7] == ' ') by { assert(s[i + (8 + n1 + 8 + n2 + 7)] == rp[8 + n1 + 8 + n2 + 7]); assert(rp[8 + n1 + 8 + n2 + 7] == ' '); }
    assert(!is_digit(s[j2])) by {
        assert(',' as u32 == 44);
    }
    lemma_parse_dec_render(s, v2, pid.ki.nanos);
    lemma_skip_ws_region(s, j2, j2);
    lemma_skip_ws_region(s, j2 + 1, j2 + 2);
    // member "kd"
    lemma_scan_string_region(s, j2 + 3, j2 + 5);
    assert(s.subrange(j2 + 3, j2 + 5) =~= "kd"@);
    lemma_skip_ws_region(s, j2 + 6, j2 + 6);
    assert(s[v3] == r3[0]) by {
        assert(s[i + (8 + n1 + 8 + n2 + 8 + 0)] == rp[8 + n1 + 8 + n2 + 8 + 0]);
        assert(rp[8 + n1 + 8 + n2 + 8 + 0] == r3[0]);
    }
    lemma_skip_ws_region(s, j2 + 7, v3);
    assert forall|t: int| 0 <= t < n3 implies s.subrange(v3, v3 + n3)[t] == r3[t] by {
        assert(s[i + (8 + n1 + 8 + n2 + 8 + t)] == rp[8 + n1 + 8 + n2 + 8 + t]);
        assert(rp[8 + n1 + 8 + n2 + 8 + t] == r3[t]);
    }
    assert(s.subrange(v3, v3 + n3) =~= r3);
    assert(s[j3] == ' ') by { assert(s[i + (8 + n1 + 8 + n2 + 8 + n3 + 0)] == rp[8 + n1 + 8 + n2 + 8 + n3 + 0]); assert(rp[8 + n1 + 8 + n2 + 8 + n3 + 0] == ' '); }
    assert(s[j3 + 1] == '}') by { assert(s[i + (8 + n1 + 8 + n2 + 8 + n3 + 1)] == rp[8 + n1 + 8 + n2 + 8 + n3 + 1]); assert(rp[8 + n1 + 8 + n2 + 8 + n3 + 1] == '}'); }
    assert(!is_digit(s[j3])) by {
        assert(' ' as u32 == 32);
    }
    lemma_parse_dec_render(s, v3, pid.kd.nanos);
    lemma_skip_ws_region(s, j3, j3 + 1);
    // keys are pairwise distinct
    assert("ki"@ != "kp"@) by {
        assert("ki"@[1] == 'i' && "kp"@[1] == 'p');
    }
    assert("kd"@ != "kp"@) by {
        assert("kd"@[1] == 'd' && "kp"@[1] == 'p');
    }
    assert("kd"@ != "ki"@) by {
        assert("kd"@[1] == 'd' && "ki"@[1] == 'i');
    }
    // assemble the three member steps
    let zero = PidParams {
        kp: Decimal { nanos: 0 },
        ki: Decimal { nanos: 0 },
        kd: Decimal { nanos: 0 },
    };
    let acc1 = PidParams { kp: pid.kp, ..zero };
    let acc2 = PidParams { ki: pid.ki, ..acc1 };
    let acc3 = PidParams { kd: pid.kd, ..acc2 };
    assert(acc3 == pid);
    assert(parse_pid_tail(s, j2 + 2, j3, acc3, true, true, true) == Some((pid, e)));
    assert(parse_pid_members(s, j2 + 2, acc2, true, true, false, false) == Some((pid, e)));
    assert(parse_pid_tail(s, j1 + 2, j2, acc2, true, true, false) == Some((pid, e)));
    assert(parse_pid_members(s, j1 + 2, acc1, true, false, false, false) == Some((pid, e)));
    assert(parse_pid_tail(s, i + 2, j1, acc1, true, false, false) == Some((pid, e)));
    assert(parse_pid_members(s, i + 2, zero, false, false, false, true) == Some((pid, e)));
}

/// Reading back written histogram items yields the items written.
pub proof fn lemma_parse_hist_items_render(
    s: Seq<char>,
    i: int,
    h: Seq<u64>,
    acc: Seq<u64>,
    first: bool,
)
    requires
        0 <= i,
        h.len() >= 1,
        i + render_hist_items(h).len() < s.len(),
        s.subrange(i, i + render_hist_items(h).len() as int) == render_hist_items(h),
        s[i + render_hist_items(h).len()] == ']',
    ensures
        parse_hist_items(s, i, acc, first) == Some(
            (acc + h, i + render_hist_items(h).len() + 1),
        ),
    decreases h.len(),
{
    reveal_strlit(", ");
    let rh = render_hist_items(h);
    let ii = i + rh.len() as int;
    let d0 = dec_digits(h[0] as nat);
    lemma_render_uint_shape(h[0]);
    assert(forall|x: int| 0 <= x < rh.len() ==> s[i + x] == #[trigger] rh[x]) by {
        assert(forall|x: int|
            0 <= x < rh.len() ==> s.subrange(i, i + rh.len() as int)[x] == #[trigger] rh[x]);
    }
    if h.len() == 1 {
        assert(rh == d0);
        assert(s.subrange(i, ii) =~= d0);
        assert(!is_digit(s[ii]) && s[ii] != '.') by {
            assert(']' as u32 == 93);
        }
        lemma_parse_uint_render(s, i, h[0], u64::MAX as nat);
        assert(is_digit(s[i]));
        lemma_skip_ws_region(s, ii, ii);
        assert(acc.push(h[0]) =~= acc + h);
    } else {
        let h2 = h.drop_first();
        let rh2 = render_hist_items(h2);
        assert(rh == d0 + ", "@ + rh2);
        let j = i + d0.len() as int;
        let n = j + 2;
        assert forall|t: int| 0 <= t < d0.len() implies s.subrange(i, j)[t] == d0[t] by {
            assert(s[i + t] == rh[t]);
            assert(rh[t] == d0[t]);
        }
        assert(s.subrange(i, j) =~= d0);
        assert(s[j] == ',' && s[j + 1] == ' ') by {
            assert(forall|t: int| 0 <= t < 2 ==> s[i + (d0.len() + t)] == #[trigger] rh[d0.len()
                + t]);
            assert(rh[d0.len() as int] == ',');
            assert(rh[d0.len() as int + 1] == ' ');
        }
        assert(!is_digit(s[j]) && s[j] != '.') by {
            assert(',' as u32 == 44);
        }
        lemma_parse_uint_render(s, i, h[0], u64::MAX as nat);
        assert(is_digit(s[i]));
        lemma_skip_ws_region(s, j, j);
        assert forall|t: int| 0 <= t < rh2.len() implies s.subrange(n, ii)[t] == rh2[t] by {
            assert(s[i + (d0.len() + 2 + t)] == rh[d0.len() + 2 + t]);
            assert(rh[d0.len() + 2 + t] == rh2[t]);
        }
        assert(s.subrange(n, ii) =~= rh2);
        lemma_render_uint_shape(h2[0]);
        assert(s[n] == rh2[0]) by {
            assert(s.subrange(n, ii)[0] == rh2[0]);
        }
        assert(is_digit(s[n])) by {
            assert(rh2[0] == dec_digits(h2[0] as nat)[0]);
        }
        lemma_skip_ws_region(s, j + 1, n);
        lemma_parse_hist_items_render(s, n, h2, acc.push(h[0]), false);
        assert(acc.push(h[0]) + h2 =~= acc + h);
    }
}

/// Reading back a written histogram yields the histogram written.
pub proof fn lemma_parse_hist_render(s: Seq<char>, i: int, h: Seq<u64>)
    requires
        0 <= i,
        i + render_hist(h).len() <= s.len(),
        s.subrange(i, i + render_hist(h).len() as int) == render_hist(h),
    ensures
        parse_hist(s, i) == Some((h, i + render_hist(h).len() as int)),
{
    reveal_strlit("[");
    reveal_strlit("]");
    let rh = render_hist(h);
    let rhi = render_hist_items(h);
    let e = i + rh.len() as int;
    assert(rh.len() == 1 + rhi.len() + 1);
    assert(forall|x: int| 0 <= x < rh.len() ==> s[i + x] == #[trigger] rh[x]) by {
        assert(forall|x: int|
            0 <= x < rh.len() ==> s.subrange(i, i + rh.len() as int)[x] == #[trigger] rh[x]);
    }
    assert(s[i] == '[') by {
        assert(s[i + 0] == rh[0]);
        assert(rh[0] == '[');
    }
    assert(s[e - 1] == ']') by {
        assert(s[i + (1 + rhi.len())] == rh[1 + rhi.len() as int]);
        assert(rh[1 + rhi.len() as int] == ']');
    }
    if h.len() == 0 {
        assert(rhi.len() == 0);
        assert(s[i + 1] == ']');
        lemma_skip_ws_region(s, i + 1, i + 1);
        assert(s[i + 1] == ']') by {
            assert(s[i + 1] == rh[1]);
        }
        assert(parse_hist_items(s, i + 1, Seq::<u64>::empty(), true) == Some(
            (Seq::<u64>::empty(), i + 2),
        ));
        assert(h =~= Seq::<u64>::empty());
        assert(e == i + 2);
    } else {
        lemma_render_uint_shape(h[0]);
        assert forall|t: int| 0 <= t < rhi.len() implies s.subrange(i + 1, i + 1 + rhi.len() as int)[t]
            == rhi[t] by {
            assert(s[i + (1 + t)] == rh[1 + t]);
            assert(rh[1 + t] == rhi[t]);
        }
        assert(s.subrange(i + 1, i + 1 + rhi.len() as int) =~= rhi);
        assert(s[i + 1] == rhi[0]) by {
            assert(s.subrange(i + 1, i + 1 + rhi.len() as int)[0] == rhi[0]);
        }
        assert(is_digit(s[i + 1])) by {
            assert(rhi[0] == dec_digits(h[0] as nat)[0]);
        }
        lemma_skip_ws_region(s, i + 1, i + 1);
        lemma_parse_hist_items_render(s, i + 1, h, Seq::<u64>::empty(), true);
        assert(Seq::<u64>::empty() + h =~= h);
    }
}



/// One object member followed by a comma: reading it advances to the next
/// member with the field overwritten.
proof fn lemma_members_step(
    s: Seq<char>,
    i: int,
    p: ParamsV,
    first: bool,
    key: Seq<char>,
    upd: ParamsV,
    e: int,
    c: int,
    vpos: int,
    j: int,
    n2: int,
)
    requires
        0 <= i < s.len(),
        s[i] == '"',
        scan_string(s, i + 1) == e,
        i < e < s.len(),
        s[e] == '"',
        s.subrange(i + 1, e) == key,
        skip_trivia(s, e + 1) == c,
        c < s.len(),
        s[c] == ':',
        skip_trivia(s, c + 1) == vpos,
        parse_field_value(s, vpos, key, p) == Some((upd, j)),
        i < j <= s.len(),
        skip_trivia(s, j) == j,
        j < s.len(),
        s[j] == ',',
        skip_trivia(s, j + 1) == n2,
        i < n2 <= s.len(),
    ensures
        parse_members(s, i, p, first) == parse_members(s, n2, upd, false),
{
    assert(s[i] != '}');
}

/// The last object member, followed by the closing brace.
proof fn lemma_members_last(
    s: Seq<char>,
    i: int,
    p: ParamsV,
    key: Seq<char>,
    upd: ParamsV,
    e: int,
    c: int,
    vpos: int,
    j: int,
    t: int,
)
    requires
        0 <= i < s.len(),
        s[i] == '"',
        scan_string(s, i + 1) == e,
        i < e < s.len(),
        s[e] == '"',
        s.subrange(i + 1, e) == key,
        skip_trivia(s, e + 1) == c,
        c < s.len(),
        s[c] == ':',
        skip_trivia(s, c + 1) == vpos,
        parse_field_value(s, vpos, key, p) == Some((upd, j)),
        i < j <= s.len(),
        skip_trivia(s, j) == t,
        t < s.len(),
        s[t] == '}',
    ensures
        parse_members(s, i, p, false) == Some((upd, t + 1)),
{
    assert(s[i] != '}');
}

proof fn lemma_field_value_control_period(s: Seq<char>, i: int, p: ParamsV, n: i64, j: int)
    requires
        parse_dec(s, i) == Some((n as int, j)),
    ensures
        parse_field_value(s, i, "control_period"@, p) == Some(((ParamsV { control_period: Decimal { nanos: n }, ..p }), j)),
{

}

proof fn lemma_field_value_concurrency_max(s: Seq<char>, i: int, p: ParamsV, n: u32, j: int)
    requires
        parse_uint(s, i, u32::MAX as nat) == Some((n as nat, j)),
    ensures
        parse_field_value(s, i, "concurrency_max"@, p) == Some(((ParamsV { concurrency_max: n, ..p }), j)),
{
    assert("concurrency_max"@ != "control_period"@) by {
        reveal_strlit("concurrency_max");
        reveal_strlit("control_period");
        assert("concurrency_max"@.len() == 15);
        assert("control_period"@.len() == 14);
    }
}

proof fn lemma_field_value_lat_target_pct(s: Seq<char>, i: int, p: ParamsV, n: i64, j: int)
    requires
        parse_dec(s, i) == Some((n as int, j)),
    ensures
        parse_field_value(s, i, "lat_target_pct"@, p) == Some(((ParamsV { lat_target_pct: Decimal { nanos: n }, ..p }), j)),
{
    assert("lat_target_pct"@ != "control_period"@) by {
        reveal_strlit("lat_target_pct");
        reveal_strlit("control_period");
        assert("lat_target_pct"@[0] == 'l');
        assert("control_period"@[0] == 'c');
    }
    assert("lat_target_pct"@ != "concurrency_max"@) by {
        reveal_strlit("lat_target_pct");
        reveal_strlit("concurrency_max");
        assert("lat_target_pct"@.len() == 14);
        assert("concurrency_max"@.len() == 15);
    }
}

proof fn lemma_field_value_lat_target(s: Seq<char>, i: int, p: ParamsV, n: i64, j: int)
    requires
        parse_dec(s, i) == Some((n as int, j)),
    ensures
        parse_field_value(s, i, "lat_target"@, p) == Some(((ParamsV { lat_target: Decimal { nanos: n }, ..p }), j)),
{
    assert("lat_target"@ != "control_period"@) by {
        reveal_strlit("lat_target");
        reveal_strlit("control_period");
        assert("lat_target"@.len() == 10);
        assert("control_period"@.len() == 14);
    }
    assert("lat_target"@ != "concurrency_max"@) by {
        reveal_strlit("lat_target");
        reveal_strlit("concurrency_max");
        assert("lat_target"@.len() == 10);
        assert("concurrency_max"@.len() == 15);
    }
    assert("lat_target"@ != "lat_target_pct"@) by {
        reveal_strlit("lat_target");
        reveal_strlit("lat_target_pct");
        assert("lat_target"@.len() == 10);
        assert("lat_target_pct"@.len() == 14);
    }
}

proof fn lemma_field_value_rps_target(s: Seq<char>, i: int, p: ParamsV, n: u32, j: int)
    requires
        parse_uint(s, i, u32::MAX as nat) == Some((n as nat, j)),
    ensures
        parse_field_value(s, i, "rps_target"@, p) == Some(((ParamsV { rps_target: n, ..p }), j)),
{
    assert("rps_target"@ != "control_period"@) by {
        reveal_strlit("rps_target");
        reveal_strlit("control_period");
        assert("rps_target"@.len() == 10);
        assert("control_period"@.len() == 14);
    }
    assert("rps_target"@ != "concurrency_max"@) by {
        reveal_strlit("rps_target");
        reveal_strlit("concurrency_max");
        assert("rps_target"@.len() == 10);
        assert("concurrency_max"@.len() == 15);
    }
    assert("rps_target"@ != "lat_target_pct"@) by {
        reveal_strlit("rps_target");
        reveal_strlit("lat_target_pct");
        assert("rps_target"@.len() == 10);
        assert("lat_target_pct"@.len() == 14);
    }
    assert("rps_target"@ != "lat_target"@) by {
        reveal_strlit("rps_target");
        reveal_strlit("lat_target");
        assert("rps_target"@[0] == 'r');
        assert("lat_target"@[0] == 'l');
    }
}

proof fn lemma_field_value_rps_max(s: Seq<char>, i: int, p: ParamsV, n: u32, j: int)
    requires
        parse_uint(s, i, u32::MAX as nat) == Some((n as nat, j)),
    ensures
        parse_field_value(s, i, "rps_max"@, p) == Some(((ParamsV { rps_max: n, ..p }), j)),
{
    assert("rps_max"@ != "control_period"@) by {
        reveal_strlit("rps_max");
        reveal_strlit("control_period");
        assert("rps_max"@.len() == 7);
        assert("control_period"@.len() == 14);
    }
    assert("rps_max"@ != "concurrency_max"@) by {
        reveal_strlit("rps_max");
        reveal_strlit("concurrency_max");
        assert("rps_max"@.len() == 7);
        assert("concurrency_max"@.len() == 15);
    }
    assert("rps_max"@ != "lat_target_pct"@) by {
        reveal_strlit("rps_max");
        reveal_strlit("lat_target_pct");
        assert("rps_max"@.len() == 7);
        assert("lat_target_pct"@.len() == 14);
    }
    assert("rps_max"@ != "lat_target"@) by {
        reveal_strlit("rps_max");
        reveal_strlit("lat_target");
        assert("rps_max"@.len() == 7);
        assert("lat_target"@.len() == 10);
    }
    assert("rps_max"@ != "rps_target"@) by {
        reveal_strlit("rps_max");
        reveal_strlit("rps_target");
        assert("rps_max"@.len() == 7);
        assert("rps_target"@.len() == 10);
    }
}

proof fn lemma_field_value_mem_frac(s: Seq<char>, i: int, p: ParamsV, n: i64, j: int)
    requires
        parse_dec(s, i) == Some((n as int, j)),
    ensures
        parse_field_value(s, i, "mem_frac"@, p) == Some(((ParamsV { mem_frac: Decimal { nanos: n }, ..p }), j)),
{
    assert("mem_frac"@ != "control_period"@) by {
        reveal_strlit("mem_frac");
        reveal_strlit("control_period");
        assert("mem_frac"@.len() == 8);
        assert("control_period"@.len() == 14);
    }
    assert("mem_frac"@ != "concurrency_max"@) by {
        reveal_strlit("mem_frac");
        reveal_strlit("concurrency_max");
        assert("mem_frac"@.len() == 8);
        assert("concurrency_max"@.len() == 15);
    }
    assert("mem_frac"@ != "lat_target_pct"@) by {
        reveal_strlit("mem_frac");
        reveal_strlit("lat_target_pct");
        assert("mem_frac"@.len() == 8);
        assert("lat_target_pct"@.len() == 14);
    }
    assert("mem_frac"@ != "lat_target"@) by {
        reveal_strlit("mem_frac");
        reveal_strlit("lat_target");
        assert("mem_frac"@.len() == 8);
        assert("lat_target"@.len() == 10);
    }
    assert("mem_frac"@ != "rps_target"@) by {
        reveal_strlit("mem_frac");
        reveal_strlit("rps_target");
        assert("mem_frac"@.len() == 8);
        assert("rps_target"@.len() == 10);
    }
    assert("mem_frac"@ != "rps_max"@) by {
        reveal_strlit("mem_frac");
        reveal_strlit("rps_max");
        assert("mem_frac"@.len() == 8);
        assert("rps_max"@.len() == 7);
    }
}

proof fn lemma_field_value_chunk_pages(s: Seq<char>, i: int, p: ParamsV, n: usize, j: int)
    requires
        parse_uint(s, i, usize::MAX as nat) == Some((n as nat, j)),
    ensures
        parse_field_value(s, i, "chunk_pages"@, p) == Some(((ParamsV { chunk_pages: n, ..p }), j)),
{
    assert("chunk_pages"@ != "control_period"@) by {
        reveal_strlit("chunk_pages");
        reveal_strlit("control_period");
        assert("chunk_pages"@.len() == 11);
        assert("control_period"@.len() == 14);
    }
    assert("chunk_pages"@ != "concurrency_max"@) by {
        reveal_strlit("chunk_pages");
        reveal_strlit("concurrency_max");
        assert("chunk_pages"@.len() == 11);
        assert("concurrency_max"@.len() == 15);
    }
    assert("chunk_pages"@ != "lat_target_pct"@) by {
        reveal_strlit("chunk_pages");
        reveal_strlit("lat_target_pct");
        assert("chunk_pages"@.len() == 11);
        assert("lat_target_pct"@.len() == 14);
    }
    assert("chunk_pages"@ != "lat_target"@) by {
        reveal_strlit("chunk_pages");
        reveal_strlit("lat_target");
        assert("chunk_pages"@.len() == 11);
        assert("lat_target"@.len() == 10);
    }
    assert("chunk_pages"@ != "rps_target"@) by {
        reveal_strlit("chunk_pages");
        reveal_strlit("rps_target");
        assert("chunk_pages"@.len() == 11);
        assert("rps_target"@.len() == 10);
    }
    assert("chunk_pages"@ != "rps_max"@) by {
        reveal_strlit("chunk_pages");
        reveal_strlit("rps_max");
        assert("chunk_pages"@.len() == 11);
        assert("rps_max"@.len() == 7);
    }
    assert("chunk_pages"@ != "mem_frac"@) by {
        reveal_strlit("chunk_pages");
        reveal_strlit("mem_frac");
        assert("chunk_pages"@.len() == 11);
        assert("mem_frac"@.len() == 8);
    }
}

proof fn lemma_field_value_file_frac(s: Seq<char>, i: int, p: ParamsV, n: i64, j: int)
    requires
        parse_dec(s, i) == Some((n as int, j)),
    ensures
        parse_field_value(s, i, "file_frac"@, p) == Some(((ParamsV { file_frac: Decimal { nanos: n }, ..p }), j)),
{
    assert("file_frac"@ != "control_period"@) by {
        reveal_strlit("file_frac");
        reveal_strlit("control_period");
        assert("file_frac"@.len() == 9);
        assert("control_period"@.len() == 14);
    }
    assert("file_frac"@ != "concurrency_max"@) by {
        reveal_strlit("file_frac");
        reveal_strlit("concurrency_max");
        assert("file_frac"@.len() == 9);
        assert("concurrency_max"@.len() == 15);
    }
    assert("file_frac"@ != "lat_target_pct"@) by {
        reveal_strlit("file_frac");
        reveal_strlit("lat_target_pct");
        assert("file_frac"@.len() == 9);
        assert("lat_target_pct"@.len() == 14);
    }
    assert("file_frac"@ != "lat_target"@) by {
        reveal_strlit("file_frac");
        reveal_strlit("lat_target");
        assert("file_frac"@.len() == 9);
        assert("lat_target"@.len() == 10);
    }
    assert("file_frac"@ != "rps_target"@) by {
        reveal_strlit("file_frac");
        reveal_strlit("rps_target");
        assert("file_frac"@.len() == 9);
        assert("rps_target"@.len() == 10);
    }
    assert("file_frac"@ != "rps_max"@) by {
        reveal_strlit("file_frac");
        reveal_strlit("rps_max");
        assert("file_frac"@.len() == 9);
        assert("rps_max"@.len() == 7);
    }
    assert("file_frac"@ != "mem_frac"@) by {
        reveal_strlit("file_frac");
        reveal_strlit("mem_frac");
        assert("file_frac"@.len() == 9);
        assert("mem_frac"@.len() == 8);
    }
    assert("file_frac"@ != "chunk_pages"@) by {
        reveal_strlit("file_frac");
        reveal_strlit("chunk_pages");
        assert("file_frac"@.len() == 9);
        assert("chunk_pages"@.len() == 11);
    }
}

proof fn lemma_field_value_file_size_mean(s: Seq<char>, i: int, p: ParamsV, n: usize, j: int)
    requires
        parse_uint(s, i, usize::MAX as nat) == Some((n as nat, j)),
    ensures
        parse_field_value(s, i, "file_size_mean"@, p) == Some(((ParamsV { file_size_mean: n, ..p }), j)),
{
    assert("file_size_mean"@ != "control_period"@) by {
        reveal_strlit("file_size_mean");
        reveal_strlit("control_period");
        assert("file_size_mean"@[0] == 'f');
        assert("control_period"@[0] == 'c');
    }
    assert("file_size_mean"@ != "concurrency_max"@) by {
        reveal_strlit("file_size_mean");
        reveal_strlit("concurrency_max");
        assert("file_size_mean"@.len() == 14);
        assert("concurrency_max"@.len() == 15);
    }
    assert("file_size_mean"@ != "lat_target_pct"@) by {
        reveal_strlit("file_size_mean");
        reveal_strlit("lat_target_pct");
        assert("file_size_mean"@[0] == 'f');
        assert("lat_target_pct"@[0] == 'l');
    }
    assert("file_size_mean"@ != "lat_target"@) by {
        reveal_strlit("file_size_mean");
        reveal_strlit("lat_target");
        assert("file_size_mean"@.len() == 14);
        assert("lat_target"@.len() == 10);
    }
    assert("file_size_mean"@ != "rps_target"@) by {
        reveal_strlit("file_size_mean");
        reveal_strlit("rps_target");
        assert("file_size_mean"@.len() == 14);
        assert("rps_target"@.len() == 10);
    }
    assert("file_size_mean"@ != "rps_max"@) by {
        reveal_strlit("file_size_mean");
        reveal_strlit("rps_max");
        assert("file_size_mean"@.len() == 14);
        assert("rps_max"@.len() == 7);
    }
    assert("file_size_mean"@ != "mem_frac"@) by {
        reveal_strlit("file_size_mean");
        reveal_strlit("mem_frac");
        assert("file_size_mean"@.len() == 14);
        assert("mem_frac"@.len() == 8);
    }
    assert("file_size_mean"@ != "chunk_pages"@) by {
        reveal_strlit("file_size_mean");
        reveal_strlit("chunk_pages");
        assert("file_size_mean"@.len() == 14);
        assert("chunk_pages"@.len() == 11);
    }
    assert("file_size_mean"@ != "file_frac"@) by {
        reveal_strlit("file_size_mean");
        reveal_strlit("file_frac");
        assert("file_size_mean"@.len() == 14);
        assert("file_frac"@.len() == 9);
    }
}

proof fn lemma_field_value_file_size_stdev_ratio(s: Seq<char>, i: int, p: ParamsV, n: i64, j: int)
    requires
        parse_dec(s, i) == Some((n as int, j)),
    ensures
        parse_field_value(s, i, "file_size_stdev_ratio"@, p) == Some(((ParamsV { file_size_stdev_ratio: Decimal { nanos: n }, ..p }), j)),
{
    assert("file_size_stdev_ratio"@ != "control_period"@) by {
        reveal_strlit("file_size_stdev_ratio");
        reveal_strlit("control_period");
        assert("file_size_stdev_ratio"@.len() == 21);
        assert("control_period"@.len() == 14);
    }
    assert("file_size_stdev_ratio"@ != "concurrency_max"@) by {
        reveal_strlit("file_size_stdev_ratio");
        reveal_strlit("concurrency_max");
        assert("file_size_stdev_ratio"@.len() == 21);
        assert("concurrency_max"@.len() == 15);
    }
    assert("file_size_stdev_ratio"@ != "lat_target_pct"@) by {
        reveal_strlit("file_size_stdev_ratio");
        reveal_strlit("lat_target_pct");
        assert("file_size_stdev_ratio"@.len() == 21);
        assert("lat_target_pct"@.len() == 14);
    }
    assert("file_size_stdev_ratio"@ != "lat_target"@) by {
        reveal_strlit("file_size_stdev_ratio");
        reveal_strlit("lat_target");
        assert("file_size_stdev_ratio"@.len() == 21);
        assert("lat_target"@.len() == 10);
    }
    assert("file_size_stdev_ratio"@ != "rps_target"@) by {
        reveal_strlit("file_size_stdev_ratio");
        reveal_strlit("rps_target");
        assert("file_size_stdev_ratio"@.len() == 21);
        assert("rps_target"@.len() == 10);
    }
    assert("file_size_stdev_ratio"@ != "rps_max"@) by {
        reveal_strlit("file_size_stdev_ratio");
        reveal_strlit("rps_max");
        assert("file_size_stdev_ratio"@.len() == 21);
        assert("rps_max"@.len() == 7);
    }
    assert("file_size_stdev_ratio"@ != "mem_frac"@) by {
        reveal_strlit("file_size_stdev_ratio");
        reveal_strlit("mem_frac");
        assert("file_size_stdev_ratio"@.len() == 21);
        assert("mem_frac"@.len() == 8);
    }
    assert("file_size_stdev_ratio"@ != "chunk_pages"@) by {
        reveal_strlit("file_size_stdev_ratio");
        reveal_strlit("chunk_pages");
        assert("file_size_stdev_ratio"@.len() == 21);
        assert("chunk_pages"@.len() == 11);
    }
    assert("file_size_stdev_ratio"@ != "file_frac"@) by {
        reveal_strlit("file_size_stdev_ratio");
        reveal_strlit("file_frac");
        assert("file_size_stdev_ratio"@.len() == 21);
        assert("file_frac"@.len() == 9);
    }
    assert("file_size_stdev_ratio"@ != "file_size_mean"@) by {
        reveal_strlit("file_size_stdev_ratio");
        reveal_strlit("file_size_mean");
        assert("file_size_stdev_ratio"@.len() == 21);
        assert("file_size_mean"@.len() == 14);
    }
}

proof fn lemma_field_value_file_addr_stdev_ratio(s: Seq<char>, i: int, p: ParamsV, n: i64, j: int)
    requires
        parse_dec(s, i) == Some((n as int, j)),
    ensures
        parse_field_value(s, i, "file_addr_stdev_ratio"@, p) == Some(((ParamsV { file_addr_stdev_ratio: Decimal { nanos: n }, ..p }), j)),
{
    assert("file_addr_stdev_ratio"@ != "control_period"@) by {
        reveal_strlit("file_addr_stdev_ratio");
        reveal_strlit("control_period");
        assert("file_addr_stdev_ratio"@.len() == 21);
        assert("control_period"@.len() == 14);
    }
    assert("file_addr_stdev_ratio"@ != "concurrency_max"@) by {
        reveal_strlit("file_addr_stdev_ratio");
        reveal_strlit("concurrency_max");
        assert("file_addr_stdev_ratio"@.len() == 21);
        assert("concurrency_max"@.len() == 15);
    }
    assert("file_addr_stdev_ratio"@ != "lat_target_pct"@) by {
        reveal_strlit("file_addr_stdev_ratio");
        reveal_strlit("lat_target_pct");
        assert("file_addr_stdev_ratio"@.len() == 21);
        assert("lat_target_pct"@.len() == 14);
    }
    assert("file_addr_stdev_ratio"@ != "lat_target"@) by {
        reveal_strlit("file_addr_stdev_ratio");
        reveal_strlit("lat_target");
        assert("file_addr_stdev_ratio"@.len() == 21);
        assert("lat_target"@.len() == 10);
    }
    assert("file_addr_stdev_ratio"@ != "rps_target"@) by {
        reveal_strlit("file_addr_stdev_ratio");
        reveal_strlit("rps_target");
        assert("file_addr_stdev_ratio"@.len() == 21);
        assert("rps_target"@.len() == 10);
    }
    assert("file_addr_stdev_ratio"@ != "rps_max"@) by {
        reveal_strlit("file_addr_stdev_ratio");
        reveal_strlit("rps_max");
        assert("file_addr_stdev_ratio"@.len() == 21);
        assert("rps_max"@.len() == 7);
    }
    assert("file_addr_stdev_ratio"@ != "mem_frac"@) by {
        reveal_strlit("file_addr_stdev_ratio");
        reveal_strlit("mem_frac");
        assert("file_addr_stdev_ratio"@.len() == 21);
        assert("mem_frac"@.len() == 8);
    }
    assert("file_addr_stdev_ratio"@ != "chunk_pages"@) by {
        reveal_strlit("file_addr_stdev_ratio");
        reveal_strlit("chunk_pages");
        assert("file_addr_stdev_ratio"@.len() == 21);
        assert("chunk_pages"@.len() == 11);
    }
    assert("file_addr_stdev_ratio"@ != "file_frac"@) by {
        reveal_strlit("file_addr_stdev_ratio");
        reveal_strlit("file_frac");
        assert("file_addr_stdev_ratio"@.len() == 21);
        assert("file_frac"@.len() == 9);
    }
    assert("file_addr_stdev_ratio"@ != "file_size_mean"@) by {
        reveal_strlit("file_addr_stdev_ratio");
        reveal_strlit("file_size_mean");
        assert("file_addr_stdev_ratio"@.len() == 21);
        assert("file_size_mean"@.len() == 14);
    }
    assert("file_addr_stdev_ratio"@ != "file_size_stdev_ratio"@) by {
        reveal_strlit("file_addr_stdev_ratio");
        reveal_strlit("file_size_stdev_ratio");
        assert("file_addr_stdev_ratio"@[5] == 'a');
        assert("file_size_stdev_ratio"@[5] == 's');
    }
}

proof fn lemma_field_value_file_addr_rps_base_frac(s: Seq<char>, i: int, p: ParamsV, n: i64, j: int)
    requires
        parse_dec(s, i) == Some((n as int, j)),
    ensures
        parse_field_value(s, i, "file_addr_rps_base_frac"@, p) == Some(((ParamsV { file_addr_rps_base_frac: Decimal { nanos: n }, ..p }), j)),
{
    assert("file_addr_rps_base_frac"@ != "control_period"@) by {
        reveal_strlit("file_addr_rps_base_frac");
        reveal_strlit("control_period");
        assert("file_addr_rps_base_frac"@.len() == 23);
        assert("control_period"@.len() == 14);
    }
    assert("file_addr_rps_base_frac"@ != "concurrency_max"@) by {
        reveal_strlit("file_addr_rps_base_frac");
        reveal_strlit("concurrency_max");
        assert("file_addr_rps_base_frac"@.len() == 23);
        assert("concurrency_max"@.len() == 15);
    }
    assert("file_addr_rps_base_frac"@ != "lat_target_pct"@) by {
        reveal_strlit("file_addr_rps_base_frac");
        reveal_strlit("lat_target_pct");
        assert("file_addr_rps_base_frac"@.len() == 23);
        assert("lat_target_pct"@.len() == 14);
    }
    assert("file_addr_rps_base_frac"@ != "lat_target"@) by {
        reveal_strlit("file_addr_rps_base_frac");
        reveal_strlit("lat_target");
        assert("file_addr_rps_base_frac"@.len() == 23);
        assert("lat_target"@.len() == 10);
    }
    assert("file_addr_rps_base_frac"@ != "rps_target"@) by {
        reveal_strlit("file_addr_rps_base_frac");
        reveal_strlit("rps_target");
        assert("file_addr_rps_base_frac"@.len() == 23);
        assert("rps_target"@.len() == 10);
    }
    assert("file_addr_rps_base_frac"@ != "rps_max"@) by {
        reveal_strlit("file_addr_rps_base_frac");
        reveal_strlit("rps_max");
        assert("file_addr_rps_base_frac"@.len() == 23);
        assert("rps_max"@.len() == 7);
    }
    assert("file_addr_rps_base_frac"@ != "mem_frac"@) by {
        reveal_strlit("file_addr_rps_base_frac");
        reveal_strlit("mem_frac");
        assert("file_addr_rps_base_frac"@.len() == 23);
        assert("mem_frac"@.len() == 8);
    }
    assert("file_addr_rps_base_frac"@ != "chunk_pages"@) by {
        reveal_strlit("file_addr_rps_base_frac");
        reveal_strlit("chunk_pages");
        assert("file_addr_rps_base_frac"@.len() == 23);
        assert("chunk_pages"@.len() == 11);
    }
    assert("file_addr_rps_base_frac"@ != "file_frac"@) by {
        reveal_strlit("file_addr_rps_base_frac");
        reveal_strlit("file_frac");
        assert("file_addr_rps_base_frac"@.len() == 23);
        assert("file_frac"@.len() == 9);
    }
    assert("file_addr_rps_base_frac"@ != "file_size_mean"@) by {
        reveal_strlit("file_addr_rps_base_frac");
        reveal_strlit("file_size_mean");
        assert("file_addr_rps_base_frac"@.len() == 23);
        assert("file_size_mean"@.len() == 14);
    }
    assert("file_addr_rps_base_frac"@ != "file_size_stdev_ratio"@) by {
        reveal_strlit("file_addr_rps_base_frac");
        reveal_strlit("file_size_stdev_ratio");
        assert("file_addr_rps_base_frac"@.len() == 23);
        assert("file_size_stdev_ratio"@.len() == 21);
    }
    assert("file_addr_rps_base_frac"@ != "file_addr_stdev_ratio"@) by {
        reveal_strlit("file_addr_rps_base_frac");
        reveal_strlit("file_addr_stdev_ratio");
        assert("file_addr_rps_base_frac"@.len() == 23);
        assert("file_addr_stdev_ratio"@.len() == 21);
    }
}

proof fn lemma_field_value_file_write_frac(s: Seq<char>, i: int, p: ParamsV, n: i64, j: int)
    requires
        parse_dec(s, i) == Some((n as int, j)),
    ensures
        parse_field_value(s, i, "file_write_frac"@, p) == Some(((ParamsV { file_write_frac: Decimal { nanos: n }, ..p }), j)),
{
    assert("file_write_frac"@ != "control_period"@) by {
        reveal_strlit("file_write_frac");
        reveal_strlit("control_period");
        assert("file_write_frac"@.len() == 15);
        assert("control_period"@.len() == 14);
    }
    assert("file_write_frac"@ != "concurrency_max"@) by {
        reveal_strlit("file_write_frac");
        reveal_strlit("concurrency_max");
        assert("file_write_frac"@[0] == 'f');
        assert("concurrency_max"@[0] == 'c');
    }
    assert("file_write_frac"@ != "lat_target_pct"@) by {
        reveal_strlit("file_write_frac");
        reveal_strlit("lat_target_pct");
        assert("file_write_frac"@.len() == 15);
        assert("lat_target_pct"@.len() == 14);
    }
    assert("file_write_frac"@ != "lat_target"@) by {
        reveal_strlit("file_write_frac");
        reveal_strlit("lat_target");
        assert("file_write_frac"@.len() == 15);
        assert("lat_target"@.len() == 10);
    }
    assert("file_write_frac"@ != "rps_target"@) by {
        reveal_strlit("file_write_frac");
        reveal_strlit("rps_target");
        assert("file_write_frac"@.len() == 15);
        assert("rps_target"@.len() == 10);
    }
    assert("file_write_frac"@ != "rps_max"@) by {
        reveal_strlit("file_write_frac");
        reveal_strlit("rps_max");
        assert("file_write_frac"@.len() == 15);
        assert("rps_max"@.len() == 7);
    }
    assert("file_write_frac"@ != "mem_frac"@) by {
        reveal_strlit("file_write_frac");
        reveal_strlit("mem_frac");
        assert("file_write_frac"@.len() == 15);
        assert("mem_frac"@.len() == 8);
    }
    assert("file_write_frac"@ != "chunk_pages"@) by {
        reveal_strlit("file_write_frac");
        reveal_strlit("chunk_pages");
        assert("file_write_frac"@.len() == 15);
        assert("chunk_pages"@.len() == 11);
    }
    assert("file_write_frac"@ != "file_frac"@) by {
        reveal_strlit("file_write_frac");
        reveal_strlit("file_frac");
        assert("file_write_frac"@.len() == 15);
        assert("file_frac"@.len() == 9);
    }
    assert("file_write_frac"@ != "file_size_mean"@) by {
        reveal_strlit("file_write_frac");
        reveal_strlit("file_size_mean");
        assert("file_write_frac"@.len() == 15);
        assert("file_size_mean"@.len() == 14);
    }
    assert("file_write_frac"@ != "file_size_stdev_ratio"@) by {
        reveal_strlit("file_write_frac");
        reveal_strlit("file_size_stdev_ratio");
        assert("file_write_frac"@.len() == 15);
        assert("file_size_stdev_ratio"@.len() == 21);
    }
    assert("file_write_frac"@ != "file_addr_stdev_ratio"@) by {
        reveal_strlit("file_write_frac");
        reveal_strlit("file_addr_stdev_ratio");
        assert("file_write_frac"@.len() == 15);
        assert("file_addr_stdev_ratio"@.len() == 21);
    }
    assert("file_write_frac"@ != "file_addr_rps_base_frac"@) by {
        reveal_strlit("file_write_frac");
        reveal_strlit("file_addr_rps_base_frac");
        assert("file_write_frac"@.len() == 15);
        assert("file_addr_rps_base_frac"@.len() == 23);
    }
}

proof fn lemma_field_value_anon_size_ratio(s: Seq<char>, i: int, p: ParamsV, n: i64, j: int)
    requires
        parse_dec(s, i) == Some((n as int, j)),
    ensures
        parse_field_value(s, i, "anon_size_ratio"@, p) == Some(((ParamsV { anon_size_ratio: Decimal { nanos: n }, ..p }), j)),
{
    assert("anon_size_ratio"@ != "control_period"@) by {
        reveal_strlit("anon_size_ratio");
        reveal_strlit("control_period");
        assert("anon_size_ratio"@.len() == 15);
        assert("control_period"@.len() == 14);
    }
    assert("anon_size_ratio"@ != "concurrency_max"@) by {
        reveal_strlit("anon_size_ratio");
        reveal_strlit("concurrency_max");
        assert("anon_size_ratio"@[0] == 'a');
        assert("concurrency_max"@[0] == 'c');
    }
    assert("anon_size_ratio"@ != "lat_target_pct"@) by {
        reveal_strlit("anon_size_ratio");
        reveal_strlit("lat_target_pct");
        assert("anon_size_ratio"@.len() == 15);
        assert("lat_target_pct"@.len() == 14);
    }
    assert("anon_size_ratio"@ != "lat_target"@) by {
        reveal_strlit("anon_size_ratio");
        reveal_strlit("lat_target");
        assert("anon_size_ratio"@.len() == 15);
        assert("lat_target"@.len() == 10);
    }
    assert("anon_size_ratio"@ != "rps_target"@) by {
        reveal_strlit("anon_size_ratio");
        reveal_strlit("rps_target");
        assert("anon_size_ratio"@.len() == 15);
        assert("rps_target"@.len() == 10);
    }
    assert("anon_size_ratio"@ != "rps_max"@) by {
        reveal_strlit("anon_size_ratio");
        reveal_strlit("rps_max");
        assert("anon_size_ratio"@.len() == 15);
        assert("rps_max"@.len() == 7);
    }
    assert("anon_size_ratio"@ != "mem_frac"@) by {
        reveal_strlit("anon_size_ratio");
        reveal_strlit("mem_frac");
        assert("anon_size_ratio"@.len() == 15);
        assert("mem_frac"@.len() == 8);
    }
    assert("anon_size_ratio"@ != "chunk_pages"@) by {
        reveal_strlit("anon_size_ratio");
        reveal_strlit("chunk_pages");
        assert("anon_size_ratio"@.len() == 15);
        assert("chunk_pages"@.len() == 11);
    }
    assert("anon_size_ratio"@ != "file_frac"@) by {
        reveal_strlit("anon_size_ratio");
        reveal_strlit("file_frac");
        assert("anon_size_ratio"@.len() == 15);
        assert("file_frac"@.len() == 9);
    }
    assert("anon_size_ratio"@ != "file_size_mean"@) by {
        reveal_strlit("anon_size_ratio");
        reveal_strlit("file_size_mean");
        assert("anon_size_ratio"@.len() == 15);
        assert("file_size_mean"@.len() == 14);
    }
    assert("anon_size_ratio"@ != "file_size_stdev_ratio"@) by {
        reveal_strlit("anon_size_ratio");
        reveal_strlit("file_size_stdev_ratio");
        assert("anon_size_ratio"@.len() == 15);
        assert("file_size_stdev_ratio"@.len() == 21);
    }
    assert("anon_size_ratio"@ != "file_addr_stdev_ratio"@) by {
        reveal_strlit("anon_size_ratio");
        reveal_strlit("file_addr_stdev_ratio");
        assert("anon_size_ratio"@.len() == 15);
        assert("file_addr_stdev_ratio"@.len() == 21);
    }
    assert("anon_size_ratio"@ != "file_addr_rps_base_frac"@) by {
        reveal_strlit("anon_size_ratio");
        reveal_strlit("file_addr_rps_base_frac");
        assert("anon_size_ratio"@.len() == 15);
        assert("file_addr_rps_base_frac"@.len() == 23);
    }
    assert("anon_size_ratio"@ != "file_write_frac"@) by {
        reveal_strlit("anon_size_ratio");
        reveal_strlit("file_write_frac");
        assert("anon_size_ratio"@[0] == 'a');
        assert("file_write_frac"@[0] == 'f');
    }
}

proof fn lemma_field_value_anon_size_stdev_ratio(s: Seq<char>, i: int, p: ParamsV, n: i64, j: int)
    requires
        parse_dec(s, i) == Some((n as int, j)),
    ensures
        parse_field_value(s, i, "anon_size_stdev_ratio"@, p) == Some(((ParamsV { anon_size_stdev_ratio: Decimal { nanos: n }, ..p }), j)),
{
    assert("anon_size_stdev_ratio"@ != "control_period"@) by {
        reveal_strlit("anon_size_stdev_ratio");
        reveal_strlit("control_period");
        assert("anon_size_stdev_ratio"@.len() == 21);
        assert("control_period"@.len() == 14);
    }
    assert("anon_size_stdev_ratio"@ != "concurrency_max"@) by {
        reveal_strlit("anon_size_stdev_ratio");
        reveal_strlit("concurrency_max");
        assert("anon_size_stdev_ratio"@.len() == 21);
        assert("concurrency_max"@.len() == 15);
    }
    assert("anon_size_stdev_ratio"@ != "lat_target_pct"@) by {
        reveal_strlit("anon_size_stdev_ratio");
        reveal_strlit("lat_target_pct");
        assert("anon_size_stdev_ratio"@.len() == 21);
        assert("lat_target_pct"@.len() == 14);
    }
    assert("anon_size_stdev_ratio"@ != "lat_target"@) by {
        reveal_strlit("anon_size_stdev_ratio");
        reveal_strlit("lat_target");
        assert("anon_size_stdev_ratio"@.len() == 21);
        assert("lat_target"@.len() == 10);
    }
    assert("anon_size_stdev_ratio"@ != "rps_target"@) by {
        reveal_strlit("anon_size_stdev_ratio");
        reveal_strlit("rps_target");
        assert("anon_size_stdev_ratio"@.len() == 21);
        assert("rps_target"@.len() == 10);
    }
    assert("anon_size_stdev_ratio"@ != "rps_max"@) by {
        reveal_strlit("anon_size_stdev_ratio");
        reveal_strlit("rps_max");
        assert("anon_size_stdev_ratio"@.len() == 21);
        assert("rps_max"@.len() == 7);
    }
    assert("anon_size_stdev_ratio"@ != "mem_frac"@) by {
        reveal_strlit("anon_size_stdev_ratio");
        reveal_strlit("mem_frac");
        assert("anon_size_stdev_ratio"@.len() == 21);
        assert("mem_frac"@.len() == 8);
    }
    assert("anon_size_stdev_ratio"@ != "chunk_pages"@) by {
        reveal_strlit("anon_size_stdev_ratio");
        reveal_strlit("chunk_pages");
        assert("anon_size_stdev_ratio"@.len() == 21);
        assert("chunk_pages"@.len() == 11);
    }
    assert("anon_size_stdev_ratio"@ != "file_frac"@) by {
        reveal_strlit("anon_size_stdev_ratio");
        reveal_strlit("file_frac");
        assert("anon_size_stdev_ratio"@.len() == 21);
        assert("file_frac"@.len() == 9);
    }
    assert("anon_size_stdev_ratio"@ != "file_size_mean"@) by {
        reveal_strlit("anon_size_stdev_ratio");
        reveal_strlit("file_size_mean");
        assert("anon_size_stdev_ratio"@.len() == 21);
        assert("file_size_mean"@.len() == 14);
    }
    assert("anon_size_stdev_ratio"@ != "file_size_stdev_ratio"@) by {
        reveal_strlit("anon_size_stdev_ratio");
        reveal_strlit("file_size_stdev_ratio");
        assert("anon_size_stdev_ratio"@[0] == 'a');
        assert("file_size_stdev_ratio"@[0] == 'f');
    }
    assert("anon_size_stdev_ratio"@ != "file_addr_stdev_ratio"@) by {
        reveal_strlit("anon_size_stdev_ratio");
        reveal_strlit("file_addr_stdev_ratio");
        assert("anon_size_stdev_ratio"@[0] == 'a');
        assert("file_addr_stdev_ratio"@[0] == 'f');
    }
    assert("anon_size_stdev_ratio"@ != "file_addr_rps_base_frac"@) by {
        reveal_strlit("anon_size_stdev_ratio");
        reveal_strlit("file_addr_rps_base_frac");
        assert("anon_size_stdev_ratio"@.len() == 21);
        assert("file_addr_rps_base_frac"@.len() == 23);
    }
    assert("anon_size_stdev_ratio"@ != "file_write_frac"@) by {
        reveal_strlit("anon_size_stdev_ratio");
        reveal_strlit("file_write_frac");
        assert("anon_size_stdev_ratio"@.len() == 21);
        assert("file_write_frac"@.len() == 15);
    }
    assert("anon_size_stdev_ratio"@ != "anon_size_ratio"@) by {
        reveal_strlit("anon_size_stdev_ratio");
        reveal_strlit("anon_size_ratio");
        assert("anon_size_stdev_ratio"@.len() == 21);
        assert("anon_size_ratio"@.len() == 15);
    }
}

proof fn lemma_field_value_anon_addr_stdev_ratio(s: Seq<char>, i: int, p: ParamsV, n: i64, j: int)
    requires
        parse_dec(s, i) == Some((n as int, j)),
    ensures
        parse_field_value(s, i, "anon_addr_stdev_ratio"@, p) == Some(((ParamsV { anon_addr_stdev_ratio: Decimal { nanos: n }, ..p }), j)),
{
    assert("anon_addr_stdev_ratio"@ != "control_period"@) by {
        reveal_strlit("anon_addr_stdev_ratio");
        reveal_strlit("control_period");
        assert("anon_addr_stdev_ratio"@.len() == 21);
        assert("control_period"@.len() == 14);
    }
    assert("anon_addr_stdev_ratio"@ != "concurrency_max"@) by {
        reveal_strlit("anon_addr_stdev_ratio");
        reveal_strlit("concurrency_max");
        assert("anon_addr_stdev_ratio"@.len() == 21);
        assert("concurrency_max"@.len() == 15);
    }
    assert("anon_addr_stdev_ratio"@ != "lat_target_pct"@) by {
        reveal_strlit("anon_addr_stdev_ratio");
        reveal_strlit("lat_target_pct");
        assert("anon_addr_stdev_ratio"@.len() == 21);
        assert("lat_target_pct"@.len() == 14);
    }
    assert("anon_addr_stdev_ratio"@ != "lat_target"@) by {
        reveal_strlit("anon_addr_stdev_ratio");
        reveal_strlit("lat_target");
        assert("anon_addr_stdev_ratio"@.len() == 21);
        assert("lat_target"@.len() == 10);
    }
    assert("anon_addr_stdev_ratio"@ != "rps_target"@) by {
        reveal_strlit("anon_addr_stdev_ratio");
        reveal_strlit("rps_target");
        assert("anon_addr_stdev_ratio"@.len() == 21);
        assert("rps_target"@.len() == 10);
    }
    assert("anon_addr_stdev_ratio"@ != "rps_max"@) by {
        reveal_strlit("anon_addr_stdev_ratio");
        reveal_strlit("rps_max");
        assert("anon_addr_stdev_ratio"@.len() == 21);
        assert("rps_max"@.len() == 7);
    }
    assert("anon_addr_stdev_ratio"@ != "mem_frac"@) by {
        reveal_strlit("anon_addr_stdev_ratio");
        reveal_strlit("mem_frac");
        assert("anon_addr_stdev_ratio"@.len() == 21);
        assert("mem_frac"@.len() == 8);
    }
    assert("anon_addr_stdev_ratio"@ != "chunk_pages"@) by {
        reveal_strlit("anon_addr_stdev_ratio");
        reveal_strlit("chunk_pages");
        assert("anon_addr_stdev_ratio"@.len() == 21);
        assert("chunk_pages"@.len() == 11);
    }
    assert("anon_addr_stdev_ratio"@ != "file_frac"@) by {
        reveal_strlit("anon_addr_stdev_ratio");
        reveal_strlit("file_frac");
        assert("anon_addr_stdev_ratio"@.len() == 21);
        assert("file_frac"@.len() == 9);
    }
    assert("anon_addr_stdev_ratio"@ != "file_size_mean"@) by {
        reveal_strlit("anon_addr_stdev_ratio");
        reveal_strlit("file_size_mean");
        assert("anon_addr_stdev_ratio"@.len() == 21);
        assert("file_size_mean"@.len() == 14);
    }
    assert("anon_addr_stdev_ratio"@ != "file_size_stdev_ratio"@) by {
        reveal_strlit("anon_addr_stdev_ratio");
        reveal_strlit("file_size_stdev_ratio");
        assert("anon_addr_stdev_ratio"@[0] == 'a');
        assert("file_size_stdev_ratio"@[0] == 'f');
    }
    assert("anon_addr_stdev_ratio"@ != "file_addr_stdev_ratio"@) by {
        reveal_strlit("anon_addr_stdev_ratio");
        reveal_strlit("file_addr_stdev_ratio");
        assert("anon_addr_stdev_ratio"@[0] == 'a');
        assert("file_addr_stdev_ratio"@[0] == 'f');
    }
    assert("anon_addr_stdev_ratio"@ != "file_addr_rps_base_frac"@) by {
        reveal_strlit("anon_addr_stdev_ratio");
        reveal_strlit("file_addr_rps_base_frac");
        assert("anon_addr_stdev_ratio"@.len() == 21);
        assert("file_addr_rps_base_frac"@.len() == 23);
    }
    assert("anon_addr_stdev_ratio"@ != "file_write_frac"@) by {
        reveal_strlit("anon_addr_stdev_ratio");
        reveal_strlit("file_write_frac");
        assert("anon_addr_stdev_ratio"@.len() == 21);
        assert("file_write_frac"@.len() == 15);
    }
    assert("anon_addr_stdev_ratio"@ != "anon_size_ratio"@) by {
        reveal_strlit("anon_addr_stdev_ratio");
        reveal_strlit("anon_size_ratio");
        assert("anon_addr_stdev_ratio"@.len() == 21);
        assert("anon_size_ratio"@.len() == 15);
    }
    assert("anon_addr_stdev_ratio"@ != "anon_size_stdev_ratio"@) by {
        reveal_strlit("anon_addr_stdev_ratio");
        reveal_strlit("anon_size_stdev_ratio");
        assert("anon_addr_stdev_ratio"@[5] == 'a');
        assert("anon_size_stdev_ratio"@[5] == 's');
    }
}

proof fn lemma_field_value_anon_addr_rps_base_frac(s: Seq<char>, i: int, p: ParamsV, n: i64, j: int)
    requires
        parse_dec(s, i) == Some((n as int, j)),
    ensures
        parse_field_value(s, i, "anon_addr_rps_base_frac"@, p) == Some(((ParamsV { anon_addr_rps_base_frac: Decimal { nanos: n }, ..p }), j)),
{
    assert("anon_addr_rps_base_frac"@ != "control_period"@) by {
        reveal_strlit("anon_addr_rps_base_frac");
        reveal_strlit("control_period");
        assert("anon_addr_rps_base_frac"@.len() == 23);
        assert("control_period"@.len() == 14);
    }
    assert("anon_addr_rps_base_frac"@ != "concurrency_max"@) by {
        reveal_strlit("anon_addr_rps_base_frac");
        reveal_strlit("concurrency_max");
        assert("anon_addr_rps_base_frac"@.len() == 23);
        assert("concurrency_max"@.len() == 15);
    }
    assert("anon_addr_rps_base_frac"@ != "lat_target_pct"@) by {
        reveal_strlit("anon_addr_rps_base_frac");
        reveal_strlit("lat_target_pct");
        assert("anon_addr_rps_base_frac"@.len() == 23);
        assert("lat_target_pct"@.len() == 14);
    }
    assert("anon_addr_rps_base_frac"@ != "lat_target"@) by {
        reveal_strlit("anon_addr_rps_base_frac");
        reveal_strlit("lat_target");
        assert("anon_addr_rps_base_frac"@.len() == 23);
        assert("lat_target"@.len() == 10);
    }
    assert("anon_addr_rps_base_frac"@ != "rps_target"@) by {
        reveal_strlit("anon_addr_rps_base_frac");
        reveal_strlit("rps_target");
        assert("anon_addr_rps_base_frac"@.len() == 23);
        assert("rps_target"@.len() == 10);
    }
    assert("anon_addr_rps_base_frac"@ != "rps_max"@) by {
        reveal_strlit("anon_addr_rps_base_frac");
        reveal_strlit("rps_max");
        assert("anon_addr_rps_base_frac"@.len() == 23);
        assert("rps_max"@.len() == 7);
    }
    assert("anon_addr_rps_base_frac"@ != "mem_frac"@) by {
        reveal_strlit("anon_addr_rps_base_frac");
        reveal_strlit("mem_frac");
        assert("anon_addr_rps_base_frac"@.len() == 23);
        assert("mem_frac"@.len() == 8);
    }
    assert("anon_addr_rps_base_frac"@ != "chunk_pages"@) by {
        reveal_strlit("anon_addr_rps_base_frac");
        reveal_strlit("chunk_pages");
        assert("anon_addr_rps_base_frac"@.len() == 23);
        assert("chunk_pages"@.len() == 11);
    }
    assert("anon_addr_rps_base_frac"@ != "file_frac"@) by {
        reveal_strlit("anon_addr_rps_base_frac");
        reveal_strlit("file_frac");
        assert("anon_addr_rps_base_frac"@.len() == 23);
        assert("file_frac"@.len() == 9);
    }
    assert("anon_addr_rps_base_frac"@ != "file_size_mean"@) by {
        reveal_strlit("anon_addr_rps_base_frac");
        reveal_strlit("file_size_mean");
        assert("anon_addr_rps_base_frac"@.len() == 23);
        assert("file_size_mean"@.len() == 14);
    }
    assert("anon_addr_rps_base_frac"@ != "file_size_stdev_ratio"@) by {
        reveal_strlit("anon_addr_rps_base_frac");
        reveal_strlit("file_size_stdev_ratio");
        assert("anon_addr_rps_base_frac"@.len() == 23);
        assert("file_size_stdev_ratio"@.len() == 21);
    }
    assert("anon_addr_rps_base_frac"@ != "file_addr_stdev_ratio"@) by {
        reveal_strlit("anon_addr_rps_base_frac");
        reveal_strlit("file_addr_stdev_ratio");
        assert("anon_addr_rps_base_frac"@.len() == 23);
        assert("file_addr_stdev_ratio"@.len() == 21);
    }
    assert("anon_addr_rps_base_frac"@ != "file_addr_rps_base_frac"@) by {
        reveal_strlit("anon_addr_rps_base_frac");
        reveal_strlit("file_addr_rps_base_frac");
        assert("anon_addr_rps_base_frac"@[0] == 'a');
        assert("file_addr_rps_base_frac"@[0] == 'f');
    }
    assert("anon_addr_rps_base_frac"@ != "file_write_frac"@) by {
        reveal_strlit("anon_addr_rps_base_frac");
        reveal_strlit("file_write_frac");
        assert("anon_addr_rps_base_frac"@.len() == 23);
        assert("file_write_frac"@.len() == 15);
    }
    assert("anon_addr_rps_base_frac"@ != "anon_size_ratio"@) by {
        reveal_strlit("anon_addr_rps_base_frac");
        reveal_strlit("anon_size_ratio");
        assert("anon_addr_rps_base_frac"@.len() == 23);
        assert("anon_size_ratio"@.len() == 15);
    }
    assert("anon_addr_rps_base_frac"@ != "anon_size_stdev_ratio"@) by {
        reveal_strlit("anon_addr_rps_base_frac");
        reveal_strlit("anon_size_stdev_ratio");
        assert("anon_addr_rps_base_frac"@.len() == 23);
        assert("anon_size_stdev_ratio"@.len() == 21);
    }
    assert("anon_addr_rps_base_frac"@ != "anon_addr_stdev_ratio"@) by {
        reveal_strlit("anon_addr_rps_base_frac");
        reveal_strlit("anon_addr_stdev_ratio");
        assert("anon_addr_rps_base_frac"@.len() == 23);
        assert("anon_addr_stdev_ratio"@.len() == 21);
    }
}

proof fn lemma_field_value_anon_write_frac(s: Seq<char>, i: int, p: ParamsV, n: i64, j: int)
    requires
        parse_dec(s, i) == Some((n as int, j)),
    ensures
        parse_field_value(s, i, "anon_write_frac"@, p) == Some(((ParamsV { anon_write_frac: Decimal { nanos: n }, ..p }), j)),
{
    assert("anon_write_frac"@ != "control_period"@) by {
        reveal_strlit("anon_write_frac");
        reveal_strlit("control_period");
        assert("anon_write_frac"@.len() == 15);
        assert("control_period"@.len() == 14);
    }
    assert("anon_write_frac"@ != "concurrency_max"@) by {
        reveal_strlit("anon_write_frac");
        reveal_strlit("concurrency_max");
        assert("anon_write_frac"@[0] == 'a');
        assert("concurrency_max"@[0] == 'c');
    }
    assert("anon_write_frac"@ != "lat_target_pct"@) by {
        reveal_strlit("anon_write_frac");
        reveal_strlit("lat_target_pct");
        assert("anon_write_frac"@.len() == 15);
        assert("lat_target_pct"@.len() == 14);
    }
    assert("anon_write_frac"@ != "lat_target"@) by {
        reveal_strlit("anon_write_frac");
        reveal_strlit("lat_target");
        assert("anon_write_frac"@.len() == 15);
        assert("lat_target"@.len() == 10);
    }
    assert("anon_write_frac"@ != "rps_target"@) by {
        reveal_strlit("anon_write_frac");
        reveal_strlit("rps_target");
        assert("anon_write_frac"@.len() == 15);
        assert("rps_target"@.len() == 10);
    }
    assert("anon_write_frac"@ != "rps_max"@) by {
        reveal_strlit("anon_write_frac");
        reveal_strlit("rps_max");
        assert("anon_write_frac"@.len() == 15);
        assert("rps_max"@.len() == 7);
    }
    assert("anon_write_frac"@ != "mem_frac"@) by {
        reveal_strlit("anon_write_frac");
        reveal_strlit("mem_frac");
        assert("anon_write_frac"@.len() == 15);
        assert("mem_frac"@.len() == 8);
    }
    assert("anon_write_frac"@ != "chunk_pages"@) by {
        reveal_strlit("anon_write_frac");
        reveal_strlit("chunk_pages");
        assert("anon_write_frac"@.len() == 15);
        assert("chunk_pages"@.len() == 11);
    }
    assert("anon_write_frac"@ != "file_frac"@) by {
        reveal_strlit("anon_write_frac");
        reveal_strlit("file_frac");
        assert("anon_write_frac"@.len() == 15);
        assert("file_frac"@.len() == 9);
    }
    assert("anon_write_frac"@ != "file_size_mean"@) by {
        reveal_strlit("anon_write_frac");
        reveal_strlit("file_size_mean");
        assert("anon_write_frac"@.len() == 15);
        assert("file_size_mean"@.len() == 14);
    }
    assert("anon_write_frac"@ != "file_size_stdev_ratio"@) by {
        reveal_strlit("anon_write_frac");
        reveal_strlit("file_size_stdev_ratio");
        assert("anon_write_frac"@.len() == 15);
        assert("file_size_stdev_ratio"@.len() == 21);
    }
    assert("anon_write_frac"@ != "file_addr_stdev_ratio"@) by {
        reveal_strlit("anon_write_frac");
        reveal_strlit("file_addr_stdev_ratio");
        assert("anon_write_frac"@.len() == 15);
        assert("file_addr_stdev_ratio"@.len() == 21);
    }
    assert("anon_write_frac"@ != "file_addr_rps_base_frac"@) by {
        reveal_strlit("anon_write_frac");
        reveal_strlit("file_addr_rps_base_frac");
        assert("anon_write_frac"@.len() == 15);
        assert("file_addr_rps_base_frac"@.len() == 23);
    }
    assert("anon_write_frac"@ != "file_write_frac"@) by {
        reveal_strlit("anon_write_frac");
        reveal_strlit("file_write_frac");
        assert("anon_write_frac"@[0] == 'a');
        assert("file_write_frac"@[0] == 'f');
    }
    assert("anon_write_frac"@ != "anon_size_ratio"@) by {
        reveal_strlit("anon_write_frac");
        reveal_strlit("anon_size_ratio");
        assert("anon_write_frac"@[5] == 'w');
        assert("anon_size_ratio"@[5] == 's');
    }
    assert("anon_write_frac"@ != "anon_size_stdev_ratio"@) by {
        reveal_strlit("anon_write_frac");
        reveal_strlit("anon_size_stdev_ratio");
        assert("anon_write_frac"@.len() == 15);
        assert("anon_size_stdev_ratio"@.len() == 21);
    }
    assert("anon_write_frac"@ != "anon_addr_stdev_ratio"@) by {
        reveal_strlit("anon_write_frac");
        reveal_strlit("anon_addr_stdev_ratio");
        assert("anon_write_frac"@.len() == 15);
        assert("anon_addr_stdev_ratio"@.len() == 21);
    }
    assert("anon_write_frac"@ != "anon_addr_rps_base_frac"@) by {
        reveal_strlit("anon_write_frac");
        reveal_strlit("anon_addr_rps_base_frac");
        assert("anon_write_frac"@.len() == 15);
        assert("anon_addr_rps_base_frac"@.len() == 23);
    }
}

proof fn lemma_field_value_sleep_mean(s: Seq<char>, i: int, p: ParamsV, n: i64, j: int)
    requires
        parse_dec(s, i) == Some((n as int, j)),
    ensures
        parse_field_value(s, i, "sleep_mean"@, p) == Some(((ParamsV { sleep_mean: Decimal { nanos: n }, ..p }), j)),
{
    assert("sleep_mean"@ != "control_period"@) by {
        reveal_strlit("sleep_mean");
        reveal_strlit("control_period");
        assert("sleep_mean"@.len() == 10);
        assert("control_period"@.len() == 14);
    }
    assert("sleep_mean"@ != "concurrency_max"@) by {
        reveal_strlit("sleep_mean");
        reveal_strlit("concurrency_max");
        assert("sleep_mean"@.len() == 10);
        assert("concurrency_max"@.len() == 15);
    }
    assert("sleep_mean"@ != "lat_target_pct"@) by {
        reveal_strlit("sleep_mean");
        reveal_strlit("lat_target_pct");
        assert("sleep_mean"@.len() == 10);
        assert("lat_target_pct"@.len() == 14);
    }
    assert("sleep_mean"@ != "lat_target"@) by {
        reveal_strlit("sleep_mean");
        reveal_strlit("lat_target");
        assert("sleep_mean"@[0] == 's');
        assert("lat_target"@[0] == 'l');
    }
    assert("sleep_mean"@ != "rps_target"@) by {
        reveal_strlit("sleep_mean");
        reveal_strlit("rps_target");
        assert("sleep_mean"@[0] == 's');
        assert("rps_target"@[0] == 'r');
    }
    assert("sleep_mean"@ != "rps_max"@) by {
        reveal_strlit("sleep_mean");
        reveal_strlit("rps_max");
        assert("sleep_mean"@.len() == 10);
        assert("rps_max"@.len() == 7);
    }
    assert("sleep_mean"@ != "mem_frac"@) by {
        reveal_strlit("sleep_mean");
        reveal_strlit("mem_frac");
        assert("sleep_mean"@.len() == 10);
        assert("mem_frac"@.len() == 8);
    }
    assert("sleep_mean"@ != "chunk_pages"@) by {
        reveal_strlit("sleep_mean");
        reveal_strlit("chunk_pages");
        assert("sleep_mean"@.len() == 10);
        assert("chunk_pages"@.len() == 11);
    }
    assert("sleep_mean"@ != "file_frac"@) by {
        reveal_strlit("sleep_mean");
        reveal_strlit("file_frac");
        assert("sleep_mean"@.len() == 10);
        assert("file_frac"@.len() == 9);
    }
    assert("sleep_mean"@ != "file_size_mean"@) by {
        reveal_strlit("sleep_mean");
        reveal_strlit("file_size_mean");
        assert("sleep_mean"@.len() == 10);
        assert("file_size_mean"@.len() == 14);
    }
    assert("sleep_mean"@ != "file_size_stdev_ratio"@) by {
        reveal_strlit("sleep_mean");
        reveal_strlit("file_size_stdev_ratio");
        assert("sleep_mean"@.len() == 10);
        assert("file_size_stdev_ratio"@.len() == 21);
    }
    assert("sleep_mean"@ != "file_addr_stdev_ratio"@) by {
        reveal_strlit("sleep_mean");
        reveal_strlit("file_addr_stdev_ratio");
        assert("sleep_mean"@.len() == 10);
        assert("file_addr_stdev_ratio"@.len() == 21);
    }
    assert("sleep_mean"@ != "file_addr_rps_base_frac"@) by {
        reveal_strlit("sleep_mean");
        reveal_strlit("file_addr_rps_base_frac");
        assert("sleep_mean"@.len() == 10);
        assert("file_addr_rps_base_frac"@.len() == 23);
    }
    assert("sleep_mean"@ != "file_write_frac"@) by {
        reveal_strlit("sleep_mean");
        reveal_strlit("file_write_frac");
        assert("sleep_mean"@.len() == 10);
        assert("file_write_frac"@.len() == 15);
    }
    assert("sleep_mean"@ != "anon_size_ratio"@) by {
        reveal_strlit("sleep_mean");
        reveal_strlit("anon_size_ratio");
        assert("sleep_mean"@.len() == 10);
        assert("anon_size_ratio"@.len() == 15);
    }
    assert("sleep_mean"@ != "anon_size_stdev_ratio"@) by {
        reveal_strlit("sleep_mean");
        reveal_strlit("anon_size_stdev_ratio");
        assert("sleep_mean"@.len() == 10);
        assert("anon_size_stdev_ratio"@.len() == 21);
    }
    assert("sleep_mean"@ != "anon_addr_stdev_ratio"@) by {
        reveal_strlit("sleep_mean");
        reveal_strlit("anon_addr_stdev_ratio");
        assert("sleep_mean"@.len() == 10);
        assert("anon_addr_stdev_ratio"@.len() == 21);
    }
    assert("sleep_mean"@ != "anon_addr_rps_base_frac"@) by {
        reveal_strlit("sleep_mean");
        reveal_strlit("anon_addr_rps_base_frac");
        assert("sleep_mean"@.len() == 10);
        assert("anon_addr_rps_base_frac"@.len() == 23);
    }
    assert("sleep_mean"@ != "anon_write_frac"@) by {
        reveal_strlit("sleep_mean");
        reveal_strlit("anon_write_frac");
        assert("sleep_mean"@.len() == 10);
        assert("anon_write_frac"@.len() == 15);
    }
}

proof fn lemma_field_value_sleep_stdev_ratio(s: Seq<char>, i: int, p: ParamsV, n: i64, j: int)
    requires
        parse_dec(s, i) == Some((n as int, j)),
    ensures
        parse_field_value(s, i, "sleep_stdev_ratio"@, p) == Some(((ParamsV { sleep_stdev_ratio: Decimal { nanos: n }, ..p }), j)),
{
    assert("sleep_stdev_ratio"@ != "control_period"@) by {
        reveal_strlit("sleep_stdev_ratio");
        reveal_strlit("control_period");
        assert("sleep_stdev_ratio"@.len() == 17);
        assert("control_period"@.len() == 14);
    }
    assert("sleep_stdev_ratio"@ != "concurrency_max"@) by {
        reveal_strlit("sleep_stdev_ratio");
        reveal_strlit("concurrency_max");
        assert("sleep_stdev_ratio"@.len() == 17);
        assert("concurrency_max"@.len() == 15);
    }
    assert("sleep_stdev_ratio"@ != "lat_target_pct"@) by {
        reveal_strlit("sleep_stdev_ratio");
        reveal_strlit("lat_target_pct");
        assert("sleep_stdev_ratio"@.len() == 17);
        assert("lat_target_pct"@.len() == 14);
    }
    assert("sleep_stdev_ratio"@ != "lat_target"@) by {
        reveal_strlit("sleep_stdev_ratio");
        reveal_strlit("lat_target");
        assert("sleep_stdev_ratio"@.len() == 17);
        assert("lat_target"@.len() == 10);
    }
    assert("sleep_stdev_ratio"@ != "rps_target"@) by {
        reveal_strlit("sleep_stdev_ratio");
        reveal_strlit("rps_target");
        assert("sleep_stdev_ratio"@.len() == 17);
        assert("rps_target"@.len() == 10);
    }
    assert("sleep_stdev_ratio"@ != "rps_max"@) by {
        reveal_strlit("sleep_stdev_ratio");
        reveal_strlit("rps_max");
        assert("sleep_stdev_ratio"@.len() == 17);
        assert("rps_max"@.len() == 7);
    }
    assert("sleep_stdev_ratio"@ != "mem_frac"@) by {
        reveal_strlit("sleep_stdev_ratio");
        reveal_strlit("mem_frac");
        assert("sleep_stdev_ratio"@.len() == 17);
        assert("mem_frac"@.len() == 8);
    }
    assert("sleep_stdev_ratio"@ != "chunk_pages"@) by {
        reveal_strlit("sleep_stdev_ratio");
        reveal_strlit("chunk_pages");
        assert("sleep_stdev_ratio"@.len() == 17);
        assert("chunk_pages"@.len() == 11);
    }
    assert("sleep_stdev_ratio"@ != "file_frac"@) by {
        reveal_strlit("sleep_stdev_ratio");
        reveal_strlit("file_frac");
        assert("sleep_stdev_ratio"@.len() == 17);
        assert("file_frac"@.len() == 9);
    }
    assert("sleep_stdev_ratio"@ != "file_size_mean"@) by {
        reveal_strlit("sleep_stdev_ratio");
        reveal_strlit("file_size_mean");
        assert("sleep_stdev_ratio"@.len() == 17);
        assert("file_size_mean"@.len() == 14);
    }
    assert("sleep_stdev_ratio"@ != "file_size_stdev_ratio"@) by {
        reveal_strlit("sleep_stdev_ratio");
        reveal_strlit("file_size_stdev_ratio");
        assert("sleep_stdev_ratio"@.len() == 17);
        assert("file_size_stdev_ratio"@.len() == 21);
    }
    assert("sleep_stdev_ratio"@ != "file_addr_stdev_ratio"@) by {
        reveal_strlit("sleep_stdev_ratio");
        reveal_strlit("file_addr_stdev_ratio");
        assert("sleep_stdev_ratio"@.len() == 17);
        assert("file_addr_stdev_ratio"@.len() == 21);
    }
    assert("sleep_stdev_ratio"@ != "file_addr_rps_base_frac"@) by {
        reveal_strlit("sleep_stdev_ratio");
        reveal_strlit("file_addr_rps_base_frac");
        assert("sleep_stdev_ratio"@.len() == 17);
        assert("file_addr_rps_base_frac"@.len() == 23);
    }
    assert("sleep_stdev_ratio"@ != "file_write_frac"@) by {
        reveal_strlit("sleep_stdev_ratio");
        reveal_strlit("file_write_frac");
        assert("sleep_stdev_ratio"@.len() == 17);
        assert("file_write_frac"@.len() == 15);
    }
    assert("sleep_stdev_ratio"@ != "anon_size_ratio"@) by {
        reveal_strlit("sleep_stdev_ratio");
        reveal_strlit("anon_size_ratio");
        assert("sleep_stdev_ratio"@.len() == 17);
        assert("anon_size_ratio"@.len() == 15);
    }
    assert("sleep_stdev_ratio"@ != "anon_size_stdev_ratio"@) by {
        reveal_strlit("sleep_stdev_ratio");
        reveal_strlit("anon_size_stdev_ratio");
        assert("sleep_stdev_ratio"@.len() == 17);
        assert("anon_size_stdev_ratio"@.len() == 21);
    }
    assert("sleep_stdev_ratio"@ != "anon_addr_stdev_ratio"@) by {
        reveal_strlit("sleep_stdev_ratio");
        reveal_strlit("anon_addr_stdev_ratio");
        assert("sleep_stdev_ratio"@.len() == 17);
        assert("anon_addr_stdev_ratio"@.len() == 21);
    }
    assert("sleep_stdev_ratio"@ != "anon_addr_rps_base_frac"@) by {
        reveal_strlit("sleep_stdev_ratio");
        reveal_strlit("anon_addr_rps_base_frac");
        assert("sleep_stdev_ratio"@.len() == 17);
        assert("anon_addr_rps_base_frac"@.len() == 23);
    }
    assert("sleep_stdev_ratio"@ != "anon_write_frac"@) by {
        reveal_strlit("sleep_stdev_ratio");
        reveal_strlit("anon_write_frac");
        assert("sleep_stdev_ratio"@.len() == 17);
        assert("anon_write_frac"@.len() == 15);
    }
    assert("sleep_stdev_ratio"@ != "sleep_mean"@) by {
        reveal_strlit("sleep_stdev_ratio");
        reveal_strlit("sleep_mean");
        assert("sleep_stdev_ratio"@.len() == 17);
        assert("sleep_mean"@.len() == 10);
    }
}

proof fn lemma_field_value_cpu_ratio(s: Seq<char>, i: int, p: ParamsV, n: i64, j: int)
    requires
        parse_dec(s, i) == Some((n as int, j)),
    ensures
        parse_field_value(s, i, "cpu_ratio"@, p) == Some(((ParamsV { cpu_ratio: Decimal { nanos: n }, ..p }), j)),
{
    assert("cpu_ratio"@ != "control_period"@) by {
        reveal_strlit("cpu_ratio");
        reveal_strlit("control_period");
        assert("cpu_ratio"@.len() == 9);
        assert("control_period"@.len() == 14);
    }
    assert("cpu_ratio"@ != "concurrency_max"@) by {
        reveal_strlit("cpu_ratio");
        reveal_strlit("concurrency_max");
        assert("cpu_ratio"@.len() == 9);
        assert("concurrency_max"@.len() == 15);
    }
    assert("cpu_ratio"@ != "lat_target_pct"@) by {
        reveal_strlit("cpu_ratio");
        reveal_strlit("lat_target_pct");
        assert("cpu_ratio"@.len() == 9);
        assert("lat_target_pct"@.len() == 14);
    }
    assert("cpu_ratio"@ != "lat_target"@) by {
        reveal_strlit("cpu_ratio");
        reveal_strlit("lat_target");
        assert("cpu_ratio"@.len() == 9);
        assert("lat_target"@.len() == 10);
    }
    assert("cpu_ratio"@ != "rps_target"@) by {
        reveal_strlit("cpu_ratio");
        reveal_strlit("rps_target");
        assert("cpu_ratio"@.len() == 9);
        assert("rps_target"@.len() == 10);
    }
    assert("cpu_ratio"@ != "rps_max"@) by {
        reveal_strlit("cpu_ratio");
        reveal_strlit("rps_max");
        assert("cpu_ratio"@.len() == 9);
        assert("rps_max"@.len() == 7);
    }
    assert("cpu_ratio"@ != "mem_frac"@) by {
        reveal_strlit("cpu_ratio");
        reveal_strlit("mem_frac");
        assert("cpu_ratio"@.len() == 9);
        assert("mem_frac"@.len() == 8);
    }
    assert("cpu_ratio"@ != "chunk_pages"@) by {
        reveal_strlit("cpu_ratio");
        reveal_strlit("chunk_pages");
        assert("cpu_ratio"@.len() == 9);
        assert("chunk_pages"@.len() == 11);
    }
    assert("cpu_ratio"@ != "file_frac"@) by {
        reveal_strlit("cpu_ratio");
        reveal_strlit("file_frac");
        assert("cpu_ratio"@[0] == 'c');
        assert("file_frac"@[0] == 'f');
    }
    assert("cpu_ratio"@ != "file_size_mean"@) by {
        reveal_strlit("cpu_ratio");
        reveal_strlit("file_size_mean");
        assert("cpu_ratio"@.len() == 9);
        assert("file_size_mean"@.len() == 14);
    }
    assert("cpu_ratio"@ != "file_size_stdev_ratio"@) by {
        reveal_strlit("cpu_ratio");
        reveal_strlit("file_size_stdev_ratio");
        assert("cpu_ratio"@.len() == 9);
        assert("file_size_stdev_ratio"@.len() == 21);
    }
    assert("cpu_ratio"@ != "file_addr_stdev_ratio"@) by {
        reveal_strlit("cpu_ratio");
        reveal_strlit("file_addr_stdev_ratio");
        assert("cpu_ratio"@.len() == 9);
        assert("file_addr_stdev_ratio"@.len() == 21);
    }
    assert("cpu_ratio"@ != "file_addr_rps_base_frac"@) by {
        reveal_strlit("cpu_ratio");
        reveal_strlit("file_addr_rps_base_frac");
        assert("cpu_ratio"@.len() == 9);
        assert("file_addr_rps_base_frac"@.len() == 23);
    }
    assert("cpu_ratio"@ != "file_write_frac"@) by {
        reveal_strlit("cpu_ratio");
        reveal_strlit("file_write_frac");
        assert("cpu_ratio"@.len() == 9);
        assert("file_write_frac"@.len() == 15);
    }
    assert("cpu_ratio"@ != "anon_size_ratio"@) by {
        reveal_strlit("cpu_ratio");
        reveal_strlit("anon_size_ratio");
        assert("cpu_ratio"@.len() == 9);
        assert("anon_size_ratio"@.len() == 15);
    }
    assert("cpu_ratio"@ != "anon_size_stdev_ratio"@) by {
        reveal_strlit("cpu_ratio");
        reveal_strlit("anon_size_stdev_ratio");
        assert("cpu_ratio"@.len() == 9);
        assert("anon_size_stdev_ratio"@.len() == 21);
    }
    assert("cpu_ratio"@ != "anon_addr_stdev_ratio"@) by {
        reveal_strlit("cpu_ratio");
        reveal_strlit("anon_addr_stdev_ratio");
        assert("cpu_ratio"@.len() == 9);
        assert("anon_addr_stdev_ratio"@.len() == 21);
    }
    assert("cpu_ratio"@ != "anon_addr_rps_base_frac"@) by {
        reveal_strlit("cpu_ratio");
        reveal_strlit("anon_addr_rps_base_frac");
        assert("cpu_ratio"@.len() == 9);
        assert("anon_addr_rps_base_frac"@.len() == 23);
    }
    assert("cpu_ratio"@ != "anon_write_frac"@) by {
        reveal_strlit("cpu_ratio");
        reveal_strlit("anon_write_frac");
        assert("cpu_ratio"@.len() == 9);
        assert("anon_write_frac"@.len() == 15);
    }
    assert("cpu_ratio"@ != "sleep_mean"@) by {
        reveal_strlit("cpu_ratio");
        reveal_strlit("sleep_mean");
        assert("cpu_ratio"@.len() == 9);
        assert("sleep_mean"@.len() == 10);
    }
    assert("cpu_ratio"@ != "sleep_stdev_ratio"@) by {
        reveal_strlit("cpu_ratio");
        reveal_strlit("sleep_stdev_ratio");
        assert("cpu_ratio"@.len() == 9);
        assert("sleep_stdev_ratio"@.len() == 17);
    }
}

proof fn lemma_field_value_log_bps(s: Seq<char>, i: int, p: ParamsV, n: u64, j: int)
    requires
        parse_uint(s, i, u64::MAX as nat) == Some((n as nat, j)),
    ensures
        parse_field_value(s, i, "log_bps"@, p) == Some(((ParamsV { log_bps: n, ..p }), j)),
{
    assert("log_bps"@ != "control_period"@) by {
        reveal_strlit("log_bps");
        reveal_strlit("control_period");
        assert("log_bps"@.len() == 7);
        assert("control_period"@.len() == 14);
    }
    assert("log_bps"@ != "concurrency_max"@) by {
        reveal_strlit("log_bps");
        reveal_strlit("concurrency_max");
        assert("log_bps"@.len() == 7);
        assert("concurrency_max"@.len() == 15);
    }
    assert("log_bps"@ != "lat_target_pct"@) by {
        reveal_strlit("log_bps");
        reveal_strlit("lat_target_pct");
        assert("log_bps"@.len() == 7);
        assert("lat_target_pct"@.len() == 14);
    }
    assert("log_bps"@ != "lat_target"@) by {
        reveal_strlit("log_bps");
        reveal_strlit("lat_target");
        assert("log_bps"@.len() == 7);
        assert("lat_target"@.len() == 10);
    }
    assert("log_bps"@ != "rps_target"@) by {
        reveal_strlit("log_bps");
        reveal_strlit("rps_target");
        assert("log_bps"@.len() == 7);
        assert("rps_target"@.len() == 10);
    }
    assert("log_bps"@ != "rps_max"@) by {
        reveal_strlit("log_bps");
        reveal_strlit("rps_max");
        assert("log_bps"@[0] == 'l');
        assert("rps_max"@[0] == 'r');
    }
    assert("log_bps"@ != "mem_frac"@) by {
        reveal_strlit("log_bps");
        reveal_strlit("mem_frac");
        assert("log_bps"@.len() == 7);
        assert("mem_frac"@.len() == 8);
    }
    assert("log_bps"@ != "chunk_pages"@) by {
        reveal_strlit("log_bps");
        reveal_strlit("chunk_pages");
        assert("log_bps"@.len() == 7);
        assert("chunk_pages"@.len() == 11);
    }
    assert("log_bps"@ != "file_frac"@) by {
        reveal_strlit("log_bps");
        reveal_strlit("file_frac");
        assert("log_bps"@.len() == 7);
        assert("file_frac"@.len() == 9);
    }
    assert("log_bps"@ != "file_size_mean"@) by {
        reveal_strlit("log_bps");
        reveal_strlit("file_size_mean");
        assert("log_bps"@.len() == 7);
        assert("file_size_mean"@.len() == 14);
    }
    assert("log_bps"@ != "file_size_stdev_ratio"@) by {
        reveal_strlit("log_bps");
        reveal_strlit("file_size_stdev_ratio");
        assert("log_bps"@.len() == 7);
        assert("file_size_stdev_ratio"@.len() == 21);
    }
    assert("log_bps"@ != "file_addr_stdev_ratio"@) by {
        reveal_strlit("log_bps");
        reveal_strlit("file_addr_stdev_ratio");
        assert("log_bps"@.len() == 7);
        assert("file_addr_stdev_ratio"@.len() == 21);
    }
    assert("log_bps"@ != "file_addr_rps_base_frac"@) by {
        reveal_strlit("log_bps");
        reveal_strlit("file_addr_rps_base_frac");
        assert("log_bps"@.len() == 7);
        assert("file_addr_rps_base_frac"@.len() == 23);
    }
    assert("log_bps"@ != "file_write_frac"@) by {
        reveal_strlit("log_bps");
        reveal_strlit("file_write_frac");
        assert("log_bps"@.len() == 7);
        assert("file_write_frac"@.len() == 15);
    }
    assert("log_bps"@ != "anon_size_ratio"@) by {
        reveal_strlit("log_bps");
        reveal_strlit("anon_size_ratio");
        assert("log_bps"@.len() == 7);
        assert("anon_size_ratio"@.len() == 15);
    }
    assert("log_bps"@ != "anon_size_stdev_ratio"@) by {
        reveal_strlit("log_bps");
        reveal_strlit("anon_size_stdev_ratio");
        assert("log_bps"@.len() == 7);
        assert("anon_size_stdev_ratio"@.len() == 21);
    }
    assert("log_bps"@ != "anon_addr_stdev_ratio"@) by {
        reveal_strlit("log_bps");
        reveal_strlit("anon_addr_stdev_ratio");
        assert("log_bps"@.len() == 7);
        assert("anon_addr_stdev_ratio"@.len() == 21);
    }
    assert("log_bps"@ != "anon_addr_rps_base_frac"@) by {
        reveal_strlit("log_bps");
        reveal_strlit("anon_addr_rps_base_frac");
        assert("log_bps"@.len() == 7);
        assert("anon_addr_rps_base_frac"@.len() == 23);
    }
    assert("log_bps"@ != "anon_write_frac"@) by {
        reveal_strlit("log_bps");
        reveal_strlit("anon_write_frac");
        assert("log_bps"@.len() == 7);
        assert("anon_write_frac"@.len() == 15);
    }
    assert("log_bps"@ != "sleep_mean"@) by {
        reveal_strlit("log_bps");
        reveal_strlit("sleep_mean");
        assert("log_bps"@.len() == 7);
        assert("sleep_mean"@.len() == 10);
    }
    assert("log_bps"@ != "sleep_stdev_ratio"@) by {
        reveal_strlit("log_bps");
        reveal_strlit("sleep_stdev_ratio");
        assert("log_bps"@.len() == 7);
        assert("sleep_stdev_ratio"@.len() == 17);
    }
    assert("log_bps"@ != "cpu_ratio"@) by {
        reveal_strlit("log_bps");
        reveal_strlit("cpu_ratio");
        assert("log_bps"@.len() == 7);
        assert("cpu_ratio"@.len() == 9);
    }
}

proof fn lemma_field_value_fake_cpu_load(s: Seq<char>, i: int, p: ParamsV, b: bool, j: int)
    requires
        parse_bool(s, i) == Some((b, j)),
    ensures
        parse_field_value(s, i, "fake_cpu_load"@, p) == Some(((ParamsV { fake_cpu_load: b, ..p }), j)),
{
    assert("fake_cpu_load"@ != "control_period"@) by {
        reveal_strlit("fake_cpu_load");
        reveal_strlit("control_period");
        assert("fake_cpu_load"@.len() == 13);
        assert("control_period"@.len() == 14);
    }
    assert("fake_cpu_load"@ != "concurrency_max"@) by {
        reveal_strlit("fake_cpu_load");
        reveal_strlit("concurrency_max");
        assert("fake_cpu_load"@.len() == 13);
        assert("concurrency_max"@.len() == 15);
    }
    assert("fake_cpu_load"@ != "lat_target_pct"@) by {
        reveal_strlit("fake_cpu_load");
        reveal_strlit("lat_target_pct");
        assert("fake_cpu_load"@.len() == 13);
        assert("lat_target_pct"@.len() == 14);
    }
    assert("fake_cpu_load"@ != "lat_target"@) by {
        reveal_strlit("fake_cpu_load");
        reveal_strlit("lat_target");
        assert("fake_cpu_load"@.len() == 13);
        assert("lat_target"@.len() == 10);
    }
    assert("fake_cpu_load"@ != "rps_target"@) by {
        reveal_strlit("fake_cpu_load");
        reveal_strlit("rps_target");
        assert("fake_cpu_load"@.len() == 13);
        assert("rps_target"@.len() == 10);
    }
    assert("fake_cpu_load"@ != "rps_max"@) by {
        reveal_strlit("fake_cpu_load");
        reveal_strlit("rps_max");
        assert("fake_cpu_load"@.len() == 13);
        assert("rps_max"@.len() == 7);
    }
    assert("fake_cpu_load"@ != "mem_frac"@) by {
        reveal_strlit("fake_cpu_load");
        reveal_strlit("mem_frac");
        assert("fake_cpu_load"@.len() == 13);
        assert("mem_frac"@.len() == 8);
    }
    assert("fake_cpu_load"@ != "chunk_pages"@) by {
        reveal_strlit("fake_cpu_load");
        reveal_strlit("chunk_pages");
        assert("fake_cpu_load"@.len() == 13);
        assert("chunk_pages"@.len() == 11);
    }
    assert("fake_cpu_load"@ != "file_frac"@) by {
        reveal_strlit("fake_cpu_load");
        reveal_strlit("file_frac");
        assert("fake_cpu_load"@.len() == 13);
        assert("file_frac"@.len() == 9);
    }
    assert("fake_cpu_load"@ != "file_size_mean"@) by {
        reveal_strlit("fake_cpu_load");
        reveal_strlit("file_size_mean");
        assert("fake_cpu_load"@.len() == 13);
        assert("file_size_mean"@.len() == 14);
    }
    assert("fake_cpu_load"@ != "file_size_stdev_ratio"@) by {
        reveal_strlit("fake_cpu_load");
        reveal_strlit("file_size_stdev_ratio");
        assert("fake_cpu_load"@.len() == 13);
        assert("file_size_stdev_ratio"@.len() == 21);
    }
    assert("fake_cpu_load"@ != "file_addr_stdev_ratio"@) by {
        reveal_strlit("fake_cpu_load");
        reveal_strlit("file_addr_stdev_ratio");
        assert("fake_cpu_load"@.len() == 13);
        assert("file_addr_stdev_ratio"@.len() == 21);
    }
    assert("fake_cpu_load"@ != "file_addr_rps_base_frac"@) by {
        reveal_strlit("fake_cpu_load");
        reveal_strlit("file_addr_rps_base_frac");
        assert("fake_cpu_load"@.len() == 13);
        assert("file_addr_rps_base_frac"@.len() == 23);
    }
    assert("fake_cpu_load"@ != "file_write_frac"@) by {
        reveal_strlit("fake_cpu_load");
        reveal_strlit("file_write_frac");
        assert("fake_cpu_load"@.len() == 13);
        assert("file_write_frac"@.len() == 15);
    }
    assert("fake_cpu_load"@ != "anon_size_ratio"@) by {
        reveal_strlit("fake_cpu_load");
        reveal_strlit("anon_size_ratio");
        assert("fake_cpu_load"@.len() == 13);
        assert("anon_size_ratio"@.len() == 15);
    }
    assert("fake_cpu_load"@ != "anon_size_stdev_ratio"@) by {
        reveal_strlit("fake_cpu_load");
        reveal_strlit("anon_size_stdev_ratio");
        assert("fake_cpu_load"@.len() == 13);
        assert("anon_size_stdev_ratio"@.len() == 21);
    }
    assert("fake_cpu_load"@ != "anon_addr_stdev_ratio"@) by {
        reveal_strlit("fake_cpu_load");
        reveal_strlit("anon_addr_stdev_ratio");
        assert("fake_cpu_load"@.len() == 13);
        assert("anon_addr_stdev_ratio"@.len() == 21);
    }
    assert("fake_cpu_load"@ != "anon_addr_rps_base_frac"@) by {
        reveal_strlit("fake_cpu_load");
        reveal_strlit("anon_addr_rps_base_frac");
        assert("fake_cpu_load"@.len() == 13);
        assert("anon_addr_rps_base_frac"@.len() == 23);
    }
    assert("fake_cpu_load"@ != "anon_write_frac"@) by {
        reveal_strlit("fake_cpu_load");
        reveal_strlit("anon_write_frac");
        assert("fake_cpu_load"@.len() == 13);
        assert("anon_write_frac"@.len() == 15);
    }
    assert("fake_cpu_load"@ != "sleep_mean"@) by {
        reveal_strlit("fake_cpu_load");
        reveal_strlit("sleep_mean");
        assert("fake_cpu_load"@.len() == 13);
        assert("sleep_mean"@.len() == 10);
    }
    assert("fake_cpu_load"@ != "sleep_stdev_ratio"@) by {
        reveal_strlit("fake_cpu_load");
        reveal_strlit("sleep_stdev_ratio");
        assert("fake_cpu_load"@.len() == 13);
        assert("sleep_stdev_ratio"@.len() == 17);
    }
    assert("fake_cpu_load"@ != "cpu_ratio"@) by {
        reveal_strlit("fake_cpu_load");
        reveal_strlit("cpu_ratio");
        assert("fake_cpu_load"@.len() == 13);
        assert("cpu_ratio"@.len() == 9);
    }
    assert("fake_cpu_load"@ != "log_bps"@) by {
        reveal_strlit("fake_cpu_load");
        reveal_strlit("log_bps");
        assert("fake_cpu_load"@.len() == 13);
        assert("log_bps"@.len() == 7);
    }
}

proof fn lemma_field_value_acc_dist_slots(s: Seq<char>, i: int, p: ParamsV, n: usize, j: int)
    requires
        parse_uint(s, i, usize::MAX as nat) == Some((n as nat, j)),
    ensures
        parse_field_value(s, i, "acc_dist_slots"@, p) == Some(((ParamsV { acc_dist_slots: n, ..p }), j)),
{
    assert("acc_dist_slots"@ != "control_period"@) by {
        reveal_strlit("acc_dist_slots");
        reveal_strlit("control_period");
        assert("acc_dist_slots"@[0] == 'a');
        assert("control_period"@[0] == 'c');
    }
    assert("acc_dist_slots"@ != "concurrency_max"@) by {
        reveal_strlit("acc_dist_slots");
        reveal_strlit("concurrency_max");
        assert("acc_dist_slots"@.len() == 14);
        assert("concurrency_max"@.len() == 15);
    }
    assert("acc_dist_slots"@ != "lat_target_pct"@) by {
        reveal_strlit("acc_dist_slots");
        reveal_strlit("lat_target_pct");
        assert("acc_dist_slots"@[0] == 'a');
        assert("lat_target_pct"@[0] == 'l');
    }
    assert("acc_dist_slots"@ != "lat_target"@) by {
        reveal_strlit("acc_dist_slots");
        reveal_strlit("lat_target");
        assert("acc_dist_slots"@.len() == 14);
        assert("lat_target"@.len() == 10);
    }
    assert("acc_dist_slots"@ != "rps_target"@) by {
        reveal_strlit("acc_dist_slots");
        reveal_strlit("rps_target");
        assert("acc_dist_slots"@.len() == 14);
        assert("rps_target"@.len() == 10);
    }
    assert("acc_dist_slots"@ != "rps_max"@) by {
        reveal_strlit("acc_dist_slots");
        reveal_strlit("rps_max");
        assert("acc_dist_slots"@.len() == 14);
        assert("rps_max"@.len() == 7);
    }
    assert("acc_dist_slots"@ != "mem_frac"@) by {
        reveal_strlit("acc_dist_slots");
        reveal_strlit("mem_frac");
        assert("acc_dist_slots"@.len() == 14);
        assert("mem_frac"@.len() == 8);
    }
    assert("acc_dist_slots"@ != "chunk_pages"@) by {
        reveal_strlit("acc_dist_slots");
        reveal_strlit("chunk_pages");
        assert("acc_dist_slots"@.len() == 14);
        assert("chunk_pages"@.len() == 11);
    }
    assert("acc_dist_slots"@ != "file_frac"@) by {
        reveal_strlit("acc_dist_slots");
        reveal_strlit("file_frac");
        assert("acc_dist_slots"@.len() == 14);
        assert("file_frac"@.len() == 9);
    }
    assert("acc_dist_slots"@ != "file_size_mean"@) by {
        reveal_strlit("acc_dist_slots");
        reveal_strlit("file_size_mean");
        assert("acc_dist_slots"@[0] == 'a');
        assert("file_size_mean"@[0] == 'f');
    }
    assert("acc_dist_slots"@ != "file_size_stdev_ratio"@) by {
        reveal_strlit("acc_dist_slots");
        reveal_strlit("file_size_stdev_ratio");
        assert("acc_dist_slots"@.len() == 14);
        assert("file_size_stdev_ratio"@.len() == 21);
    }
    assert("acc_dist_slots"@ != "file_addr_stdev_ratio"@) by {
        reveal_strlit("acc_dist_slots");
        reveal_strlit("file_addr_stdev_ratio");
        assert("acc_dist_slots"@.len() == 14);
        assert("file_addr_stdev_ratio"@.len() == 21);
    }
    assert("acc_dist_slots"@ != "file_addr_rps_base_frac"@) by {
        reveal_strlit("acc_dist_slots");
        reveal_strlit("file_addr_rps_base_frac");
        assert("acc_dist_slots"@.len() == 14);
        assert("file_addr_rps_base_frac"@.len() == 23);
    }
    assert("acc_dist_slots"@ != "file_write_frac"@) by {
        reveal_strlit("acc_dist_slots");
        reveal_strlit("file_write_frac");
        assert("acc_dist_slots"@.len() == 14);
        assert("file_write_frac"@.len() == 15);
    }
    assert("acc_dist_slots"@ != "anon_size_ratio"@) by {
        reveal_strlit("acc_dist_slots");
        reveal_strlit("anon_size_ratio");
        assert("acc_dist_slots"@.len() == 14);
        assert("anon_size_ratio"@.len() == 15);
    }
    assert("acc_dist_slots"@ != "anon_size_stdev_ratio"@) by {
        reveal_strlit("acc_dist_slots");
        reveal_strlit("anon_size_stdev_ratio");
        assert("acc_dist_slots"@.len() == 14);
        assert("anon_size_stdev_ratio"@.len() == 21);
    }
    assert("acc_dist_slots"@ != "anon_addr_stdev_ratio"@) by {
        reveal_strlit("acc_dist_slots");
        reveal_strlit("anon_addr_stdev_ratio");
        assert("acc_dist_slots"@.len() == 14);
        assert("anon_addr_stdev_ratio"@.len() == 21);
    }
    assert("acc_dist_slots"@ != "anon_addr_rps_base_frac"@) by {
        reveal_strlit("acc_dist_slots");
        reveal_strlit("anon_addr_rps_base_frac");
        assert("acc_dist_slots"@.len() == 14);
        assert("anon_addr_rps_base_frac"@.len() == 23);
    }
    assert("acc_dist_slots"@ != "anon_write_frac"@) by {
        reveal_strlit("acc_dist_slots");
        reveal_strlit("anon_write_frac");
        assert("acc_dist_slots"@.len() == 14);
        assert("anon_write_frac"@.len() == 15);
    }
    assert("acc_dist_slots"@ != "sleep_mean"@) by {
        reveal_strlit("acc_dist_slots");
        reveal_strlit("sleep_mean");
        assert("acc_dist_slots"@.len() == 14);
        assert("sleep_mean"@.len() == 10);
    }
    assert("acc_dist_slots"@ != "sleep_stdev_ratio"@) by {
        reveal_strlit("acc_dist_slots");
        reveal_strlit("sleep_stdev_ratio");
        assert("acc_dist_slots"@.len() == 14);
        assert("sleep_stdev_ratio"@.len() == 17);
    }
    assert("acc_dist_slots"@ != "cpu_ratio"@) by {
        reveal_strlit("acc_dist_slots");
        reveal_strlit("cpu_ratio");
        assert("acc_dist_slots"@.len() == 14);
        assert("cpu_ratio"@.len() == 9);
    }
    assert("acc_dist_slots"@ != "log_bps"@) by {
        reveal_strlit("acc_dist_slots");
        reveal_strlit("log_bps");
        assert("acc_dist_slots"@.len() == 14);
        assert("log_bps"@.len() == 7);
    }
    assert("acc_dist_slots"@ != "fake_cpu_load"@) by {
        reveal_strlit("acc_dist_slots");
        reveal_strlit("fake_cpu_load");
        assert("acc_dist_slots"@.len() == 14);
        assert("fake_cpu_load"@.len() == 13);
    }
}

proof fn lemma_field_value_lat_pid(s: Seq<char>, i: int, p: ParamsV, pid: PidParams, j: int)
    requires
        parse_pid(s, i) == Some((pid, j)),
    ensures
        parse_field_value(s, i, "lat_pid"@, p) == Some(((ParamsV { lat_pid: pid, ..p }), j)),
{
    assert("lat_pid"@ != "control_period"@) by {
        reveal_strlit("lat_pid");
        reveal_strlit("control_period");
        assert("lat_pid"@.len() == 7);
        assert("control_period"@.len() == 14);
    }
    assert("lat_pid"@ != "concurrency_max"@) by {
        reveal_strlit("lat_pid");
        reveal_strlit("concurrency_max");
        assert("lat_pid"@.len() == 7);
        assert("concurrency_max"@.len() == 15);
    }
    assert("lat_pid"@ != "lat_target_pct"@) by {
        reveal_strlit("lat_pid");
        reveal_strlit("lat_target_pct");
        assert("lat_pid"@.len() == 7);
        assert("lat_target_pct"@.len() == 14);
    }
    assert("lat_pid"@ != "lat_target"@) by {
        reveal_strlit("lat_pid");
        reveal_strlit("lat_target");
        assert("lat_pid"@.len() == 7);
        assert("lat_target"@.len() == 10);
    }
    assert("lat_pid"@ != "rps_target"@) by {
        reveal_strlit("lat_pid");
        reveal_strlit("rps_target");
        assert("lat_pid"@.len() == 7);
        assert("rps_target"@.len() == 10);
    }
    assert("lat_pid"@ != "rps_max"@) by {
        reveal_strlit("lat_pid");
        reveal_strlit("rps_max");
        assert("lat_pid"@[0] == 'l');
        assert("rps_max"@[0] == 'r');
    }
    assert("lat_pid"@ != "mem_frac"@) by {
        reveal_strlit("lat_pid");
        reveal_strlit("mem_frac");
        assert("lat_pid"@.len() == 7);
        assert("mem_frac"@.len() == 8);
    }
    assert("lat_pid"@ != "chunk_pages"@) by {
        reveal_strlit("lat_pid");
        reveal_strlit("chunk_pages");
        assert("lat_pid"@.len() == 7);
        assert("chunk_pages"@.len() == 11);
    }
    assert("lat_pid"@ != "file_frac"@) by {
        reveal_strlit("lat_pid");
        reveal_strlit("file_frac");
        assert("lat_pid"@.len() == 7);
        assert("file_frac"@.len() == 9);
    }
    assert("lat_pid"@ != "file_size_mean"@) by {
        reveal_strlit("lat_pid");
        reveal_strlit("file_size_mean");
        assert("lat_pid"@.len() == 7);
        assert("file_size_mean"@.len() == 14);
    }
    assert("lat_pid"@ != "file_size_stdev_ratio"@) by {
        reveal_strlit("lat_pid");
        reveal_strlit("file_size_stdev_ratio");
        assert("lat_pid"@.len() == 7);
        assert("file_size_stdev_ratio"@.len() == 21);
    }
    assert("lat_pid"@ != "file_addr_stdev_ratio"@) by {
        reveal_strlit("lat_pid");
        reveal_strlit("file_addr_stdev_ratio");
        assert("lat_pid"@.len() == 7);
        assert("file_addr_stdev_ratio"@.len() == 21);
    }
    assert("lat_pid"@ != "file_addr_rps_base_frac"@) by {
        reveal_strlit("lat_pid");
        reveal_strlit("file_addr_rps_base_frac");
        assert("lat_pid"@.len() == 7);
        assert("file_addr_rps_base_frac"@.len() == 23);
    }
    assert("lat_pid"@ != "file_write_frac"@) by {
        reveal_strlit("lat_pid");
        reveal_strlit("file_write_frac");
        assert("lat_pid"@.len() == 7);
        assert("file_write_frac"@.len() == 15);
    }
    assert("lat_pid"@ != "anon_size_ratio"@) by {
        reveal_strlit("lat_pid");
        reveal_strlit("anon_size_ratio");
        assert("lat_pid"@.len() == 7);
        assert("anon_size_ratio"@.len() == 15);
    }
    assert("lat_pid"@ != "anon_size_stdev_ratio"@) by {
        reveal_strlit("lat_pid");
        reveal_strlit("anon_size_stdev_ratio");
        assert("lat_pid"@.len() == 7);
        assert("anon_size_stdev_ratio"@.len() == 21);
    }
    assert("lat_pid"@ != "anon_addr_stdev_ratio"@) by {
        reveal_strlit("lat_pid");
        reveal_strlit("anon_addr_stdev_ratio");
        assert("lat_pid"@.len() == 7);
        assert("anon_addr_stdev_ratio"@.len() == 21);
    }
    assert("lat_pid"@ != "anon_addr_rps_base_frac"@) by {
        reveal_strlit("lat_pid");
        reveal_strlit("anon_addr_rps_base_frac");
        assert("lat_pid"@.len() == 7);
        assert("anon_addr_rps_base_frac"@.len() == 23);
    }
    assert("lat_pid"@ != "anon_write_frac"@) by {
        reveal_strlit("lat_pid");
        reveal_strlit("anon_write_frac");
        assert("lat_pid"@.len() == 7);
        assert("anon_write_frac"@.len() == 15);
    }
    assert("lat_pid"@ != "sleep_mean"@) by {
        reveal_strlit("lat_pid");
        reveal_strlit("sleep_mean");
        assert("lat_pid"@.len() == 7);
        assert("sleep_mean"@.len() == 10);
    }
    assert("lat_pid"@ != "sleep_stdev_ratio"@) by {
        reveal_strlit("lat_pid");
        reveal_strlit("sleep_stdev_ratio");
        assert("lat_pid"@.len() == 7);
        assert("sleep_stdev_ratio"@.len() == 17);
    }
    assert("lat_pid"@ != "cpu_ratio"@) by {
        reveal_strlit("lat_pid");
        reveal_strlit("cpu_ratio");
        assert("lat_pid"@.len() == 7);
        assert("cpu_ratio"@.len() == 9);
    }
    assert("lat_pid"@ != "log_bps"@) by {
        reveal_strlit("lat_pid");
        reveal_strlit("log_bps");
        assert("lat_pid"@[1] == 'a');
        assert("log_bps"@[1] == 'o');
    }
    assert("lat_pid"@ != "fake_cpu_load"@) by {
        reveal_strlit("lat_pid");
        reveal_strlit("fake_cpu_load");
        assert("lat_pid"@.len() == 7);
        assert("fake_cpu_load"@.len() == 13);
    }
    assert("lat_pid"@ != "acc_dist_slots"@) by {
        reveal_strlit("lat_pid");
        reveal_strlit("acc_dist_slots");
        assert("lat_pid"@.len() == 7);
        assert("acc_dist_slots"@.len() == 14);
    }
}

proof fn lemma_field_value_rps_pid(s: Seq<char>, i: int, p: ParamsV, pid: PidParams, j: int)
    requires
        parse_pid(s, i) == Some((pid, j)),
    ensures
        parse_field_value(s, i, "rps_pid"@, p) == Some(((ParamsV { rps_pid: pid, ..p }), j)),
{
    assert("rps_pid"@ != "control_period"@) by {
        reveal_strlit("rps_pid");
        reveal_strlit("control_period");
        assert("rps_pid"@.len() == 7);
        assert("control_period"@.len() == 14);
    }
    assert("rps_pid"@ != "concurrency_max"@) by {
        reveal_strlit("rps_pid");
        reveal_strlit("concurrency_max");
        assert("rps_pid"@.len() == 7);
        assert("concurrency_max"@.len() == 15);
    }
    assert("rps_pid"@ != "lat_target_pct"@) by {
        reveal_strlit("rps_pid");
        reveal_strlit("lat_target_pct");
        assert("rps_pid"@.len() == 7);
        assert("lat_target_pct"@.len() == 14);
    }
    assert("rps_pid"@ != "lat_target"@) by {
        reveal_strlit("rps_pid");
        reveal_strlit("lat_target");
        assert("rps_pid"@.len() == 7);
        assert("lat_target"@.len() == 10);
    }
    assert("rps_pid"@ != "rps_target"@) by {
        reveal_strlit("rps_pid");
        reveal_strlit("rps_target");
        assert("rps_pid"@.len() == 7);
        assert("rps_target"@.len() == 10);
    }
    assert("rps_pid"@ != "rps_max"@) by {
        reveal_strlit("rps_pid");
        reveal_strlit("rps_max");
        assert("rps_pid"@[4] == 'p');
        assert("rps_max"@[4] == 'm');
    }
    assert("rps_pid"@ != "mem_frac"@) by {
        reveal_strlit("rps_pid");
        reveal_strlit("mem_frac");
        assert("rps_pid"@.len() == 7);
        assert("mem_frac"@.len() == 8);
    }
    assert("rps_pid"@ != "chunk_pages"@) by {
        reveal_strlit("rps_pid");
        reveal_strlit("chunk_pages");
        assert("rps_pid"@.len() == 7);
        assert("chunk_pages"@.len() == 11);
    }
    assert("rps_pid"@ != "file_frac"@) by {
        reveal_strlit("rps_pid");
        reveal_strlit("file_frac");
        assert("rps_pid"@.len() == 7);
        assert("file_frac"@.len() == 9);
    }
    assert("rps_pid"@ != "file_size_mean"@) by {
        reveal_strlit("rps_pid");
        reveal_strlit("file_size_mean");
        assert("rps_pid"@.len() == 7);
        assert("file_size_mean"@.len() == 14);
    }
    assert("rps_pid"@ != "file_size_stdev_ratio"@) by {
        reveal_strlit("rps_pid");
        reveal_strlit("file_size_stdev_ratio");
        assert("rps_pid"@.len() == 7);
        assert("file_size_stdev_ratio"@.len() == 21);
    }
    assert("rps_pid"@ != "file_addr_stdev_ratio"@) by {
        reveal_strlit("rps_pid");
        reveal_strlit("file_addr_stdev_ratio");
        assert("rps_pid"@.len() == 7);
        assert("file_addr_stdev_ratio"@.len() == 21);
    }
    assert("rps_pid"@ != "file_addr_rps_base_frac"@) by {
        reveal_strlit("rps_pid");
        reveal_strlit("file_addr_rps_base_frac");
        assert("rps_pid"@.len() == 7);
        assert("file_addr_rps_base_frac"@.len() == 23);
    }
    assert("rps_pid"@ != "file_write_frac"@) by {
        reveal_strlit("rps_pid");
        reveal_strlit("file_write_frac");
        assert("rps_pid"@.len() == 7);
        assert("file_write_frac"@.len() == 15);
    }
    assert("rps_pid"@ != "anon_size_ratio"@) by {
        reveal_strlit("rps_pid");
        reveal_strlit("anon_size_ratio");
        assert("rps_pid"@.len() == 7);
        assert("anon_size_ratio"@.len() == 15);
    }
    assert("rps_pid"@ != "anon_size_stdev_ratio"@) by {
        reveal_strlit("rps_pid");
        reveal_strlit("anon_size_stdev_ratio");
        assert("rps_pid"@.len() == 7);
        assert("anon_size_stdev_ratio"@.len() == 21);
    }
    assert("rps_pid"@ != "anon_addr_stdev_ratio"@) by {
        reveal_strlit("rps_pid");
        reveal_strlit("anon_addr_stdev_ratio");
        assert("rps_pid"@.len() == 7);
        assert("anon_addr_stdev_ratio"@.len() == 21);
    }
    assert("rps_pid"@ != "anon_addr_rps_base_frac"@) by {
        reveal_strlit("rps_pid");
        reveal_strlit("anon_addr_rps_base_frac");
        assert("rps_pid"@.len() == 7);
        assert("anon_addr_rps_base_frac"@.len() == 23);
    }
    assert("rps_pid"@ != "anon_write_frac"@) by {
        reveal_strlit("rps_pid");
        reveal_strlit("anon_write_frac");
        assert("rps_pid"@.len() == 7);
        assert("anon_write_frac"@.len() == 15);
    }
    assert("rps_pid"@ != "sleep_mean"@) by {
        reveal_strlit("rps_pid");
        reveal_strlit("sleep_mean");
        assert("rps_pid"@.len() == 7);
        assert("sleep_mean"@.len() == 10);
    }
    assert("rps_pid"@ != "sleep_stdev_ratio"@) by {
        reveal_strlit("rps_pid");
        reveal_strlit("sleep_stdev_ratio");
        assert("rps_pid"@.len() == 7);
        assert("sleep_stdev_ratio"@.len() == 17);
    }
    assert("rps_pid"@ != "cpu_ratio"@) by {
        reveal_strlit("rps_pid");
        reveal_strlit("cpu_ratio");
        assert("rps_pid"@.len() == 7);
        assert("cpu_ratio"@.len() == 9);
    }
    assert("rps_pid"@ != "log_bps"@) by {
        reveal_strlit("rps_pid");
        reveal_strlit("log_bps");
        assert("rps_pid"@[0] == 'r');
        assert("log_bps"@[0] == 'l');
    }
    assert("rps_pid"@ != "fake_cpu_load"@) by {
        reveal_strlit("rps_pid");
        reveal_strlit("fake_cpu_load");
        assert("rps_pid"@.len() == 7);
        assert("fake_cpu_load"@.len() == 13);
    }
    assert("rps_pid"@ != "acc_dist_slots"@) by {
        reveal_strlit("rps_pid");
        reveal_strlit("acc_dist_slots");
        assert("rps_pid"@.len() == 7);
        assert("acc_dist_slots"@.len() == 14);
    }
    assert("rps_pid"@ != "lat_pid"@) by {
        reveal_strlit("rps_pid");
        reveal_strlit("lat_pid");
        assert("rps_pid"@[0] == 'r');
        assert("lat_pid"@[0] == 'l');
    }
}

proof fn lemma_field_value_anon_histogram(s: Seq<char>, i: int, p: ParamsV, h: Seq<u64>, j: int)
    requires
        parse_hist(s, i) == Some((h, j)),
    ensures
        parse_field_value(s, i, "anon_histogram"@, p) == Some(((ParamsV { anon_histogram: h, ..p }), j)),
{
    assert("anon_histogram"@ != "control_period"@) by {
        reveal_strlit("anon_histogram");
        reveal_strlit("control_period");
        assert("anon_histogram"@[0] == 'a');
        assert("control_period"@[0] == 'c');
    }
    assert("anon_histogram"@ != "concurrency_max"@) by {
        reveal_strlit("anon_histogram");
        reveal_strlit("concurrency_max");
        assert("anon_histogram"@.len() == 14);
        assert("concurrency_max"@.len() == 15);
    }
    assert("anon_histogram"@ != "lat_target_pct"@) by {
        reveal_strlit("anon_histogram");
        reveal_strlit("lat_target_pct");
        assert("anon_histogram"@[0] == 'a');
        assert("lat_target_pct"@[0] == 'l');
    }
    assert("anon_histogram"@ != "lat_target"@) by {
        reveal_strlit("anon_histogram");
        reveal_strlit("lat_target");
        assert("anon_histogram"@.len() == 14);
        assert("lat_target"@.len() == 10);
    }
    assert("anon_histogram"@ != "rps_target"@) by {
        reveal_strlit("anon_histogram");
        reveal_strlit("rps_target");
        assert("anon_histogram"@.len() == 14);
        assert("rps_target"@.len() == 10);
    }
    assert("anon_histogram"@ != "rps_max"@) by {
        reveal_strlit("anon_histogram");
        reveal_strlit("rps_max");
        assert("anon_histogram"@.len() == 14);
        assert("rps_max"@.len() == 7);
    }
    assert("anon_histogram"@ != "mem_frac"@) by {
        reveal_strlit("anon_histogram");
        reveal_strlit("mem_frac");
        assert("anon_histogram"@.len() == 14);
        assert("mem_frac"@.len() == 8);
    }
    assert("anon_histogram"@ != "chunk_pages"@) by {
        reveal_strlit("anon_histogram");
        reveal_strlit("chunk_pages");
        assert("anon_histogram"@.len() == 14);
        assert("chunk_pages"@.len() == 11);
    }
    assert("anon_histogram"@ != "file_frac"@) by {
        reveal_strlit("anon_histogram");
        reveal_strlit("file_frac");
        assert("anon_histogram"@.len() == 14);
        assert("file_frac"@.len() == 9);
    }
    assert("anon_histogram"@ != "file_size_mean"@) by {
        reveal_strlit("anon_histogram");
        reveal_strlit("file_size_mean");
        assert("anon_histogram"@[0] == 'a');
        assert("file_size_mean"@[0] == 'f');
    }
    assert("anon_histogram"@ != "file_size_stdev_ratio"@) by {
        reveal_strlit("anon_histogram");
        reveal_strlit("file_size_stdev_ratio");
        assert("anon_histogram"@.len() == 14);
        assert("file_size_stdev_ratio"@.len() == 21);
    }
    assert("anon_histogram"@ != "file_addr_stdev_ratio"@) by {
        reveal_strlit("anon_histogram");
        reveal_strlit("file_addr_stdev_ratio");
        assert("anon_histogram"@.len() == 14);
        assert("file_addr_stdev_ratio"@.len() == 21);
    }
    assert("anon_histogram"@ != "file_addr_rps_base_frac"@) by {
        reveal_strlit("anon_histogram");
        reveal_strlit("file_addr_rps_base_frac");
        assert("anon_histogram"@.len() == 14);
        assert("file_addr_rps_base_frac"@.len() == 23);
    }
    assert("anon_histogram"@ != "file_write_frac"@) by {
        reveal_strlit("anon_histogram");
        reveal_strlit("file_write_frac");
        assert("anon_histogram"@.len() == 14);
        assert("file_write_frac"@.len() == 15);
    }
    assert("anon_histogram"@ != "anon_size_ratio"@) by {
        reveal_strlit("anon_histogram");
        reveal_strlit("anon_size_ratio");
        assert("anon_histogram"@.len() == 14);
        assert("anon_size_ratio"@.len() == 15);
    }
    assert("anon_histogram"@ != "anon_size_stdev_ratio"@) by {
        reveal_strlit("anon_histogram");
        reveal_strlit("anon_size_stdev_ratio");
        assert("anon_histogram"@.len() == 14);
        assert("anon_size_stdev_ratio"@.len() == 21);
    }
    assert("anon_histogram"@ != "anon_addr_stdev_ratio"@) by {
        reveal_strlit("anon_histogram");
        reveal_strlit("anon_addr_stdev_ratio");
        assert("anon_histogram"@.len() == 14);
        assert("anon_addr_stdev_ratio"@.len() == 21);
    }
    assert("anon_histogram"@ != "anon_addr_rps_base_frac"@) by {
        reveal_strlit("anon_histogram");
        reveal_strlit("anon_addr_rps_base_frac");
        assert("anon_histogram"@.len() == 14);
        assert("anon_addr_rps_base_frac"@.len() == 23);
    }
    assert("anon_histogram"@ != "anon_write_frac"@) by {
        reveal_strlit("anon_histogram");
        reveal_strlit("anon_write_frac");
        assert("anon_histogram"@.len() == 14);
        assert("anon_write_frac"@.len() == 15);
    }
    assert("anon_histogram"@ != "sleep_mean"@) by {
        reveal_strlit("anon_histogram");
        reveal_strlit("sleep_mean");
        assert("anon_histogram"@.len() == 14);
        assert("sleep_mean"@.len() == 10);
    }
    assert("anon_histogram"@ != "sleep_stdev_ratio"@) by {
        reveal_strlit("anon_histogram");
        reveal_strlit("sleep_stdev_ratio");
        assert("anon_histogram"@.len() == 14);
        assert("sleep_stdev_ratio"@.len() == 17);
    }
    assert("anon_histogram"@ != "cpu_ratio"@) by {
        reveal_strlit("anon_histogram");
        reveal_strlit("cpu_ratio");
        assert("anon_histogram"@.len() == 14);
        assert("cpu_ratio"@.len() == 9);
    }
    assert("anon_histogram"@ != "log_bps"@) by {
        reveal_strlit("anon_histogram");
        reveal_strlit("log_bps");
        assert("anon_histogram"@.len() == 14);
        assert("log_bps"@.len() == 7);
    }
    assert("anon_histogram"@ != "fake_cpu_load"@) by {
        reveal_strlit("anon_histogram");
        reveal_strlit("fake_cpu_load");
        assert("anon_histogram"@.len() == 14);
        assert("fake_cpu_load"@.len() == 13);
    }
    assert("anon_histogram"@ != "acc_dist_slots"@) by {
        reveal_strlit("anon_histogram");
        reveal_strlit("acc_dist_slots");
        assert("anon_histogram"@[1] == 'n');
        assert("acc_dist_slots"@[1] == 'c');
    }
    assert("anon_histogram"@ != "lat_pid"@) by {
        reveal_strlit("anon_histogram");
        reveal_strlit("lat_pid");
        assert("anon_histogram"@.len() == 14);
        assert("lat_pid"@.len() == 7);
    }
    assert("anon_histogram"@ != "rps_pid"@) by {
        reveal_strlit("anon_histogram");
        reveal_strlit("rps_pid");
        assert("anon_histogram"@.len() == 14);
        assert("rps_pid"@.len() == 7);
    }
}

#[verifier::rlimit(100)]
proof fn lemma_member_control_period_head(s: Seq<char>, i: int, n: i64, rest: Seq<char>)
    requires
        0 <= i <= s.len(),
        s.subrange(i, s.len() as int) == "\"control_period\": "@ + (render_dec(n as int) + (",\n"@ + ("  "@ + rest))),
        rest.len() >= 1,
        rest[0] == '"',
    ensures
        i < s.len(),
        s[i] == '"',
        scan_string(s, i + 1) == i + 15,
        i + 15 < s.len(),
        s[i + 15] == '"',
        s.subrange(i + 1, i + 15) == "control_period"@,
        skip_trivia(s, i + 16) == i + 16,
        i + 16 < s.len(),
        s[i + 16] == ':',
        skip_trivia(s, i + 17) == i + 18,
        i + 18 + render_dec(n as int).len() + 4 == s.len() - rest.len(),
        parse_dec(s, i + 18) == Some((n as int, i + 18 + render_dec(n as int).len() as int)),
        skip_trivia(s, i + 18 + render_dec(n as int).len() as int) == i + 18 + render_dec(n as int).len(),
        i + 18 + render_dec(n as int).len() < s.len(),
        s[i + 18 + render_dec(n as int).len()] == ',',
        skip_trivia(s, i + 18 + render_dec(n as int).len() + 1) == s.len() - rest.len(),
        s.subrange(s.len() - rest.len(), s.len() as int) == rest,
{
    reveal_strlit("\"control_period\": ");
    reveal_strlit("control_period");
    reveal_strlit(",\n");
    reveal_strlit("  ");
    let kseg = "\"control_period\": "@;
    let v = render_dec(n as int);
    let suf = kseg + (v + (",\n"@ + ("  "@ + rest)));
    assert(kseg.len() == 18);
    assert(s.len() - i == suf.len());
    assert forall|x: int| 0 <= x < suf.len() implies s[i + x] == suf[x] by {
        assert(s.subrange(i, s.len() as int)[x] == suf[x]);
    }
    assert(s[i + 0] == '"') by { assert(suf[0int] == '"'); }
    assert(s[i + 1] == 'c') by { assert(suf[1int] == 'c'); }
    assert(s[i + 2] == 'o') by { assert(suf[2int] == 'o'); }
    assert(s[i + 3] == 'n') by { assert(suf[3int] == 'n'); }
    assert(s[i + 4] == 't') by { assert(suf[4int] == 't'); }
    assert(s[i + 5] == 'r') by { assert(suf[5int] == 'r'); }
    assert(s[i + 6] == 'o') by { assert(suf[6int] == 'o'); }
    assert(s[i + 7] == 'l') by { assert(suf[7int] == 'l'); }
    assert(s[i + 8] == '_') by { assert(suf[8int] == '_'); }
    assert(s[i + 9] == 'p') by { assert(suf[9int] == 'p'); }
    assert(s[i + 10] == 'e') by { assert(suf[10int] == 'e'); }
    assert(s[i + 11] == 'r') by { assert(suf[11int] == 'r'); }
    assert(s[i + 12] == 'i') by { assert(suf[12int] == 'i'); }
    assert(s[i + 13] == 'o') by { assert(suf[13int] == 'o'); }
    assert(s[i + 14] == 'd') by { assert(suf[14int] == 'd'); }
    assert(s[i + 15] == '"') by { assert(suf[15int] == '"'); }
    assert(s[i + 16] == ':') by { assert(suf[16int] == ':'); }
    assert(s[i + 17] == ' ') by { assert(suf[17int] == ' '); }
    lemma_scan_string_region(s, i + 1, i + 15);
    assert forall|t: int| 0 <= t < 14 implies s.subrange(i + 1, i + 15)[t] == "control_period"@[t] by {
        assert(s[i + (1 + t)] == suf[1 + t]);
        assert(suf[1 + t] == "control_period"@[t]);
    }
    assert(s.subrange(i + 1, i + 15) =~= "control_period"@);
    lemma_skip_ws_region(s, i + 16, i + 16);
    lemma_render_dec_shape(n);
    let vpos = i + 18;
    assert(s[vpos] == v[0]) by { assert(suf[18int] == v[0]); }
    lemma_skip_ws_region(s, i + 17, vpos);
    assert forall|x: int| 0 <= x < v.len() implies s.subrange(vpos, vpos + v.len() as int)[x] == v[x] by {
        assert(s[i + (18 + x)] == suf[18 + x]);
        assert(suf[18 + x] == v[x]);
    }
    assert(s.subrange(vpos, vpos + v.len() as int) =~= v);
    let j = vpos + v.len() as int;
    assert(s[j] == ',') by {
        assert(s[i + (18 + v.len())] == suf[18 + v.len() as int]);
        assert(suf[18 + v.len() as int] == ',');
    }
    assert(s[j + 1] == '\n') by {
        assert(s[i + (18 + v.len() + 1)] == suf[18 + v.len() as int + 1]);
        assert(suf[18 + v.len() as int + 1] == '\n');
    }
    assert(s[j + 2] == ' ') by {
        assert(s[i + (18 + v.len() + 2)] == suf[18 + v.len() as int + 2]);
        assert(suf[18 + v.len() as int + 2] == ' ');
    }
    assert(s[j + 3] == ' ') by {
        assert(s[i + (18 + v.len() + 3)] == suf[18 + v.len() as int + 3]);
        assert(suf[18 + v.len() as int + 3] == ' ');
    }
    assert(s[j + 4] == '"') by {
        assert(s[i + (18 + v.len() + 4)] == suf[18 + v.len() as int + 4]);
        assert(suf[18 + v.len() as int + 4] == rest[0]);
    }
    assert(!is_digit(s[j])) by { assert(',' as u32 == 44); }
    lemma_parse_dec_render(s, vpos, n);
    lemma_skip_ws_region(s, j, j);
    lemma_skip_ws_region(s, j + 1, j + 4);
    assert forall|t: int| 0 <= t < rest.len() implies s.subrange(j + 4, s.len() as int)[t] == rest[t] by {
        assert(s[i + (18 + v.len() + 4 + t)] == suf[18 + v.len() as int + 4 + t]);
        assert(suf[18 + v.len() as int + 4 + t] == rest[t]);
    }
    assert(s.subrange(j + 4, s.len() as int) =~= rest);
}

proof fn lemma_member_control_period(s: Seq<char>, i: int, p: ParamsV, first: bool, n: i64, rest: Seq<char>)
    requires
        0 <= i <= s.len(),
        s.subrange(i, s.len() as int) == "\"control_period\": "@ + (render_dec(n as int) + (",\n"@ + ("  "@ + rest))),
        rest.len() >= 1,
        rest[0] == '"',
    ensures
        parse_members(s, i, p, first) == parse_members(s, s.len() - rest.len(), (ParamsV { control_period: Decimal { nanos: n }, ..p }), false),
        s.subrange(s.len() - rest.len(), s.len() as int) == rest,
{
    lemma_member_control_period_head(s, i, n, rest);
    let vpos = i + 18;
    let j = vpos + render_dec(n as int).len() as int;
    lemma_field_value_control_period(s, vpos, p, n, j);
    lemma_members_step(s, i, p, first, "control_period"@, (ParamsV { control_period: Decimal { nanos: n }, ..p }), i + 15, i + 16, vpos, j, j + 4);
}

#[verifier::rlimit(100)]
proof fn lemma_member_concurrency_max_head(s: Seq<char>, i: int, n: u32, rest: Seq<char>)
    requires
        0 <= i <= s.len(),
        s.subrange(i, s.len() as int) == "\"concurrency_max\": "@ + (render_uint(n as nat) + (",\n"@ + ("  "@ + rest))),
        rest.len() >= 1,
        rest[0] == '"',
    ensures
        i < s.len(),
        s[i] == '"',
        scan_string(s, i + 1) == i + 16,
        i + 16 < s.len(),
        s[i + 16] == '"',
        s.subrange(i + 1, i + 16) == "concurrency_max"@,
        skip_trivia(s, i + 17) == i + 17,
        i + 17 < s.len(),
        s[i + 17] == ':',
        skip_trivia(s, i + 18) == i + 19,
        i + 19 + render_uint(n as nat).len() + 4 == s.len() - rest.len(),
        parse_uint(s, i + 19, u32::MAX as nat) == Some((n as nat, i + 19 + render_uint(n as nat).len() as int)),
        skip_trivia(s, i + 19 + render_uint(n as nat).len() as int) == i + 19 + render_uint(n as nat).len(),
        i + 19 + render_uint(n as nat).len() < s.len(),
        s[i + 19 + render_uint(n as nat).len()] == ',',
        skip_trivia(s, i + 19 + render_uint(n as nat).len() + 1) == s.len() - rest.len(),
        s.subrange(s.len() - rest.len(), s.len() as int) == rest,
{
    reveal_strlit("\"concurrency_max\": ");
    reveal_strlit("concurrency_max");
    reveal_strlit(",\n");
    reveal_strlit("  ");
    let kseg = "\"concurrency_max\": "@;
    let v = render_uint(n as nat);
    let suf = kseg + (v + (",\n"@ + ("  "@ + rest)));
    assert(kseg.len() == 19);
    assert(s.len() - i == suf.len());
    assert forall|x: int| 0 <= x < suf.len() implies s[i + x] == suf[x] by {
        assert(s.subrange(i, s.len() as int)[x] == suf[x]);
    }
    assert(s[i + 0] == '"') by { assert(suf[0int] == '"'); }
    assert(s[i + 1] == 'c') by { assert(suf[1int] == 'c'); }
    assert(s[i + 2] == 'o') by { assert(suf[2int] == 'o'); }
    assert(s[i + 3] == 'n') by { assert(suf[3int] == 'n'); }
    assert(s[i + 4] == 'c') by { assert(suf[4int] == 'c'); }
    assert(s[i + 5] == 'u') by { assert(suf[5int] == 'u'); }
    assert(s[i + 6] == 'r') by { assert(suf[6int] == 'r'); }
    assert(s[i + 7] == 'r') by { assert(suf[7int] == 'r'); }
    assert(s[i + 8] == 'e') by { assert(suf[8int] == 'e'); }
    assert(s[i + 9] == 'n') by { assert(suf[9int] == 'n'); }
    assert(s[i + 10] == 'c') by { assert(suf[10int] == 'c'); }
    assert(s[i + 11] == 'y') by { assert(suf[11int] == 'y'); }
    assert(s[i + 12] == '_') by { assert(suf[12int] == '_'); }
    assert(s[i + 13] == 'm') by { assert(suf[13int] == 'm'); }
    assert(s[i + 14] == 'a') by { assert(suf[14int] == 'a'); }
    assert(s[i + 15] == 'x') by { assert(suf[15int] == 'x'); }
    assert(s[i + 16] == '"') by { assert(suf[16int] == '"'); }
    assert(s[i + 17] == ':') by { assert(suf[17int] == ':'); }
    assert(s[i + 18] == ' ') by { assert(suf[18int] == ' '); }
    lemma_scan_string_region(s, i + 1, i + 16);
    assert forall|t: int| 0 <= t < 15 implies s.subrange(i + 1, i + 16)[t] == "concurrency_max"@[t] by {
        assert(s[i + (1 + t)] == suf[1 + t]);
        assert(suf[1 + t] == "concurrency_max"@[t]);
    }
    assert(s.subrange(i + 1, i + 16) =~= "concurrency_max"@);
    lemma_skip_ws_region(s, i + 17, i + 17);
    lemma_render_uint_shape(n as u64);
    assert(render_uint(n as nat) == dec_digits((n as u64) as nat));
    let vpos = i + 19;
    assert(s[vpos] == v[0]) by { assert(suf[19int] == v[0]); }
    lemma_skip_ws_region(s, i + 18, vpos);
    assert forall|x: int| 0 <= x < v.len() implies s.subrange(vpos, vpos + v.len() as int)[x] == v[x] by {
        assert(s[i + (19 + x)] == suf[19 + x]);
        assert(suf[19 + x] == v[x]);
    }
    assert(s.subrange(vpos, vpos + v.len() as int) =~= v);
    let j = vpos + v.len() as int;
    assert(s[j] == ',') by {
        assert(s[i + (19 + v.len())] == suf[19 + v.len() as int]);
        assert(suf[19 + v.len() as int] == ',');
    }
    assert(s[j + 1] == '\n') by {
        assert(s[i + (19 + v.len() + 1)] == suf[19 + v.len() as int + 1]);
        assert(suf[19 + v.len() as int + 1] == '\n');
    }
    assert(s[j + 2] == ' ') by {
        assert(s[i + (19 + v.len() + 2)] == suf[19 + v.len() as int + 2]);
        assert(suf[19 + v.len() as int + 2] == ' ');
    }
    assert(s[j + 3] == ' ') by {
        assert(s[i + (19 + v.len() + 3)] == suf[19 + v.len() as int + 3]);
        assert(suf[19 + v.len() as int + 3] == ' ');
    }
    assert(s[j + 4] == '"') by {
        assert(s[i + (19 + v.len() + 4)] == suf[19 + v.len() as int + 4]);
        assert(suf[19 + v.len() as int + 4] == rest[0]);
    }
    assert(!is_digit(s[j]) && s[j] != '.') by { assert(',' as u32 == 44); }
    lemma_parse_uint_render(s, vpos, n as u64, u32::MAX as nat);
    lemma_skip_ws_region(s, j, j);
    lemma_skip_ws_region(s, j + 1, j + 4);
    assert forall|t: int| 0 <= t < rest.len() implies s.subrange(j + 4, s.len() as int)[t] == rest[t] by {
        assert(s[i + (19 + v.len() + 4 + t)] == suf[19 + v.len() as int + 4 + t]);
        assert(suf[19 + v.len() as int + 4 + t] == rest[t]);
    }
    assert(s.subrange(j + 4, s.len() as int) =~= rest);
}

proof fn lemma_member_concurrency_max(s: Seq<char>, i: int, p: ParamsV, first: bool, n: u32, rest: Seq<char>)
    requires
        0 <= i <= s.len(),
        s.subrange(i, s.len() as int) == "\"concurrency_max\": "@ + (render_uint(n as nat) + (",\n"@ + ("  "@ + rest))),
        rest.len() >= 1,
        rest[0] == '"',
    ensures
        parse_members(s, i, p, first) == parse_members(s, s.len() - rest.len(), (ParamsV { concurrency_max: n, ..p }), false),
        s.subrange(s.len() - rest.len(), s.len() as int) == rest,
{
    lemma_member_concurrency_max_head(s, i, n, rest);
    let vpos = i + 19;
    let j = vpos + render_uint(n as nat).len() as int;
    lemma_field_value_concurrency_max(s, vpos, p, n, j);
    lemma_members_step(s, i, p, first, "concurrency_max"@, (ParamsV { concurrency_max: n, ..p }), i + 16, i + 17, vpos, j, j + 4);
}

#[verifier::rlimit(100)]
proof fn lemma_member_lat_target_pct_head(s: Seq<char>, i: int, n: i64, rest: Seq<char>)
    requires
        0 <= i <= s.len(),
        s.subrange(i, s.len() as int) == "\"lat_target_pct\": "@ + (render_dec(n as int) + (",\n"@ + ("  "@ + rest))),
        rest.len() >= 1,
        rest[0] == '"',
    ensures
        i < s.len(),
        s[i] == '"',
        scan_string(s, i + 1) == i + 15,
        i + 15 < s.len(),
        s[i + 15] == '"',
        s.subrange(i + 1, i + 15) == "lat_target_pct"@,
        skip_trivia(s, i + 16) == i + 16,
        i + 16 < s.len(),
        s[i + 16] == ':',
        skip_trivia(s, i + 17) == i + 18,
        i + 18 + render_dec(n as int).len() + 4 == s.len() - rest.len(),
        parse_dec(s, i + 18) == Some((n as int, i + 18 + render_dec(n as int).len() as int)),
        skip_trivia(s, i + 18 + render_dec(n as int).len() as int) == i + 18 + render_dec(n as int).len(),
        i + 18 + render_dec(n as int).len() < s.len(),
        s[i + 18 + render_dec(n as int).len()] == ',',
        skip_trivia(s, i + 18 + render_dec(n as int).len() + 1) == s.len() - rest.len(),
        s.subrange(s.len() - rest.len(), s.len() as int) == rest,
{
    reveal_strlit("\"lat_target_pct\": ");
    reveal_strlit("lat_target_pct");
    reveal_strlit(",\n");
    reveal_strlit("  ");
    let kseg = "\"lat_target_pct\": "@;
    let v = render_dec(n as int);
    let suf = kseg + (v + (",\n"@ + ("  "@ + rest)));
    assert(kseg.len() == 18);
    assert(s.len() - i == suf.len());
    assert forall|x: int| 0 <= x < suf.len() implies s[i + x] == suf[x] by {
        assert(s.subrange(i, s.len() as int)[x] == suf[x]);
    }
    assert(s[i + 0] == '"') by { assert(suf[0int] == '"'); }
    assert(s[i + 1] == 'l') by { assert(suf[1int] == 'l'); }
    assert(s[i + 2] == 'a') by { assert(suf[2int] == 'a'); }
    assert(s[i + 3] == 't') by { assert(suf[3int] == 't'); }
    assert(s[i + 4] == '_') by { assert(suf[4int] == '_'); }
    assert(s[i + 5] == 't') by { assert(suf[5int] == 't'); }
    assert(s[i + 6] == 'a') by { assert(suf[6int] == 'a'); }
    assert(s[i + 7] == 'r') by { assert(suf[7int] == 'r'); }
    assert(s[i + 8] == 'g') by { assert(suf[8int] == 'g'); }
    assert(s[i + 9] == 'e') by { assert(suf[9int] == 'e'); }
    assert(s[i + 10] == 't') by { assert(suf[10int] == 't'); }
    assert(s[i + 11] == '_') by { assert(suf[11int] == '_'); }
    assert(s[i + 12] == 'p') by { assert(suf[12int] == 'p'); }
    assert(s[i + 13] == 'c') by { assert(suf[13int] == 'c'); }
    assert(s[i + 14] == 't') by { assert(suf[14int] == 't'); }
    assert(s[i + 15] == '"') by { assert(suf[15int] == '"'); }
    assert(s[i + 16] == ':') by { assert(suf[16int] == ':'); }
    assert(s[i + 17] == ' ') by { assert(suf[17int] == ' '); }
    lemma_scan_string_region(s, i + 1, i + 15);
    assert forall|t: int| 0 <= t < 14 implies s.subrange(i + 1, i + 15)[t] == "lat_target_pct"@[t] by {
        assert(s[i + (1 + t)] == suf[1 + t]);
        assert(suf[1 + t] == "lat_target_pct"@[t]);
    }
    assert(s.subrange(i + 1, i + 15) =~= "lat_target_pct"@);
    lemma_skip_ws_region(s, i + 16, i + 16);
    lemma_render_dec_shape(n);
    let vpos = i + 18;
    assert(s[vpos] == v[0]) by { assert(suf[18int] == v[0]); }
    lemma_skip_ws_region(s, i + 17, vpos);
    assert forall|x: int| 0 <= x < v.len() implies s.subrange(vpos, vpos + v.len() as int)[x] == v[x] by {
        assert(s[i + (18 + x)] == suf[18 + x]);
        assert(suf[18 + x] == v[x]);
    }
    assert(s.subrange(vpos, vpos + v.len() as int) =~= v);
    let j = vpos + v.len() as int;
    assert(s[j] == ',') by {
        assert(s[i + (18 + v.len())] == suf[18 + v.len() as int]);
        assert(suf[18 + v.len() as int] == ',');
    }
    assert(s[j + 1] == '\n') by {
        assert(s[i + (18 + v.len() + 1)] == suf[18 + v.len() as int + 1]);
        assert(suf[18 + v.len() as int + 1] == '\n');
    }
    assert(s[j + 2] == ' ') by {
        assert(s[i + (18 + v.len() + 2)] == suf[18 + v.len() as int + 2]);
        assert(suf[18 + v.len() as int + 2] == ' ');
    }
    assert(s[j + 3] == ' ') by {
        assert(s[i + (18 + v.len() + 3)] == suf[18 + v.len() as int + 3]);
        assert(suf[18 + v.len() as int + 3] == ' ');
    }
    assert(s[j + 4] == '"') by {
        assert(s[i + (18 + v.len() + 4)] == suf[18 + v.len() as int + 4]);
        assert(suf[18 + v.len() as int + 4] == rest[0]);
    }
    assert(!is_digit(s[j])) by { assert(',' as u32 == 44); }
    lemma_parse_dec_render(s, vpos, n);
    lemma_skip_ws_region(s, j, j);
    lemma_skip_ws_region(s, j + 1, j + 4);
    assert forall|t: int| 0 <= t < rest.len() implies s.subrange(j + 4, s.len() as int)[t] == rest[t] by {
        assert(s[i + (18 + v.len() + 4 + t)] == suf[18 + v.len() as int + 4 + t]);
        assert(suf[18 + v.len() as int + 4 + t] == rest[t]);
    }
    assert(s.subrange(j + 4, s.len() as int) =~= rest);
}

proof fn lemma_member_lat_target_pct(s: Seq<char>, i: int, p: ParamsV, first: bool, n: i64, rest: Seq<char>)
    requires
        0 <= i <= s.len(),
        s.subrange(i, s.len() as int) == "\"lat_target_pct\": "@ + (render_dec(n as int) + (",\n"@ + ("  "@ + rest))),
        rest.len() >= 1,
        rest[0] == '"',
    ensures
        parse_members(s, i, p, first) == parse_members(s, s.len() - rest.len(), (ParamsV { lat_target_pct: Decimal { nanos: n }, ..p }), false),
        s.subrange(s.len() - rest.len(), s.len() as int) == rest,
{
    lemma_member_lat_target_pct_head(s, i, n, rest);
    let vpos = i + 18;
    let j = vpos + render_dec(n as int).len() as int;
    lemma_field_value_lat_target_pct(s, vpos, p, n, j);
    lemma_members_step(s, i, p, first, "lat_target_pct"@, (ParamsV { lat_target_pct: Decimal { nanos: n }, ..p }), i + 15, i + 16, vpos, j, j + 4);
}

#[verifier::rlimit(100)]
proof fn lemma_member_lat_target_head(s: Seq<char>, i: int, n: i64, rest: Seq<char>)
    requires
        0 <= i <= s.len(),
        s.subrange(i, s.len() as int) == "\"lat_target\": "@ + (render_dec(n as int) + (",\n"@ + ("  "@ + rest))),
        rest.len() >= 1,
        rest[0] == '"',
    ensures
        i < s.len(),
        s[i] == '"',
        scan_string(s, i + 1) == i + 11,
        i + 11 < s.len(),
        s[i + 11] == '"',
        s.subrange(i + 1, i + 11) == "lat_target"@,
        skip_trivia(s, i + 12) == i + 12,
        i + 12 < s.len(),
        s[i + 12] == ':',
        skip_trivia(s, i + 13) == i + 14,
        i + 14 + render_dec(n as int).len() + 4 == s.len() - rest.len(),
        parse_dec(s, i + 14) == Some((n as int, i + 14 + render_dec(n as int).len() as int)),
        skip_trivia(s, i + 14 + render_dec(n as int).len() as int) == i + 14 + render_dec(n as int).len(),
        i + 14 + render_dec(n as int).len() < s.len(),
        s[i + 14 + render_dec(n as int).len()] == ',',
        skip_trivia(s, i + 14 + render_dec(n as int).len() + 1) == s.len() - rest.len(),
        s.subrange(s.len() - rest.len(), s.len() as int) == rest,
{
    reveal_strlit("\"lat_target\": ");
    reveal_strlit("lat_target");
    reveal_strlit(",\n");
    reveal_strlit("  ");
    let kseg = "\"lat_target\": "@;
    let v = render_dec(n as int);
    let suf = kseg + (v + (",\n"@ + ("  "@ + rest)));
    assert(kseg.len() == 14);
    assert(s.len() - i == suf.len());
    assert forall|x: int| 0 <= x < suf.len() implies s[i + x] == suf[x] by {
        assert(s.subrange(i, s.len() as int)[x] == suf[x]);
    }
    assert(s[i + 0] == '"') by { assert(suf[0int] == '"'); }
    assert(s[i + 1] == 'l') by { assert(suf[1int] == 'l'); }
    assert(s[i + 2] == 'a') by { assert(suf[2int] == 'a'); }
    assert(s[i + 3] == 't') by { assert(suf[3int] == 't'); }
    assert(s[i + 4] == '_') by { assert(suf[4int] == '_'); }
    assert(s[i + 5] == 't') by { assert(suf[5int] == 't'); }
    assert(s[i + 6] == 'a') by { assert(suf[6int] == 'a'); }
    assert(s[i + 7] == 'r') by { assert(suf[7int] == 'r'); }
    assert(s[i + 8] == 'g') by { assert(suf[8int] == 'g'); }
    assert(s[i + 9] == 'e') by { assert(suf[9int] == 'e'); }
    assert(s[i + 10] == 't') by { assert(suf[10int] == 't'); }
    assert(s[i + 11] == '"') by { assert(suf[11int] == '"'); }
    assert(s[i + 12] == ':') by { assert(suf[12int] == ':'); }
    assert(s[i + 13] == ' ') by { assert(suf[13int] == ' '); }
    lemma_scan_string_region(s, i + 1, i + 11);
    assert forall|t: int| 0 <= t < 10 implies s.subrange(i + 1, i + 11)[t] == "lat_target"@[t] by {
        assert(s[i + (1 + t)] == suf[1 + t]);
        assert(suf[1 + t] == "lat_target"@[t]);
    }
    assert(s.subrange(i + 1, i + 11) =~= "lat_target"@);
    lemma_skip_ws_region(s, i + 12, i + 12);
    lemma_render_dec_shape(n);
    let vpos = i + 14;
    assert(s[vpos] == v[0]) by { assert(suf[14int] == v[0]); }
    lemma_skip_ws_region(s, i + 13, vpos);
    assert forall|x: int| 0 <= x < v.len() implies s.subrange(vpos, vpos + v.len() as int)[x] == v[x] by {
        assert(s[i + (14 + x)] == suf[14 + x]);
        assert(suf[14 + x] == v[x]);
    }
    assert(s.subrange(vpos, vpos + v.len() as int) =~= v);
    let j = vpos + v.len() as int;
    assert(s[j] == ',') by {
        assert(s[i + (14 + v.len())] == suf[14 + v.len() as int]);
        assert(suf[14 + v.len() as int] == ',');
    }
    assert(s[j + 1] == '\n') by {
        assert(s[i + (14 + v.len() + 1)] == suf[14 + v.len() as int + 1]);
        assert(suf[14 + v.len() as int + 1] == '\n');
    }
    assert(s[j + 2] == ' ') by {
        assert(s[i + (14 + v.len() + 2)] == suf[14 + v.len() as int + 2]);
        assert(suf[14 + v.len() as int + 2] == ' ');
    }
    assert(s[j + 3] == ' ') by {
        assert(s[i + (14 + v.len() + 3)] == suf[14 + v.len() as int + 3]);
        assert(suf[14 + v.len() as int + 3] == ' ');
    }
    assert(s[j + 4] == '"') by {
        assert(s[i + (14 + v.len() + 4)] == suf[14 + v.len() as int + 4]);
        assert(suf[14 + v.len() as int + 4] == rest[0]);
    }
    assert(!is_digit(s[j])) by { assert(',' as u32 == 44); }
    lemma_parse_dec_render(s, vpos, n);
    lemma_skip_ws_region(s, j, j);
    lemma_skip_ws_region(s, j + 1, j + 4);
    assert forall|t: int| 0 <= t < rest.len() implies s.subrange(j + 4, s.len() as int)[t] == rest[t] by {
        assert(s[i + (14 + v.len() + 4 + t)] == suf[14 + v.len() as int + 4 + t]);
        assert(suf[14 + v.len() as int + 4 + t] == rest[t]);
    }
    assert(s.subrange(j + 4, s.len() as int) =~= rest);
}

proof fn lemma_member_lat_target(s: Seq<char>, i: int, p: ParamsV, first: bool, n: i64, rest: Seq<char>)
    requires
        0 <= i <= s.len(),
        s.subrange(i, s.len() as int) == "\"lat_target\": "@ + (render_dec(n as int) + (",\n"@ + ("  "@ + rest))),
        rest.len() >= 1,
        rest[0] == '"',
    ensures
        parse_members(s, i, p, first) == parse_members(s, s.len() - rest.len(), (ParamsV { lat_target: Decimal { nanos: n }, ..p }), false),
        s.subrange(s.len() - rest.len(), s.len() as int) == rest,
{
    lemma_member_lat_target_head(s, i, n, rest);
    let vpos = i + 14;
    let j = vpos + render_dec(n as int).len() as int;
    lemma_field_value_lat_target(s, vpos, p, n, j);
    lemma_members_step(s, i, p, first, "lat_target"@, (ParamsV { lat_target: Decimal { nanos: n }, ..p }), i + 11, i + 12, vpos, j, j + 4);
}

#[verifier::rlimit(100)]
proof fn lemma_member_rps_target_head(s: Seq<char>, i: int, n: u32, rest: Seq<char>)
    requires
        0 <= i <= s.len(),
        s.subrange(i, s.len() as int) == "\"rps_target\": "@ + (render_uint(n as nat) + (",\n"@ + ("  "@ + rest))),
        rest.len() >= 1,
        rest[0] == '"',
    ensures
        i < s.len(),
        s[i] == '"',
        scan_string(s, i + 1) == i + 11,
        i + 11 < s.len(),
        s[i + 11] == '"',
        s.subrange(i + 1, i + 11) == "rps_target"@,
        skip_trivia(s, i + 12) == i + 12,
        i + 12 < s.len(),
        s[i + 12] == ':',
        skip_trivia(s, i + 13) == i + 14,
        i + 14 + render_uint(n as nat).len() + 4 == s.len() - rest.len(),
        parse_uint(s, i + 14, u32::MAX as nat) == Some((n as nat, i + 14 + render_uint(n as nat).len() as int)),
        skip_trivia(s, i + 14 + render_uint(n as nat).len() as int) == i + 14 + render_uint(n as nat).len(),
        i + 14 + render_uint(n as nat).len() < s.len(),
        s[i + 14 + render_uint(n as nat).len()] == ',',
        skip_trivia(s, i + 14 + render_uint(n as nat).len() + 1) == s.len() - rest.len(),
        s.subrange(s.len() - rest.len(), s.len() as int) == rest,
{
    reveal_strlit("\"rps_target\": ");
    reveal_strlit("rps_target");
    reveal_strlit(",\n");
    reveal_strlit("  ");
    let kseg = "\"rps_target\": "@;
    let v = render_uint(n as nat);
    let suf = kseg + (v + (",\n"@ + ("  "@ + rest)));
    assert(kseg.len() == 14);
    assert(s.len() - i == suf.len());
    assert forall|x: int| 0 <= x < suf.len() implies s[i + x] == suf[x] by {
        assert(s.subrange(i, s.len() as int)[x] == suf[x]);
    }
    assert(s[i + 0] == '"') by { assert(suf[0int] == '"'); }
    assert(s[i + 1] == 'r') by { assert(suf[1int] == 'r'); }
    assert(s[i + 2] == 'p') by { assert(suf[2int] == 'p'); }
    assert(s[i + 3] == 's') by { assert(suf[3int] == 's'); }
    assert(s[i + 4] == '_') by { assert(suf[4int] == '_'); }
    assert(s[i + 5] == 't') by { assert(suf[5int] == 't'); }
    assert(s[i + 6] == 'a') by { assert(suf[6int] == 'a'); }
    assert(s[i + 7] == 'r') by { assert(suf[7int] == 'r'); }
    assert(s[i + 8] == 'g') by { assert(suf[8int] == 'g'); }
    assert(s[i + 9] == 'e') by { assert(suf[9int] == 'e'); }
    assert(s[i + 10] == 't') by { assert(suf[10int] == 't'); }
    assert(s[i + 11] == '"') by { assert(suf[11int] == '"'); }
    assert(s[i + 12] == ':') by { assert(suf[12int] == ':'); }
    assert(s[i + 13] == ' ') by { assert(suf[13int] == ' '); }
    lemma_scan_string_region(s, i + 1, i + 11);
    assert forall|t: int| 0 <= t < 10 implies s.subrange(i + 1, i + 11)[t] == "rps_target"@[t] by {
        assert(s[i + (1 + t)] == suf[1 + t]);
        assert(suf[1 + t] == "rps_target"@[t]);
    }
    assert(s.subrange(i + 1, i + 11) =~= "rps_target"@);
    lemma_skip_ws_region(s, i + 12, i + 12);
    lemma_render_uint_shape(n as u64);
    assert(render_uint(n as nat) == dec_digits((n as u64) as nat));
    let vpos = i + 14;
    assert(s[vpos] == v[0]) by { assert(suf[14int] == v[0]); }
    lemma_skip_ws_region(s, i + 13, vpos);
    assert forall|x: int| 0 <= x < v.len() implies s.subrange(vpos, vpos + v.len() as int)[x] == v[x] by {
        assert(s[i + (14 + x)] == suf[14 + x]);
        assert(suf[14 + x] == v[x]);
    }
    assert(s.subrange(vpos, vpos + v.len() as int) =~= v);
    let j = vpos + v.len() as int;
    assert(s[j] == ',') by {
        assert(s[i + (14 + v.len())] == suf[14 + v.len() as int]);
        assert(suf[14 + v.len() as int] == ',');
    }
    assert(s[j + 1] == '\n') by {
        assert(s[i + (14 + v.len() + 1)] == suf[14 + v.len() as int + 1]);
        assert(suf[14 + v.len() as int + 1] == '\n');
    }
    assert(s[j + 2] == ' ') by {
        assert(s[i + (14 + v.len() + 2)] == suf[14 + v.len() as int + 2]);
        assert(suf[14 + v.len() as int + 2] == ' ');
    }
    assert(s[j + 3] == ' ') by {
        assert(s[i + (14 + v.len() + 3)] == suf[14 + v.len() as int + 3]);
        assert(suf[14 + v.len() as int + 3] == ' ');
    }
    assert(s[j + 4] == '"') by {
        assert(s[i + (14 + v.len() + 4)] == suf[14 + v.len() as int + 4]);
        assert(suf[14 + v.len() as int + 4] == rest[0]);
    }
    assert(!is_digit(s[j]) && s[j] != '.') by { assert(',' as u32 == 44); }
    lemma_parse_uint_render(s, vpos, n as u64, u32::MAX as nat);
    lemma_skip_ws_region(s, j, j);
    lemma_skip_ws_region(s, j + 1, j + 4);
    assert forall|t: int| 0 <= t < rest.len() implies s.subrange(j + 4, s.len() as int)[t] == rest[t] by {
        assert(s[i + (14 + v.len() + 4 + t)] == suf[14 + v.len() as int + 4 + t]);
        assert(suf[14 + v.len() as int + 4 + t] == rest[t]);
    }
    assert(s.subrange(j + 4, s.len() as int) =~= rest);
}

proof fn lemma_member_rps_target(s: Seq<char>, i: int, p: ParamsV, first: bool, n: u32, rest: Seq<char>)
    requires
        0 <= i <= s.len(),
        s.subrange(i, s.len() as int) == "\"rps_target\": "@ + (render_uint(n as nat) + (",\n"@ + ("  "@ + rest))),
        rest.len() >= 1,
        rest[0] == '"',
    ensures
        parse_members(s, i, p, first) == parse_members(s, s.len() - rest.len(), (ParamsV { rps_target: n, ..p }), false),
        s.subrange(s.len() - rest.len(), s.len() as int) == rest,
{
    lemma_member_rps_target_head(s, i, n, rest);
    let vpos = i + 14;
    let j = vpos + render_uint(n as nat).len() as int;
    lemma_field_value_rps_target(s, vpos, p, n, j);
    lemma_members_step(s, i, p, first, "rps_target"@, (ParamsV { rps_target: n, ..p }), i + 11, i + 12, vpos, j, j + 4);
}

#[verifier::rlimit(100)]
proof fn lemma_member_rps_max_head(s: Seq<char>, i: int, n: u32, rest: Seq<char>)
    requires
        0 <= i <= s.len(),
        s.subrange(i, s.len() as int) == "\"rps_max\": "@ + (render_uint(n as nat) + (",\n"@ + ("  "@ + rest))),
        rest.len() >= 1,
        rest[0] == '"',
    ensures
        i < s.len(),
        s[i] == '"',
        scan_string(s, i + 1) == i + 8,
        i + 8 < s.len(),
        s[i + 8] == '"',
        s.subrange(i + 1, i + 8) == "rps_max"@,
        skip_trivia(s, i + 9) == i + 9,
        i + 9 < s.len(),
        s[i + 9] == ':',
        skip_trivia(s, i + 10) == i + 11,
        i + 11 + render_uint(n as nat).len() + 4 == s.len() - rest.len(),
        parse_uint(s, i + 11, u32::MAX as nat) == Some((n as nat, i + 11 + render_uint(n as nat).len() as int)),
        skip_trivia(s, i + 11 + render_uint(n as nat).len() as int) == i + 11 + render_uint(n as nat).len(),
        i + 11 + render_uint(n as nat).len() < s.len(),
        s[i + 11 + render_uint(n as nat).len()] == ',',
        skip_trivia(s, i + 11 + render_uint(n as nat).len() + 1) == s.len() - rest.len(),
        s.subrange(s.len() - rest.len(), s.len() as int) == rest,
{
    reveal_strlit("\"rps_max\": ");
    reveal_strlit("rps_max");
    reveal_strlit(",\n");
    reveal_strlit("  ");
    let kseg = "\"rps_max\": "@;
    let v = render_uint(n as nat);
    let suf = kseg + (v + (",\n"@ + ("  "@ + rest)));
    assert(kseg.len() == 11);
    assert(s.len() - i == suf.len());
    assert forall|x: int| 0 <= x < suf.len() implies s[i + x] == suf[x] by {
        assert(s.subrange(i, s.len() as int)[x] == suf[x]);
    }
    assert(s[i + 0] == '"') by { assert(suf[0int] == '"'); }
    assert(s[i + 1] == 'r') by { assert(suf[1int] == 'r'); }
    assert(s[i + 2] == 'p') by { assert(suf[2int] == 'p'); }
    assert(s[i + 3] == 's') by { assert(suf[3int] == 's'); }
    assert(s[i + 4] == '_') by { assert(suf[4int] == '_'); }
    assert(s[i + 5] == 'm') by { assert(suf[5int] == 'm'); }
    assert(s[i + 6] == 'a') by { assert(suf[6int] == 'a'); }
    assert(s[i + 7] == 'x') by { assert(suf[7int] == 'x'); }
    assert(s[i + 8] == '"') by { assert(suf[8int] == '"'); }
    assert(s[i + 9] == ':') by { assert(suf[9int] == ':'); }
    assert(s[i + 10] == ' ') by { assert(suf[10int] == ' '); }
    lemma_scan_string_region(s, i + 1, i + 8);
    assert forall|t: int| 0 <= t < 7 implies s.subrange(i + 1, i + 8)[t] == "rps_max"@[t] by {
        assert(s[i + (1 + t)] == suf[1 + t]);
        assert(suf[1 + t] == "rps_max"@[t]);
    }
    assert(s.subrange(i + 1, i + 8) =~= "rps_max"@);
    lemma_skip_ws_region(s, i + 9, i + 9);
    lemma_render_uint_shape(n as u64);
    assert(render_uint(n as nat) == dec_digits((n as u64) as nat));
    let vpos = i + 11;
    assert(s[vpos] == v[0]) by { assert(suf[11int] == v[0]); }
    lemma_skip_ws_region(s, i + 10, vpos);
    assert forall|x: int| 0 <= x < v.len() implies s.subrange(vpos, vpos + v.len() as int)[x] == v[x] by {
        assert(s[i + (11 + x)] == suf[11 + x]);
        assert(suf[11 + x] == v[x]);
    }
    assert(s.subrange(vpos, vpos + v.len() as int) =~= v);
    let j = vpos + v.len() as int;
    assert(s[j] == ',') by {
        assert(s[i + (11 + v.len())] == suf[11 + v.len() as int]);
        assert(suf[11 + v.len() as int] == ',');
    }
    assert(s[j + 1] == '\n') by {
        assert(s[i + (11 + v.len() + 1)] == suf[11 + v.len() as int + 1]);
        assert(suf[11 + v.len() as int + 1] == '\n');
    }
    assert(s[j + 2] == ' ') by {
        assert(s[i + (11 + v.len() + 2)] == suf[11 + v.len() as int + 2]);
        assert(suf[11 + v.len() as int + 2] == ' ');
    }
    assert(s[j + 3] == ' ') by {
        assert(s[i + (11 + v.len() + 3)] == suf[11 + v.len() as int + 3]);
        assert(suf[11 + v.len() as int + 3] == ' ');
    }
    assert(s[j + 4] == '"') by {
        assert(s[i + (11 + v.len() + 4)] == suf[11 + v.len() as int + 4]);
        assert(suf[11 + v.len() as int + 4] == rest[0]);
    }
    assert(!is_digit(s[j]) && s[j] != '.') by { assert(',' as u32 == 44); }
    lemma_parse_uint_render(s, vpos, n as u64, u32::MAX as nat);
    lemma_skip_ws_region(s, j, j);
    lemma_skip_ws_region(s, j + 1, j + 4);
    assert forall|t: int| 0 <= t < rest.len() implies s.subrange(j + 4, s.len() as int)[t] == rest[t] by {
        assert(s[i + (11 + v.len() + 4 + t)] == suf[11 + v.len() as int + 4 + t]);
        assert(suf[11 + v.len() as int + 4 + t] == rest[t]);
    }
    assert(s.subrange(j + 4, s.len() as int) =~= rest);
}

proof fn lemma_member_rps_max(s: Seq<char>, i: int, p: ParamsV, first: bool, n: u32, rest: Seq<char>)
    requires
        0 <= i <= s.len(),
        s.subrange(i, s.len() as int) == "\"rps_max\": "@ + (render_uint(n as nat) + (",\n"@ + ("  "@ + rest))),
        rest.len() >= 1,
        rest[0] == '"',
    ensures
        parse_members(s, i, p, first) == parse_members(s, s.len() - rest.len(), (ParamsV { rps_max: n, ..p }), false),
        s.subrange(s.len() - rest.len(), s.len() as int) == rest,
{
    lemma_member_rps_max_head(s, i, n, rest);
    let vpos = i + 11;
    let j = vpos + render_uint(n as nat).len() as int;
    lemma_field_value_rps_max(s, vpos, p, n, j);
    lemma_members_step(s, i, p, first, "rps_max"@, (ParamsV { rps_max: n, ..p }), i + 8, i + 9, vpos, j, j + 4);
}

#[verifier::rlimit(100)]
proof fn lemma_member_mem_frac_head(s: Seq<char>, i: int, n: i64, rest: Seq<char>)
    requires
        0 <= i <= s.len(),
        s.subrange(i, s.len() as int) == "\"mem_frac\": "@ + (render_dec(n as int) + (",\n"@ + ("  "@ + rest))),
        rest.len() >= 1,
        rest[0] == '"',
    ensures
        i < s.len(),
        s[i] == '"',
        scan_string(s, i + 1) == i + 9,
        i + 9 < s.len(),
        s[i + 9] == '"',
        s.subrange(i + 1, i + 9) == "mem_frac"@,
        skip_trivia(s, i + 10) == i + 10,
        i + 10 < s.len(),
        s[i + 10] == ':',
        skip_trivia(s, i + 11) == i + 12,
        i + 12 + render_dec(n as int).len() + 4 == s.len() - rest.len(),
        parse_dec(s, i + 12) == Some((n as int, i + 12 + render_dec(n as int).len() as int)),
        skip_trivia(s, i + 12 + render_dec(n as int).len() as int) == i + 12 + render_dec(n as int).len(),
        i + 12 + render_dec(n as int).len() < s.len(),
        s[i + 12 + render_dec(n as int).len()] == ',',
        skip_trivia(s, i + 12 + render_dec(n as int).len() + 1) == s.len() - rest.len(),
        s.subrange(s.len() - rest.len(), s.len() as int) == rest,
{
    reveal_strlit("\"mem_frac\": ");
    reveal_strlit("mem_frac");
    reveal_strlit(",\n");
    reveal_strlit("  ");
    let kseg = "\"mem_frac\": "@;
    let v = render_dec(n as int);
    let suf = kseg + (v + (",\n"@ + ("  "@ + rest)));
    assert(kseg.len() == 12);
    assert(s.len() - i == suf.len());
    assert forall|x: int| 0 <= x < suf.len() implies s[i + x] == suf[x] by {
        assert(s.subrange(i, s.len() as int)[x] == suf[x]);
    }
    assert(s[i + 0] == '"') by { assert(suf[0int] == '"'); }
    assert(s[i + 1] == 'm') by { assert(suf[1int] == 'm'); }
    assert(s[i + 2] == 'e') by { assert(suf[2int] == 'e'); }
    assert(s[i + 3] == 'm') by { assert(suf[3int] == 'm'); }
    assert(s[i + 4] == '_') by { assert(suf[4int] == '_'); }
    assert(s[i + 5] == 'f') by { assert(suf[5int] == 'f'); }
    assert(s[i + 6] == 'r') by { assert(suf[6int] == 'r'); }
    assert(s[i + 7] == 'a') by { assert(suf[7int] == 'a'); }
    assert(s[i + 8] == 'c') by { assert(suf[8int] == 'c'); }
    assert(s[i + 9] == '"') by { assert(suf[9int] == '"'); }
    assert(s[i + 10] == ':') by { assert(suf[10int] == ':'); }
    assert(s[i + 11] == ' ') by { assert(suf[11int] == ' '); }
    lemma_scan_string_region(s, i + 1, i + 9);
    assert forall|t: int| 0 <= t < 8 implies s.subrange(i + 1, i + 9)[t] == "mem_frac"@[t] by {
        assert(s[i + (1 + t)] == suf[1 + t]);
        assert(suf[1 + t] == "mem_frac"@[t]);
    }
    assert(s.subrange(i + 1, i + 9) =~= "mem_frac"@);
    lemma_skip_ws_region(s, i + 10, i + 10);
    lemma_render_dec_shape(n);
    let vpos = i + 12;
    assert(s[vpos] == v[0]) by { assert(suf[12int] == v[0]); }
    lemma_skip_ws_region(s, i + 11, vpos);
    assert forall|x: int| 0 <= x < v.len() implies s.subrange(vpos, vpos + v.len() as int)[x] == v[x] by {
        assert(s[i + (12 + x)] == suf[12 + x]);
        assert(suf[12 + x] == v[x]);
    }
    assert(s.subrange(vpos, vpos + v.len() as int) =~= v);
    let j = vpos + v.len() as int;
    assert(s[j] == ',') by {
        assert(s[i + (12 + v.len())] == suf[12 + v.len() as int]);
        assert(suf[12 + v.len() as int] == ',');
    }
    assert(s[j + 1] == '\n') by {
        assert(s[i + (12 + v.len() + 1)] == suf[12 + v.len() as int + 1]);
        assert(suf[12 + v.len() as int + 1] == '\n');
    }
    assert(s[j + 2] == ' ') by {
        assert(s[i + (12 + v.len() + 2)] == suf[12 + v.len() as int + 2]);
        assert(suf[12 + v.len() as int + 2] == ' ');
    }
    assert(s[j + 3] == ' ') by {
        assert(s[i + (12 + v.len() + 3)] == suf[12 + v.len() as int + 3]);
        assert(suf[12 + v.len() as int + 3] == ' ');
    }
    assert(s[j + 4] == '"') by {
        assert(s[i + (12 + v.len() + 4)] == suf[12 + v.len() as int + 4]);
        assert(suf[12 + v.len() as int + 4] == rest[0]);
    }
    assert(!is_digit(s[j])) by { assert(',' as u32 == 44); }
    lemma_parse_dec_render(s, vpos, n);
    lemma_skip_ws_region(s, j, j);
    lemma_skip_ws_region(s, j + 1, j + 4);
    assert forall|t: int| 0 <= t < rest.len() implies s.subrange(j + 4, s.len() as int)[t] == rest[t] by {
        assert(s[i + (12 + v.len() + 4 + t)] == suf[12 + v.len() as int + 4 + t]);
        assert(suf[12 + v.len() as int + 4 + t] == rest[t]);
    }
    assert(s.subrange(j + 4, s.len() as int) =~= rest);
}

proof fn lemma_member_mem_frac(s: Seq<char>, i: int, p: ParamsV, first: bool, n: i64, rest: Seq<char>)
    requires
        0 <= i <= s.len(),
        s.subrange(i, s.len() as int) == "\"mem_frac\": "@ + (render_dec(n as int) + (",\n"@ + ("  "@ + rest))),
        rest.len() >= 1,
        rest[0] == '"',
    ensures
        parse_members(s, i, p, first) == parse_members(s, s.len() - rest.len(), (ParamsV { mem_frac: Decimal { nanos: n }, ..p }), false),
        s.subrange(s.len() - rest.len(), s.len() as int) == rest,
{
    lemma_member_mem_frac_head(s, i, n, rest);
    let vpos = i + 12;
    let j = vpos + render_dec(n as int).len() as int;
    lemma_field_value_mem_frac(s, vpos, p, n, j);
    lemma_members_step(s, i, p, first, "mem_frac"@, (ParamsV { mem_frac: Decimal { nanos: n }, ..p }), i + 9, i + 10, vpos, j, j + 4);
}

#[verifier::rlimit(100)]
proof fn lemma_member_chunk_pages_head(s: Seq<char>, i: int, n: usize, rest: Seq<char>)
    requires
        0 <= i <= s.len(),
        s.subrange(i, s.len() as int) == "\"chunk_pages\": "@ + (render_uint(n as nat) + (",\n"@ + ("  "@ + rest))),
        rest.len() >= 1,
        rest[0] == '"',
    ensures
        i < s.len(),
        s[i] == '"',
        scan_string(s, i + 1) == i + 12,
        i + 12 < s.len(),
        s[i + 12] == '"',
        s.subrange(i + 1, i + 12) == "chunk_pages"@,
        skip_trivia(s, i + 13) == i + 13,
        i + 13 < s.len(),
        s[i + 13] == ':',
        skip_trivia(s, i + 14) == i + 15,
        i + 15 + render_uint(n as nat).len() + 4 == s.len() - rest.len(),
        parse_uint(s, i + 15, usize::MAX as nat) == Some((n as nat, i + 15 + render_uint(n as nat).len() as int)),
        skip_trivia(s, i + 15 + render_uint(n as nat).len() as int) == i + 15 + render_uint(n as nat).len(),
        i + 15 + render_uint(n as nat).len() < s.len(),
        s[i + 15 + render_uint(n as nat).len()] == ',',
        skip_trivia(s, i + 15 + render_uint(n as nat).len() + 1) == s.len() - rest.len(),
        s.subrange(s.len() - rest.len(), s.len() as int) == rest,
{
    reveal_strlit("\"chunk_pages\": ");
    reveal_strlit("chunk_pages");
    reveal_strlit(",\n");
    reveal_strlit("  ");
    let kseg = "\"chunk_pages\": "@;
    let v = render_uint(n as nat);
    let suf = kseg + (v + (",\n"@ + ("  "@ + rest)));
    assert(kseg.len() == 15);
    assert(s.len() - i == suf.len());
    assert forall|x: int| 0 <= x < suf.len() implies s[i + x] == suf[x] by {
        assert(s.subrange(i, s.len() as int)[x] == suf[x]);
    }
    assert(s[i + 0] == '"') by { assert(suf[0int] == '"'); }
    assert(s[i + 1] == 'c') by { assert(suf[1int] == 'c'); }
    assert(s[i + 2] == 'h') by { assert(suf[2int] == 'h'); }
    assert(s[i + 3] == 'u') by { assert(suf[3int] == 'u'); }
    assert(s[i + 4] == 'n') by { assert(suf[4int] == 'n'); }
    assert(s[i + 5] == 'k') by { assert(suf[5int] == 'k'); }
    assert(s[i + 6] == '_') by { assert(suf[6int] == '_'); }
    assert(s[i + 7] == 'p') by { assert(suf[7int] == 'p'); }
    assert(s[i + 8] == 'a') by { assert(suf[8int] == 'a'); }
    assert(s[i + 9] == 'g') by { assert(suf[9int] == 'g'); }
    assert(s[i + 10] == 'e') by { assert(suf[10int] == 'e'); }
    assert(s[i + 11] == 's') by { assert(suf[11int] == 's'); }
    assert(s[i + 12] == '"') by { assert(suf[12int] == '"'); }
    assert(s[i + 13] == ':') by { assert(suf[13int] == ':'); }
    assert(s[i + 14] == ' ') by { assert(suf[14int] == ' '); }
    lemma_scan_string_region(s, i + 1, i + 12);
    assert forall|t: int| 0 <= t < 11 implies s.subrange(i + 1, i + 12)[t] == "chunk_pages"@[t] by {
        assert(s[i + (1 + t)] == suf[1 + t]);
        assert(suf[1 + t] == "chunk_pages"@[t]);
    }
    assert(s.subrange(i + 1, i + 12) =~= "chunk_pages"@);
    lemma_skip_ws_region(s, i + 13, i + 13);
    lemma_render_uint_shape(n as u64);
    assert(render_uint(n as nat) == dec_digits((n as u64) as nat));
    let vpos = i + 15;
    assert(s[vpos] == v[0]) by { assert(suf[15int] == v[0]); }
    lemma_skip_ws_region(s, i + 14, vpos);
    assert forall|x: int| 0 <= x < v.len() implies s.subrange(vpos, vpos + v.len() as int)[x] == v[x] by {
        assert(s[i + (15 + x)] == suf[15 + x]);
        assert(suf[15 + x] == v[x]);
    }
    assert(s.subrange(vpos, vpos + v.len() as int) =~= v);
    let j = vpos + v.len() as int;
    assert(s[j] == ',') by {
        assert(s[i + (15 + v.len())] == suf[15 + v.len() as int]);
        assert(suf[15 + v.len() as int] == ',');
    }
    assert(s[j + 1] == '\n') by {
        assert(s[i + (15 + v.len() + 1)] == suf[15 + v.len() as int + 1]);
        assert(suf[15 + v.len() as int + 1] == '\n');
    }
    assert(s[j + 2] == ' ') by {
        assert(s[i + (15 + v.len() + 2)] == suf[15 + v.len() as int + 2]);
        assert(suf[15 + v.len() as int + 2] == ' ');
    }
    assert(s[j + 3] == ' ') by {
        assert(s[i + (15 + v.len() + 3)] == suf[15 + v.len() as int + 3]);
        assert(suf[15 + v.len() as int + 3] == ' ');
    }
    assert(s[j + 4] == '"') by {
        assert(s[i + (15 + v.len() + 4)] == suf[15 + v.len() as int + 4]);
        assert(suf[15 + v.len() as int + 4] == rest[0]);
    }
    assert(!is_digit(s[j]) && s[j] != '.') by { assert(',' as u32 == 44); }
    lemma_parse_uint_render(s, vpos, n as u64, usize::MAX as nat);
    lemma_skip_ws_region(s, j, j);
    lemma_skip_ws_region(s, j + 1, j + 4);
    assert forall|t: int| 0 <= t < rest.len() implies s.subrange(j + 4, s.len() as int)[t] == rest[t] by {
        assert(s[i + (15 + v.len() + 4 + t)] == suf[15 + v.len() as int + 4 + t]);
        assert(suf[15 + v.len() as int + 4 + t] == rest[t]);
    }
    assert(s.subrange(j + 4, s.len() as int) =~= rest);
}

proof fn lemma_member_chunk_pages(s: Seq<char>, i: int, p: ParamsV, first: bool, n: usize, rest: Seq<char>)
    requires
        0 <= i <= s.len(),
        s.subrange(i, s.len() as int) == "\"chunk_pages\": "@ + (render_uint(n as nat) + (",\n"@ + ("  "@ + rest))),
        rest.len() >= 1,
        rest[0] == '"',
    ensures
        parse_members(s, i, p, first) == parse_members(s, s.len() - rest.len(), (ParamsV { chunk_pages: n, ..p }), false),
        s.subrange(s.len() - rest.len(), s.len() as int) == rest,
{
    lemma_member_chunk_pages_head(s, i, n, rest);
    let vpos = i + 15;
    let j = vpos + render_uint(n as nat).len() as int;
    lemma_field_value_chunk_pages(s, vpos, p, n, j);
    lemma_members_step(s, i, p, first, "chunk_pages"@, (ParamsV { chunk_pages: n, ..p }), i + 12, i + 13, vpos, j, j + 4);
}

#[verifier::rlimit(100)]
proof fn lemma_member_file_frac_head(s: Seq<char>, i: int, n: i64, rest: Seq<char>)
    requires
        0 <= i <= s.len(),
        s.subrange(i, s.len() as int) == "\"file_frac\": "@ + (render_dec(n as int) + (",\n"@ + ("  "@ + rest))),
        rest.len() >= 1,
        rest[0] == '"',
    ensures
        i < s.len(),
        s[i] == '"',
        scan_string(s, i + 1) == i + 10,
        i + 10 < s.len(),
        s[i + 10] == '"',
        s.subrange(i + 1, i + 10) == "file_frac"@,
        skip_trivia(s, i + 11) == i + 11,
        i + 11 < s.len(),
        s[i + 11] == ':',
        skip_trivia(s, i + 12) == i + 13,
        i + 13 + render_dec(n as int).len() + 4 == s.len() - rest.len(),
        parse_dec(s, i + 13) == Some((n as int, i + 13 + render_dec(n as int).len() as int)),
        skip_trivia(s, i + 13 + render_dec(n as int).len() as int) == i + 13 + render_dec(n as int).len(),
        i + 13 + render_dec(n as int).len() < s.len(),
        s[i + 13 + render_dec(n as int).len()] == ',',
        skip_trivia(s, i + 13 + render_dec(n as int).len() + 1) == s.len() - rest.len(),
        s.subrange(s.len() - rest.len(), s.len() as int) == rest,
{
    reveal_strlit("\"file_frac\": ");
    reveal_strlit("file_frac");
    reveal_strlit(",\n");
    reveal_strlit("  ");
    let kseg = "\"file_frac\": "@;
    let v = render_dec(n as int);
    let suf = kseg + (v + (",\n"@ + ("  "@ + rest)));
    assert(kseg.len() == 13);
    assert(s.len() - i == suf.len());
    assert forall|x: int| 0 <= x < suf.len() implies s[i + x] == suf[x] by {
        assert(s.subrange(i, s.len() as int)[x] == suf[x]);
    }
    assert(s[i + 0] == '"') by { assert(suf[0int] == '"'); }
    assert(s[i + 1] == 'f') by { assert(suf[1int] == 'f'); }
    assert(s[i + 2] == 'i') by { assert(suf[2int] == 'i'); }
    assert(s[i + 3] == 'l') by { assert(suf[3int] == 'l'); }
    assert(s[i + 4] == 'e') by { assert(suf[4int] == 'e'); }
    assert(s[i + 5] == '_') by { assert(suf[5int] == '_'); }
    assert(s[i + 6] == 'f') by { assert(suf[6int] == 'f'); }
    assert(s[i + 7] == 'r') by { assert(suf[7int] == 'r'); }
    assert(s[i + 8] == 'a') by { assert(suf[8int] == 'a'); }
    assert(s[i + 9] == 'c') by { assert(suf[9int] == 'c'); }
    assert(s[i + 10] == '"') by { assert(suf[10int] == '"'); }
    assert(s[i + 11] == ':') by { assert(suf[11int] == ':'); }
    assert(s[i + 12] == ' ') by { assert(suf[12int] == ' '); }
    lemma_scan_string_region(s, i + 1, i + 10);
    assert forall|t: int| 0 <= t < 9 implies s.subrange(i + 1, i + 10)[t] == "file_frac"@[t] by {
        assert(s[i + (1 + t)] == suf[1 + t]);
        assert(suf[1 + t] == "file_frac"@[t]);
    }
    assert(s.subrange(i + 1, i + 10) =~= "file_frac"@);
    lemma_skip_ws_region(s, i + 11, i + 11);
    lemma_render_dec_shape(n);
    let vpos = i + 13;
    assert(s[vpos] == v[0]) by { assert(suf[13int] == v[0]); }
    lemma_skip_ws_region(s, i + 12, vpos);
    assert forall|x: int| 0 <= x < v.len() implies s.subrange(vpos, vpos + v.len() as int)[x] == v[x] by {
        assert(s[i + (13 + x)] == suf[13 + x]);
        assert(suf[13 + x] == v[x]);
    }
    assert(s.subrange(vpos, vpos + v.len() as int) =~= v);
    let j = vpos + v.len() as int;
    assert(s[j] == ',') by {
        assert(s[i + (13 + v.len())] == suf[13 + v.len() as int]);
        assert(suf[13 + v.len() as int] == ',');
    }
    assert(s[j + 1] == '\n') by {
        assert(s[i + (13 + v.len() + 1)] == suf[13 + v.len() as int + 1]);
        assert(suf[13 + v.len() as int + 1] == '\n');
    }
    assert(s[j + 2] == ' ') by {
        assert(s[i + (13 + v.len() + 2)] == suf[13 + v.len() as int + 2]);
        assert(suf[13 + v.len() as int + 2] == ' ');
    }
    assert(s[j + 3] == ' ') by {
        assert(s[i + (13 + v.len() + 3)] == suf[13 + v.len() as int + 3]);
        assert(suf[13 + v.len() as int + 3] == ' ');
    }
    assert(s[j + 4] == '"') by {
        assert(s[i + (13 + v.len() + 4)] == suf[13 + v.len() as int + 4]);
        assert(suf[13 + v.len() as int + 4] == rest[0]);
    }
    assert(!is_digit(s[j])) by { assert(',' as u32 == 44); }
    lemma_parse_dec_render(s, vpos, n);
    lemma_skip_ws_region(s, j, j);
    lemma_skip_ws_region(s, j + 1, j + 4);
    assert forall|t: int| 0 <= t < rest.len() implies s.subrange(j + 4, s.len() as int)[t] == rest[t] by {
        assert(s[i + (13 + v.len() + 4 + t)] == suf[13 + v.len() as int + 4 + t]);
        assert(suf[13 + v.len() as int + 4 + t] == rest[t]);
    }
    assert(s.subrange(j + 4, s.len() as int) =~= rest);
}

proof fn lemma_member_file_frac(s: Seq<char>, i: int, p: ParamsV, first: bool, n: i64, rest: Seq<char>)
    requires
        0 <= i <= s.len(),
        s.subrange(i, s.len() as int) == "\"file_frac\": "@ + (render_dec(n as int) + (",\n"@ + ("  "@ + rest))),
        rest.len() >= 1,
        rest[0] == '"',
    ensures
        parse_members(s, i, p, first) == parse_members(s, s.len() - rest.len(), (ParamsV { file_frac: Decimal { nanos: n }, ..p }), false),
        s.subrange(s.len() - rest.len(), s.len() as int) == rest,
{
    lemma_member_file_frac_head(s, i, n, rest);
    let vpos = i + 13;
    let j = vpos + render_dec(n as int).len() as int;
    lemma_field_value_file_frac(s, vpos, p, n, j);
    lemma_members_step(s, i, p, first, "file_frac"@, (ParamsV { file_frac: Decimal { nanos: n }, ..p }), i + 10, i + 11, vpos, j, j + 4);
}

#[verifier::rlimit(100)]
proof fn lemma_member_file_size_mean_head(s: Seq<char>, i: int, n: usize, rest: Seq<char>)
    requires
        0 <= i <= s.len(),
        s.subrange(i, s.len() as int) == "\"file_size_mean\": "@ + (render_uint(n as nat) + (",\n"@ + ("  "@ + rest))),
        rest.len() >= 1,
        rest[0] == '"',
    ensures
        i < s.len(),
        s[i] == '"',
        scan_string(s, i + 1) == i + 15,
        i + 15 < s.len(),
        s[i + 15] == '"',
        s.subrange(i + 1, i + 15) == "file_size_mean"@,
        skip_trivia(s, i + 16) == i + 16,
        i + 16 < s.len(),
        s[i + 16] == ':',
        skip_trivia(s, i + 17) == i + 18,
        i + 18 + render_uint(n as nat).len() + 4 == s.len() - rest.len(),
        parse_uint(s, i + 18, usize::MAX as nat) == Some((n as nat, i + 18 + render_uint(n as nat).len() as int)),
        skip_trivia(s, i + 18 + render_uint(n as nat).len() as int) == i + 18 + render_uint(n as nat).len(),
        i + 18 + render_uint(n as nat).len() < s.len(),
        s[i + 18 + render_uint(n as nat).len()] == ',',
        skip_trivia(s, i + 18 + render_uint(n as nat).len() + 1) == s.len() - rest.len(),
        s.subrange(s.len() - rest.len(), s.len() as int) == rest,
{
    reveal_strlit("\"file_size_mean\": ");
    reveal_strlit("file_size_mean");
    reveal_strlit(",\n");
    reveal_strlit("  ");
    let kseg = "\"file_size_mean\": "@;
    let v = render_uint(n as nat);
    let suf = kseg + (v + (",\n"@ + ("  "@ + rest)));
    assert(kseg.len() == 18);
    assert(s.len() - i == suf.len());
    assert forall|x: int| 0 <= x < suf.len() implies s[i + x] == suf[x] by {
        assert(s.subrange(i, s.len() as int)[x] == suf[x]);
    }
    assert(s[i + 0] == '"') by { assert(suf[0int] == '"'); }
    assert(s[i + 1] == 'f') by { assert(suf[1int] == 'f'); }
    assert(s[i + 2] == 'i') by { assert(suf[2int] == 'i'); }
    assert(s[i + 3] == 'l') by { assert(suf[3int] == 'l'); }
    assert(s[i + 4] == 'e') by { assert(suf[4int] == 'e'); }
    assert(s[i + 5] == '_') by { assert(suf[5int] == '_'); }
    assert(s[i + 6] == 's') by { assert(suf[6int] == 's'); }
    assert(s[i + 7] == 'i') by { assert(suf[7int] == 'i'); }
    assert(s[i + 8] == 'z') by { assert(suf[8int] == 'z'); }
    assert(s[i + 9] == 'e') by { assert(suf[9int] == 'e'); }
    assert(s[i + 10] == '_') by { assert(suf[10int] == '_'); }
    assert(s[i + 11] == 'm') by { assert(suf[11int] == 'm'); }
    assert(s[i + 12] == 'e') by { assert(suf[12int] == 'e'); }
    assert(s[i + 13] == 'a') by { assert(suf[13int] == 'a'); }
    assert(s[i + 14] == 'n') by { assert(suf[14int] == 'n'); }
    assert(s[i + 15] == '"') by { assert(suf[15int] == '"'); }
    assert(s[i + 16] == ':') by { assert(suf[16int] == ':'); }
    assert(s[i + 17] == ' ') by { assert(suf[17int] == ' '); }
    lemma_scan_string_region(s, i + 1, i + 15);
    assert forall|t: int| 0 <= t < 14 implies s.subrange(i + 1, i + 15)[t] == "file_size_mean"@[t] by {
        assert(s[i + (1 + t)] == suf[1 + t]);
        assert(suf[1 + t] == "file_size_mean"@[t]);
    }
    assert(s.subrange(i + 1, i + 15) =~= "file_size_mean"@);
    lemma_skip_ws_region(s, i + 16, i + 16);
    lemma_render_uint_shape(n as u64);
    assert(render_uint(n as nat) == dec_digits((n as u64) as nat));
    let vpos = i + 18;
    assert(s[vpos] == v[0]) by { assert(suf[18int] == v[0]); }
    lemma_skip_ws_region(s, i + 17, vpos);
    assert forall|x: int| 0 <= x < v.len() implies s.subrange(vpos, vpos + v.len() as int)[x] == v[x] by {
        assert(s[i + (18 + x)] == suf[18 + x]);
        assert(suf[18 + x] == v[x]);
    }
    assert(s.subrange(vpos, vpos + v.len() as int) =~= v);
    let j = vpos + v.len() as int;
    assert(s[j] == ',') by {
        assert(s[i + (18 + v.len())] == suf[18 + v.len() as int]);
        assert(suf[18 + v.len() as int] == ',');
    }
    assert(s[j + 1] == '\n') by {
        assert(s[i + (18 + v.len() + 1)] == suf[18 + v.len() as int + 1]);
        assert(suf[18 + v.len() as int + 1] == '\n');
    }
    assert(s[j + 2] == ' ') by {
        assert(s[i + (18 + v.len() + 2)] == suf[18 + v.len() as int + 2]);
        assert(suf[18 + v.len() as int + 2] == ' ');
    }
    assert(s[j + 3] == ' ') by {
        assert(s[i + (18 + v.len() + 3)] == suf[18 + v.len() as int + 3]);
        assert(suf[18 + v.len() as int + 3] == ' ');
    }
    assert(s[j + 4] == '"') by {
        assert(s[i + (18 + v.len() + 4)] == suf[18 + v.len() as int + 4]);
        assert(suf[18 + v.len() as int + 4] == rest[0]);
    }
    assert(!is_digit(s[j]) && s[j] != '.') by { assert(',' as u32 == 44); }
    lemma_parse_uint_render(s, vpos, n as u64, usize::MAX as nat);
    lemma_skip_ws_region(s, j, j);
    lemma_skip_ws_region(s, j + 1, j + 4);
    assert forall|t: int| 0 <= t < rest.len() implies s.subrange(j + 4, s.len() as int)[t] == rest[t] by {
        assert(s[i + (18 + v.len() + 4 + t)] == suf[18 + v.len() as int + 4 + t]);
        assert(suf[18 + v.len() as int + 4 + t] == rest[t]);
    }
    assert(s.subrange(j + 4, s.len() as int) =~= rest);
}

proof fn lemma_member_file_size_mean(s: Seq<char>, i: int, p: ParamsV, first: bool, n: usize, rest: Seq<char>)
    requires
        0 <= i <= s.len(),
        s.subrange(i, s.len() as int) == "\"file_size_mean\": "@ + (render_uint(n as nat) + (",\n"@ + ("  "@ + rest))),
        rest.len() >= 1,
        rest[0] == '"',
    ensures
        parse_members(s, i, p, first) == parse_members(s, s.len() - rest.len(), (ParamsV { file_size_mean: n, ..p }), false),
        s.subrange(s.len() - rest.len(), s.len() as int) == rest,
{
    lemma_member_file_size_mean_head(s, i, n, rest);
    let vpos = i + 18;
    let j = vpos + render_uint(n as nat).len() as int;
    lemma_field_value_file_size_mean(s, vpos, p, n, j);
    lemma_members_step(s, i, p, first, "file_size_mean"@, (ParamsV { file_size_mean: n, ..p }), i + 15, i + 16, vpos, j, j + 4);
}

#[verifier::rlimit(100)]
proof fn lemma_member_file_size_stdev_ratio_head(s: Seq<char>, i: int, n: i64, rest: Seq<char>)
    requires
        0 <= i <= s.len(),
        s.subrange(i, s.len() as int) == "\"file_size_stdev_ratio\": "@ + (render_dec(n as int) + (",\n"@ + ("  "@ + rest))),
        rest.len() >= 1,
        rest[0] == '"',
    ensures
        i < s.len(),
        s[i] == '"',
        scan_string(s, i + 1) == i + 22,
        i + 22 < s.len(),
        s[i + 22] == '"',
        s.subrange(i + 1, i + 22) == "file_size_stdev_ratio"@,
        skip_trivia(s, i + 23) == i + 23,
        i + 23 < s.len(),
        s[i + 23] == ':',
        skip_trivia(s, i + 24) == i + 25,
        i + 25 + render_dec(n as int).len() + 4 == s.len() - rest.len(),
        parse_dec(s, i + 25) == Some((n as int, i + 25 + render_dec(n as int).len() as int)),
        skip_trivia(s, i + 25 + render_dec(n as int).len() as int) == i + 25 + render_dec(n as int).len(),
        i + 25 + render_dec(n as int).len() < s.len(),
        s[i + 25 + render_dec(n as int).len()] == ',',
        skip_trivia(s, i + 25 + render_dec(n as int).len() + 1) == s.len() - rest.len(),
        s.subrange(s.len() - rest.len(), s.len() as int) == rest,
{
    reveal_strlit("\"file_size_stdev_ratio\": ");
    reveal_strlit("file_size_stdev_ratio");
    reveal_strlit(",\n");
    reveal_strlit("  ");
    let kseg = "\"file_size_stdev_ratio\": "@;
    let v = render_dec(n as int);
    let suf = kseg + (v + (",\n"@ + ("  "@ + rest)));
    assert(kseg.len() == 25);
    assert(s.len() - i == suf.len());
    assert forall|x: int| 0 <= x < suf.len() implies s[i + x] == suf[x] by {
        assert(s.subrange(i, s.len() as int)[x] == suf[x]);
    }
    assert(s[i + 0] == '"') by { assert(suf[0int] == '"'); }
    assert(s[i + 1] == 'f') by { assert(suf[1int] == 'f'); }
    assert(s[i + 2] == 'i') by { assert(suf[2int] == 'i'); }
    assert(s[i + 3] == 'l') by { assert(suf[3int] == 'l'); }
    assert(s[i + 4] == 'e') by { assert(suf[4int] == 'e'); }
    assert(s[i + 5] == '_') by { assert(suf[5int] == '_'); }
    assert(s[i + 6] == 's') by { assert(suf[6int] == 's'); }
    assert(s[i + 7] == 'i') by { assert(suf[7int] == 'i'); }
    assert(s[i + 8] == 'z') by { assert(suf[8int] == 'z'); }
    assert(s[i + 9] == 'e') by { assert(suf[9int] == 'e'); }
    assert(s[i + 10] == '_') by { assert(suf[10int] == '_'); }
    assert(s[i + 11] == 's') by { assert(suf[11int] == 's'); }
    assert(s[i + 12] == 't') by { assert(suf[12int] == 't'); }
    assert(s[i + 13] == 'd') by { assert(suf[13int] == 'd'); }
    assert(s[i + 14] == 'e') by { assert(suf[14int] == 'e'); }
    assert(s[i + 15] == 'v') by { assert(suf[15int] == 'v'); }
    assert(s[i + 16] == '_') by { assert(suf[16int] == '_'); }
    assert(s[i + 17] == 'r') by { assert(suf[17int] == 'r'); }
    assert(s[i + 18] == 'a') by { assert(suf[18int] == 'a'); }
    assert(s[i + 19] == 't') by { assert(suf[19int] == 't'); }
    assert(s[i + 20] == 'i') by { assert(suf[20int] == 'i'); }
    assert(s[i + 21] == 'o') by { assert(suf[21int] == 'o'); }
    assert(s[i + 22] == '"') by { assert(suf[22int] == '"'); }
    assert(s[i + 23] == ':') by { assert(suf[23int] == ':'); }
    assert(s[i + 24] == ' ') by { assert(suf[24int] == ' '); }
    lemma_scan_string_region(s, i + 1, i + 22);
    assert forall|t: int| 0 <= t < 21 implies s.subrange(i + 1, i + 22)[t] == "file_size_stdev_ratio"@[t] by {
        assert(s[i + (1 + t)] == suf[1 + t]);
        assert(suf[1 + t] == "file_size_stdev_ratio"@[t]);
    }
    assert(s.subrange(i + 1, i + 22) =~= "file_size_stdev_ratio"@);
    lemma_skip_ws_region(s, i + 23, i + 23);
    lemma_render_dec_shape(n);
    let vpos = i + 25;
    assert(s[vpos] == v[0]) by { assert(suf[25int] == v[0]); }
    lemma_skip_ws_region(s, i + 24, vpos);
    assert forall|x: int| 0 <= x < v.len() implies s.subrange(vpos, vpos + v.len() as int)[x] == v[x] by {
        assert(s[i + (25 + x)] == suf[25 + x]);
        assert(suf[25 + x] == v[x]);
    }
    assert(s.subrange(vpos, vpos + v.len() as int) =~= v);
    let j = vpos + v.len() as int;
    assert(s[j] == ',') by {
        assert(s[i + (25 + v.len())] == suf[25 + v.len() as int]);
        assert(suf[25 + v.len() as int] == ',');
    }
    assert(s[j + 1] == '\n') by {
        assert(s[i + (25 + v.len() + 1)] == suf[25 + v.len() as int + 1]);
        assert(suf[25 + v.len() as int + 1] == '\n');
    }
    assert(s[j + 2] == ' ') by {
        assert(s[i + (25 + v.len() + 2)] == suf[25 + v.len() as int + 2]);
        assert(suf[25 + v.len() as int + 2] == ' ');
    }
    assert(s[j + 3] == ' ') by {
        assert(s[i + (25 + v.len() + 3)] == suf[25 + v.len() as int + 3]);
        assert(suf[25 + v.len() as int + 3] == ' ');
    }
    assert(s[j + 4] == '"') by {
        assert(s[i + (25 + v.len() + 4)] == suf[25 + v.len() as int + 4]);
        assert(suf[25 + v.len() as int + 4] == rest[0]);
    }
    assert(!is_digit(s[j])) by { assert(',' as u32 == 44); }
    lemma_parse_dec_render(s, vpos, n);
    lemma_skip_ws_region(s, j, j);
    lemma_skip_ws_region(s, j + 1, j + 4);
    assert forall|t: int| 0 <= t < rest.len() implies s.subrange(j + 4, s.len() as int)[t] == rest[t] by {
        assert(s[i + (25 + v.len() + 4 + t)] == suf[25 + v.len() as int + 4 + t]);
        assert(suf[25 + v.len() as int + 4 + t] == rest[t]);
    }
    assert(s.subrange(j + 4, s.len() as int) =~= rest);
}

proof fn lemma_member_file_size_stdev_ratio(s: Seq<char>, i: int, p: ParamsV, first: bool, n: i64, rest: Seq<char>)
    requires
        0 <= i <= s.len(),
        s.subrange(i, s.len() as int) == "\"file_size_stdev_ratio\": "@ + (render_dec(n as int) + (",\n"@ + ("  "@ + rest))),
        rest.len() >= 1,
        rest[0] == '"',
    ensures
        parse_members(s, i, p, first) == parse_members(s, s.len() - rest.len(), (ParamsV { file_size_stdev_ratio: Decimal { nanos: n }, ..p }), false),
        s.subrange(s.len() - rest.len(), s.len() as int) == rest,
{
    lemma_member_file_size_stdev_ratio_head(s, i, n, rest);
    let vpos = i + 25;
    let j = vpos + render_dec(n as int).len() as int;
    lemma_field_value_file_size_stdev_ratio(s, vpos, p, n, j);
    lemma_members_step(s, i, p, first, "file_size_stdev_ratio"@, (ParamsV { file_size_stdev_ratio: Decimal { nanos: n }, ..p }), i + 22, i + 23, vpos, j, j + 4);
}

#[verifier::rlimit(100)]
proof fn lemma_member_file_addr_stdev_ratio_head(s: Seq<char>, i: int, n: i64, rest: Seq<char>)
    requires
        0 <= i <= s.len(),
        s.subrange(i, s.len() as int) == "\"file_addr_stdev_ratio\": "@ + (render_dec(n as int) + (",\n"@ + ("  "@ + rest))),
        rest.len() >= 1,
        rest[0] == '"',
    ensures
        i < s.len(),
        s[i] == '"',
        scan_string(s, i + 1) == i + 22,
        i + 22 < s.len(),
        s[i + 22] == '"',
        s.subrange(i + 1, i + 22) == "file_addr_stdev_ratio"@,
        skip_trivia(s, i + 23) == i + 23,
        i + 23 < s.len(),
        s[i + 23] == ':',
        skip_trivia(s, i + 24) == i + 25,
        i + 25 + render_dec(n as int).len() + 4 == s.len() - rest.len(),
        parse_dec(s, i + 25) == Some((n as int, i + 25 + render_dec(n as int).len() as int)),
        skip_trivia(s, i + 25 + render_dec(n as int).len() as int) == i + 25 + render_dec(n as int).len(),
        i + 25 + render_dec(n as int).len() < s.len(),
        s[i + 25 + render_dec(n as int).len()] == ',',
        skip_trivia(s, i + 25 + render_dec(n as int).len() + 1) == s.len() - rest.len(),
        s.subrange(s.len() - rest.len(), s.len() as int) == rest,
{
    reveal_strlit("\"file_addr_stdev_ratio\": ");
    reveal_strlit("file_addr_stdev_ratio");
    reveal_strlit(",\n");
    reveal_strlit("  ");
    let kseg = "\"file_addr_stdev_ratio\": "@;
    let v = render_dec(n as int);
    let suf = kseg + (v + (",\n"@ + ("  "@ + rest)));
    assert(kseg.len() == 25);
    assert(s.len() - i == suf.len());
    assert forall|x: int| 0 <= x < suf.len() implies s[i + x] == suf[x] by {
        assert(s.subrange(i, s.len() as int)[x] == suf[x]);
    }
    assert(s[i + 0] == '"') by { assert(suf[0int] == '"'); }
    assert(s[i + 1] == 'f') by { assert(suf[1int] == 'f'); }
    assert(s[i + 2] == 'i') by { assert(suf[2int] == 'i'); }
    assert(s[i + 3] == 'l') by { assert(suf[3int] == 'l'); }
    assert(s[i + 4] == 'e') by { assert(suf[4int] == 'e'); }
    assert(s[i + 5] == '_') by { assert(suf[5int] == '_'); }
    assert(s[i + 6] == 'a') by { assert(suf[6int] == 'a'); }
    assert(s[i + 7] == 'd') by { assert(suf[7int] == 'd'); }
    assert(s[i + 8] == 'd') by { assert(suf[8int] == 'd'); }
    assert(s[i + 9] == 'r') by { assert(suf[9int] == 'r'); }
    assert(s[i + 10] == '_') by { assert(suf[10int] == '_'); }
    assert(s[i + 11] == 's') by { assert(suf[11int] == 's'); }
    assert(s[i + 12] == 't') by { assert(suf[12int] == 't'); }
    assert(s[i + 13] == 'd') by { assert(suf[13int] == 'd'); }
    assert(s[i + 14] == 'e') by { assert(suf[14int] == 'e'); }
    assert(s[i + 15] == 'v') by { assert(suf[15int] == 'v'); }
    assert(s[i + 16] == '_') by { assert(suf[16int] == '_'); }
    assert(s[i + 17] == 'r') by { assert(suf[17int] == 'r'); }
    assert(s[i + 18] == 'a') by { assert(suf[18int] == 'a'); }
    assert(s[i + 19] == 't') by { assert(suf[19int] == 't'); }
    assert(s[i + 20] == 'i') by { assert(suf[20int] == 'i'); }
    assert(s[i + 21] == 'o') by { assert(suf[21int] == 'o'); }
    assert(s[i + 22] == '"') by { assert(suf[22int] == '"'); }
    assert(s[i + 23] == ':') by { assert(suf[23int] == ':'); }
    assert(s[i + 24] == ' ') by { assert(suf[24int] == ' '); }
    lemma_scan_string_region(s, i + 1, i + 22);
    assert forall|t: int| 0 <= t < 21 implies s.subrange(i + 1, i + 22)[t] == "file_addr_stdev_ratio"@[t] by {
        assert(s[i + (1 + t)] == suf[1 + t]);
        assert(suf[1 + t] == "file_addr_stdev_ratio"@[t]);
    }
    assert(s.subrange(i + 1, i + 22) =~= "file_addr_stdev_ratio"@);
    lemma_skip_ws_region(s, i + 23, i + 23);
    lemma_render_dec_shape(n);
    let vpos = i + 25;
    assert(s[vpos] == v[0]) by { assert(suf[25int] == v[0]); }
    lemma_skip_ws_region(s, i + 24, vpos);
    assert forall|x: int| 0 <= x < v.len() implies s.subrange(vpos, vpos + v.len() as int)[x] == v[x] by {
        assert(s[i + (25 + x)] == suf[25 + x]);
        assert(suf[25 + x] == v[x]);
    }
    assert(s.subrange(vpos, vpos + v.len() as int) =~= v);
    let j = vpos + v.len() as int;
    assert(s[j] == ',') by {
        assert(s[i + (25 + v.len())] == suf[25 + v.len() as int]);
        assert(suf[25 + v.len() as int] == ',');
    }
    assert(s[j + 1] == '\n') by {
        assert(s[i + (25 + v.len() + 1)] == suf[25 + v.len() as int + 1]);
        assert(suf[25 + v.len() as int + 1] == '\n');
    }
    assert(s[j + 2] == ' ') by {
        assert(s[i + (25 + v.len() + 2)] == suf[25 + v.len() as int + 2]);
        assert(suf[25 + v.len() as int + 2] == ' ');
    }
    assert(s[j + 3] == ' ') by {
        assert(s[i + (25 + v.len() + 3)] == suf[25 + v.len() as int + 3]);
        assert(suf[25 + v.len() as int + 3] == ' ');
    }
    assert(s[j + 4] == '"') by {
        assert(s[i + (25 + v.len() + 4)] == suf[25 + v.len() as int + 4]);
        assert(suf[25 + v.len() as int + 4] == rest[0]);
    }
    assert(!is_digit(s[j])) by { assert(',' as u32 == 44); }
    lemma_parse_dec_render(s, vpos, n);
    lemma_skip_ws_region(s, j, j);
    lemma_skip_ws_region(s, j + 1, j + 4);
    assert forall|t: int| 0 <= t < rest.len() implies s.subrange(j + 4, s.len() as int)[t] == rest[t] by {
        assert(s[i + (25 + v.len() + 4 + t)] == suf[25 + v.len() as int + 4 + t]);
        assert(suf[25 + v.len() as int + 4 + t] == rest[t]);
    }
    assert(s.subrange(j + 4, s.len() as int) =~= rest);
}

proof fn lemma_member_file_addr_stdev_ratio(s: Seq<char>, i: int, p: ParamsV, first: bool, n: i64, rest: Seq<char>)
    requires
        0 <= i <= s.len(),
        s.subrange(i, s.len() as int) == "\"file_addr_stdev_ratio\": "@ + (render_dec(n as int) + (",\n"@ + ("  "@ + rest))),
        rest.len() >= 1,
        rest[0] == '"',
    ensures
        parse_members(s, i, p, first) == parse_members(s, s.len() - rest.len(), (ParamsV { file_addr_stdev_ratio: Decimal { nanos: n }, ..p }), false),
        s.subrange(s.len() - rest.len(), s.len() as int) == rest,
{
    lemma_member_file_addr_stdev_ratio_head(s, i, n, rest);
    let vpos = i + 25;
    let j = vpos + render_dec(n as int).len() as int;
    lemma_field_value_file_addr_stdev_ratio(s, vpos, p, n, j);
    lemma_members_step(s, i, p, first, "file_addr_stdev_ratio"@, (ParamsV { file_addr_stdev_ratio: Decimal { nanos: n }, ..p }), i + 22, i + 23, vpos, j, j + 4);
}

#[verifier::rlimit(100)]
proof fn lemma_member_file_addr_rps_base_frac_head(s: Seq<char>, i: int, n: i64, rest: Seq<char>)
    requires
        0 <= i <= s.len(),
        s.subrange(i, s.len() as int) == "\"file_addr_rps_base_frac\": "@ + (render_dec(n as int) + (",\n"@ + ("  "@ + rest))),
        rest.len() >= 1,
        rest[0] == '"',
    ensures
        i < s.len(),
        s[i] == '"',
        scan_string(s, i + 1) == i + 24,
        i + 24 < s.len(),
        s[i + 24] == '"',
        s.subrange(i + 1, i + 24) == "file_addr_rps_base_frac"@,
        skip_trivia(s, i + 25) == i + 25,
        i + 25 < s.len(),
        s[i + 25] == ':',
        skip_trivia(s, i + 26) == i + 27,
        i + 27 + render_dec(n as int).len() + 4 == s.len() - rest.len(),
        parse_dec(s, i + 27) == Some((n as int, i + 27 + render_dec(n as int).len() as int)),
        skip_trivia(s, i + 27 + render_dec(n as int).len() as int) == i + 27 + render_dec(n as int).len(),
        i + 27 + render_dec(n as int).len() < s.len(),
        s[i + 27 + render_dec(n as int).len()] == ',',
        skip_trivia(s, i + 27 + render_dec(n as int).len() + 1) == s.len() - rest.len(),
        s.subrange(s.len() - rest.len(), s.len() as int) == rest,
{
    reveal_strlit("\"file_addr_rps_base_frac\": ");
    reveal_strlit("file_addr_rps_base_frac");
    reveal_strlit(",\n");
    reveal_strlit("  ");
    let kseg = "\"file_addr_rps_base_frac\": "@;
    let v = render_dec(n as int);
    let suf = kseg + (v + (",\n"@ + ("  "@ + rest)));
    assert(kseg.len() == 27);
    assert(s.len() - i == suf.len());
    assert forall|x: int| 0 <= x < suf.len() implies s[i + x] == suf[x] by {
        assert(s.subrange(i, s.len() as int)[x] == suf[x]);
    }
    assert(s[i + 0] == '"') by { assert(suf[0int] == '"'); }
    assert(s[i + 1] == 'f') by { assert(suf[1int] == 'f'); }
    assert(s[i + 2] == 'i') by { assert(suf[2int] == 'i'); }
    assert(s[i + 3] == 'l') by { assert(suf[3int] == 'l'); }
    assert(s[i + 4] == 'e') by { assert(suf[4int] == 'e'); }
    assert(s[i + 5] == '_') by { assert(suf[5int] == '_'); }
    assert(s[i + 6] == 'a') by { assert(suf[6int] == 'a'); }
    assert(s[i + 7] == 'd') by { assert(suf[7int] == 'd'); }
    assert(s[i + 8] == 'd') by { assert(suf[8int] == 'd'); }
    assert(s[i + 9] == 'r') by { assert(suf[9int] == 'r'); }
    assert(s[i + 10] == '_') by { assert(suf[10int] == '_'); }
    assert(s[i + 11] == 'r') by { assert(suf[11int] == 'r'); }
    assert(s[i + 12] == 'p') by { assert(suf[12int] == 'p'); }
    assert(s[i + 13] == 's') by { assert(suf[13int] == 's'); }
    assert(s[i + 14] == '_') by { assert(suf[14int] == '_'); }
    assert(s[i + 15] == 'b') by { assert(suf[15int] == 'b'); }
    assert(s[i + 16] == 'a') by { assert(suf[16int] == 'a'); }
    assert(s[i + 17] == 's') by { assert(suf[17int] == 's'); }
    assert(s[i + 18] == 'e') by { assert(suf[18int] == 'e'); }
    assert(s[i + 19] == '_') by { assert(suf[19int] == '_'); }
    assert(s[i + 20] == 'f') by { assert(suf[20int] == 'f'); }
    assert(s[i + 21] == 'r') by { assert(suf[21int] == 'r'); }
    assert(s[i + 22] == 'a') by { assert(suf[22int] == 'a'); }
    assert(s[i + 23] == 'c') by { assert(suf[23int] == 'c'); }
    assert(s[i + 24] == '"') by { assert(suf[24int] == '"'); }
    assert(s[i + 25] == ':') by { assert(suf[25int] == ':'); }
    assert(s[i + 26] == ' ') by { assert(suf[26int] == ' '); }
    lemma_scan_string_region(s, i + 1, i + 24);
    assert forall|t: int| 0 <= t < 23 implies s.subrange(i + 1, i + 24)[t] == "file_addr_rps_base_frac"@[t] by {
        assert(s[i + (1 + t)] == suf[1 + t]);
        assert(suf[1 + t] == "file_addr_rps_base_frac"@[t]);
    }
    assert(s.subrange(i + 1, i + 24) =~= "file_addr_rps_base_frac"@);
    lemma_skip_ws_region(s, i + 25, i + 25);
    lemma_render_dec_shape(n);
    let vpos = i + 27;
    assert(s[vpos] == v[0]) by { assert(suf[27int] == v[0]); }
    lemma_skip_ws_region(s, i + 26, vpos);
    assert forall|x: int| 0 <= x < v.len() implies s.subrange(vpos, vpos + v.len() as int)[x] == v[x] by {
        assert(s[i + (27 + x)] == suf[27 + x]);
        assert(suf[27 + x] == v[x]);
    }
    assert(s.subrange(vpos, vpos + v.len() as int) =~= v);
    let j = vpos + v.len() as int;
    assert(s[j] == ',') by {
        assert(s[i + (27 + v.len())] == suf[27 + v.len() as int]);
        assert(suf[27 + v.len() as int] == ',');
    }
    assert(s[j + 1] == '\n') by {
        assert(s[i + (27 + v.len() + 1)] == suf[27 + v.len() as int + 1]);
        assert(suf[27 + v.len() as int + 1] == '\n');
    }
    assert(s[j + 2] == ' ') by {
        assert(s[i + (27 + v.len() + 2)] == suf[27 + v.len() as int + 2]);
        assert(suf[27 + v.len() as int + 2] == ' ');
    }
    assert(s[j + 3] == ' ') by {
        assert(s[i + (27 + v.len() + 3)] == suf[27 + v.len() as int + 3]);
        assert(suf[27 + v.len() as int + 3] == ' ');
    }
    assert(s[j + 4] == '"') by {
        assert(s[i + (27 + v.len() + 4)] == suf[27 + v.len() as int + 4]);
        assert(suf[27 + v.len() as int + 4] == rest[0]);
    }
    assert(!is_digit(s[j])) by { assert(',' as u32 == 44); }
    lemma_parse_dec_render(s, vpos, n);
    lemma_skip_ws_region(s, j, j);
    lemma_skip_ws_region(s, j + 1, j + 4);
    assert forall|t: int| 0 <= t < rest.len() implies s.subrange(j + 4, s.len() as int)[t] == rest[t] by {
        assert(s[i + (27 + v.len() + 4 + t)] == suf[27 + v.len() as int + 4 + t]);
        assert(suf[27 + v.len() as int + 4 + t] == rest[t]);
    }
    assert(s.subrange(j + 4, s.len() as int) =~= rest);
}

proof fn lemma_member_file_addr_rps_base_frac(s: Seq<char>, i: int, p: ParamsV, first: bool, n: i64, rest: Seq<char>)
    requires
        0 <= i <= s.len(),
        s.subrange(i, s.len() as int) == "\"file_addr_rps_base_frac\": "@ + (render_dec(n as int) + (",\n"@ + ("  "@ + rest))),
        rest.len() >= 1,
        rest[0] == '"',
    ensures
        parse_members(s, i, p, first) == parse_members(s, s.len() - rest.len(), (ParamsV { file_addr_rps_base_frac: Decimal { nanos: n }, ..p }), false),
        s.subrange(s.len() - rest.len(), s.len() as int) == rest,
{
    lemma_member_file_addr_rps_base_frac_head(s, i, n, rest);
    let vpos = i + 27;
    let j = vpos + render_dec(n as int).len() as int;
    lemma_field_value_file_addr_rps_base_frac(s, vpos, p, n, j);
    lemma_members_step(s, i, p, first, "file_addr_rps_base_frac"@, (ParamsV { file_addr_rps_base_frac: Decimal { nanos: n }, ..p }), i + 24, i + 25, vpos, j, j + 4);
}

#[verifier::rlimit(100)]
proof fn lemma_member_file_write_frac_head(s: Seq<char>, i: int, n: i64, rest: Seq<char>)
    requires
        0 <= i <= s.len(),
        s.subrange(i, s.len() as int) == "\"file_write_frac\": "@ + (render_dec(n as int) + (",\n"@ + ("  "@ + rest))),
        rest.len() >= 1,
        rest[0] == '"',
    ensures
        i < s.len(),
        s[i] == '"',
        scan_string(s, i + 1) == i + 16,
        i + 16 < s.len(),
        s[i + 16] == '"',
        s.subrange(i + 1, i + 16) == "file_write_frac"@,
        skip_trivia(s, i + 17) == i + 17,
        i + 17 < s.len(),
        s[i + 17] == ':',
        skip_trivia(s, i + 18) == i + 19,
        i + 19 + render_dec(n as int).len() + 4 == s.len() - rest.len(),
        parse_dec(s, i + 19) == Some((n as int, i + 19 + render_dec(n as int).len() as int)),
        skip_trivia(s, i + 19 + render_dec(n as int).len() as int) == i + 19 + render_dec(n as int).len(),
        i + 19 + render_dec(n as int).len() < s.len(),
        s[i + 19 + render_dec(n as int).len()] == ',',
        skip_trivia(s, i + 19 + render_dec(n as int).len() + 1) == s.len() - rest.len(),
        s.subrange(s.len() - rest.len(), s.len() as int) == rest,
{
    reveal_strlit("\"file_write_frac\": ");
    reveal_strlit("file_write_frac");
    reveal_strlit(",\n");
    reveal_strlit("  ");
    let kseg = "\"file_write_frac\": "@;
    let v = render_dec(n as int);
    let suf = kseg + (v + (",\n"@ + ("  "@ + rest)));
    assert(kseg.len() == 19);
    assert(s.len() - i == suf.len());
    assert forall|x: int| 0 <= x < suf.len() implies s[i + x] == suf[x] by {
        assert(s.subrange(i, s.len() as int)[x] == suf[x]);
    }
    assert(s[i + 0] == '"') by { assert(suf[0int] == '"'); }
    assert(s[i + 1] == 'f') by { assert(suf[1int] == 'f'); }
    assert(s[i + 2] == 'i') by { assert(suf[2int] == 'i'); }
    assert(s[i + 3] == 'l') by { assert(suf[3int] == 'l'); }
    assert(s[i + 4] == 'e') by { assert(suf[4int] == 'e'); }
    assert(s[i + 5] == '_') by { assert(suf[5int] == '_'); }
    assert(s[i + 6] == 'w') by { assert(suf[6int] == 'w'); }
    assert(s[i + 7] == 'r') by { assert(suf[7int] == 'r'); }
    assert(s[i + 8] == 'i') by { assert(suf[8int] == 'i'); }
    assert(s[i + 9] == 't') by { assert(suf[9int] == 't'); }
    assert(s[i + 10] == 'e') by { assert(suf[10int] == 'e'); }
    assert(s[i + 11] == '_') by { assert(suf[11int] == '_'); }
    assert(s[i + 12] == 'f') by { assert(suf[12int] == 'f'); }
    assert(s[i + 13] == 'r') by { assert(suf[13int] == 'r'); }
    assert(s[i + 14] == 'a') by { assert(suf[14int] == 'a'); }
    assert(s[i + 15] == 'c') by { assert(suf[15int] == 'c'); }
    assert(s[i + 16] == '"') by { assert(suf[16int] == '"'); }
    assert(s[i + 17] == ':') by { assert(suf[17int] == ':'); }
    assert(s[i + 18] == ' ') by { assert(suf[18int] == ' '); }
    lemma_scan_string_region(s, i + 1, i + 16);
    assert forall|t: int| 0 <= t < 15 implies s.subrange(i + 1, i + 16)[t] == "file_write_frac"@[t] by {
        assert(s[i + (1 + t)] == suf[1 + t]);
        assert(suf[1 + t] == "file_write_frac"@[t]);
    }
    assert(s.subrange(i + 1, i + 16) =~= "file_write_frac"@);
    lemma_skip_ws_region(s, i + 17, i + 17);
    lemma_render_dec_shape(n);
    let vpos = i + 19;
    assert(s[vpos] == v[0]) by { assert(suf[19int] == v[0]); }
    lemma_skip_ws_region(s, i + 18, vpos);
    assert forall|x: int| 0 <= x < v.len() implies s.subrange(vpos, vpos + v.len() as int)[x] == v[x] by {
        assert(s[i + (19 + x)] == suf[19 + x]);
        assert(suf[19 + x] == v[x]);
    }
    assert(s.subrange(vpos, vpos + v.len() as int) =~= v);
    let j = vpos + v.len() as int;
    assert(s[j] == ',') by {
        assert(s[i + (19 + v.len())] == suf[19 + v.len() as int]);
        assert(suf[19 + v.len() as int] == ',');
    }
    assert(s[j + 1] == '\n') by {
        assert(s[i + (19 + v.len() + 1)] == suf[19 + v.len() as int + 1]);
        assert(suf[19 + v.len() as int + 1] == '\n');
    }
    assert(s[j + 2] == ' ') by {
        assert(s[i + (19 + v.len() + 2)] == suf[19 + v.len() as int + 2]);
        assert(suf[19 + v.len() as int + 2] == ' ');
    }
    assert(s[j + 3] == ' ') by {
        assert(s[i + (19 + v.len() + 3)] == suf[19 + v.len() as int + 3]);
        assert(suf[19 + v.len() as int + 3] == ' ');
    }
    assert(s[j + 4] == '"') by {
        assert(s[i + (19 + v.len() + 4)] == suf[19 + v.len() as int + 4]);
        assert(suf[19 + v.len() as int + 4] == rest[0]);
    }
    assert(!is_digit(s[j])) by { assert(',' as u32 == 44); }
    lemma_parse_dec_render(s, vpos, n);
    lemma_skip_ws_region(s, j, j);
    lemma_skip_ws_region(s, j + 1, j + 4);
    assert forall|t: int| 0 <= t < rest.len() implies s.subrange(j + 4, s.len() as int)[t] == rest[t] by {
        assert(s[i + (19 + v.len() + 4 + t)] == suf[19 + v.len() as int + 4 + t]);
        assert(suf[19 + v.len() as int + 4 + t] == rest[t]);
    }
    assert(s.subrange(j + 4, s.len() as int) =~= rest);
}

proof fn lemma_member_file_write_frac(s: Seq<char>, i: int, p: ParamsV, first: bool, n: i64, rest: Seq<char>)
    requires
        0 <= i <= s.len(),
        s.subrange(i, s.len() as int) == "\"file_write_frac\": "@ + (render_dec(n as int) + (",\n"@ + ("  "@ + rest))),
        rest.len() >= 1,
        rest[0] == '"',
    ensures
        parse_members(s, i, p, first) == parse_members(s, s.len() - rest.len(), (ParamsV { file_write_frac: Decimal { nanos: n }, ..p }), false),
        s.subrange(s.len() - rest.len(), s.len() as int) == rest,
{
    lemma_member_file_write_frac_head(s, i, n, rest);
    let vpos = i + 19;
    let j = vpos + render_dec(n as int).len() as int;
    lemma_field_value_file_write_frac(s, vpos, p, n, j);
    lemma_members_step(s, i, p, first, "file_write_frac"@, (ParamsV { file_write_frac: Decimal { nanos: n }, ..p }), i + 16, i + 17, vpos, j, j + 4);
}

#[verifier::rlimit(100)]
proof fn lemma_member_anon_size_ratio_head(s: Seq<char>, i: int, n: i64, rest: Seq<char>)
    requires
        0 <= i <= s.len(),
        s.subrange(i, s.len() as int) == "\"anon_size_ratio\": "@ + (render_dec(n as int) + (",\n"@ + ("  "@ + rest))),
        rest.len() >= 1,
        rest[0] == '"',
    ensures
        i < s.len(),
        s[i] == '"',
        scan_string(s, i + 1) == i + 16,
        i + 16 < s.len(),
        s[i + 16] == '"',
        s.subrange(i + 1, i + 16) == "anon_size_ratio"@,
        skip_trivia(s, i + 17) == i + 17,
        i + 17 < s.len(),
        s[i + 17] == ':',
        skip_trivia(s, i + 18) == i + 19,
        i + 19 + render_dec(n as int).len() + 4 == s.len() - rest.len(),
        parse_dec(s, i + 19) == Some((n as int, i + 19 + render_dec(n as int).len() as int)),
        skip_trivia(s, i + 19 + render_dec(n as int).len() as int) == i + 19 + render_dec(n as int).len(),
        i + 19 + render_dec(n as int).len() < s.len(),
        s[i + 19 + render_dec(n as int).len()] == ',',
        skip_trivia(s, i + 19 + render_dec(n as int).len() + 1) == s.len() - rest.len(),
        s.subrange(s.len() - rest.len(), s.len() as int) == rest,
{
    reveal_strlit("\"anon_size_ratio\": ");
    reveal_strlit("anon_size_ratio");
    reveal_strlit(",\n");
    reveal_strlit("  ");
    let kseg = "\"anon_size_ratio\": "@;
    let v = render_dec(n as int);
    let suf = kseg + (v + (",\n"@ + ("  "@ + rest)));
    assert(kseg.len() == 19);
    assert(s.len() - i == suf.len());
    assert forall|x: int| 0 <= x < suf.len() implies s[i + x] == suf[x] by {
        assert(s.subrange(i, s.len() as int)[x] == suf[x]);
    }
    assert(s[i + 0] == '"') by { assert(suf[0int] == '"'); }
    assert(s[i + 1] == 'a') by { assert(suf[1int] == 'a'); }
    assert(s[i + 2] == 'n') by { assert(suf[2int] == 'n'); }
    assert(s[i + 3] == 'o') by { assert(suf[3int] == 'o'); }
    assert(s[i + 4] == 'n') by { assert(suf[4int] == 'n'); }
    assert(s[i + 5] == '_') by { assert(suf[5int] == '_'); }
    assert(s[i + 6] == 's') by { assert(suf[6int] == 's'); }
    assert(s[i + 7] == 'i') by { assert(suf[7int] == 'i'); }
    assert(s[i + 8] == 'z') by { assert(suf[8int] == 'z'); }
    assert(s[i + 9] == 'e') by { assert(suf[9int] == 'e'); }
    assert(s[i + 10] == '_') by { assert(suf[10int] == '_'); }
    assert(s[i + 11] == 'r') by { assert(suf[11int] == 'r'); }
    assert(s[i + 12] == 'a') by { assert(suf[12int] == 'a'); }
    assert(s[i + 13] == 't') by { assert(suf[13int] == 't'); }
    assert(s[i + 14] == 'i') by { assert(suf[14int] == 'i'); }
    assert(s[i + 15] == 'o') by { assert(suf[15int] == 'o'); }
    assert(s[i + 16] == '"') by { assert(suf[16int] == '"'); }
    assert(s[i + 17] == ':') by { assert(suf[17int] == ':'); }
    assert(s[i + 18] == ' ') by { assert(suf[18int] == ' '); }
    lemma_scan_string_region(s, i + 1, i + 16);
    assert forall|t: int| 0 <= t < 15 implies s.subrange(i + 1, i + 16)[t] == "anon_size_ratio"@[t] by {
        assert(s[i + (1 + t)] == suf[1 + t]);
        assert(suf[1 + t] == "anon_size_ratio"@[t]);
    }
    assert(s.subrange(i + 1, i + 16) =~= "anon_size_ratio"@);
    lemma_skip_ws_region(s, i + 17, i + 17);
    lemma_render_dec_shape(n);
    let vpos = i + 19;
    assert(s[vpos] == v[0]) by { assert(suf[19int] == v[0]); }
    lemma_skip_ws_region(s, i + 18, vpos);
    assert forall|x: int| 0 <= x < v.len() implies s.subrange(vpos, vpos + v.len() as int)[x] == v[x] by {
        assert(s[i + (19 + x)] == suf[19 + x]);
        assert(suf[19 + x] == v[x]);
    }
    assert(s.subrange(vpos, vpos + v.len() as int) =~= v);
    let j = vpos + v.len() as int;
    assert(s[j] == ',') by {
        assert(s[i + (19 + v.len())] == suf[19 + v.len() as int]);
        assert(suf[19 + v.len() as int] == ',');
    }
    assert(s[j + 1] == '\n') by {
        assert(s[i + (19 + v.len() + 1)] == suf[19 + v.len() as int + 1]);
        assert(suf[19 + v.len() as int + 1] == '\n');
    }
    assert(s[j + 2] == ' ') by {
        assert(s[i + (19 + v.len() + 2)] == suf[19 + v.len() as int + 2]);
        assert(suf[19 + v.len() as int + 2] == ' ');
    }
    assert(s[j + 3] == ' ') by {
        assert(s[i + (19 + v.len() + 3)] == suf[19 + v.len() as int + 3]);
        assert(suf[19 + v.len() as int + 3] == ' ');
    }
    assert(s[j + 4] == '"') by {
        assert(s[i + (19 + v.len() + 4)] == suf[19 + v.len() as int + 4]);
        assert(suf[19 + v.len() as int + 4] == rest[0]);
    }
    assert(!is_digit(s[j])) by { assert(',' as u32 == 44); }
    lemma_parse_dec_render(s, vpos, n);
    lemma_skip_ws_region(s, j, j);
    lemma_skip_ws_region(s, j + 1, j + 4);
    assert forall|t: int| 0 <= t < rest.len() implies s.subrange(j + 4, s.len() as int)[t] == rest[t] by {
        assert(s[i + (19 + v.len() + 4 + t)] == suf[19 + v.len() as int + 4 + t]);
        assert(suf[19 + v.len() as int + 4 + t] == rest[t]);
    }
    assert(s.subrange(j + 4, s.len() as int) =~= rest);
}

proof fn lemma_member_anon_size_ratio(s: Seq<char>, i: int, p: ParamsV, first: bool, n: i64, rest: Seq<char>)
    requires
        0 <= i <= s.len(),
        s.subrange(i, s.len() as int) == "\"anon_size_ratio\": "@ + (render_dec(n as int) + (",\n"@ + ("  "@ + rest))),
        rest.len() >= 1,
        rest[0] == '"',
    ensures
        parse_members(s, i, p, first) == parse_members(s, s.len() - rest.len(), (ParamsV { anon_size_ratio: Decimal { nanos: n }, ..p }), false),
        s.subrange(s.len() - rest.len(), s.len() as int) == rest,
{
    lemma_member_anon_size_ratio_head(s, i, n, rest);
    let vpos = i + 19;
    let j = vpos + render_dec(n as int).len() as int;
    lemma_field_value_anon_size_ratio(s, vpos, p, n, j);
    lemma_members_step(s, i, p, first, "anon_size_ratio"@, (ParamsV { anon_size_ratio: Decimal { nanos: n }, ..p }), i + 16, i + 17, vpos, j, j + 4);
}

#[verifier::rlimit(100)]
proof fn lemma_member_anon_size_stdev_ratio_head(s: Seq<char>, i: int, n: i64, rest: Seq<char>)
    requires
        0 <= i <= s.len(),
        s.subrange(i, s.len() as int) == "\"anon_size_stdev_ratio\": "@ + (render_dec(n as int) + (",\n"@ + ("  "@ + rest))),
        rest.len() >= 1,
        rest[0] == '"',
    ensures
        i < s.len(),
        s[i] == '"',
        scan_string(s, i + 1) == i + 22,
        i + 22 < s.len(),
        s[i + 22] == '"',
        s.subrange(i + 1, i + 22) == "anon_size_stdev_ratio"@,
        skip_trivia(s, i + 23) == i + 23,
        i + 23 < s.len(),
        s[i + 23] == ':',
        skip_trivia(s, i + 24) == i + 25,
        i + 25 + render_dec(n as int).len() + 4 == s.len() - rest.len(),
        parse_dec(s, i + 25) == Some((n as int, i + 25 + render_dec(n as int).len() as int)),
        skip_trivia(s, i + 25 + render_dec(n as int).len() as int) == i + 25 + render_dec(n as int).len(),
        i + 25 + render_dec(n as int).len() < s.len(),
        s[i + 25 + render_dec(n as int).len()] == ',',
        skip_trivia(s, i + 25 + render_dec(n as int).len() + 1) == s.len() - rest.len(),
        s.subrange(s.len() - rest.len(), s.len() as int) == rest,
{
    reveal_strlit("\"anon_size_stdev_ratio\": ");
    reveal_strlit("anon_size_stdev_ratio");
    reveal_strlit(",\n");
    reveal_strlit("  ");
    let kseg = "\"anon_size_stdev_ratio\": "@;
    let v = render_dec(n as int);
    let suf = kseg + (v + (",\n"@ + ("  "@ + rest)));
    assert(kseg.len() == 25);
    assert(s.len() - i == suf.len());
    assert forall|x: int| 0 <= x < suf.len() implies s[i + x] == suf[x] by {
        assert(s.subrange(i, s.len() as int)[x] == suf[x]);
    }
    assert(s[i + 0] == '"') by { assert(suf[0int] == '"'); }
    assert(s[i + 1] == 'a') by { assert(suf[1int] == 'a'); }
    assert(s[i + 2] == 'n') by { assert(suf[2int] == 'n'); }
    assert(s[i + 3] == 'o') by { assert(suf[3int] == 'o'); }
    assert(s[i + 4] == 'n') by { assert(suf[4int] == 'n'); }
    assert(s[i + 5] == '_') by { assert(suf[5int] == '_'); }
    assert(s[i + 6] == 's') by { assert(suf[6int] == 's'); }
    assert(s[i + 7] == 'i') by { assert(suf[7int] == 'i'); }
    assert(s[i + 8] == 'z') by { assert(suf[8int] == 'z'); }
    assert(s[i + 9] == 'e') by { assert(suf[9int] == 'e'); }
    assert(s[i + 10] == '_') by { assert(suf[10int] == '_'); }
    assert(s[i + 11] == 's') by { assert(suf[11int] == 's'); }
    assert(s[i + 12] == 't') by { assert(suf[12int] == 't'); }
    assert(s[i + 13] == 'd') by { assert(suf[13int] == 'd'); }
    assert(s[i + 14] == 'e') by { assert(suf[14int] == 'e'); }
    assert(s[i + 15] == 'v') by { assert(suf[15int] == 'v'); }
    assert(s[i + 16] == '_') by { assert(suf[16int] == '_'); }
    assert(s[i + 17] == 'r') by { assert(suf[17int] == 'r'); }
    assert(s[i + 18] == 'a') by { assert(suf[18int] == 'a'); }
    assert(s[i + 19] == 't') by { assert(suf[19int] == 't'); }
    assert(s[i + 20] == 'i') by { assert(suf[20int] == 'i'); }
    assert(s[i + 21] == 'o') by { assert(suf[21int] == 'o'); }
    assert(s[i + 22] == '"') by { assert(suf[22int] == '"'); }
    assert(s[i + 23] == ':') by { assert(suf[23int] == ':'); }
    assert(s[i + 24] == ' ') by { assert(suf[24int] == ' '); }
    lemma_scan_string_region(s, i + 1, i + 22);
    assert forall|t: int| 0 <= t < 21 implies s.subrange(i + 1, i + 22)[t] == "anon_size_stdev_ratio"@[t] by {
        assert(s[i + (1 + t)] == suf[1 + t]);
        assert(suf[1 + t] == "anon_size_stdev_ratio"@[t]);
    }
    assert(s.subrange(i + 1, i + 22) =~= "anon_size_stdev_ratio"@);
    lemma_skip_ws_region(s, i + 23, i + 23);
    lemma_render_dec_shape(n);
    let vpos = i + 25;
    assert(s[vpos] == v[0]) by { assert(suf[25int] == v[0]); }
    lemma_skip_ws_region(s, i + 24, vpos);
    assert forall|x: int| 0 <= x < v.len() implies s.subrange(vpos, vpos + v.len() as int)[x] == v[x] by {
        assert(s[i + (25 + x)] == suf[25 + x]);
        assert(suf[25 + x] == v[x]);
    }
    assert(s.subrange(vpos, vpos + v.len() as int) =~= v);
    let j = vpos + v.len() as int;
    assert(s[j] == ',') by {
        assert(s[i + (25 + v.len())] == suf[25 + v.len() as int]);
        assert(suf[25 + v.len() as int] == ',');
    }
    assert(s[j + 1] == '\n') by {
        assert(s[i + (25 + v.len() + 1)] == suf[25 + v.len() as int + 1]);
        assert(suf[25 + v.len() as int + 1] == '\n');
    }
    assert(s[j + 2] == ' ') by {
        assert(s[i + (25 + v.len() + 2)] == suf[25 + v.len() as int + 2]);
        assert(suf[25 + v.len() as int + 2] == ' ');
    }
    assert(s[j + 3] == ' ') by {
        assert(s[i + (25 + v.len() + 3)] == suf[25 + v.len() as int + 3]);
        assert(suf[25 + v.len() as int + 3] == ' ');
    }
    assert(s[j + 4] == '"') by {
        assert(s[i + (25 + v.len() + 4)] == suf[25 + v.len() as int + 4]);
        assert(suf[25 + v.len() as int + 4] == rest[0]);
    }
    assert(!is_digit(s[j])) by { assert(',' as u32 == 44); }
    lemma_parse_dec_render(s, vpos, n);
    lemma_skip_ws_region(s, j, j);
    lemma_skip_ws_region(s, j + 1, j + 4);
    assert forall|t: int| 0 <= t < rest.len() implies s.subrange(j + 4, s.len() as int)[t] == rest[t] by {
        assert(s[i + (25 + v.len() + 4 + t)] == suf[25 + v.len() as int + 4 + t]);
        assert(suf[25 + v.len() as int + 4 + t] == rest[t]);
    }
    assert(s.subrange(j + 4, s.len() as int) =~= rest);
}

proof fn lemma_member_anon_size_stdev_ratio(s: Seq<char>, i: int, p: ParamsV, first: bool, n: i64, rest: Seq<char>)
    requires
        0 <= i <= s.len(),
        s.subrange(i, s.len() as int) == "\"anon_size_stdev_ratio\": "@ + (render_dec(n as int) + (",\n"@ + ("  "@ + rest))),
        rest.len() >= 1,
        rest[0] == '"',
    ensures
        parse_members(s, i, p, first) == parse_members(s, s.len() - rest.len(), (ParamsV { anon_size_stdev_ratio: Decimal { nanos: n }, ..p }), false),
        s.subrange(s.len() - rest.len(), s.len() as int) == rest,
{
    lemma_member_anon_size_stdev_ratio_head(s, i, n, rest);
    let vpos = i + 25;
    let j = vpos + render_dec(n as int).len() as int;
    lemma_field_value_anon_size_stdev_ratio(s, vpos, p, n, j);
    lemma_members_step(s, i, p, first, "anon_size_stdev_ratio"@, (ParamsV { anon_size_stdev_ratio: Decimal { nanos: n }, ..p }), i + 22, i + 23, vpos, j, j + 4);
}

#[verifier::rlimit(100)]
proof fn lemma_member_anon_addr_stdev_ratio_head(s: Seq<char>, i: int, n: i64, rest: Seq<char>)
    requires
        0 <= i <= s.len(),
        s.subrange(i, s.len() as int) == "\"anon_addr_stdev_ratio\": "@ + (render_dec(n as int) + (",\n"@ + ("  "@ + rest))),
        rest.len() >= 1,
        rest[0] == '"',
    ensures
        i < s.len(),
        s[i] == '"',
        scan_string(s, i + 1) == i + 22,
        i + 22 < s.len(),
        s[i + 22] == '"',
        s.subrange(i + 1, i + 22) == "anon_addr_stdev_ratio"@,
        skip_trivia(s, i + 23) == i + 23,
        i + 23 < s.len(),
        s[i + 23] == ':',
        skip_trivia(s, i + 24) == i + 25,
        i + 25 + render_dec(n as int).len() + 4 == s.len() - rest.len(),
        parse_dec(s, i + 25) == Some((n as int, i + 25 + render_dec(n as int).len() as int)),
        skip_trivia(s, i + 25 + render_dec(n as int).len() as int) == i + 25 + render_dec(n as int).len(),
        i + 25 + render_dec(n as int).len() < s.len(),
        s[i + 25 + render_dec(n as int).len()] == ',',
        skip_trivia(s, i + 25 + render_dec(n as int).len() + 1) == s.len() - rest.len(),
        s.subrange(s.len() - rest.len(), s.len() as int) == rest,
{
    reveal_strlit("\"anon_addr_stdev_ratio\": ");
    reveal_strlit("anon_addr_stdev_ratio");
    reveal_strlit(",\n");
    reveal_strlit("  ");
    let kseg = "\"anon_addr_stdev_ratio\": "@;
    let v = render_dec(n as int);
    let suf = kseg + (v + (",\n"@ + ("  "@ + rest)));
    assert(kseg.len() == 25);
    assert(s.len() - i == suf.len());
    assert forall|x: int| 0 <= x < suf.len() implies s[i + x] == suf[x] by {
        assert(s.subrange(i, s.len() as int)[x] == suf[x]);
    }
    assert(s[i + 0] == '"') by { assert(suf[0int] == '"'); }
    assert(s[i + 1] == 'a') by { assert(suf[1int] == 'a'); }
    assert(s[i + 2] == 'n') by { assert(suf[2int] == 'n'); }
    assert(s[i + 3] == 'o') by { assert(suf[3int] == 'o'); }
    assert(s[i + 4] == 'n') by { assert(suf[4int] == 'n'); }
    assert(s[i + 5] == '_') by { assert(suf[5int] == '_'); }
    assert(s[i + 6] == 'a') by { assert(suf[6int] == 'a'); }
    assert(s[i + 7] == 'd') by { assert(suf[7int] == 'd'); }
    assert(s[i + 8] == 'd') by { assert(suf[8int] == 'd'); }
    assert(s[i + 9] == 'r') by { assert(suf[9int] == 'r'); }
    assert(s[i + 10] == '_') by { assert(suf[10int] == '_'); }
    assert(s[i + 11] == 's') by { assert(suf[11int] == 's'); }
    assert(s[i + 12] == 't') by { assert(suf[12int] == 't'); }
    assert(s[i + 13] == 'd') by { assert(suf[13int] == 'd'); }
    assert(s[i + 14] == 'e') by { assert(suf[14int] == 'e'); }
    assert(s[i + 15] == 'v') by { assert(suf[15int] == 'v'); }
    assert(s[i + 16] == '_') by { assert(suf[16int] == '_'); }
    assert(s[i + 17] == 'r') by { assert(suf[17int] == 'r'); }
    assert(s[i + 18] == 'a') by { assert(suf[18int] == 'a'); }
    assert(s[i + 19] == 't') by { assert(suf[19int] == 't'); }
    assert(s[i + 20] == 'i') by { assert(suf[20int] == 'i'); }
    assert(s[i + 21] == 'o') by { assert(suf[21int] == 'o'); }
    assert(s[i + 22] == '"') by { assert(suf[22int] == '"'); }
    assert(s[i + 23] == ':') by { assert(suf[23int] == ':'); }
    assert(s[i + 24] == ' ') by { assert(suf[24int] == ' '); }
    lemma_scan_string_region(s, i + 1, i + 22);
    assert forall|t: int| 0 <= t < 21 implies s.subrange(i + 1, i + 22)[t] == "anon_addr_stdev_ratio"@[t] by {
        assert(s[i + (1 + t)] == suf[1 + t]);
        assert(suf[1 + t] == "anon_addr_stdev_ratio"@[t]);
    }
    assert(s.subrange(i + 1, i + 22) =~= "anon_addr_stdev_ratio"@);
    lemma_skip_ws_region(s, i + 23, i + 23);
    lemma_render_dec_shape(n);
    let vpos = i + 25;
    assert(s[vpos] == v[0]) by { assert(suf[25int] == v[0]); }
    lemma_skip_ws_region(s, i + 24, vpos);
    assert forall|x: int| 0 <= x < v.len() implies s.subrange(vpos, vpos + v.len() as int)[x] == v[x] by {
        assert(s[i + (25 + x)] == suf[25 + x]);
        assert(suf[25 + x] == v[x]);
    }
    assert(s.subrange(vpos, vpos + v.len() as int) =~= v);
    let j = vpos + v.len() as int;
    assert(s[j] == ',') by {
        assert(s[i + (25 + v.len())] == suf[25 + v.len() as int]);
        assert(suf[25 + v.len() as int] == ',');
    }
    assert(s[j + 1] == '\n') by {
        assert(s[i + (25 + v.len() + 1)] == suf[25 + v.len() as int + 1]);
        assert(suf[25 + v.len() as int + 1] == '\n');
    }
    assert(s[j + 2] == ' ') by {
        assert(s[i + (25 + v.len() + 2)] == suf[25 + v.len() as int + 2]);
        assert(suf[25 + v.len() as int + 2] == ' ');
    }
    assert(s[j + 3] == ' ') by {
        assert(s[i + (25 + v.len() + 3)] == suf[25 + v.len() as int + 3]);
        assert(suf[25 + v.len() as int + 3] == ' ');
    }
    assert(s[j + 4] == '"') by {
        assert(s[i + (25 + v.len() + 4)] == suf[25 + v.len() as int + 4]);
        assert(suf[25 + v.len() as int + 4] == rest[0]);
    }
    assert(!is_digit(s[j])) by { assert(',' as u32 == 44); }
    lemma_parse_dec_render(s, vpos, n);
    lemma_skip_ws_region(s, j, j);
    lemma_skip_ws_region(s, j + 1, j + 4);
    assert forall|t: int| 0 <= t < rest.len() implies s.subrange(j + 4, s.len() as int)[t] == rest[t] by {
        assert(s[i + (25 + v.len() + 4 + t)] == suf[25 + v.len() as int + 4 + t]);
        assert(suf[25 + v.len() as int + 4 + t] == rest[t]);
    }
    assert(s.subrange(j + 4, s.len() as int) =~= rest);
}

proof fn lemma_member_anon_addr_stdev_ratio(s: Seq<char>, i: int, p: ParamsV, first: bool, n: i64, rest: Seq<char>)
    requires
        0 <= i <= s.len(),
        s.subrange(i, s.len() as int) == "\"anon_addr_stdev_ratio\": "@ + (render_dec(n as int) + (",\n"@ + ("  "@ + rest))),
        rest.len() >= 1,
        rest[0] == '"',
    ensures
        parse_members(s, i, p, first) == parse_members(s, s.len() - rest.len(), (ParamsV { anon_addr_stdev_ratio: Decimal { nanos: n }, ..p }), false),
        s.subrange(s.len() - rest.len(), s.len() as int) == rest,
{
    lemma_member_anon_addr_stdev_ratio_head(s, i, n, rest);
    let vpos = i + 25;
    let j = vpos + render_dec(n as int).len() as int;
    lemma_field_value_anon_addr_stdev_ratio(s, vpos, p, n, j);
    lemma_members_step(s, i, p, first, "anon_addr_stdev_ratio"@, (ParamsV { anon_addr_stdev_ratio: Decimal { nanos: n }, ..p }), i + 22, i + 23, vpos, j, j + 4);
}

#[verifier::rlimit(100)]
proof fn lemma_member_anon_addr_rps_base_frac_head(s: Seq<char>, i: int, n: i64, rest: Seq<char>)
    requires
        0 <= i <= s.len(),
        s.subrange(i, s.len() as int) == "\"anon_addr_rps_base_frac\": "@ + (render_dec(n as int) + (",\n"@ + ("  "@ + rest))),
        rest.len() >= 1,
        rest[0] == '"',
    ensures
        i < s.len(),
        s[i] == '"',
        scan_string(s, i + 1) == i + 24,
        i + 24 < s.len(),
        s[i + 24] == '"',
        s.subrange(i + 1, i + 24) == "anon_addr_rps_base_frac"@,
        skip_trivia(s, i + 25) == i + 25,
        i + 25 < s.len(),
        s[i + 25] == ':',
        skip_trivia(s, i + 26) == i + 27,
        i + 27 + render_dec(n as int).len() + 4 == s.len() - rest.len(),
        parse_dec(s, i + 27) == Some((n as int, i + 27 + render_dec(n as int).len() as int)),
        skip_trivia(s, i + 27 + render_dec(n as int).len() as int) == i + 27 + render_dec(n as int).len(),
        i + 27 + render_dec(n as int).len() < s.len(),
        s[i + 27 + render_dec(n as int).len()] == ',',
        skip_trivia(s, i + 27 + render_dec(n as int).len() + 1) == s.len() - rest.len(),
        s.subrange(s.len() - rest.len(), s.len() as int) == rest,
{
    reveal_strlit("\"anon_addr_rps_base_frac\": ");
    reveal_strlit("anon_addr_rps_base_frac");
    reveal_strlit(",\n");
    reveal_strlit("  ");
    let kseg = "\"anon_addr_rps_base_frac\": "@;
    let v = render_dec(n as int);
    let suf = kseg + (v + (",\n"@ + ("  "@ + rest)));
    assert(kseg.len() == 27);
    assert(s.len() - i == suf.len());
    assert forall|x: int| 0 <= x < suf.len() implies s[i + x] == suf[x] by {
        assert(s.subrange(i, s.len() as int)[x] == suf[x]);
    }
    assert(s[i + 0] == '"') by { assert(suf[0int] == '"'); }
    assert(s[i + 1] == 'a') by { assert(suf[1int] == 'a'); }
    assert(s[i + 2] == 'n') by { assert(suf[2int] == 'n'); }
    assert(s[i + 3] == 'o') by { assert(suf[3int] == 'o'); }
    assert(s[i + 4] == 'n') by { assert(suf[4int] == 'n'); }
    assert(s[i + 5] == '_') by { assert(suf[5int] == '_'); }
    assert(s[i + 6] == 'a') by { assert(suf[6int] == 'a'); }
    assert(s[i + 7] == 'd') by { assert(suf[7int] == 'd'); }
    assert(s[i + 8] == 'd') by { assert(suf[8int] == 'd'); }
    assert(s[i + 9] == 'r') by { assert(suf[9int] == 'r'); }
    assert(s[i + 10] == '_') by { assert(suf[10int] == '_'); }
    assert(s[i + 11] == 'r') by { assert(suf[11int] == 'r'); }
    assert(s[i + 12] == 'p') by { assert(suf[12int] == 'p'); }
    assert(s[i + 13] == 's') by { assert(suf[13int] == 's'); }
    assert(s[i + 14] == '_') by { assert(suf[14int] == '_'); }
    assert(s[i + 15] == 'b') by { assert(suf[15int] == 'b'); }
    assert(s[i + 16] == 'a') by { assert(suf[16int] == 'a'); }
    assert(s[i + 17] == 's') by { assert(suf[17int] == 's'); }
    assert(s[i + 18] == 'e') by { assert(suf[18int] == 'e'); }
    assert(s[i + 19] == '_') by { assert(suf[19int] == '_'); }
    assert(s[i + 20] == 'f') by { assert(suf[20int] == 'f'); }
    assert(s[i + 21] == 'r') by { assert(suf[21int] == 'r'); }
    assert(s[i + 22] == 'a') by { assert(suf[22int] == 'a'); }
    assert(s[i + 23] == 'c') by { assert(suf[23int] == 'c'); }
    assert(s[i + 24] == '"') by { assert(suf[24int] == '"'); }
    assert(s[i + 25] == ':') by { assert(suf[25int] == ':'); }
    assert(s[i + 26] == ' ') by { assert(suf[26int] == ' '); }
    lemma_scan_string_region(s, i + 1, i + 24);
    assert forall|t: int| 0 <= t < 23 implies s.subrange(i + 1, i + 24)[t] == "anon_addr_rps_base_frac"@[t] by {
        assert(s[i + (1 + t)] == suf[1 + t]);
        assert(suf[1 + t] == "anon_addr_rps_base_frac"@[t]);
    }
    assert(s.subrange(i + 1, i + 24) =~= "anon_addr_rps_base_frac"@);
    lemma_skip_ws_region(s, i + 25, i + 25);
    lemma_render_dec_shape(n);
    let vpos = i + 27;
    assert(s[vpos] == v[0]) by { assert(suf[27int] == v[0]); }
    lemma_skip_ws_region(s, i + 26, vpos);
    assert forall|x: int| 0 <= x < v.len() implies s.subrange(vpos, vpos + v.len() as int)[x] == v[x] by {
        assert(s[i + (27 + x)] == suf[27 + x]);
        assert(suf[27 + x] == v[x]);
    }
    assert(s.subrange(vpos, vpos + v.len() as int) =~= v);
    let j = vpos + v.len() as int;
    assert(s[j] == ',') by {
        assert(s[i + (27 + v.len())] == suf[27 + v.len() as int]);
        assert(suf[27 + v.len() as int] == ',');
    }
    assert(s[j + 1] == '\n') by {
        assert(s[i + (27 + v.len() + 1)] == suf[27 + v.len() as int + 1]);
        assert(suf[27 + v.len() as int + 1] == '\n');
    }
    assert(s[j + 2] == ' ') by {
        assert(s[i + (27 + v.len() + 2)] == suf[27 + v.len() as int + 2]);
        assert(suf[27 + v.len() as int + 2] == ' ');
    }
    assert(s[j + 3] == ' ') by {
        assert(s[i + (27 + v.len() + 3)] == suf[27 + v.len() as int + 3]);
        assert(suf[27 + v.len() as int + 3] == ' ');
    }
    assert(s[j + 4] == '"') by {
        assert(s[i + (27 + v.len() + 4)] == suf[27 + v.len() as int + 4]);
        assert(suf[27 + v.len() as int + 4] == rest[0]);
    }
    assert(!is_digit(s[j])) by { assert(',' as u32 == 44); }
    lemma_parse_dec_render(s, vpos, n);
    lemma_skip_ws_region(s, j, j);
    lemma_skip_ws_region(s, j + 1, j + 4);
    assert forall|t: int| 0 <= t < rest.len() implies s.subrange(j + 4, s.len() as int)[t] == rest[t] by {
        assert(s[i + (27 + v.len() + 4 + t)] == suf[27 + v.len() as int + 4 + t]);
        assert(suf[27 + v.len() as int + 4 + t] == rest[t]);
    }
    assert(s.subrange(j + 4, s.len() as int) =~= rest);
}

proof fn lemma_member_anon_addr_rps_base_frac(s: Seq<char>, i: int, p: ParamsV, first: bool, n: i64, rest: Seq<char>)
    requires
        0 <= i <= s.len(),
        s.subrange(i, s.len() as int) == "\"anon_addr_rps_base_frac\": "@ + (render_dec(n as int) + (",\n"@ + ("  "@ + rest))),
        rest.len() >= 1,
        rest[0] == '"',
    ensures
        parse_members(s, i, p, first) == parse_members(s, s.len() - rest.len(), (ParamsV { anon_addr_rps_base_frac: Decimal { nanos: n }, ..p }), false),
        s.subrange(s.len() - rest.len(), s.len() as int) == rest,
{
    lemma_member_anon_addr_rps_base_frac_head(s, i, n, rest);
    let vpos = i + 27;
    let j = vpos + render_dec(n as int).len() as int;
    lemma_field_value_anon_addr_rps_base_frac(s, vpos, p, n, j);
    lemma_members_step(s, i, p, first, "anon_addr_rps_base_frac"@, (ParamsV { anon_addr_rps_base_frac: Decimal { nanos: n }, ..p }), i + 24, i + 25, vpos, j, j + 4);
}

#[verifier::rlimit(100)]
proof fn lemma_member_anon_write_frac_head(s: Seq<char>, i: int, n: i64, rest: Seq<char>)
    requires
        0 <= i <= s.len(),
        s.subrange(i, s.len() as int) == "\"anon_write_frac\": "@ + (render_dec(n as int) + (",\n"@ + ("  "@ + rest))),
        rest.len() >= 1,
        rest[0] == '"',
    ensures
        i < s.len(),
        s[i] == '"',
        scan_string(s, i + 1) == i + 16,
        i + 16 < s.len(),
        s[i + 16] == '"',
        s.subrange(i + 1, i + 16) == "anon_write_frac"@,
        skip_trivia(s, i + 17) == i + 17,
        i + 17 < s.len(),
        s[i + 17] == ':',
        skip_trivia(s, i + 18) == i + 19,
        i + 19 + render_dec(n as int).len() + 4 == s.len() - rest.len(),
        parse_dec(s, i + 19) == Some((n as int, i + 19 + render_dec(n as int).len() as int)),
        skip_trivia(s, i + 19 + render_dec(n as int).len() as int) == i + 19 + render_dec(n as int).len(),
        i + 19 + render_dec(n as int).len() < s.len(),
        s[i + 19 + render_dec(n as int).len()] == ',',
        skip_trivia(s, i + 19 + render_dec(n as int).len() + 1) == s.len() - rest.len(),
        s.subrange(s.len() - rest.len(), s.len() as int) == rest,
{
    reveal_strlit("\"anon_write_frac\": ");
    reveal_strlit("anon_write_frac");
    reveal_strlit(",\n");
    reveal_strlit("  ");
    let kseg = "\"anon_write_frac\": "@;
    let v = render_dec(n as int);
    let suf = kseg + (v + (",\n"@ + ("  "@ + rest)));
    assert(kseg.len() == 19);
    assert(s.len() - i == suf.len());
    assert forall|x: int| 0 <= x < suf.len() implies s[i + x] == suf[x] by {
        assert(s.subrange(i, s.len() as int)[x] == suf[x]);
    }
    assert(s[i + 0] == '"') by { assert(suf[0int] == '"'); }
    assert(s[i + 1] == 'a') by { assert(suf[1int] == 'a'); }
    assert(s[i + 2] == 'n') by { assert(suf[2int] == 'n'); }
    assert(s[i + 3] == 'o') by { assert(suf[3int] == 'o'); }
    assert(s[i + 4] == 'n') by { assert(suf[4int] == 'n'); }
    assert(s[i + 5] == '_') by { assert(suf[5int] == '_'); }
    assert(s[i + 6] == 'w') by { assert(suf[6int] == 'w'); }
    assert(s[i + 7] == 'r') by { assert(suf[7int] == 'r'); }
    assert(s[i + 8] == 'i') by { assert(suf[8int] == 'i'); }
    assert(s[i + 9] == 't') by { assert(suf[9int] == 't'); }
    assert(s[i + 10] == 'e') by { assert(suf[10int] == 'e'); }
    assert(s[i + 11] == '_') by { assert(suf[11int] == '_'); }
    assert(s[i + 12] == 'f') by { assert(suf[12int] == 'f'); }
    assert(s[i + 13] == 'r') by { assert(suf[13int] == 'r'); }
    assert(s[i + 14] == 'a') by { assert(suf[14int] == 'a'); }
    assert(s[i + 15] == 'c') by { assert(suf[15int] == 'c'); }
    assert(s[i + 16] == '"') by { assert(suf[16int] == '"'); }
    assert(s[i + 17] == ':') by { assert(suf[17int] == ':'); }
    assert(s[i + 18] == ' ') by { assert(suf[18int] == ' '); }
    lemma_scan_string_region(s, i + 1, i + 16);
    assert forall|t: int| 0 <= t < 15 implies s.subrange(i + 1, i + 16)[t] == "anon_write_frac"@[t] by {
        assert(s[i + (1 + t)] == suf[1 + t]);
        assert(suf[1 + t] == "anon_write_frac"@[t]);
    }
    assert(s.subrange(i + 1, i + 16) =~= "anon_write_frac"@);
    lemma_skip_ws_region(s, i + 17, i + 17);
    lemma_render_dec_shape(n);
    let vpos = i + 19;
    assert(s[vpos] == v[0]) by { assert(suf[19int] == v[0]); }
    lemma_skip_ws_region(s, i + 18, vpos);
    assert forall|x: int| 0 <= x < v.len() implies s.subrange(vpos, vpos + v.len() as int)[x] == v[x] by {
        assert(s[i + (19 + x)] == suf[19 + x]);
        assert(suf[19 + x] == v[x]);
    }
    assert(s.subrange(vpos, vpos + v.len() as int) =~= v);
    let j = vpos + v.len() as int;
    assert(s[j] == ',') by {
        assert(s[i + (19 + v.len())] == suf[19 + v.len() as int]);
        assert(suf[19 + v.len() as int] == ',');
    }
    assert(s[j + 1] == '\n') by {
        assert(s[i + (19 + v.len() + 1)] == suf[19 + v.len() as int + 1]);
        assert(suf[19 + v.len() as int + 1] == '\n');
    }
    assert(s[j + 2] == ' ') by {
        assert(s[i + (19 + v.len() + 2)] == suf[19 + v.len() as int + 2]);
        assert(suf[19 + v.len() as int + 2] == ' ');
    }
    assert(s[j + 3] == ' ') by {
        assert(s[i + (19 + v.len() + 3)] == suf[19 + v.len() as int + 3]);
        assert(suf[19 + v.len() as int + 3] == ' ');
    }
    assert(s[j + 4] == '"') by {
        assert(s[i + (19 + v.len() + 4)] == suf[19 + v.len() as int + 4]);
        assert(suf[19 + v.len() as int + 4] == rest[0]);
    }
    assert(!is_digit(s[j])) by { assert(',' as u32 == 44); }
    lemma_parse_dec_render(s, vpos, n);
    lemma_skip_ws_region(s, j, j);
    lemma_skip_ws_region(s, j + 1, j + 4);
    assert forall|t: int| 0 <= t < rest.len() implies s.subrange(j + 4, s.len() as int)[t] == rest[t] by {
        assert(s[i + (19 + v.len() + 4 + t)] == suf[19 + v.len() as int + 4 + t]);
        assert(suf[19 + v.len() as int + 4 + t] == rest[t]);
    }
    assert(s.subrange(j + 4, s.len() as int) =~= rest);
}

proof fn lemma_member_anon_write_frac(s: Seq<char>, i: int, p: ParamsV, first: bool, n: i64, rest: Seq<char>)
    requires
        0 <= i <= s.len(),
        s.subrange(i, s.len() as int) == "\"anon_write_frac\": "@ + (render_dec(n as int) + (",\n"@ + ("  "@ + rest))),
        rest.len() >= 1,
        rest[0] == '"',
    ensures
        parse_members(s, i, p, first) == parse_members(s, s.len() - rest.len(), (ParamsV { anon_write_frac: Decimal { nanos: n }, ..p }), false),
        s.subrange(s.len() - rest.len(), s.len() as int) == rest,
{
    lemma_member_anon_write_frac_head(s, i, n, rest);
    let vpos = i + 19;
    let j = vpos + render_dec(n as int).len() as int;
    lemma_field_value_anon_write_frac(s, vpos, p, n, j);
    lemma_members_step(s, i, p, first, "anon_write_frac"@, (ParamsV { anon_write_frac: Decimal { nanos: n }, ..p }), i + 16, i + 17, vpos, j, j + 4);
}

#[verifier::rlimit(100)]
proof fn lemma_member_sleep_mean_head(s: Seq<char>, i: int, n: i64, rest: Seq<char>)
    requires
        0 <= i <= s.len(),
        s.subrange(i, s.len() as int) == "\"sleep_mean\": "@ + (render_dec(n as int) + (",\n"@ + ("  "@ + rest))),
        rest.len() >= 1,
        rest[0] == '"',
    ensures
        i < s.len(),
        s[i] == '"',
        scan_string(s, i + 1) == i + 11,
        i + 11 < s.len(),
        s[i + 11] == '"',
        s.subrange(i + 1, i + 11) == "sleep_mean"@,
        skip_trivia(s, i + 12) == i + 12,
        i + 12 < s.len(),
        s[i + 12] == ':',
        skip_trivia(s, i + 13) == i + 14,
        i + 14 + render_dec(n as int).len() + 4 == s.len() - rest.len(),
        parse_dec(s, i + 14) == Some((n as int, i + 14 + render_dec(n as int).len() as int)),
        skip_trivia(s, i + 14 + render_dec(n as int).len() as int) == i + 14 + render_dec(n as int).len(),
        i + 14 + render_dec(n as int).len() < s.len(),
        s[i + 14 + render_dec(n as int).len()] == ',',
        skip_trivia(s, i + 14 + render_dec(n as int).len() + 1) == s.len() - rest.len(),
        s.subrange(s.len() - rest.len(), s.len() as int) == rest,
{
    reveal_strlit("\"sleep_mean\": ");
    reveal_strlit("sleep_mean");
    reveal_strlit(",\n");
    reveal_strlit("  ");
    let kseg = "\"sleep_mean\": "@;
    let v = render_dec(n as int);
    let suf = kseg + (v + (",\n"@ + ("  "@ + rest)));
    assert(kseg.len() == 14);
    assert(s.len() - i == suf.len());
    assert forall|x: int| 0 <= x < suf.len() implies s[i + x] == suf[x] by {
        assert(s.subrange(i, s.len() as int)[x] == suf[x]);
    }
    assert(s[i + 0] == '"') by { assert(suf[0int] == '"'); }
    assert(s[i + 1] == 's') by { assert(suf[1int] == 's'); }
    assert(s[i + 2] == 'l') by { assert(suf[2int] == 'l'); }
    assert(s[i + 3] == 'e') by { assert(suf[3int] == 'e'); }
    assert(s[i + 4] == 'e') by { assert(suf[4int] == 'e'); }
    assert(s[i + 5] == 'p') by { assert(suf[5int] == 'p'); }
    assert(s[i + 6] == '_') by { assert(suf[6int] == '_'); }
    assert(s[i + 7] == 'm') by { assert(suf[7int] == 'm'); }
    assert(s[i + 8] == 'e') by { assert(suf[8int] == 'e'); }
    assert(s[i + 9] == 'a') by { assert(suf[9int] == 'a'); }
    assert(s[i + 10] == 'n') by { assert(suf[10int] == 'n'); }
    assert(s[i + 11] == '"') by { assert(suf[11int] == '"'); }
    assert(s[i + 12] == ':') by { assert(suf[12int] == ':'); }
    assert(s[i + 13] == ' ') by { assert(suf[13int] == ' '); }
    lemma_scan_string_region(s, i + 1, i + 11);
    assert forall|t: int| 0 <= t < 10 implies s.subrange(i + 1, i + 11)[t] == "sleep_mean"@[t] by {
        assert(s[i + (1 + t)] == suf[1 + t]);
        assert(suf[1 + t] == "sleep_mean"@[t]);
    }
    assert(s.subrange(i + 1, i + 11) =~= "sleep_mean"@);
    lemma_skip_ws_region(s, i + 12, i + 12);
    lemma_render_dec_shape(n);
    let vpos = i + 14;
    assert(s[vpos] == v[0]) by { assert(suf[14int] == v[0]); }
    lemma_skip_ws_region(s, i + 13, vpos);
    assert forall|x: int| 0 <= x < v.len() implies s.subrange(vpos, vpos + v.len() as int)[x] == v[x] by {
        assert(s[i + (14 + x)] == suf[14 + x]);
        assert(suf[14 + x] == v[x]);
    }
    assert(s.subrange(vpos, vpos + v.len() as int) =~= v);
    let j = vpos + v.len() as int;
    assert(s[j] == ',') by {
        assert(s[i + (14 + v.len())] == suf[14 + v.len() as int]);
        assert(suf[14 + v.len() as int] == ',');
    }
    assert(s[j + 1] == '\n') by {
        assert(s[i + (14 + v.len() + 1)] == suf[14 + v.len() as int + 1]);
        assert(suf[14 + v.len() as int + 1] == '\n');
    }
    assert(s[j + 2] == ' ') by {
        assert(s[i + (14 + v.len() + 2)] == suf[14 + v.len() as int + 2]);
        assert(suf[14 + v.len() as int + 2] == ' ');
    }
    assert(s[j + 3] == ' ') by {
        assert(s[i + (14 + v.len() + 3)] == suf[14 + v.len() as int + 3]);
        assert(suf[14 + v.len() as int + 3] == ' ');
    }
    assert(s[j + 4] == '"') by {
        assert(s[i + (14 + v.len() + 4)] == suf[14 + v.len() as int + 4]);
        assert(suf[14 + v.len() as int + 4] == rest[0]);
    }
    assert(!is_digit(s[j])) by { assert(',' as u32 == 44); }
    lemma_parse_dec_render(s, vpos, n);
    lemma_skip_ws_region(s, j, j);
    lemma_skip_ws_region(s, j + 1, j + 4);
    assert forall|t: int| 0 <= t < rest.len() implies s.subrange(j + 4, s.len() as int)[t] == rest[t] by {
        assert(s[i + (14 + v.len() + 4 + t)] == suf[14 + v.len() as int + 4 + t]);
        assert(suf[14 + v.len() as int + 4 + t] == rest[t]);
    }
    assert(s.subrange(j + 4, s.len() as int) =~= rest);
}

proof fn lemma_member_sleep_mean(s: Seq<char>, i: int, p: ParamsV, first: bool, n: i64, rest: Seq<char>)
    requires
        0 <= i <= s.len(),
        s.subrange(i, s.len() as int) == "\"sleep_mean\": "@ + (render_dec(n as int) + (",\n"@ + ("  "@ + rest))),
        rest.len() >= 1,
        rest[0] == '"',
    ensures
        parse_members(s, i, p, first) == parse_members(s, s.len() - rest.len(), (ParamsV { sleep_mean: Decimal { nanos: n }, ..p }), false),
        s.subrange(s.len() - rest.len(), s.len() as int) == rest,
{
    lemma_member_sleep_mean_head(s, i, n, rest);
    let vpos = i + 14;
    let j = vpos + render_dec(n as int).len() as int;
    lemma_field_value_sleep_mean(s, vpos, p, n, j);
    lemma_members_step(s, i, p, first, "sleep_mean"@, (ParamsV { sleep_mean: Decimal { nanos: n }, ..p }), i + 11, i + 12, vpos, j, j + 4);
}

#[verifier::rlimit(100)]
proof fn lemma_member_sleep_stdev_ratio_head(s: Seq<char>, i: int, n: i64, rest: Seq<char>)
    requires
        0 <= i <= s.len(),
        s.subrange(i, s.len() as int) == "\"sleep_stdev_ratio\": "@ + (render_dec(n as int) + (",\n"@ + ("  "@ + rest))),
        rest.len() >= 1,
        rest[0] == '"',
    ensures
        i < s.len(),
        s[i] == '"',
        scan_string(s, i + 1) == i + 18,
        i + 18 < s.len(),
        s[i + 18] == '"',
        s.subrange(i + 1, i + 18) == "sleep_stdev_ratio"@,
        skip_trivia(s, i + 19) == i + 19,
        i + 19 < s.len(),
        s[i + 19] == ':',
        skip_trivia(s, i + 20) == i + 21,
        i + 21 + render_dec(n as int).len() + 4 == s.len() - rest.len(),
        parse_dec(s, i + 21) == Some((n as int, i + 21 + render_dec(n as int).len() as int)),
        skip_trivia(s, i + 21 + render_dec(n as int).len() as int) == i + 21 + render_dec(n as int).len(),
        i + 21 + render_dec(n as int).len() < s.len(),
        s[i + 21 + render_dec(n as int).len()] == ',',
        skip_trivia(s, i + 21 + render_dec(n as int).len() + 1) == s.len() - rest.len(),
        s.subrange(s.len() - rest.len(), s.len() as int) == rest,
{
    reveal_strlit("\"sleep_stdev_ratio\": ");
    reveal_strlit("sleep_stdev_ratio");
    reveal_strlit(",\n");
    reveal_strlit("  ");
    let kseg = "\"sleep_stdev_ratio\": "@;
    let v = render_dec(n as int);
    let suf = kseg + (v + (",\n"@ + ("  "@ + rest)));
    assert(kseg.len() == 21);
    assert(s.len() - i == suf.len());
    assert forall|x: int| 0 <= x < suf.len() implies s[i + x] == suf[x] by {
        assert(s.subrange(i, s.len() as int)[x] == suf[x]);
    }
    assert(s[i + 0] == '"') by { assert(suf[0int] == '"'); }
    assert(s[i + 1] == 's') by { assert(suf[1int] == 's'); }
    assert(s[i + 2] == 'l') by { assert(suf[2int] == 'l'); }
    assert(s[i + 3] == 'e') by { assert(suf[3int] == 'e'); }
    assert(s[i + 4] == 'e') by { assert(suf[4int] == 'e'); }
    assert(s[i + 5] == 'p') by { assert(suf[5int] == 'p'); }
    assert(s[i + 6] == '_') by { assert(suf[6int] == '_'); }
    assert(s[i + 7] == 's') by { assert(suf[7int] == 's'); }
    assert(s[i + 8] == 't') by { assert(suf[8int] == 't'); }
    assert(s[i + 9] == 'd') by { assert(suf[9int] == 'd'); }
    assert(s[i + 10] == 'e') by { assert(suf[10int] == 'e'); }
    assert(s[i + 11] == 'v') by { assert(suf[11int] == 'v'); }
    assert(s[i + 12] == '_') by { assert(suf[12int] == '_'); }
    assert(s[i + 13] == 'r') by { assert(suf[13int] == 'r'); }
    assert(s[i + 14] == 'a') by { assert(suf[14int] == 'a'); }
    assert(s[i + 15] == 't') by { assert(suf[15int] == 't'); }
    assert(s[i + 16] == 'i') by { assert(suf[16int] == 'i'); }
    assert(s[i + 17] == 'o') by { assert(suf[17int] == 'o'); }
    assert(s[i + 18] == '"') by { assert(suf[18int] == '"'); }
    assert(s[i + 19] == ':') by { assert(suf[19int] == ':'); }
    assert(s[i + 20] == ' ') by { assert(suf[20int] == ' '); }
    lemma_scan_string_region(s, i + 1, i + 18);
    assert forall|t: int| 0 <= t < 17 implies s.subrange(i + 1, i + 18)[t] == "sleep_stdev_ratio"@[t] by {
        assert(s[i + (1 + t)] == suf[1 + t]);
        assert(suf[1 + t] == "sleep_stdev_ratio"@[t]);
    }
    assert(s.subrange(i + 1, i + 18) =~= "sleep_stdev_ratio"@);
    lemma_skip_ws_region(s, i + 19, i + 19);
    lemma_render_dec_shape(n);
    let vpos = i + 21;
    assert(s[vpos] == v[0]) by { assert(suf[21int] == v[0]); }
    lemma_skip_ws_region(s, i + 20, vpos);
    assert forall|x: int| 0 <= x < v.len() implies s.subrange(vpos, vpos + v.len() as int)[x] == v[x] by {
        assert(s[i + (21 + x)] == suf[21 + x]);
        assert(suf[21 + x] == v[x]);
    }
    assert(s.subrange(vpos, vpos + v.len() as int) =~= v);
    let j = vpos + v.len() as int;
    assert(s[j] == ',') by {
        assert(s[i + (21 + v.len())] == suf[21 + v.len() as int]);
        assert(suf[21 + v.len() as int] == ',');
    }
    assert(s[j + 1] == '\n') by {
        assert(s[i + (21 + v.len() + 1)] == suf[21 + v.len() as int + 1]);
        assert(suf[21 + v.len() as int + 1] == '\n');
    }
    assert(s[j + 2] == ' ') by {
        assert(s[i + (21 + v.len() + 2)] == suf[21 + v.len() as int + 2]);
        assert(suf[21 + v.len() as int + 2] == ' ');
    }
    assert(s[j + 3] == ' ') by {
        assert(s[i + (21 + v.len() + 3)] == suf[21 + v.len() as int + 3]);
        assert(suf[21 + v.len() as int + 3] == ' ');
    }
    assert(s[j + 4] == '"') by {
        assert(s[i + (21 + v.len() + 4)] == suf[21 + v.len() as int + 4]);
        assert(suf[21 + v.len() as int + 4] == rest[0]);
    }
    assert(!is_digit(s[j])) by { assert(',' as u32 == 44); }
    lemma_parse_dec_render(s, vpos, n);
    lemma_skip_ws_region(s, j, j);
    lemma_skip_ws_region(s, j + 1, j + 4);
    assert forall|t: int| 0 <= t < rest.len() implies s.subrange(j + 4, s.len() as int)[t] == rest[t] by {
        assert(s[i + (21 + v.len() + 4 + t)] == suf[21 + v.len() as int + 4 + t]);
        assert(suf[21 + v.len() as int + 4 + t] == rest[t]);
    }
    assert(s.subrange(j + 4, s.len() as int) =~= rest);
}

proof fn lemma_member_sleep_stdev_ratio(s: Seq<char>, i: int, p: ParamsV, first: bool, n: i64, rest: Seq<char>)
    requires
        0 <= i <= s.len(),
        s.subrange(i, s.len() as int) == "\"sleep_stdev_ratio\": "@ + (render_dec(n as int) + (",\n"@ + ("  "@ + rest))),
        rest.len() >= 1,
        rest[0] == '"',
    ensures
        parse_members(s, i, p, first) == parse_members(s, s.len() - rest.len(), (ParamsV { sleep_stdev_ratio: Decimal { nanos: n }, ..p }), false),
        s.subrange(s.len() - rest.len(), s.len() as int) == rest,
{
    lemma_member_sleep_stdev_ratio_head(s, i, n, rest);
    let vpos = i + 21;
    let j = vpos + render_dec(n as int).len() as int;
    lemma_field_value_sleep_stdev_ratio(s, vpos, p, n, j);
    lemma_members_step(s, i, p, first, "sleep_stdev_ratio"@, (ParamsV { sleep_stdev_ratio: Decimal { nanos: n }, ..p }), i + 18, i + 19, vpos, j, j + 4);
}

#[verifier::rlimit(100)]
proof fn lemma_member_cpu_ratio_head(s: Seq<char>, i: int, n: i64, rest: Seq<char>)
    requires
        0 <= i <= s.len(),
        s.subrange(i, s.len() as int) == "\"cpu_ratio\": "@ + (render_dec(n as int) + (",\n"@ + ("  "@ + rest))),
        rest.len() >= 1,
        rest[0] == '"',
    ensures
        i < s.len(),
        s[i] == '"',
        scan_string(s, i + 1) == i + 10,
        i + 10 < s.len(),
        s[i + 10] == '"',
        s.subrange(i + 1, i + 10) == "cpu_ratio"@,
        skip_trivia(s, i + 11) == i + 11,
        i + 11 < s.len(),
        s[i + 11] == ':',
        skip_trivia(s, i + 12) == i + 13,
        i + 13 + render_dec(n as int).len() + 4 == s.len() - rest.len(),
        parse_dec(s, i + 13) == Some((n as int, i + 13 + render_dec(n as int).len() as int)),
        skip_trivia(s, i + 13 + render_dec(n as int).len() as int) == i + 13 + render_dec(n as int).len(),
        i + 13 + render_dec(n as int).len() < s.len(),
        s[i + 13 + render_dec(n as int).len()] == ',',
        skip_trivia(s, i + 13 + render_dec(n as int).len() + 1) == s.len() - rest.len(),
        s.subrange(s.len() - rest.len(), s.len() as int) == rest,
{
    reveal_strlit("\"cpu_ratio\": ");
    reveal_strlit("cpu_ratio");
    reveal_strlit(",\n");
    reveal_strlit("  ");
    let kseg = "\"cpu_ratio\": "@;
    let v = render_dec(n as int);
    let suf = kseg + (v + (",\n"@ + ("  "@ + rest)));
    assert(kseg.len() == 13);
    assert(s.len() - i == suf.len());
    assert forall|x: int| 0 <= x < suf.len() implies s[i + x] == suf[x] by {
        assert(s.subrange(i, s.len() as int)[x] == suf[x]);
    }
    assert(s[i + 0] == '"') by { assert(suf[0int] == '"'); }
    assert(s[i + 1] == 'c') by { assert(suf[1int] == 'c'); }
    assert(s[i + 2] == 'p') by { assert(suf[2int] == 'p'); }
    assert(s[i + 3] == 'u') by { assert(suf[3int] == 'u'); }
    assert(s[i + 4] == '_') by { assert(suf[4int] == '_'); }
    assert(s[i + 5] == 'r') by { assert(suf[5int] == 'r'); }
    assert(s[i + 6] == 'a') by { assert(suf[6int] == 'a'); }
    assert(s[i + 7] == 't') by { assert(suf[7int] == 't'); }
    assert(s[i + 8] == 'i') by { assert(suf[8int] == 'i'); }
    assert(s[i + 9] == 'o') by { assert(suf[9int] == 'o'); }
    assert(s[i + 10] == '"') by { assert(suf[10int] == '"'); }
    assert(s[i + 11] == ':') by { assert(suf[11int] == ':'); }
    assert(s[i + 12] == ' ') by { assert(suf[12int] == ' '); }
    lemma_scan_string_region(s, i + 1, i + 10);
    assert forall|t: int| 0 <= t < 9 implies s.subrange(i + 1, i + 10)[t] == "cpu_ratio"@[t] by {
        assert(s[i + (1 + t)] == suf[1 + t]);
        assert(suf[1 + t] == "cpu_ratio"@[t]);
    }
    assert(s.subrange(i + 1, i + 10) =~= "cpu_ratio"@);
    lemma_skip_ws_region(s, i + 11, i + 11);
    lemma_render_dec_shape(n);
    let vpos = i + 13;
    assert(s[vpos] == v[0]) by { assert(suf[13int] == v[0]); }
    lemma_skip_ws_region(s, i + 12, vpos);
    assert forall|x: int| 0 <= x < v.len() implies s.subrange(vpos, vpos + v.len() as int)[x] == v[x] by {
        assert(s[i + (13 + x)] == suf[13 + x]);
        assert(suf[13 + x] == v[x]);
    }
    assert(s.subrange(vpos, vpos + v.len() as int) =~= v);
    let j = vpos + v.len() as int;
    assert(s[j] == ',') by {
        assert(s[i + (13 + v.len())] == suf[13 + v.len() as int]);
        assert(suf[13 + v.len() as int] == ',');
    }
    assert(s[j + 1] == '\n') by {
        assert(s[i + (13 + v.len() + 1)] == suf[13 + v.len() as int + 1]);
        assert(suf[13 + v.len() as int + 1] == '\n');
    }
    assert(s[j + 2] == ' ') by {
        assert(s[i + (13 + v.len() + 2)] == suf[13 + v.len() as int + 2]);
        assert(suf[13 + v.len() as int + 2] == ' ');
    }
    assert(s[j + 3] == ' ') by {
        assert(s[i + (13 + v.len() + 3)] == suf[13 + v.len() as int + 3]);
        assert(suf[13 + v.len() as int + 3] == ' ');
    }
    assert(s[j + 4] == '"') by {
        assert(s[i + (13 + v.len() + 4)] == suf[13 + v.len() as int + 4]);
        assert(suf[13 + v.len() as int + 4] == rest[0]);
    }
    assert(!is_digit(s[j])) by { assert(',' as u32 == 44); }
    lemma_parse_dec_render(s, vpos, n);
    lemma_skip_ws_region(s, j, j);
    lemma_skip_ws_region(s, j + 1, j + 4);
    assert forall|t: int| 0 <= t < rest.len() implies s.subrange(j + 4, s.len() as int)[t] == rest[t] by {
        assert(s[i + (13 + v.len() + 4 + t)] == suf[13 + v.len() as int + 4 + t]);
        assert(suf[13 + v.len() as int + 4 + t] == rest[t]);
    }
    assert(s.subrange(j + 4, s.len() as int) =~= rest);
}

proof fn lemma_member_cpu_ratio(s: Seq<char>, i: int, p: ParamsV, first: bool, n: i64, rest: Seq<char>)
    requires
        0 <= i <= s.len(),
        s.subrange(i, s.len() as int) == "\"cpu_ratio\": "@ + (render_dec(n as int) + (",\n"@ + ("  "@ + rest))),
        rest.len() >= 1,
        rest[0] == '"',
    ensures
        parse_members(s, i, p, first) == parse_members(s, s.len() - rest.len(), (ParamsV { cpu_ratio: Decimal { nanos: n }, ..p }), false),
        s.subrange(s.len() - rest.len(), s.len() as int) == rest,
{
    lemma_member_cpu_ratio_head(s, i, n, rest);
    let vpos = i + 13;
    let j = vpos + render_dec(n as int).len() as int;
    lemma_field_value_cpu_ratio(s, vpos, p, n, j);
    lemma_members_step(s, i, p, first, "cpu_ratio"@, (ParamsV { cpu_ratio: Decimal { nanos: n }, ..p }), i + 10, i + 11, vpos, j, j + 4);
}

#[verifier::rlimit(100)]
proof fn lemma_member_log_bps_head(s: Seq<char>, i: int, n: u64, rest: Seq<char>)
    requires
        0 <= i <= s.len(),
        s.subrange(i, s.len() as int) == "\"log_bps\": "@ + (render_uint(n as nat) + (",\n"@ + ("  "@ + rest))),
        rest.len() >= 1,
        rest[0] == '"',
    ensures
        i < s.len(),
        s[i] == '"',
        scan_string(s, i + 1) == i + 8,
        i + 8 < s.len(),
        s[i + 8] == '"',
        s.subrange(i + 1, i + 8) == "log_bps"@,
        skip_trivia(s, i + 9) == i + 9,
        i + 9 < s.len(),
        s[i + 9] == ':',
        skip_trivia(s, i + 10) == i + 11,
        i + 11 + render_uint(n as nat).len() + 4 == s.len() - rest.len(),
        parse_uint(s, i + 11, u64::MAX as nat) == Some((n as nat, i + 11 + render_uint(n as nat).len() as int)),
        skip_trivia(s, i + 11 + render_uint(n as nat).len() as int) == i + 11 + render_uint(n as nat).len(),
        i + 11 + render_uint(n as nat).len() < s.len(),
        s[i + 11 + render_uint(n as nat).len()] == ',',
        skip_trivia(s, i + 11 + render_uint(n as nat).len() + 1) == s.len() - rest.len(),
        s.subrange(s.len() - rest.len(), s.len() as int) == rest,
{
    reveal_strlit("\"log_bps\": ");
    reveal_strlit("log_bps");
    reveal_strlit(",\n");
    reveal_strlit("  ");
    let kseg = "\"log_bps\": "@;
    let v = render_uint(n as nat);
    let suf = kseg + (v + (",\n"@ + ("  "@ + rest)));
    assert(kseg.len() == 11);
    assert(s.len() - i == suf.len());
    assert forall|x: int| 0 <= x < suf.len() implies s[i + x] == suf[x] by {
        assert(s.subrange(i, s.len() as int)[x] == suf[x]);
    }
    assert(s[i + 0] == '"') by { assert(suf[0int] == '"'); }
    assert(s[i + 1] == 'l') by { assert(suf[1int] == 'l'); }
    assert(s[i + 2] == 'o') by { assert(suf[2int] == 'o'); }
    assert(s[i + 3] == 'g') by { assert(suf[3int] == 'g'); }
    assert(s[i + 4] == '_') by { assert(suf[4int] == '_'); }
    assert(s[i + 5] == 'b') by { assert(suf[5int] == 'b'); }
    assert(s[i + 6] == 'p') by { assert(suf[6int] == 'p'); }
    assert(s[i + 7] == 's') by { assert(suf[7int] == 's'); }
    assert(s[i + 8] == '"') by { assert(suf[8int] == '"'); }
    assert(s[i + 9] == ':') by { assert(suf[9int] == ':'); }
    assert(s[i + 10] == ' ') by { assert(suf[10int] == ' '); }
    lemma_scan_string_region(s, i + 1, i + 8);
    assert forall|t: int| 0 <= t < 7 implies s.subrange(i + 1, i + 8)[t] == "log_bps"@[t] by {
        assert(s[i + (1 + t)] == suf[1 + t]);
        assert(suf[1 + t] == "log_bps"@[t]);
    }
    assert(s.subrange(i + 1, i + 8) =~= "log_bps"@);
    lemma_skip_ws_region(s, i + 9, i + 9);
    lemma_render_uint_shape(n);
    assert(render_uint(n as nat) == dec_digits((n) as nat));
    let vpos = i + 11;
    assert(s[vpos] == v[0]) by { assert(suf[11int] == v[0]); }
    lemma_skip_ws_region(s, i + 10, vpos);
    assert forall|x: int| 0 <= x < v.len() implies s.subrange(vpos, vpos + v.len() as int)[x] == v[x] by {
        assert(s[i + (11 + x)] == suf[11 + x]);
        assert(suf[11 + x] == v[x]);
    }
    assert(s.subrange(vpos, vpos + v.len() as int) =~= v);
    let j = vpos + v.len() as int;
    assert(s[j] == ',') by {
        assert(s[i + (11 + v.len())] == suf[11 + v.len() as int]);
        assert(suf[11 + v.len() as int] == ',');
    }
    assert(s[j + 1] == '\n') by {
        assert(s[i + (11 + v.len() + 1)] == suf[11 + v.len() as int + 1]);
        assert(suf[11 + v.len() as int + 1] == '\n');
    }
    assert(s[j + 2] == ' ') by {
        assert(s[i + (11 + v.len() + 2)] == suf[11 + v.len() as int + 2]);
        assert(suf[11 + v.len() as int + 2] == ' ');
    }
    assert(s[j + 3] == ' ') by {
        assert(s[i + (11 + v.len() + 3)] == suf[11 + v.len() as int + 3]);
        assert(suf[11 + v.len() as int + 3] == ' ');
    }
    assert(s[j + 4] == '"') by {
        assert(s[i + (11 + v.len() + 4)] == suf[11 + v.len() as int + 4]);
        assert(suf[11 + v.len() as int + 4] == rest[0]);
    }
    assert(!is_digit(s[j]) && s[j] != '.') by { assert(',' as u32 == 44); }
    lemma_parse_uint_render(s, vpos, n, u64::MAX as nat);
    lemma_skip_ws_region(s, j, j);
    lemma_skip_ws_region(s, j + 1, j + 4);
    assert forall|t: int| 0 <= t < rest.len() implies s.subrange(j + 4, s.len() as int)[t] == rest[t] by {
        assert(s[i + (11 + v.len() + 4 + t)] == suf[11 + v.len() as int + 4 + t]);
        assert(suf[11 + v.len() as int + 4 + t] == rest[t]);
    }
    assert(s.subrange(j + 4, s.len() as int) =~= rest);
}

proof fn lemma_member_log_bps(s: Seq<char>, i: int, p: ParamsV, first: bool, n: u64, rest: Seq<char>)
    requires
        0 <= i <= s.len(),
        s.subrange(i, s.len() as int) == "\"log_bps\": "@ + (render_uint(n as nat) + (",\n"@ + ("  "@ + rest))),
        rest.len() >= 1,
        rest[0] == '"',
    ensures
        parse_members(s, i, p, first) == parse_members(s, s.len() - rest.len(), (ParamsV { log_bps: n, ..p }), false),
        s.subrange(s.len() - rest.len(), s.len() as int) == rest,
{
    lemma_member_log_bps_head(s, i, n, rest);
    let vpos = i + 11;
    let j = vpos + render_uint(n as nat).len() as int;
    lemma_field_value_log_bps(s, vpos, p, n, j);
    lemma_members_step(s, i, p, first, "log_bps"@, (ParamsV { log_bps: n, ..p }), i + 8, i + 9, vpos, j, j + 4);
}

#[verifier::rlimit(100)]
proof fn lemma_member_fake_cpu_load_head(s: Seq<char>, i: int, b: bool, rest: Seq<char>)
    requires
        0 <= i <= s.len(),
        s.subrange(i, s.len() as int) == "\"fake_cpu_load\": "@ + ((if b { "true"@ } else { "false"@ }) + (",\n"@ + ("  "@ + rest))),
        rest.len() >= 1,
        rest[0] == '"',
    ensures
        i < s.len(),
        s[i] == '"',
        scan_string(s, i + 1) == i + 14,
        i + 14 < s.len(),
        s[i + 14] == '"',
        s.subrange(i + 1, i + 14) == "fake_cpu_load"@,
        skip_trivia(s, i + 15) == i + 15,
        i + 15 < s.len(),
        s[i + 15] == ':',
        skip_trivia(s, i + 16) == i + 17,
        i + 17 + (if b { 4int } else { 5int }) + 4 == s.len() - rest.len(),
        parse_bool(s, i + 17) == Some((b, i + 17 + (if b { 4int } else { 5int }))),
        skip_trivia(s, i + 17 + (if b { 4int } else { 5int })) == i + 17 + (if b { 4int } else { 5int }),
        i + 17 + (if b { 4int } else { 5int }) < s.len(),
        s[i + 17 + (if b { 4int } else { 5int })] == ',',
        skip_trivia(s, i + 17 + (if b { 4int } else { 5int }) + 1) == s.len() - rest.len(),
        s.subrange(s.len() - rest.len(), s.len() as int) == rest,
{
    reveal_strlit("\"fake_cpu_load\": ");
    reveal_strlit("fake_cpu_load");
    reveal_strlit(",\n");
    reveal_strlit("  ");
    reveal_strlit("true");
    reveal_strlit("false");
    let kseg = "\"fake_cpu_load\": "@;
    let v = (if b { "true"@ } else { "false"@ });
    let suf = kseg + (v + (",\n"@ + ("  "@ + rest)));
    assert(kseg.len() == 17);
    assert(v.len() == (if b { 4int } else { 5int }));
    assert(s.len() - i == suf.len());
    assert forall|x: int| 0 <= x < suf.len() implies s[i + x] == suf[x] by {
        assert(s.subrange(i, s.len() as int)[x] == suf[x]);
    }
    assert(s[i + 0] == '"') by { assert(suf[0int] == '"'); }
    assert(s[i + 1] == 'f') by { assert(suf[1int] == 'f'); }
    assert(s[i + 2] == 'a') by { assert(suf[2int] == 'a'); }
    assert(s[i + 3] == 'k') by { assert(suf[3int] == 'k'); }
    assert(s[i + 4] == 'e') by { assert(suf[4int] == 'e'); }
    assert(s[i + 5] == '_') by { assert(suf[5int] == '_'); }
    assert(s[i + 6] == 'c') by { assert(suf[6int] == 'c'); }
    assert(s[i + 7] == 'p') by { assert(suf[7int] == 'p'); }
    assert(s[i + 8] == 'u') by { assert(suf[8int] == 'u'); }
    assert(s[i + 9] == '_') by { assert(suf[9int] == '_'); }
    assert(s[i + 10] == 'l') by { assert(suf[10int] == 'l'); }
    assert(s[i + 11] == 'o') by { assert(suf[11int] == 'o'); }
    assert(s[i + 12] == 'a') by { assert(suf[12int] == 'a'); }
    assert(s[i + 13] == 'd') by { assert(suf[13int] == 'd'); }
    assert(s[i + 14] == '"') by { assert(suf[14int] == '"'); }
    assert(s[i + 15] == ':') by { assert(suf[15int] == ':'); }
    assert(s[i + 16] == ' ') by { assert(suf[16int] == ' '); }
    lemma_scan_string_region(s, i + 1, i + 14);
    assert forall|t: int| 0 <= t < 13 implies s.subrange(i + 1, i + 14)[t] == "fake_cpu_load"@[t] by {
        assert(s[i + (1 + t)] == suf[1 + t]);
        assert(suf[1 + t] == "fake_cpu_load"@[t]);
    }
    assert(s.subrange(i + 1, i + 14) =~= "fake_cpu_load"@);
    lemma_skip_ws_region(s, i + 15, i + 15);
    assert(!is_ws(v[0]) && v[0] != '/') by {
        assert('t' as u32 == 116);
        assert('f' as u32 == 102);
        assert(' ' as u32 == 32);
        assert('\n' as u32 == 10);
        assert('\t' as u32 == 9);
        assert('\r' as u32 == 13);
        assert('/' as u32 == 47);
    }
    let vpos = i + 17;
    assert(s[vpos] == v[0]) by { assert(suf[17int] == v[0]); }
    lemma_skip_ws_region(s, i + 16, vpos);
    assert forall|x: int| 0 <= x < v.len() implies s.subrange(vpos, vpos + v.len() as int)[x] == v[x] by {
        assert(s[i + (17 + x)] == suf[17 + x]);
        assert(suf[17 + x] == v[x]);
    }
    assert(s.subrange(vpos, vpos + v.len() as int) =~= v);
    let j = vpos + v.len() as int;
    assert(s[j] == ',') by {
        assert(s[i + (17 + v.len())] == suf[17 + v.len() as int]);
        assert(suf[17 + v.len() as int] == ',');
    }
    assert(s[j + 1] == '\n') by {
        assert(s[i + (17 + v.len() + 1)] == suf[17 + v.len() as int + 1]);
        assert(suf[17 + v.len() as int + 1] == '\n');
    }
    assert(s[j + 2] == ' ') by {
        assert(s[i + (17 + v.len() + 2)] == suf[17 + v.len() as int + 2]);
        assert(suf[17 + v.len() as int + 2] == ' ');
    }
    assert(s[j + 3] == ' ') by {
        assert(s[i + (17 + v.len() + 3)] == suf[17 + v.len() as int + 3]);
        assert(suf[17 + v.len() as int + 3] == ' ');
    }
    assert(s[j + 4] == '"') by {
        assert(s[i + (17 + v.len() + 4)] == suf[17 + v.len() as int + 4]);
        assert(suf[17 + v.len() as int + 4] == rest[0]);
    }
    lemma_parse_bool_render(s, vpos, b);
    lemma_skip_ws_region(s, j, j);
    lemma_skip_ws_region(s, j + 1, j + 4);
    assert forall|t: int| 0 <= t < rest.len() implies s.subrange(j + 4, s.len() as int)[t] == rest[t] by {
        assert(s[i + (17 + v.len() + 4 + t)] == suf[17 + v.len() as int + 4 + t]);
        assert(suf[17 + v.len() as int + 4 + t] == rest[t]);
    }
    assert(s.subrange(j + 4, s.len() as int) =~= rest);
}

proof fn lemma_member_fake_cpu_load(s: Seq<char>, i: int, p: ParamsV, first: bool, b: bool, rest: Seq<char>)
    requires
        0 <= i <= s.len(),
        s.subrange(i, s.len() as int) == "\"fake_cpu_load\": "@ + ((if b { "true"@ } else { "false"@ }) + (",\n"@ + ("  "@ + rest))),
        rest.len() >= 1,
        rest[0] == '"',
    ensures
        parse_members(s, i, p, first) == parse_members(s, s.len() - rest.len(), (ParamsV { fake_cpu_load: b, ..p }), false),
        s.subrange(s.len() - rest.len(), s.len() as int) == rest,
{
    lemma_member_fake_cpu_load_head(s, i, b, rest);
    let vpos = i + 17;
    let j = vpos + (if b { 4int } else { 5int });
    lemma_field_value_fake_cpu_load(s, vpos, p, b, j);
    lemma_members_step(s, i, p, first, "fake_cpu_load"@, (ParamsV { fake_cpu_load: b, ..p }), i + 14, i + 15, vpos, j, j + 4);
}

#[verifier::rlimit(100)]
proof fn lemma_member_acc_dist_slots_head(s: Seq<char>, i: int, n: usize, rest: Seq<char>)
    requires
        0 <= i <= s.len(),
        s.subrange(i, s.len() as int) == "\"acc_dist_slots\": "@ + (render_uint(n as nat) + (",\n"@ + ("  "@ + rest))),
        rest.len() >= 1,
        rest[0] == '"',
    ensures
        i < s.len(),
        s[i] == '"',
        scan_string(s, i + 1) == i + 15,
        i + 15 < s.len(),
        s[i + 15] == '"',
        s.subrange(i + 1, i + 15) == "acc_dist_slots"@,
        skip_trivia(s, i + 16) == i + 16,
        i + 16 < s.len(),
        s[i + 16] == ':',
        skip_trivia(s, i + 17) == i + 18,
        i + 18 + render_uint(n as nat).len() + 4 == s.len() - rest.len(),
        parse_uint(s, i + 18, usize::MAX as nat) == Some((n as nat, i + 18 + render_uint(n as nat).len() as int)),
        skip_trivia(s, i + 18 + render_uint(n as nat).len() as int) == i + 18 + render_uint(n as nat).len(),
        i + 18 + render_uint(n as nat).len() < s.len(),
        s[i + 18 + render_uint(n as nat).len()] == ',',
        skip_trivia(s, i + 18 + render_uint(n as nat).len() + 1) == s.len() - rest.len(),
        s.subrange(s.len() - rest.len(), s.len() as int) == rest,
{
    reveal_strlit("\"acc_dist_slots\": ");
    reveal_strlit("acc_dist_slots");
    reveal_strlit(",\n");
    reveal_strlit("  ");
    let kseg = "\"acc_dist_slots\": "@;
    let v = render_uint(n as nat);
    let suf = kseg + (v + (",\n"@ + ("  "@ + rest)));
    assert(kseg.len() == 18);
    assert(s.len() - i == suf.len());
    assert forall|x: int| 0 <= x < suf.len() implies s[i + x] == suf[x] by {
        assert(s.subrange(i, s.len() as int)[x] == suf[x]);
    }
    assert(s[i + 0] == '"') by { assert(suf[0int] == '"'); }
    assert(s[i + 1] == 'a') by { assert(suf[1int] == 'a'); }
    assert(s[i + 2] == 'c') by { assert(suf[2int] == 'c'); }
    assert(s[i + 3] == 'c') by { assert(suf[3int] == 'c'); }
    assert(s[i + 4] == '_') by { assert(suf[4int] == '_'); }
    assert(s[i + 5] == 'd') by { assert(suf[5int] == 'd'); }
    assert(s[i + 6] == 'i') by { assert(suf[6int] == 'i'); }
    assert(s[i + 7] == 's') by { assert(suf[7int] == 's'); }
    assert(s[i + 8] == 't') by { assert(suf[8int] == 't'); }
    assert(s[i + 9] == '_') by { assert(suf[9int] == '_'); }
    assert(s[i + 10] == 's') by { assert(suf[10int] == 's'); }
    assert(s[i + 11] == 'l') by { assert(suf[11int] == 'l'); }
    assert(s[i + 12] == 'o') by { assert(suf[12int] == 'o'); }
    assert(s[i + 13] == 't') by { assert(suf[13int] == 't'); }
    assert(s[i + 14] == 's') by { assert(suf[14int] == 's'); }
    assert(s[i + 15] == '"') by { assert(suf[15int] == '"'); }
    assert(s[i + 16] == ':') by { assert(suf[16int] == ':'); }
    assert(s[i + 17] == ' ') by { assert(suf[17int] == ' '); }
    lemma_scan_string_region(s, i + 1, i + 15);
    assert forall|t: int| 0 <= t < 14 implies s.subrange(i + 1, i + 15)[t] == "acc_dist_slots"@[t] by {
        assert(s[i + (1 + t)] == suf[1 + t]);
        assert(suf[1 + t] == "acc_dist_slots"@[t]);
    }
    assert(s.subrange(i + 1, i + 15) =~= "acc_dist_slots"@);
    lemma_skip_ws_region(s, i + 16, i + 16);
    lemma_render_uint_shape(n as u64);
    assert(render_uint(n as nat) == dec_digits((n as u64) as nat));
    let vpos = i + 18;
    assert(s[vpos] == v[0]) by { assert(suf[18int] == v[0]); }
    lemma_skip_ws_region(s, i + 17, vpos);
    assert forall|x: int| 0 <= x < v.len() implies s.subrange(vpos, vpos + v.len() as int)[x] == v[x] by {
        assert(s[i + (18 + x)] == suf[18 + x]);
        assert(suf[18 + x] == v[x]);
    }
    assert(s.subrange(vpos, vpos + v.len() as int) =~= v);
    let j = vpos + v.len() as int;
    assert(s[j] == ',') by {
        assert(s[i + (18 + v.len())] == suf[18 + v.len() as int]);
        assert(suf[18 + v.len() as int] == ',');
    }
    assert(s[j + 1] == '\n') by {
        assert(s[i + (18 + v.len() + 1)] == suf[18 + v.len() as int + 1]);
        assert(suf[18 + v.len() as int + 1] == '\n');
    }
    assert(s[j + 2] == ' ') by {
        assert(s[i + (18 + v.len() + 2)] == suf[18 + v.len() as int + 2]);
        assert(suf[18 + v.len() as int + 2] == ' ');
    }
    assert(s[j + 3] == ' ') by {
        assert(s[i + (18 + v.len() + 3)] == suf[18 + v.len() as int + 3]);
        assert(suf[18 + v.len() as int + 3] == ' ');
    }
    assert(s[j + 4] == '"') by {
        assert(s[i + (18 + v.len() + 4)] == suf[18 + v.len() as int + 4]);
        assert(suf[18 + v.len() as int + 4] == rest[0]);
    }
    assert(!is_digit(s[j]) && s[j] != '.') by { assert(',' as u32 == 44); }
    lemma_parse_uint_render(s, vpos, n as u64, usize::MAX as nat);
    lemma_skip_ws_region(s, j, j);
    lemma_skip_ws_region(s, j + 1, j + 4);
    assert forall|t: int| 0 <= t < rest.len() implies s.subrange(j + 4, s.len() as int)[t] == rest[t] by {
        assert(s[i + (18 + v.len() + 4 + t)] == suf[18 + v.len() as int + 4 + t]);
        assert(suf[18 + v.len() as int + 4 + t] == rest[t]);
    }
    assert(s.subrange(j + 4, s.len() as int) =~= rest);
}

proof fn lemma_member_acc_dist_slots(s: Seq<char>, i: int, p: ParamsV, first: bool, n: usize, rest: Seq<char>)
    requires
        0 <= i <= s.len(),
        s.subrange(i, s.len() as int) == "\"acc_dist_slots\": "@ + (render_uint(n as nat) + (",\n"@ + ("  "@ + rest))),
        rest.len() >= 1,
        rest[0] == '"',
    ensures
        parse_members(s, i, p, first) == parse_members(s, s.len() - rest.len(), (ParamsV { acc_dist_slots: n, ..p }), false),
        s.subrange(s.len() - rest.len(), s.len() as int) == rest,
{
    lemma_member_acc_dist_slots_head(s, i, n, rest);
    let vpos = i + 18;
    let j = vpos + render_uint(n as nat).len() as int;
    lemma_field_value_acc_dist_slots(s, vpos, p, n, j);
    lemma_members_step(s, i, p, first, "acc_dist_slots"@, (ParamsV { acc_dist_slots: n, ..p }), i + 15, i + 16, vpos, j, j + 4);
}

#[verifier::rlimit(100)]
proof fn lemma_member_lat_pid_head(s: Seq<char>, i: int, pid: PidParams, rest: Seq<char>)
    requires
        0 <= i <= s.len(),
        s.subrange(i, s.len() as int) == "\"lat_pid\": "@ + (render_pid(pid) + (",\n"@ + ("  "@ + rest))),
        rest.len() >= 1,
        rest[0] == '"',
    ensures
        i < s.len(),
        s[i] == '"',
        scan_string(s, i + 1) == i + 8,
        i + 8 < s.len(),
        s[i + 8] == '"',
        s.subrange(i + 1, i + 8) == "lat_pid"@,
        skip_trivia(s, i + 9) == i + 9,
        i + 9 < s.len(),
        s[i + 9] == ':',
        skip_trivia(s, i + 10) == i + 11,
        i + 11 + render_pid(pid).len() + 4 == s.len() - rest.len(),
        parse_pid(s, i + 11) == Some((pid, i + 11 + render_pid(pid).len() as int)),
        skip_trivia(s, i + 11 + render_pid(pid).len() as int) == i + 11 + render_pid(pid).len(),
        i + 11 + render_pid(pid).len() < s.len(),
        s[i + 11 + render_pid(pid).len()] == ',',
        skip_trivia(s, i + 11 + render_pid(pid).len() + 1) == s.len() - rest.len(),
        s.subrange(s.len() - rest.len(), s.len() as int) == rest,
{
    reveal_strlit("\"lat_pid\": ");
    reveal_strlit("lat_pid");
    reveal_strlit(",\n");
    reveal_strlit("  ");
    reveal_strlit("{ \"kp\": ");
    let kseg = "\"lat_pid\": "@;
    let v = render_pid(pid);
    let suf = kseg + (v + (",\n"@ + ("  "@ + rest)));
    assert(kseg.len() == 11);
    assert(v.len() >= 9) by {
        lemma_render_dec_shape(pid.kp.nanos);
    }
    assert(s.len() - i == suf.len());
    assert forall|x: int| 0 <= x < suf.len() implies s[i + x] == suf[x] by {
        assert(s.subrange(i, s.len() as int)[x] == suf[x]);
    }
    assert(s[i + 0] == '"') by { assert(suf[0int] == '"'); }
    assert(s[i + 1] == 'l') by { assert(suf[1int] == 'l'); }
    assert(s[i + 2] == 'a') by { assert(suf[2int] == 'a'); }
    assert(s[i + 3] == 't') by { assert(suf[3int] == 't'); }
    assert(s[i + 4] == '_') by { assert(suf[4int] == '_'); }
    assert(s[i + 5] == 'p') by { assert(suf[5int] == 'p'); }
    assert(s[i + 6] == 'i') by { assert(suf[6int] == 'i'); }
    assert(s[i + 7] == 'd') by { assert(suf[7int] == 'd'); }
    assert(s[i + 8] == '"') by { assert(suf[8int] == '"'); }
    assert(s[i + 9] == ':') by { assert(suf[9int] == ':'); }
    assert(s[i + 10] == ' ') by { assert(suf[10int] == ' '); }
    lemma_scan_string_region(s, i + 1, i + 8);
    assert forall|t: int| 0 <= t < 7 implies s.subrange(i + 1, i + 8)[t] == "lat_pid"@[t] by {
        assert(s[i + (1 + t)] == suf[1 + t]);
        assert(suf[1 + t] == "lat_pid"@[t]);
    }
    assert(s.subrange(i + 1, i + 8) =~= "lat_pid"@);
    lemma_skip_ws_region(s, i + 9, i + 9);
    assert(v[0] == '{');
    assert(!is_ws(v[0]) && v[0] != '/') by {
        assert('{' as u32 == 123);
        assert(' ' as u32 == 32);
        assert('\n' as u32 == 10);
        assert('\t' as u32 == 9);
        assert('\r' as u32 == 13);
        assert('/' as u32 == 47);
    }
    let vpos = i + 11;
    assert(s[vpos] == v[0]) by { assert(suf[11int] == v[0]); }
    lemma_skip_ws_region(s, i + 10, vpos);
    assert forall|x: int| 0 <= x < v.len() implies s.subrange(vpos, vpos + v.len() as int)[x] == v[x] by {
        assert(s[i + (11 + x)] == suf[11 + x]);
        assert(suf[11 + x] == v[x]);
    }
    assert(s.subrange(vpos, vpos + v.len() as int) =~= v);
    let j = vpos + v.len() as int;
    assert(s[j] == ',') by {
        assert(s[i + (11 + v.len())] == suf[11 + v.len() as int]);
        assert(suf[11 + v.len() as int] == ',');
    }
    assert(s[j + 1] == '\n') by {
        assert(s[i + (11 + v.len() + 1)] == suf[11 + v.len() as int + 1]);
        assert(suf[11 + v.len() as int + 1] == '\n');
    }
    assert(s[j + 2] == ' ') by {
        assert(s[i + (11 + v.len() + 2)] == suf[11 + v.len() as int + 2]);
        assert(suf[11 + v.len() as int + 2] == ' ');
    }
    assert(s[j + 3] == ' ') by {
        assert(s[i + (11 + v.len() + 3)] == suf[11 + v.len() as int + 3]);
        assert(suf[11 + v.len() as int + 3] == ' ');
    }
    assert(s[j + 4] == '"') by {
        assert(s[i + (11 + v.len() + 4)] == suf[11 + v.len() as int + 4]);
        assert(suf[11 + v.len() as int + 4] == rest[0]);
    }
    lemma_parse_pid_render(s, vpos, pid);
    lemma_skip_ws_region(s, j, j);
    lemma_skip_ws_region(s, j + 1, j + 4);
    assert forall|t: int| 0 <= t < rest.len() implies s.subrange(j + 4, s.len() as int)[t] == rest[t] by {
        assert(s[i + (11 + v.len() + 4 + t)] == suf[11 + v.len() as int + 4 + t]);
        assert(suf[11 + v.len() as int + 4 + t] == rest[t]);
    }
    assert(s.subrange(j + 4, s.len() as int) =~= rest);
}

proof fn lemma_member_lat_pid(s: Seq<char>, i: int, p: ParamsV, first: bool, pid: PidParams, rest: Seq<char>)
    requires
        0 <= i <= s.len(),
        s.subrange(i, s.len() as int) == "\"lat_pid\": "@ + (render_pid(pid) + (",\n"@ + ("  "@ + rest))),
        rest.len() >= 1,
        rest[0] == '"',
    ensures
        parse_members(s, i, p, first) == parse_members(s, s.len() - rest.len(), (ParamsV { lat_pid: pid, ..p }), false),
        s.subrange(s.len() - rest.len(), s.len() as int) == rest,
{
    lemma_member_lat_pid_head(s, i, pid, rest);
    let vpos = i + 11;
    let j = vpos + render_pid(pid).len() as int;
    lemma_field_value_lat_pid(s, vpos, p, pid, j);
    lemma_members_step(s, i, p, first, "lat_pid"@, (ParamsV { lat_pid: pid, ..p }), i + 8, i + 9, vpos, j, j + 4);
}

#[verifier::rlimit(100)]
proof fn lemma_member_rps_pid_head(s: Seq<char>, i: int, pid: PidParams, rest: Seq<char>)
    requires
        0 <= i <= s.len(),
        s.subrange(i, s.len() as int) == "\"rps_pid\": "@ + (render_pid(pid) + (",\n"@ + ("  "@ + rest))),
        rest.len() >= 1,
        rest[0] == '"',
    ensures
        i < s.len(),
        s[i] == '"',
        scan_string(s, i + 1) == i + 8,
        i + 8 < s.len(),
        s[i + 8] == '"',
        s.subrange(i + 1, i + 8) == "rps_pid"@,
        skip_trivia(s, i + 9) == i + 9,
        i + 9 < s.len(),
        s[i + 9] == ':',
        skip_trivia(s, i + 10) == i + 11,
        i + 11 + render_pid(pid).len() + 4 == s.len() - rest.len(),
        parse_pid(s, i + 11) == Some((pid, i + 11 + render_pid(pid).len() as int)),
        skip_trivia(s, i + 11 + render_pid(pid).len() as int) == i + 11 + render_pid(pid).len(),
        i + 11 + render_pid(pid).len() < s.len(),
        s[i + 11 + render_pid(pid).len()] == ',',
        skip_trivia(s, i + 11 + render_pid(pid).len() + 1) == s.len() - rest.len(),
        s.subrange(s.len() - rest.len(), s.len() as int) == rest,
{
    reveal_strlit("\"rps_pid\": ");
    reveal_strlit("rps_pid");
    reveal_strlit(",\n");
    reveal_strlit("  ");
    reveal_strlit("{ \"kp\": ");
    let kseg = "\"rps_pid\": "@;
    let v = render_pid(pid);
    let suf = kseg + (v + (",\n"@ + ("  "@ + rest)));
    assert(kseg.len() == 11);
    assert(v.len() >= 9) by {
        lemma_render_dec_shape(pid.kp.nanos);
    }
    assert(s.len() - i == suf.len());
    assert forall|x: int| 0 <= x < suf.len() implies s[i + x] == suf[x] by {
        assert(s.subrange(i, s.len() as int)[x] == suf[x]);
    }
    assert(s[i + 0] == '"') by { assert(suf[0int] == '"'); }
    assert(s[i + 1] == 'r') by { assert(suf[1int] == 'r'); }
    assert(s[i + 2] == 'p') by { assert(suf[2int] == 'p'); }
    assert(s[i + 3] == 's') by { assert(suf[3int] == 's'); }
    assert(s[i + 4] == '_') by { assert(suf[4int] == '_'); }
    assert(s[i + 5] == 'p') by { assert(suf[5int] == 'p'); }
    assert(s[i + 6] == 'i') by { assert(suf[6int] == 'i'); }
    assert(s[i + 7] == 'd') by { assert(suf[7int] == 'd'); }
    assert(s[i + 8] == '"') by { assert(suf[8int] == '"'); }
    assert(s[i + 9] == ':') by { assert(suf[9int] == ':'); }
    assert(s[i + 10] == ' ') by { assert(suf[10int] == ' '); }
    lemma_scan_string_region(s, i + 1, i + 8);
    assert forall|t: int| 0 <= t < 7 implies s.subrange(i + 1, i + 8)[t] == "rps_pid"@[t] by {
        assert(s[i + (1 + t)] == suf[1 + t]);
        assert(suf[1 + t] == "rps_pid"@[t]);
    }
    assert(s.subrange(i + 1, i + 8) =~= "rps_pid"@);
    lemma_skip_ws_region(s, i + 9, i + 9);
    assert(v[0] == '{');
    assert(!is_ws(v[0]) && v[0] != '/') by {
        assert('{' as u32 == 123);
        assert(' ' as u32 == 32);
        assert('\n' as u32 == 10);
        assert('\t' as u32 == 9);
        assert('\r' as u32 == 13);
        assert('/' as u32 == 47);
    }
    let vpos = i + 11;
    assert(s[vpos] == v[0]) by { assert(suf[11int] == v[0]); }
    lemma_skip_ws_region(s, i + 10, vpos);
    assert forall|x: int| 0 <= x < v.len() implies s.subrange(vpos, vpos + v.len() as int)[x] == v[x] by {
        assert(s[i + (11 + x)] == suf[11 + x]);
        assert(suf[11 + x] == v[x]);
    }
    assert(s.subrange(vpos, vpos + v.len() as int) =~= v);
    let j = vpos + v.len() as int;
    assert(s[j] == ',') by {
        assert(s[i + (11 + v.len())] == suf[11 + v.len() as int]);
        assert(suf[11 + v.len() as int] == ',');
    }
    assert(s[j + 1] == '\n') by {
        assert(s[i + (11 + v.len() + 1)] == suf[11 + v.len() as int + 1]);
        assert(suf[11 + v.len() as int + 1] == '\n');
    }
    assert(s[j + 2] == ' ') by {
        assert(s[i + (11 + v.len() + 2)] == suf[11 + v.len() as int + 2]);
        assert(suf[11 + v.len() as int + 2] == ' ');
    }
    assert(s[j + 3] == ' ') by {
        assert(s[i + (11 + v.len() + 3)] == suf[11 + v.len() as int + 3]);
        assert(suf[11 + v.len() as int + 3] == ' ');
    }
    assert(s[j + 4] == '"') by {
        assert(s[i + (11 + v.len() + 4)] == suf[11 + v.len() as int + 4]);
        assert(suf[11 + v.len() as int + 4] == rest[0]);
    }
    lemma_parse_pid_render(s, vpos, pid);
    lemma_skip_ws_region(s, j, j);
    lemma_skip_ws_region(s, j + 1, j + 4);
    assert forall|t: int| 0 <= t < rest.len() implies s.subrange(j + 4, s.len() as int)[t] == rest[t] by {
        assert(s[i + (11 + v.len() + 4 + t)] == suf[11 + v.len() as int + 4 + t]);
        assert(suf[11 + v.len() as int + 4 + t] == rest[t]);
    }
    assert(s.subrange(j + 4, s.len() as int) =~= rest);
}

proof fn lemma_member_rps_pid(s: Seq<char>, i: int, p: ParamsV, first: bool, pid: PidParams, rest: Seq<char>)
    requires
        0 <= i <= s.len(),
        s.subrange(i, s.len() as int) == "\"rps_pid\": "@ + (render_pid(pid) + (",\n"@ + ("  "@ + rest))),
        rest.len() >= 1,
        rest[0] == '"',
    ensures
        parse_members(s, i, p, first) == parse_members(s, s.len() - rest.len(), (ParamsV { rps_pid: pid, ..p }), false),
        s.subrange(s.len() - rest.len(), s.len() as int) == rest,
{
    lemma_member_rps_pid_head(s, i, pid, rest);
    let vpos = i + 11;
    let j = vpos + render_pid(pid).len() as int;
    lemma_field_value_rps_pid(s, vpos, p, pid, j);
    lemma_members_step(s, i, p, first, "rps_pid"@, (ParamsV { rps_pid: pid, ..p }), i + 8, i + 9, vpos, j, j + 4);
}

#[verifier::rlimit(100)]
proof fn lemma_member_anon_histogram(s: Seq<char>, i: int, p: ParamsV, h: Seq<u64>)
    requires
        0 <= i <= s.len(),
        s.subrange(i, s.len() as int) == "\"anon_histogram\": "@ + (render_hist(h) + "\n}\n"@),
    ensures
        parse_members(s, i, p, false) == Some(((ParamsV { anon_histogram: h, ..p }), s.len() - 1)),
        s.len() >= 1,
        skip_trivia(s, s.len() - 1) == s.len(),
{
    reveal_strlit("\"anon_histogram\": ");
    reveal_strlit("anon_histogram");
    reveal_strlit("\n}\n");
    reveal_strlit("[");
    let kseg = "\"anon_histogram\": "@;
    let v = render_hist(h);
    let suf = kseg + (v + "\n}\n"@);
    assert(kseg.len() == 18);
    assert(s.len() - i == suf.len());
    assert forall|x: int| 0 <= x < suf.len() implies s[i + x] == suf[x] by {
        assert(s.subrange(i, s.len() as int)[x] == suf[x]);
    }
    assert(s[i + 0] == '"') by { assert(suf[0int] == '"'); }
    assert(s[i + 1] == 'a') by { assert(suf[1int] == 'a'); }
    assert(s[i + 2] == 'n') by { assert(suf[2int] == 'n'); }
    assert(s[i + 3] == 'o') by { assert(suf[3int] == 'o'); }
    assert(s[i + 4] == 'n') by { assert(suf[4int] == 'n'); }
    assert(s[i + 5] == '_') by { assert(suf[5int] == '_'); }
    assert(s[i + 6] == 'h') by { assert(suf[6int] == 'h'); }
    assert(s[i + 7] == 'i') by { assert(suf[7int] == 'i'); }
    assert(s[i + 8] == 's') by { assert(suf[8int] == 's'); }
    assert(s[i + 9] == 't') by { assert(suf[9int] == 't'); }
    assert(s[i + 10] == 'o') by { assert(suf[10int] == 'o'); }
    assert(s[i + 11] == 'g') by { assert(suf[11int] == 'g'); }
    assert(s[i + 12] == 'r') by { assert(suf[12int] == 'r'); }
    assert(s[i + 13] == 'a') by { assert(suf[13int] == 'a'); }
    assert(s[i + 14] == 'm') by { assert(suf[14int] == 'm'); }
    assert(s[i + 15] == '"') by { assert(suf[15int] == '"'); }
    assert(s[i + 16] == ':') by { assert(suf[16int] == ':'); }
    assert(s[i + 17] == ' ') by { assert(suf[17int] == ' '); }
    lemma_scan_string_region(s, i + 1, i + 15);
    assert forall|t: int| 0 <= t < 14 implies s.subrange(i + 1, i + 15)[t] == "anon_histogram"@[t] by {
        assert(s[i + (1 + t)] == suf[1 + t]);
        assert(suf[1 + t] == "anon_histogram"@[t]);
    }
    assert(s.subrange(i + 1, i + 15) =~= "anon_histogram"@);
    lemma_skip_ws_region(s, i + 16, i + 16);
    assert(v[0] == '[');
    assert(!is_ws(v[0]) && v[0] != '/') by {
        assert('[' as u32 == 91);
        assert(' ' as u32 == 32);
        assert('\n' as u32 == 10);
        assert('\t' as u32 == 9);
        assert('\r' as u32 == 13);
        assert('/' as u32 == 47);
    }
    let vpos = i + 18;
    assert(s[vpos] == v[0]) by { assert(suf[18int] == v[0]); }
    lemma_skip_ws_region(s, i + 17, vpos);
    assert forall|x: int| 0 <= x < v.len() implies s.subrange(vpos, vpos + v.len() as int)[x] == v[x] by {
        assert(s[i + (18 + x)] == suf[18 + x]);
        assert(suf[18 + x] == v[x]);
    }
    assert(s.subrange(vpos, vpos + v.len() as int) =~= v);
    let j = vpos + v.len() as int;
    assert(s[j] == '\n') by {
        assert(s[i + (18 + v.len())] == suf[18 + v.len() as int]);
        assert(suf[18 + v.len() as int] == '\n');
    }
    assert(s[j + 1] == '}') by {
        assert(s[i + (18 + v.len() + 1)] == suf[18 + v.len() as int + 1]);
        assert(suf[18 + v.len() as int + 1] == '}');
    }
    assert(s[j + 2] == '\n') by {
        assert(s[i + (18 + v.len() + 2)] == suf[18 + v.len() as int + 2]);
        assert(suf[18 + v.len() as int + 2] == '\n');
    }
    assert(j + 3 == s.len());
    lemma_parse_hist_render(s, vpos, h);
    lemma_field_value_anon_histogram(s, vpos, p, h, j);
    lemma_skip_ws_region(s, j, j + 1);
    lemma_members_last(s, i, p, "anon_histogram"@, (ParamsV { anon_histogram: h, ..p }), i + 15, i + 16, vpos, j, j + 1);
    assert(skip_trivia(s, s.len() - 1) == skip_trivia(s, s.len() as int));
}

/// The saved document from the `control_period` member on.
pub open spec fn doc_tail_control_period(p: ParamsV) -> Seq<char> {
    "\"control_period\": "@ + (render_dec(p.control_period.nanos as int) + (",\n"@ + ("  "@ + doc_tail_concurrency_max(p))))
}

/// The saved document from the `concurrency_max` member on.
pub open spec fn doc_tail_concurrency_max(p: ParamsV) -> Seq<char> {
    "\"concurrency_max\": "@ + (render_uint(p.concurrency_max as nat) + (",\n"@ + ("  "@ + doc_tail_lat_target_pct(p))))
}

/// The saved document from the `lat_target_pct` member on.
pub open spec fn doc_tail_lat_target_pct(p: ParamsV) -> Seq<char> {
    "\"lat_target_pct\": "@ + (render_dec(p.lat_target_pct.nanos as int) + (",\n"@ + ("  "@ + doc_tail_lat_target(p))))
}

/// The saved document from the `lat_target` member on.
pub open spec fn doc_tail_lat_target(p: ParamsV) -> Seq<char> {
    "\"lat_target\": "@ + (render_dec(p.lat_target.nanos as int) + (",\n"@ + ("  "@ + doc_tail_rps_target(p))))
}

/// The saved document from the `rps_target` member on.
pub open spec fn doc_tail_rps_target(p: ParamsV) -> Seq<char> {
    "\"rps_target\": "@ + (render_uint(p.rps_target as nat) + (",\n"@ + ("  "@ + doc_tail_rps_max(p))))
}

/// The saved document from the `rps_max` member on.
pub open spec fn doc_tail_rps_max(p: ParamsV) -> Seq<char> {
    "\"rps_max\": "@ + (render_uint(p.rps_max as nat) + (",\n"@ + ("  "@ + doc_tail_mem_frac(p))))
}

/// The saved document from the `mem_frac` member on.
pub open spec fn doc_tail_mem_frac(p: ParamsV) -> Seq<char> {
    "\"mem_frac\": "@ + (render_dec(p.mem_frac.nanos as int) + (",\n"@ + ("  "@ + doc_tail_chunk_pages(p))))
}

/// The saved document from the `chunk_pages` member on.
pub open spec fn doc_tail_chunk_pages(p: ParamsV) -> Seq<char> {
    "\"chunk_pages\": "@ + (render_uint(p.chunk_pages as nat) + (",\n"@ + ("  "@ + doc_tail_file_frac(p))))
}

/// The saved document from the `file_frac` member on.
pub open spec fn doc_tail_file_frac(p: ParamsV) -> Seq<char> {
    "\"file_frac\": "@ + (render_dec(p.file_frac.nanos as int) + (",\n"@ + ("  "@ + doc_tail_file_size_mean(p))))
}

/// The saved document from the `file_size_mean` member on.
pub open spec fn doc_tail_file_size_mean(p: ParamsV) -> Seq<char> {
    "\"file_size_mean\": "@ + (render_uint(p.file_size_mean as nat) + (",\n"@ + ("  "@ + doc_tail_file_size_stdev_ratio(p))))
}

/// The saved document from the `file_size_stdev_ratio` member on.
pub open spec fn doc_tail_file_size_stdev_ratio(p: ParamsV) -> Seq<char> {
    "\"file_size_stdev_ratio\": "@ + (render_dec(p.file_size_stdev_ratio.nanos as int) + (",\n"@ + ("  "@ + doc_tail_file_addr_stdev_ratio(p))))
}

/// The saved document from the `file_addr_stdev_ratio` member on.
pub open spec fn doc_tail_file_addr_stdev_ratio(p: ParamsV) -> Seq<char> {
    "\"file_addr_stdev_ratio\": "@ + (render_dec(p.file_addr_stdev_ratio.nanos as int) + (",\n"@ + ("  "@ + doc_tail_file_addr_rps_base_frac(p))))
}

/// The saved document from the `file_addr_rps_base_frac` member on.
pub open spec fn doc_tail_file_addr_rps_base_frac(p: ParamsV) -> Seq<char> {
    "\"file_addr_rps_base_frac\": "@ + (render_dec(p.file_addr_rps_base_frac.nanos as int) + (",\n"@ + ("  "@ + doc_tail_file_write_frac(p))))
}

/// The saved document from the `file_write_frac` member on.
pub open spec fn doc_tail_file_write_frac(p: ParamsV) -> Seq<char> {
    "\"file_write_frac\": "@ + (render_dec(p.file_write_frac.nanos as int) + (",\n"@ + ("  "@ + doc_tail_anon_size_ratio(p))))
}

/// The saved document from the `anon_size_ratio` member on.
pub open spec fn doc_tail_anon_size_ratio(p: ParamsV) -> Seq<char> {
    "\"anon_size_ratio\": "@ + (render_dec(p.anon_size_ratio.nanos as int) + (",\n"@ + ("  "@ + doc_tail_anon_size_stdev_ratio(p))))
}

/// The saved document from the `anon_size_stdev_ratio` member on.
pub open spec fn doc_tail_anon_size_stdev_ratio(p: ParamsV) -> Seq<char> {
    "\"anon_size_stdev_ratio\": "@ + (render_dec(p.anon_size_stdev_ratio.nanos as int) + (",\n"@ + ("  "@ + doc_tail_anon_addr_stdev_ratio(p))))
}

/// The saved document from the `anon_addr_stdev_ratio` member on.
pub open spec fn doc_tail_anon_addr_stdev_ratio(p: ParamsV) -> Seq<char> {
    "\"anon_addr_stdev_ratio\": "@ + (render_dec(p.anon_addr_stdev_ratio.nanos as int) + (",\n"@ + ("  "@ + doc_tail_anon_addr_rps_base_frac(p))))
}

/// The saved document from the `anon_addr_rps_base_frac` member on.
pub open spec fn doc_tail_anon_addr_rps_base_frac(p: ParamsV) -> Seq<char> {
    "\"anon_addr_rps_base_frac\": "@ + (render_dec(p.anon_addr_rps_base_frac.nanos as int) + (",\n"@ + ("  "@ + doc_tail_anon_write_frac(p))))
}

/// The saved document from the `anon_write_frac` member on.
pub open spec fn doc_tail_anon_write_frac(p: ParamsV) -> Seq<char> {
    "\"anon_write_frac\": "@ + (render_dec(p.anon_write_frac.nanos as int) + (",\n"@ + ("  "@ + doc_tail_sleep_mean(p))))
}

/// The saved document from the `sleep_mean` member on.
pub open spec fn doc_tail_sleep_mean(p: ParamsV) -> Seq<char> {
    "\"sleep_mean\": "@ + (render_dec(p.sleep_mean.nanos as int) + (",\n"@ + ("  "@ + doc_tail_sleep_stdev_ratio(p))))
}

/// The saved document from the `sleep_stdev_ratio` member on.
pub open spec fn doc_tail_sleep_stdev_ratio(p: ParamsV) -> Seq<char> {
    "\"sleep_stdev_ratio\": "@ + (render_dec(p.sleep_stdev_ratio.nanos as int) + (",\n"@ + ("  "@ + doc_tail_cpu_ratio(p))))
}

/// The saved document from the `cpu_ratio` member on.
pub open spec fn doc_tail_cpu_ratio(p: ParamsV) -> Seq<char> {
    "\"cpu_ratio\": "@ + (render_dec(p.cpu_ratio.nanos as int) + (",\n"@ + ("  "@ + doc_tail_log_bps(p))))
}

/// The saved document from the `log_bps` member on.
pub open spec fn doc_tail_log_bps(p: ParamsV) -> Seq<char> {
    "\"log_bps\": "@ + (render_uint(p.log_bps as nat) + (",\n"@ + ("  "@ + doc_tail_fake_cpu_load(p))))
}

/// The saved document from the `fake_cpu_load` member on.
pub open spec fn doc_tail_fake_cpu_load(p: ParamsV) -> Seq<char> {
    "\"fake_cpu_load\": "@ + ((if p.fake_cpu_load { "true"@ } else { "false"@ }) + (",\n"@ + ("  "@ + doc_tail_acc_dist_slots(p))))
}

/// The saved document from the `acc_dist_slots` member on.
pub open spec fn doc_tail_acc_dist_slots(p: ParamsV) -> Seq<char> {
    "\"acc_dist_slots\": "@ + (render_uint(p.acc_dist_slots as nat) + (",\n"@ + ("  "@ + doc_tail_lat_pid(p))))
}

/// The saved document from the `lat_pid` member on.
pub open spec fn doc_tail_lat_pid(p: ParamsV) -> Seq<char> {
    "\"lat_pid\": "@ + (render_pid(p.lat_pid) + (",\n"@ + ("  "@ + doc_tail_rps_pid(p))))
}

/// The saved document from the `rps_pid` member on.
pub open spec fn doc_tail_rps_pid(p: ParamsV) -> Seq<char> {
    "\"rps_pid\": "@ + (render_pid(p.rps_pid) + (",\n"@ + ("  "@ + doc_tail_anon_histogram(p))))
}

/// The saved document from the `anon_histogram` member on.
pub open spec fn doc_tail_anon_histogram(p: ParamsV) -> Seq<char> {
    "\"anon_histogram\": "@ + (render_hist(p.anon_histogram) + "\n}\n"@)
}










#[verifier::rlimit(100)]
proof fn lemma_chunks_a(p: ParamsV)
    ensures
        body_a(p) + ("  "@ + doc_tail_chunk_pages(p)) == "{\n"@ + ("  "@ + doc_tail_control_period(p)),
{
    reveal_strlit("  ");
    reveal_strlit("  \"concurrency_max\": ");
    reveal_strlit("  \"control_period\": ");
    reveal_strlit("  \"lat_target\": ");
    reveal_strlit("  \"lat_target_pct\": ");
    reveal_strlit("  \"mem_frac\": ");
    reveal_strlit("  \"rps_max\": ");
    reveal_strlit("  \"rps_target\": ");
    reveal_strlit(",\n");
    reveal_strlit("\"concurrency_max\": ");
    reveal_strlit("\"control_period\": ");
    reveal_strlit("\"lat_target\": ");
    reveal_strlit("\"lat_target_pct\": ");
    reveal_strlit("\"mem_frac\": ");
    reveal_strlit("\"rps_max\": ");
    reveal_strlit("\"rps_target\": ");
    reveal_strlit("{\n");
    let c1 = "{\n"@;
    let c2 = "  \"control_period\": "@;
    let c3 = render_dec(p.control_period.nanos as int);
    let c4 = ",\n"@;
    let c5 = "  \"concurrency_max\": "@;
    let c6 = render_uint(p.concurrency_max as nat);
    let c7 = ",\n"@;
    let c8 = "  \"lat_target_pct\": "@;
    let c9 = render_dec(p.lat_target_pct.nanos as int);
    let c10 = ",\n"@;
    let c11 = "  \"lat_target\": "@;
    let c12 = render_dec(p.lat_target.nanos as int);
    let c13 = ",\n"@;
    let c14 = "  \"rps_target\": "@;
    let c15 = render_uint(p.rps_target as nat);
    let c16 = ",\n"@;
    let c17 = "  \"rps_max\": "@;
    let c18 = render_uint(p.rps_max as nat);
    let c19 = ",\n"@;
    let c20 = "  \"mem_frac\": "@;
    let c21 = render_dec(p.mem_frac.nanos as int);
    let c22 = ",\n"@;
    let c23 = ("  "@ + doc_tail_chunk_pages(p));
    assert("  \"control_period\": "@ =~= "  "@ + "\"control_period\": "@);
    assert("  \"concurrency_max\": "@ =~= "  "@ + "\"concurrency_max\": "@);
    assert("  \"lat_target_pct\": "@ =~= "  "@ + "\"lat_target_pct\": "@);
    assert("  \"lat_target\": "@ =~= "  "@ + "\"lat_target\": "@);
    assert("  \"rps_target\": "@ =~= "  "@ + "\"rps_target\": "@);
    assert("  \"rps_max\": "@ =~= "  "@ + "\"rps_max\": "@);
    assert("  \"mem_frac\": "@ =~= "  "@ + "\"mem_frac\": "@);
    let q1 = c1;
    let q2 = q1 + c2;
    let q3 = q2 + c3;
    let q4 = q3 + c4;
    let q5 = q4 + c5;
    let q6 = q5 + c6;
    let q7 = q6 + c7;
    let q8 = q7 + c8;
    let q9 = q8 + c9;
    let q10 = q9 + c10;
    let q11 = q10 + c11;
    let q12 = q11 + c12;
    let q13 = q12 + c13;
    let q14 = q13 + c14;
    let q15 = q14 + c15;
    let q16 = q15 + c16;
    let q17 = q16 + c17;
    let q18 = q17 + c18;
    let q19 = q18 + c19;
    let q20 = q19 + c20;
    let q21 = q20 + c21;
    let q22 = q21 + c22;
    let q23 = q22 + c23;
    let r23 = c23;
    let r22 = c22 + r23;
    let r21 = c21 + r22;
    let r20 = c20 + r21;
    let r19 = c19 + r20;
    let r18 = c18 + r19;
    let r17 = c17 + r18;
    let r16 = c16 + r17;
    let r15 = c15 + r16;
    let r14 = c14 + r15;
    let r13 = c13 + r14;
    let r12 = c12 + r13;
    let r11 = c11 + r12;
    let r10 = c10 + r11;
    let r9 = c9 + r10;
    let r8 = c8 + r9;
    let r7 = c7 + r8;
    let r6 = c6 + r7;
    let r5 = c5 + r6;
    let r4 = c4 + r5;
    let r3 = c3 + r4;
    let r2 = c2 + r3;
    let r1 = c1 + r2;
    assert(body_a(p) == q22);
    assert(body_a(p) + ("  "@ + doc_tail_chunk_pages(p)) == q23);
    lemma_concat_associative(q21, c22, r23);
    lemma_concat_associative(q20, c21, r22);
    lemma_concat_associative(q19, c20, r21);
    lemma_concat_associative(q18, c19, r20);
    lemma_concat_associative(q17, c18, r19);
    lemma_concat_associative(q16, c17, r18);
    lemma_concat_associative(q15, c16, r17);
    lemma_concat_associative(q14, c15, r16);
    lemma_concat_associative(q13, c14, r15);
    lemma_concat_associative(q12, c13, r14);
    lemma_concat_associative(q11, c12, r13);
    lemma_concat_associative(q10, c11, r12);
    lemma_concat_associative(q9, c10, r11);
    lemma_concat_associative(q8, c9, r10);
    lemma_concat_associative(q7, c8, r9);
    lemma_concat_associative(q6, c7, r8);
    lemma_concat_associative(q5, c6, r7);
    lemma_concat_associative(q4, c5, r6);
    lemma_concat_associative(q3, c4, r5);
    lemma_concat_associative(q2, c3, r4);
    lemma_concat_associative(q1, c2, r3);
    assert(q23 == r1);
    lemma_concat_associative("  "@, "\"mem_frac\": "@, r21);
    assert(r21 == (render_dec(p.mem_frac.nanos as int) + (",\n"@ + ("  "@ + doc_tail_chunk_pages(p)))));
    assert(r20 == "  "@ + doc_tail_mem_frac(p));
    lemma_concat_associative("  "@, "\"rps_max\": "@, r18);
    assert(r18 == (render_uint(p.rps_max as nat) + (",\n"@ + ("  "@ + doc_tail_mem_frac(p)))));
    assert(r17 == "  "@ + doc_tail_rps_max(p));
    lemma_concat_associative("  "@, "\"rps_target\": "@, r15);
    assert(r15 == (render_uint(p.rps_target as nat) + (",\n"@ + ("  "@ + doc_tail_rps_max(p)))));
    assert(r14 == "  "@ + doc_tail_rps_target(p));
    lemma_concat_associative("  "@, "\"lat_target\": "@, r12);
    assert(r12 == (render_dec(p.lat_target.nanos as int) + (",\n"@ + ("  "@ + doc_tail_rps_target(p)))));
    assert(r11 == "  "@ + doc_tail_lat_target(p));
    lemma_concat_associative("  "@, "\"lat_target_pct\": "@, r9);
    assert(r9 == (render_dec(p.lat_target_pct.nanos as int) + (",\n"@ + ("  "@ + doc_tail_lat_target(p)))));
    assert(r8 == "  "@ + doc_tail_lat_target_pct(p));
    lemma_concat_associative("  "@, "\"concurrency_max\": "@, r6);
    assert(r6 == (render_uint(p.concurrency_max as nat) + (",\n"@ + ("  "@ + doc_tail_lat_target_pct(p)))));
    assert(r5 == "  "@ + doc_tail_concurrency_max(p));
    lemma_concat_associative("  "@, "\"control_period\": "@, r3);
    assert(r3 == (render_dec(p.control_period.nanos as int) + (",\n"@ + ("  "@ + doc_tail_concurrency_max(p)))));
    assert(r2 == "  "@ + doc_tail_control_period(p));
    assert(body_a(p) + ("  "@ + doc_tail_chunk_pages(p)) == "{\n"@ + ("  "@ + doc_tail_control_period(p)));
}

#[verifier::rlimit(100)]
proof fn lemma_chunks_b2(p: ParamsV)
    ensures
        body_b2(p) + ("  "@ + doc_tail_anon_size_ratio(p)) == "  "@ + doc_tail_file_addr_stdev_ratio(p),
{
    reveal_strlit("  ");
    reveal_strlit("  \"file_addr_rps_base_frac\": ");
    reveal_strlit("  \"file_addr_stdev_ratio\": ");
    reveal_strlit("  \"file_write_frac\": ");
    reveal_strlit(",\n");
    reveal_strlit("\"file_addr_rps_base_frac\": ");
    reveal_strlit("\"file_addr_stdev_ratio\": ");
    reveal_strlit("\"file_write_frac\": ");
    let c1 = "  \"file_addr_stdev_ratio\": "@;
    let c2 = render_dec(p.file_addr_stdev_ratio.nanos as int);
    let c3 = ",\n"@;
    let c4 = "  \"file_addr_rps_base_frac\": "@;
    let c5 = render_dec(p.file_addr_rps_base_frac.nanos as int);
    let c6 = ",\n"@;
    let c7 = "  \"file_write_frac\": "@;
    let c8 = render_dec(p.file_write_frac.nanos as int);
    let c9 = ",\n"@;
    let c10 = ("  "@ + doc_tail_anon_size_ratio(p));
    assert("  \"file_addr_stdev_ratio\": "@ =~= "  "@ + "\"file_addr_stdev_ratio\": "@);
    assert("  \"file_addr_rps_base_frac\": "@ =~= "  "@ + "\"file_addr_rps_base_frac\": "@);
    assert("  \"file_write_frac\": "@ =~= "  "@ + "\"file_write_frac\": "@);
    let q1 = c1;
    let q2 = q1 + c2;
    let q3 = q2 + c3;
    let q4 = q3 + c4;
    let q5 = q4 + c5;
    let q6 = q5 + c6;
    let q7 = q6 + c7;
    let q8 = q7 + c8;
    let q9 = q8 + c9;
    let q10 = q9 + c10;
    let r10 = c10;
    let r9 = c9 + r10;
    let r8 = c8 + r9;
    let r7 = c7 + r8;
    let r6 = c6 + r7;
    let r5 = c5 + r6;
    let r4 = c4 + r5;
    let r3 = c3 + r4;
    let r2 = c2 + r3;
    let r1 = c1 + r2;
    assert(body_b2(p) == q9);
    assert(body_b2(p) + ("  "@ + doc_tail_anon_size_ratio(p)) == q10);
    lemma_concat_associative(q8, c9, r10);
    lemma_concat_associative(q7, c8, r9);
    lemma_concat_associative(q6, c7, r8);
    lemma_concat_associative(q5, c6, r7);
    lemma_concat_associative(q4, c5, r6);
    lemma_concat_associative(q3, c4, r5);
    lemma_concat_associative(q2, c3, r4);
    lemma_concat_associative(q1, c2, r3);
    assert(q10 == r1);
    lemma_concat_associative("  "@, "\"file_write_frac\": "@, r8);
    assert(r8 == (render_dec(p.file_write_frac.nanos as int) + (",\n"@ + ("  "@ + doc_tail_anon_size_ratio(p)))));
    assert(r7 == "  "@ + doc_tail_file_write_frac(p));
    lemma_concat_associative("  "@, "\"file_addr_rps_base_frac\": "@, r5);
    assert(r5 == (render_dec(p.file_addr_rps_base_frac.nanos as int) + (",\n"@ + ("  "@ + doc_tail_file_write_frac(p)))));
    assert(r4 == "  "@ + doc_tail_file_addr_rps_base_frac(p));
    lemma_concat_associative("  "@, "\"file_addr_stdev_ratio\": "@, r2);
    assert(r2 == (render_dec(p.file_addr_stdev_ratio.nanos as int) + (",\n"@ + ("  "@ + doc_tail_file_addr_rps_base_frac(p)))));
    assert(r1 == "  "@ + doc_tail_file_addr_stdev_ratio(p));
    assert(body_b2(p) + ("  "@ + doc_tail_anon_size_ratio(p)) == "  "@ + doc_tail_file_addr_stdev_ratio(p));
}

#[verifier::rlimit(100)]
proof fn lemma_chunks_b1(p: ParamsV)
    ensures
        body_b1(p) + ("  "@ + doc_tail_file_addr_stdev_ratio(p)) == "  "@ + doc_tail_chunk_pages(p),
{
    reveal_strlit("  ");
    reveal_strlit("  \"chunk_pages\": ");
    reveal_strlit("  \"file_frac\": ");
    reveal_strlit("  \"file_size_mean\": ");
    reveal_strlit("  \"file_size_stdev_ratio\": ");
    reveal_strlit(",\n");
    reveal_strlit("\"chunk_pages\": ");
    reveal_strlit("\"file_frac\": ");
    reveal_strlit("\"file_size_mean\": ");
    reveal_strlit("\"file_size_stdev_ratio\": ");
    let c1 = "  \"chunk_pages\": "@;
    let c2 = render_uint(p.chunk_pages as nat);
    let c3 = ",\n"@;
    let c4 = "  \"file_frac\": "@;
    let c5 = render_dec(p.file_frac.nanos as int);
    let c6 = ",\n"@;
    let c7 = "  \"file_size_mean\": "@;
    let c8 = render_uint(p.file_size_mean as nat);
    let c9 = ",\n"@;
    let c10 = "  \"file_size_stdev_ratio\": "@;
    let c11 = render_dec(p.file_size_stdev_ratio.nanos as int);
    let c12 = ",\n"@;
    let c13 = ("  "@ + doc_tail_file_addr_stdev_ratio(p));
    assert("  \"chunk_pages\": "@ =~= "  "@ + "\"chunk_pages\": "@);
    assert("  \"file_frac\": "@ =~= "  "@ + "\"file_frac\": "@);
    assert("  \"file_size_mean\": "@ =~= "  "@ + "\"file_size_mean\": "@);
    assert("  \"file_size_stdev_ratio\": "@ =~= "  "@ + "\"file_size_stdev_ratio\": "@);
    let q1 = c1;
    let q2 = q1 + c2;
    let q3 = q2 + c3;
    let q4 = q3 + c4;
    let q5 = q4 + c5;
    let q6 = q5 + c6;
    let q7 = q6 + c7;
    let q8 = q7 + c8;
    let q9 = q8 + c9;
    let q10 = q9 + c10;
    let q11 = q10 + c11;
    let q12 = q11 + c12;
    let q13 = q12 + c13;
    let r13 = c13;
    let r12 = c12 + r13;
    let r11 = c11 + r12;
    let r10 = c10 + r11;
    let r9 = c9 + r10;
    let r8 = c8 + r9;
    let r7 = c7 + r8;
    let r6 = c6 + r7;
    let r5 = c5 + r6;
    let r4 = c4 + r5;
    let r3 = c3 + r4;
    let r2 = c2 + r3;
    let r1 = c1 + r2;
    assert(body_b1(p) == q12);
    assert(body_b1(p) + ("  "@ + doc_tail_file_addr_stdev_ratio(p)) == q13);
    lemma_concat_associative(q11, c12, r13);
    lemma_concat_associative(q10, c11, r12);
    lemma_concat_associative(q9, c10, r11);
    lemma_concat_associative(q8, c9, r10);
    lemma_concat_associative(q7, c8, r9);
    lemma_concat_associative(q6, c7, r8);
    lemma_concat_associative(q5, c6, r7);
    lemma_concat_associative(q4, c5, r6);
    lemma_concat_associative(q3, c4, r5);
    lemma_concat_associative(q2, c3, r4);
    lemma_concat_associative(q1, c2, r3);
    assert(q13 == r1);
    lemma_concat_associative("  "@, "\"file_size_stdev_ratio\": "@, r11);
    assert(r11 == (render_dec(p.file_size_stdev_ratio.nanos as int) + (",\n"@ + ("  "@ + doc_tail_file_addr_stdev_ratio(p)))));
    assert(r10 == "  "@ + doc_tail_file_size_stdev_ratio(p));
    lemma_concat_associative("  "@, "\"file_size_mean\": "@, r8);
    assert(r8 == (render_uint(p.file_size_mean as nat) + (",\n"@ + ("  "@ + doc_tail_file_size_stdev_ratio(p)))));
    assert(r7 == "  "@ + doc_tail_file_size_mean(p));
    lemma_concat_associative("  "@, "\"file_frac\": "@, r5);
    assert(r5 == (render_dec(p.file_frac.nanos as int) + (",\n"@ + ("  "@ + doc_tail_file_size_mean(p)))));
    assert(r4 == "  "@ + doc_tail_file_frac(p));
    lemma_concat_associative("  "@, "\"chunk_pages\": "@, r2);
    assert(r2 == (render_uint(p.chunk_pages as nat) + (",\n"@ + ("  "@ + doc_tail_file_frac(p)))));
    assert(r1 == "  "@ + doc_tail_chunk_pages(p));
    assert(body_b1(p) + ("  "@ + doc_tail_file_addr_stdev_ratio(p)) == "  "@ + doc_tail_chunk_pages(p));
}

proof fn lemma_chunks_b(p: ParamsV)
    ensures
        body_b(p) + ("  "@ + doc_tail_anon_size_ratio(p)) == "  "@ + doc_tail_chunk_pages(p),
{
    lemma_chunks_b2(p);
    lemma_chunks_b1(p);
    lemma_concat_associative(body_b1(p), body_b2(p), "  "@ + doc_tail_anon_size_ratio(p));
    assert(body_b(p) == body_b1(p) + body_b2(p));
    assert(body_b(p) + ("  "@ + doc_tail_anon_size_ratio(p)) == body_b1(p) + (body_b2(p) + (
        "  "@ + doc_tail_anon_size_ratio(p))));
}

#[verifier::rlimit(100)]
proof fn lemma_chunks_c(p: ParamsV)
    ensures
        body_c(p) + ("  "@ + doc_tail_cpu_ratio(p)) == "  "@ + doc_tail_anon_size_ratio(p),
{
    reveal_strlit("  ");
    reveal_strlit("  \"anon_addr_rps_base_frac\": ");
    reveal_strlit("  \"anon_addr_stdev_ratio\": ");
    reveal_strlit("  \"anon_size_ratio\": ");
    reveal_strlit("  \"anon_size_stdev_ratio\": ");
    reveal_strlit("  \"anon_write_frac\": ");
    reveal_strlit("  \"sleep_mean\": ");
    reveal_strlit("  \"sleep_stdev_ratio\": ");
    reveal_strlit(",\n");
    reveal_strlit("\"anon_addr_rps_base_frac\": ");
    reveal_strlit("\"anon_addr_stdev_ratio\": ");
    reveal_strlit("\"anon_size_ratio\": ");
    reveal_strlit("\"anon_size_stdev_ratio\": ");
    reveal_strlit("\"anon_write_frac\": ");
    reveal_strlit("\"sleep_mean\": ");
    reveal_strlit("\"sleep_stdev_ratio\": ");
    let c1 = "  \"anon_size_ratio\": "@;
    let c2 = render_dec(p.anon_size_ratio.nanos as int);
    let c3 = ",\n"@;
    let c4 = "  \"anon_size_stdev_ratio\": "@;
    let c5 = render_dec(p.anon_size_stdev_ratio.nanos as int);
    let c6 = ",\n"@;
    let c7 = "  \"anon_addr_stdev_ratio\": "@;
    let c8 = render_dec(p.anon_addr_stdev_ratio.nanos as int);
    let c9 = ",\n"@;
    let c10 = "  \"anon_addr_rps_base_frac\": "@;
    let c11 = render_dec(p.anon_addr_rps_base_frac.nanos as int);
    let c12 = ",\n"@;
    let c13 = "  \"anon_write_frac\": "@;
    let c14 = render_dec(p.anon_write_frac.nanos as int);
    let c15 = ",\n"@;
    let c16 = "  \"sleep_mean\": "@;
    let c17 = render_dec(p.sleep_mean.nanos as int);
    let c18 = ",\n"@;
    let c19 = "  \"sleep_stdev_ratio\": "@;
    let c20 = render_dec(p.sleep_stdev_ratio.nanos as int);
    let c21 = ",\n"@;
    let c22 = ("  "@ + doc_tail_cpu_ratio(p));
    assert("  \"anon_size_ratio\": "@ =~= "  "@ + "\"anon_size_ratio\": "@);
    assert("  \"anon_size_stdev_ratio\": "@ =~= "  "@ + "\"anon_size_stdev_ratio\": "@);
    assert("  \"anon_addr_stdev_ratio\": "@ =~= "  "@ + "\"anon_addr_stdev_ratio\": "@);
    assert("  \"anon_addr_rps_base_frac\": "@ =~= "  "@ + "\"anon_addr_rps_base_frac\": "@);
    assert("  \"anon_write_frac\": "@ =~= "  "@ + "\"anon_write_frac\": "@);
    assert("  \"sleep_mean\": "@ =~= "  "@ + "\"sleep_mean\": "@);
    assert("  \"sleep_stdev_ratio\": "@ =~= "  "@ + "\"sleep_stdev_ratio\": "@);
    let q1 = c1;
    let q2 = q1 + c2;
    let q3 = q2 + c3;
    let q4 = q3 + c4;
    let q5 = q4 + c5;
    let q6 = q5 + c6;
    let q7 = q6 + c7;
    let q8 = q7 + c8;
    let q9 = q8 + c9;
    let q10 = q9 + c10;
    let q11 = q10 + c11;
    let q12 = q11 + c12;
    let q13 = q12 + c13;
    let q14 = q13 + c14;
    let q15 = q14 + c15;
    let q16 = q15 + c16;
    let q17 = q16 + c17;
    let q18 = q17 + c18;
    let q19 = q18 + c19;
    let q20 = q19 + c20;
    let q21 = q20 + c21;
    let q22 = q21 + c22;
    let r22 = c22;
    let r21 = c21 + r22;
    let r20 = c20 + r21;
    let r19 = c19 + r20;
    let r18 = c18 + r19;
    let r17 = c17 + r18;
    let r16 = c16 + r17;
    let r15 = c15 + r16;
    let r14 = c14 + r15;
    let r13 = c13 + r14;
    let r12 = c12 + r13;
    let r11 = c11 + r12;
    let r10 = c10 + r11;
    let r9 = c9 + r10;
    let r8 = c8 + r9;
    let r7 = c7 + r8;
    let r6 = c6 + r7;
    let r5 = c5 + r6;
    let r4 = c4 + r5;
    let r3 = c3 + r4;
    let r2 = c2 + r3;
    let r1 = c1 + r2;
    assert(body_c(p) == q21);
    assert(body_c(p) + ("  "@ + doc_tail_cpu_ratio(p)) == q22);
    lemma_concat_associative(q20, c21, r22);
    lemma_concat_associative(q19, c20, r21);
    lemma_concat_associative(q18, c19, r20);
    lemma_concat_associative(q17, c18, r19);
    lemma_concat_associative(q16, c17, r18);
    lemma_concat_associative(q15, c16, r17);
    lemma_concat_associative(q14, c15, r16);
    lemma_concat_associative(q13, c14, r15);
    lemma_concat_associative(q12, c13, r14);
    lemma_concat_associative(q11, c12, r13);
    lemma_concat_associative(q10, c11, r12);
    lemma_concat_associative(q9, c10, r11);
    lemma_concat_associative(q8, c9, r10);
    lemma_concat_associative(q7, c8, r9);
    lemma_concat_associative(q6, c7, r8);
    lemma_concat_associative(q5, c6, r7);
    lemma_concat_associative(q4, c5, r6);
    lemma_concat_associative(q3, c4, r5);
    lemma_concat_associative(q2, c3, r4);
    lemma_concat_associative(q1, c2, r3);
    assert(q22 == r1);
    lemma_concat_associative("  "@, "\"sleep_stdev_ratio\": "@, r20);
    assert(r20 == (render_dec(p.sleep_stdev_ratio.nanos as int) + (",\n"@ + ("  "@ + doc_tail_cpu_ratio(p)))));
    assert(r19 == "  "@ + doc_tail_sleep_stdev_ratio(p));
    lemma_concat_associative("  "@, "\"sleep_mean\": "@, r17);
    assert(r17 == (render_dec(p.sleep_mean.nanos as int) + (",\n"@ + ("  "@ + doc_tail_sleep_stdev_ratio(p)))));
    assert(r16 == "  "@ + doc_tail_sleep_mean(p));
    lemma_concat_associative("  "@, "\"anon_write_frac\": "@, r14);
    assert(r14 == (render_dec(p.anon_write_frac.nanos as int) + (",\n"@ + ("  "@ + doc_tail_sleep_mean(p)))));
    assert(r13 == "  "@ + doc_tail_anon_write_frac(p));
    lemma_concat_associative("  "@, "\"anon_addr_rps_base_frac\": "@, r11);
    assert(r11 == (render_dec(p.anon_addr_rps_base_frac.nanos as int) + (",\n"@ + ("  "@ + doc_tail_anon_write_frac(p)))));
    assert(r10 == "  "@ + doc_tail_anon_addr_rps_base_frac(p));
    lemma_concat_associative("  "@, "\"anon_addr_stdev_ratio\": "@, r8);
    assert(r8 == (render_dec(p.anon_addr_stdev_ratio.nanos as int) + (",\n"@ + ("  "@ + doc_tail_anon_addr_rps_base_frac(p)))));
    assert(r7 == "  "@ + doc_tail_anon_addr_stdev_ratio(p));
    lemma_concat_associative("  "@, "\"anon_size_stdev_ratio\": "@, r5);
    assert(r5 == (render_dec(p.anon_size_stdev_ratio.nanos as int) + (",\n"@ + ("  "@ + doc_tail_anon_addr_stdev_ratio(p)))));
    assert(r4 == "  "@ + doc_tail_anon_size_stdev_ratio(p));
    lemma_concat_associative("  "@, "\"anon_size_ratio\": "@, r2);
    assert(r2 == (render_dec(p.anon_size_ratio.nanos as int) + (",\n"@ + ("  "@ + doc_tail_anon_size_stdev_ratio(p)))));
    assert(r1 == "  "@ + doc_tail_anon_size_ratio(p));
    assert(body_c(p) + ("  "@ + doc_tail_cpu_ratio(p)) == "  "@ + doc_tail_anon_size_ratio(p));
}

#[verifier::rlimit(100)]
proof fn lemma_chunks_d(p: ParamsV)
    ensures
        body_d(p) == "  "@ + doc_tail_cpu_ratio(p),
{
    reveal_strlit("  ");
    reveal_strlit("  \"acc_dist_slots\": ");
    reveal_strlit("  \"anon_histogram\": ");
    reveal_strlit("  \"cpu_ratio\": ");
    reveal_strlit("  \"fake_cpu_load\": ");
    reveal_strlit("  \"lat_pid\": ");
    reveal_strlit("  \"log_bps\": ");
    reveal_strlit("  \"rps_pid\": ");
    reveal_strlit(",\n");
    reveal_strlit("\"acc_dist_slots\": ");
    reveal_strlit("\"anon_histogram\": ");
    reveal_strlit("\"cpu_ratio\": ");
    reveal_strlit("\"fake_cpu_load\": ");
    reveal_strlit("\"lat_pid\": ");
    reveal_strlit("\"log_bps\": ");
    reveal_strlit("\"rps_pid\": ");
    reveal_strlit("\n}\n");
    let c1 = "  \"cpu_ratio\": "@;
    let c2 = render_dec(p.cpu_ratio.nanos as int);
    let c3 = ",\n"@;
    let c4 = "  \"log_bps\": "@;
    let c5 = render_uint(p.log_bps as nat);
    let c6 = ",\n"@;
    let c7 = "  \"fake_cpu_load\": "@;
    let c8 = (if p.fake_cpu_load { "true"@ } else { "false"@ });
    let c9 = ",\n"@;
    let c10 = "  \"acc_dist_slots\": "@;
    let c11 = render_uint(p.acc_dist_slots as nat);
    let c12 = ",\n"@;
    let c13 = "  \"lat_pid\": "@;
    let c14 = render_pid(p.lat_pid);
    let c15 = ",\n"@;
    let c16 = "  \"rps_pid\": "@;
    let c17 = render_pid(p.rps_pid);
    let c18 = ",\n"@;
    let c19 = "  \"anon_histogram\": "@;
    let c20 = render_hist(p.anon_histogram);
    let c21 = "\n}\n"@;
    assert("  \"cpu_ratio\": "@ =~= "  "@ + "\"cpu_ratio\": "@);
    assert("  \"log_bps\": "@ =~= "  "@ + "\"log_bps\": "@);
    assert("  \"fake_cpu_load\": "@ =~= "  "@ + "\"fake_cpu_load\": "@);
    assert("  \"acc_dist_slots\": "@ =~= "  "@ + "\"acc_dist_slots\": "@);
    assert("  \"lat_pid\": "@ =~= "  "@ + "\"lat_pid\": "@);
    assert("  \"rps_pid\": "@ =~= "  "@ + "\"rps_pid\": "@);
    assert("  \"anon_histogram\": "@ =~= "  "@ + "\"anon_histogram\": "@);
    let q1 = c1;
    let q2 = q1 + c2;
    let q3 = q2 + c3;
    let q4 = q3 + c4;
    let q5 = q4 + c5;
    let q6 = q5 + c6;
    let q7 = q6 + c7;
    let q8 = q7 + c8;
    let q9 = q8 + c9;
    let q10 = q9 + c10;
    let q11 = q10 + c11;
    let q12 = q11 + c12;
    let q13 = q12 + c13;
    let q14 = q13 + c14;
    let q15 = q14 + c15;
    let q16 = q15 + c16;
    let q17 = q16 + c17;
    let q18 = q17 + c18;
    let q19 = q18 + c19;
    let q20 = q19 + c20;
    let q21 = q20 + c21;
    let r21 = c21;
    let r20 = c20 + r21;
    let r19 = c19 + r20;
    let r18 = c18 + r19;
    let r17 = c17 + r18;
    let r16 = c16 + r17;
    let r15 = c15 + r16;
    let r14 = c14 + r15;
    let r13 = c13 + r14;
    let r12 = c12 + r13;
    let r11 = c11 + r12;
    let r10 = c10 + r11;
    let r9 = c9 + r10;
    let r8 = c8 + r9;
    let r7 = c7 + r8;
    let r6 = c6 + r7;
    let r5 = c5 + r6;
    let r4 = c4 + r5;
    let r3 = c3 + r4;
    let r2 = c2 + r3;
    let r1 = c1 + r2;
    assert(body_d(p) == q21);
    lemma_concat_associative(q19, c20, r21);
    lemma_concat_associative(q18, c19, r20);
    lemma_concat_associative(q17, c18, r19);
    lemma_concat_associative(q16, c17, r18);
    lemma_concat_associative(q15, c16, r17);
    lemma_concat_associative(q14, c15, r16);
    lemma_concat_associative(q13, c14, r15);
    lemma_concat_associative(q12, c13, r14);
    lemma_concat_associative(q11, c12, r13);
    lemma_concat_associative(q10, c11, r12);
    lemma_concat_associative(q9, c10, r11);
    lemma_concat_associative(q8, c9, r10);
    lemma_concat_associative(q7, c8, r9);
    lemma_concat_associative(q6, c7, r8);
    lemma_concat_associative(q5, c6, r7);
    lemma_concat_associative(q4, c5, r6);
    lemma_concat_associative(q3, c4, r5);
    lemma_concat_associative(q2, c3, r4);
    lemma_concat_associative(q1, c2, r3);
    assert(q21 == r1);
    lemma_concat_associative("  "@, "\"anon_histogram\": "@, r20);
    assert(r20 == (render_hist(p.anon_histogram) + "\n}\n"@));
    assert(r19 == "  "@ + doc_tail_anon_histogram(p));
    lemma_concat_associative("  "@, "\"rps_pid\": "@, r17);
    assert(r17 == (render_pid(p.rps_pid) + (",\n"@ + ("  "@ + doc_tail_anon_histogram(p)))));
    assert(r16 == "  "@ + doc_tail_rps_pid(p));
    lemma_concat_associative("  "@, "\"lat_pid\": "@, r14);
    assert(r14 == (render_pid(p.lat_pid) + (",\n"@ + ("  "@ + doc_tail_rps_pid(p)))));
    assert(r13 == "  "@ + doc_tail_lat_pid(p));
    lemma_concat_associative("  "@, "\"acc_dist_slots\": "@, r11);
    assert(r11 == (render_uint(p.acc_dist_slots as nat) + (",\n"@ + ("  "@ + doc_tail_lat_pid(p)))));
    assert(r10 == "  "@ + doc_tail_acc_dist_slots(p));
    lemma_concat_associative("  "@, "\"fake_cpu_load\": "@, r8);
    assert(r8 == ((if p.fake_cpu_load { "true"@ } else { "false"@ }) + (",\n"@ + ("  "@ + doc_tail_acc_dist_slots(p)))));
    assert(r7 == "  "@ + doc_tail_fake_cpu_load(p));
    lemma_concat_associative("  "@, "\"log_bps\": "@, r5);
    assert(r5 == (render_uint(p.log_bps as nat) + (",\n"@ + ("  "@ + doc_tail_fake_cpu_load(p)))));
    assert(r4 == "  "@ + doc_tail_log_bps(p));
    lemma_concat_associative("  "@, "\"cpu_ratio\": "@, r2);
    assert(r2 == (render_dec(p.cpu_ratio.nanos as int) + (",\n"@ + ("  "@ + doc_tail_log_bps(p)))));
    assert(r1 == "  "@ + doc_tail_cpu_ratio(p));
    assert(body_d(p) == "  "@ + doc_tail_cpu_ratio(p));
}









#[verifier::rlimit(100)]
proof fn lemma_members_run_1(s: Seq<char>, b: int, q: ParamsV, p: ParamsV, first: bool)
    requires
        0 <= b <= s.len(),
        b == s.len() - doc_tail_control_period(p).len(),
        s.subrange(b, s.len() as int) == doc_tail_control_period(p),
    ensures
        parse_members(s, b, q, first) == parse_members(s, s.len() - doc_tail_lat_target_pct(p).len(), (ParamsV { control_period: Decimal { nanos: p.control_period.nanos }, concurrency_max: p.concurrency_max, ..q }), false),
        s.subrange(s.len() - doc_tail_lat_target_pct(p).len(), s.len() as int) == doc_tail_lat_target_pct(p),
        b < s.len() - doc_tail_lat_target_pct(p).len() <= s.len(),
{
    reveal_strlit("  ");
    reveal_strlit(",\n");
    reveal_strlit("\"concurrency_max\": ");
    reveal_strlit("\"control_period\": ");
    reveal_strlit("\"lat_target_pct\": ");
    assert(doc_tail_control_period(p) == "\"control_period\": "@ + (render_dec(p.control_period.nanos as int) + (",\n"@ + ("  "@ + doc_tail_concurrency_max(p)))));
    assert(doc_tail_control_period(p).len() == "\"control_period\": "@.len() + render_dec(p.control_period.nanos as int).len() + 4 + doc_tail_concurrency_max(p).len());
    assert(doc_tail_concurrency_max(p).len() >= 1 && doc_tail_concurrency_max(p)[0] == '"') by {
        reveal_strlit("\"concurrency_max\": ");
    }
    let q1 = ParamsV { control_period: Decimal { nanos: p.control_period.nanos }, ..q };
    lemma_member_control_period(s, s.len() - doc_tail_control_period(p).len(), q, first, p.control_period.nanos, doc_tail_concurrency_max(p));
    assert(doc_tail_concurrency_max(p) == "\"concurrency_max\": "@ + (render_uint(p.concurrency_max as nat) + (",\n"@ + ("  "@ + doc_tail_lat_target_pct(p)))));
    assert(doc_tail_concurrency_max(p).len() == "\"concurrency_max\": "@.len() + render_uint(p.concurrency_max as nat).len() + 4 + doc_tail_lat_target_pct(p).len());
    assert(doc_tail_lat_target_pct(p).len() >= 1 && doc_tail_lat_target_pct(p)[0] == '"') by {
        reveal_strlit("\"lat_target_pct\": ");
    }
    let q2 = ParamsV { concurrency_max: p.concurrency_max, ..q1 };
    lemma_member_concurrency_max(s, s.len() - doc_tail_concurrency_max(p).len(), q1, false, p.concurrency_max, doc_tail_lat_target_pct(p));
    assert(q2 =~= (ParamsV { control_period: Decimal { nanos: p.control_period.nanos }, concurrency_max: p.concurrency_max, ..q }));
}

#[verifier::rlimit(100)]
proof fn lemma_members_run_2(s: Seq<char>, b: int, q: ParamsV, p: ParamsV, first: bool)
    requires
        0 <= b <= s.len(),
        b == s.len() - doc_tail_lat_target_pct(p).len(),
        s.subrange(b, s.len() as int) == doc_tail_lat_target_pct(p),
    ensures
        parse_members(s, b, q, first) == parse_members(s, s.len() - doc_tail_rps_target(p).len(), (ParamsV { lat_target_pct: Decimal { nanos: p.lat_target_pct.nanos }, lat_target: Decimal { nanos: p.lat_target.nanos }, ..q }), false),
        s.subrange(s.len() - doc_tail_rps_target(p).len(), s.len() as int) == doc_tail_rps_target(p),
        b < s.len() - doc_tail_rps_target(p).len() <= s.len(),
{
    reveal_strlit("  ");
    reveal_strlit(",\n");
    reveal_strlit("\"lat_target\": ");
    reveal_strlit("\"lat_target_pct\": ");
    reveal_strlit("\"rps_target\": ");
    assert(doc_tail_lat_target_pct(p) == "\"lat_target_pct\": "@ + (render_dec(p.lat_target_pct.nanos as int) + (",\n"@ + ("  "@ + doc_tail_lat_target(p)))));
    assert(doc_tail_lat_target_pct(p).len() == "\"lat_target_pct\": "@.len() + render_dec(p.lat_target_pct.nanos as int).len() + 4 + doc_tail_lat_target(p).len());
    assert(doc_tail_lat_target(p).len() >= 1 && doc_tail_lat_target(p)[0] == '"') by {
        reveal_strlit("\"lat_target\": ");
    }
    let q1 = ParamsV { lat_target_pct: Decimal { nanos: p.lat_target_pct.nanos }, ..q };
    lemma_member_lat_target_pct(s, s.len() - doc_tail_lat_target_pct(p).len(), q, first, p.lat_target_pct.nanos, doc_tail_lat_target(p));
    assert(doc_tail_lat_target(p) == "\"lat_target\": "@ + (render_dec(p.lat_target.nanos as int) + (",\n"@ + ("  "@ + doc_tail_rps_target(p)))));
    assert(doc_tail_lat_target(p).len() == "\"lat_target\": "@.len() + render_dec(p.lat_target.nanos as int).len() + 4 + doc_tail_rps_target(p).len());
    assert(doc_tail_rps_target(p).len() >= 1 && doc_tail_rps_target(p)[0] == '"') by {
        reveal_strlit("\"rps_target\": ");
    }
    let q2 = ParamsV { lat_target: Decimal { nanos: p.lat_target.nanos }, ..q1 };
    lemma_member_lat_target(s, s.len() - doc_tail_lat_target(p).len(), q1, false, p.lat_target.nanos, doc_tail_rps_target(p));
    assert(q2 =~= (ParamsV { lat_target_pct: Decimal { nanos: p.lat_target_pct.nanos }, lat_target: Decimal { nanos: p.lat_target.nanos }, ..q }));
}

#[verifier::rlimit(100)]
proof fn lemma_members_run_3(s: Seq<char>, b: int, q: ParamsV, p: ParamsV, first: bool)
    requires
        0 <= b <= s.len(),
        b == s.len() - doc_tail_rps_target(p).len(),
        s.subrange(b, s.len() as int) == doc_tail_rps_target(p),
    ensures
        parse_members(s, b, q, first) == parse_members(s, s.len() - doc_tail_mem_frac(p).len(), (ParamsV { rps_target: p.rps_target, rps_max: p.rps_max, ..q }), false),
        s.subrange(s.len() - doc_tail_mem_frac(p).len(), s.len() as int) == doc_tail_mem_frac(p),
        b < s.len() - doc_tail_mem_frac(p).len() <= s.len(),
{
    reveal_strlit("  ");
    reveal_strlit(",\n");
    reveal_strlit("\"mem_frac\": ");
    reveal_strlit("\"rps_max\": ");
    reveal_strlit("\"rps_target\": ");
    assert(doc_tail_rps_target(p) == "\"rps_target\": "@ + (render_uint(p.rps_target as nat) + (",\n"@ + ("  "@ + doc_tail_rps_max(p)))));
    assert(doc_tail_rps_target(p).len() == "\"rps_target\": "@.len() + render_uint(p.rps_target as nat).len() + 4 + doc_tail_rps_max(p).len());
    assert(doc_tail_rps_max(p).len() >= 1 && doc_tail_rps_max(p)[0] == '"') by {
        reveal_strlit("\"rps_max\": ");
    }
    let q1 = ParamsV { rps_target: p.rps_target, ..q };
    lemma_member_rps_target(s, s.len() - doc_tail_rps_target(p).len(), q, first, p.rps_target, doc_tail_rps_max(p));
    assert(doc_tail_rps_max(p) == "\"rps_max\": "@ + (render_uint(p.rps_max as nat) + (",\n"@ + ("  "@ + doc_tail_mem_frac(p)))));
    assert(doc_tail_rps_max(p).len() == "\"rps_max\": "@.len() + render_uint(p.rps_max as nat).len() + 4 + doc_tail_mem_frac(p).len());
    assert(doc_tail_mem_frac(p).len() >= 1 && doc_tail_mem_frac(p)[0] == '"') by {
        reveal_strlit("\"mem_frac\": ");
    }
    let q2 = ParamsV { rps_max: p.rps_max, ..q1 };
    lemma_member_rps_max(s, s.len() - doc_tail_rps_max(p).len(), q1, false, p.rps_max, doc_tail_mem_frac(p));
    assert(q2 =~= (ParamsV { rps_target: p.rps_target, rps_max: p.rps_max, ..q }));
}

#[verifier::rlimit(100)]
proof fn lemma_members_run_4(s: Seq<char>, b: int, q: ParamsV, p: ParamsV, first: bool)
    requires
        0 <= b <= s.len(),
        b == s.len() - doc_tail_mem_frac(p).len(),
        s.subrange(b, s.len() as int) == doc_tail_mem_frac(p),
    ensures
        parse_members(s, b, q, first) == parse_members(s, s.len() - doc_tail_file_frac(p).len(), (ParamsV { mem_frac: Decimal { nanos: p.mem_frac.nanos }, chunk_pages: p.chunk_pages, ..q }), false),
        s.subrange(s.len() - doc_tail_file_frac(p).len(), s.len() as int) == doc_tail_file_frac(p),
        b < s.len() - doc_tail_file_frac(p).len() <= s.len(),
{
    reveal_strlit("  ");
    reveal_strlit(",\n");
    reveal_strlit("\"chunk_pages\": ");
    reveal_strlit("\"file_frac\": ");
    reveal_strlit("\"mem_frac\": ");
    assert(doc_tail_mem_frac(p) == "\"mem_frac\": "@ + (render_dec(p.mem_frac.nanos as int) + (",\n"@ + ("  "@ + doc_tail_chunk_pages(p)))));
    assert(doc_tail_mem_frac(p).len() == "\"mem_frac\": "@.len() + render_dec(p.mem_frac.nanos as int).len() + 4 + doc_tail_chunk_pages(p).len());
    assert(doc_tail_chunk_pages(p).len() >= 1 && doc_tail_chunk_pages(p)[0] == '"') by {
        reveal_strlit("\"chunk_pages\": ");
    }
    let q1 = ParamsV { mem_frac: Decimal { nanos: p.mem_frac.nanos }, ..q };
    lemma_member_mem_frac(s, s.len() - doc_tail_mem_frac(p).len(), q, first, p.mem_frac.nanos, doc_tail_chunk_pages(p));
    assert(doc_tail_chunk_pages(p) == "\"chunk_pages\": "@ + (render_uint(p.chunk_pages as nat) + (",\n"@ + ("  "@ + doc_tail_file_frac(p)))));
    assert(doc_tail_chunk_pages(p).len() == "\"chunk_pages\": "@.len() + render_uint(p.chunk_pages as nat).len() + 4 + doc_tail_file_frac(p).len());
    assert(doc_tail_file_frac(p).len() >= 1 && doc_tail_file_frac(p)[0] == '"') by {
        reveal_strlit("\"file_frac\": ");
    }
    let q2 = ParamsV { chunk_pages: p.chunk_pages, ..q1 };
    lemma_member_chunk_pages(s, s.len() - doc_tail_chunk_pages(p).len(), q1, false, p.chunk_pages, doc_tail_file_frac(p));
    assert(q2 =~= (ParamsV { mem_frac: Decimal { nanos: p.mem_frac.nanos }, chunk_pages: p.chunk_pages, ..q }));
}

#[verifier::rlimit(100)]
proof fn lemma_members_run_5(s: Seq<char>, b: int, q: ParamsV, p: ParamsV, first: bool)
    requires
        0 <= b <= s.len(),
        b == s.len() - doc_tail_file_frac(p).len(),
        s.subrange(b, s.len() as int) == doc_tail_file_frac(p),
    ensures
        parse_members(s, b, q, first) == parse_members(s, s.len() - doc_tail_file_size_stdev_ratio(p).len(), (ParamsV { file_frac: Decimal { nanos: p.file_frac.nanos }, file_size_mean: p.file_size_mean, ..q }), false),
        s.subrange(s.len() - doc_tail_file_size_stdev_ratio(p).len(), s.len() as int) == doc_tail_file_size_stdev_ratio(p),
        b < s.len() - doc_tail_file_size_stdev_ratio(p).len() <= s.len(),
{
    reveal_strlit("  ");
    reveal_strlit(",\n");
    reveal_strlit("\"file_frac\": ");
    reveal_strlit("\"file_size_mean\": ");
    reveal_strlit("\"file_size_stdev_ratio\": ");
    assert(doc_tail_file_frac(p) == "\"file_frac\": "@ + (render_dec(p.file_frac.nanos as int) + (",\n"@ + ("  "@ + doc_tail_file_size_mean(p)))));
    assert(doc_tail_file_frac(p).len() == "\"file_frac\": "@.len() + render_dec(p.file_frac.nanos as int).len() + 4 + doc_tail_file_size_mean(p).len());
    assert(doc_tail_file_size_mean(p).len() >= 1 && doc_tail_file_size_mean(p)[0] == '"') by {
        reveal_strlit("\"file_size_mean\": ");
    }
    let q1 = ParamsV { file_frac: Decimal { nanos: p.file_frac.nanos }, ..q };
    lemma_member_file_frac(s, s.len() - doc_tail_file_frac(p).len(), q, first, p.file_frac.nanos, doc_tail_file_size_mean(p));
    assert(doc_tail_file_size_mean(p) == "\"file_size_mean\": "@ + (render_uint(p.file_size_mean as nat) + (",\n"@ + ("  "@ + doc_tail_file_size_stdev_ratio(p)))));
    assert(doc_tail_file_size_mean(p).len() == "\"file_size_mean\": "@.len() + render_uint(p.file_size_mean as nat).len() + 4 + doc_tail_file_size_stdev_ratio(p).len());
    assert(doc_tail_file_size_stdev_ratio(p).len() >= 1 && doc_tail_file_size_stdev_ratio(p)[0] == '"') by {
        reveal_strlit("\"file_size_stdev_ratio\": ");
    }
    let q2 = ParamsV { file_size_mean: p.file_size_mean, ..q1 };
    lemma_member_file_size_mean(s, s.len() - doc_tail_file_size_mean(p).len(), q1, false, p.file_size_mean, doc_tail_file_size_stdev_ratio(p));
    assert(q2 =~= (ParamsV { file_frac: Decimal { nanos: p.file_frac.nanos }, file_size_mean: p.file_size_mean, ..q }));
}

#[verifier::rlimit(100)]
proof fn lemma_members_run_6(s: Seq<char>, b: int, q: ParamsV, p: ParamsV, first: bool)
    requires
        0 <= b <= s.len(),
        b == s.len() - doc_tail_file_size_stdev_ratio(p).len(),
        s.subrange(b, s.len() as int) == doc_tail_file_size_stdev_ratio(p),
    ensures
        parse_members(s, b, q, first) == parse_members(s, s.len() - doc_tail_file_addr_rps_base_frac(p).len(), (ParamsV { file_size_stdev_ratio: Decimal { nanos: p.file_size_stdev_ratio.nanos }, file_addr_stdev_ratio: Decimal { nanos: p.file_addr_stdev_ratio.nanos }, ..q }), false),
        s.subrange(s.len() - doc_tail_file_addr_rps_base_frac(p).len(), s.len() as int) == doc_tail_file_addr_rps_base_frac(p),
        b < s.len() - doc_tail_file_addr_rps_base_frac(p).len() <= s.len(),
{
    reveal_strlit("  ");
    reveal_strlit(",\n");
    reveal_strlit("\"file_addr_rps_base_frac\": ");
    reveal_strlit("\"file_addr_stdev_ratio\": ");
    reveal_strlit("\"file_size_stdev_ratio\": ");
    assert(doc_tail_file_size_stdev_ratio(p) == "\"file_size_stdev_ratio\": "@ + (render_dec(p.file_size_stdev_ratio.nanos as int) + (",\n"@ + ("  "@ + doc_tail_file_addr_stdev_ratio(p)))));
    assert(doc_tail_file_size_stdev_ratio(p).len() == "\"file_size_stdev_ratio\": "@.len() + render_dec(p.file_size_stdev_ratio.nanos as int).len() + 4 + doc_tail_file_addr_stdev_ratio(p).len());
    assert(doc_tail_file_addr_stdev_ratio(p).len() >= 1 && doc_tail_file_addr_stdev_ratio(p)[0] == '"') by {
        reveal_strlit("\"file_addr_stdev_ratio\": ");
    }
    let q1 = ParamsV { file_size_stdev_ratio: Decimal { nanos: p.file_size_stdev_ratio.nanos }, ..q };
    lemma_member_file_size_stdev_ratio(s, s.len() - doc_tail_file_size_stdev_ratio(p).len(), q, first, p.file_size_stdev_ratio.nanos, doc_tail_file_addr_stdev_ratio(p));
    assert(doc_tail_file_addr_stdev_ratio(p) == "\"file_addr_stdev_ratio\": "@ + (render_dec(p.file_addr_stdev_ratio.nanos as int) + (",\n"@ + ("  "@ + doc_tail_file_addr_rps_base_frac(p)))));
    assert(doc_tail_file_addr_stdev_ratio(p).len() == "\"file_addr_stdev_ratio\": "@.len() + render_dec(p.file_addr_stdev_ratio.nanos as int).len() + 4 + doc_tail_file_addr_rps_base_frac(p).len());
    assert(doc_tail_file_addr_rps_base_frac(p).len() >= 1 && doc_tail_file_addr_rps_base_frac(p)[0] == '"') by {
        reveal_strlit("\"file_addr_rps_base_frac\": ");
    }
    let q2 = ParamsV { file_addr_stdev_ratio: Decimal { nanos: p.file_addr_stdev_ratio.nanos }, ..q1 };
    lemma_member_file_addr_stdev_ratio(s, s.len() - doc_tail_file_addr_stdev_ratio(p).len(), q1, false, p.file_addr_stdev_ratio.nanos, doc_tail_file_addr_rps_base_frac(p));
    assert(q2 =~= (ParamsV { file_size_stdev_ratio: Decimal { nanos: p.file_size_stdev_ratio.nanos }, file_addr_stdev_ratio: Decimal { nanos: p.file_addr_stdev_ratio.nanos }, ..q }));
}

#[verifier::rlimit(100)]
proof fn lemma_members_run_7(s: Seq<char>, b: int, q: ParamsV, p: ParamsV, first: bool)
    requires
        0 <= b <= s.len(),
        b == s.len() - doc_tail_file_addr_rps_base_frac(p).len(),
        s.subrange(b, s.len() as int) == doc_tail_file_addr_rps_base_frac(p),
    ensures
        parse_members(s, b, q, first) == parse_members(s, s.len() - doc_tail_anon_size_ratio(p).len(), (ParamsV { file_addr_rps_base_frac: Decimal { nanos: p.file_addr_rps_base_frac.nanos }, file_write_frac: Decimal { nanos: p.file_write_frac.nanos }, ..q }), false),
        s.subrange(s.len() - doc_tail_anon_size_ratio(p).len(), s.len() as int) == doc_tail_anon_size_ratio(p),
        b < s.len() - doc_tail_anon_size_ratio(p).len() <= s.len(),
{
    reveal_strlit("  ");
    reveal_strlit(",\n");
    reveal_strlit("\"anon_size_ratio\": ");
    reveal_strlit("\"file_addr_rps_base_frac\": ");
    reveal_strlit("\"file_write_frac\": ");
    assert(doc_tail_file_addr_rps_base_frac(p) == "\"file_addr_rps_base_frac\": "@ + (render_dec(p.file_addr_rps_base_frac.nanos as int) + (",\n"@ + ("  "@ + doc_tail_file_write_frac(p)))));
    assert(doc_tail_file_addr_rps_base_frac(p).len() == "\"file_addr_rps_base_frac\": "@.len() + render_dec(p.file_addr_rps_base_frac.nanos as int).len() + 4 + doc_tail_file_write_frac(p).len());
    assert(doc_tail_file_write_frac(p).len() >= 1 && doc_tail_file_write_frac(p)[0] == '"') by {
        reveal_strlit("\"file_write_frac\": ");
    }
    let q1 = ParamsV { file_addr_rps_base_frac: Decimal { nanos: p.file_addr_rps_base_frac.nanos }, ..q };
    lemma_member_file_addr_rps_base_frac(s, s.len() - doc_tail_file_addr_rps_base_frac(p).len(), q, first, p.file_addr_rps_base_frac.nanos, doc_tail_file_write_frac(p));
    assert(doc_tail_file_write_frac(p) == "\"file_write_frac\": "@ + (render_dec(p.file_write_frac.nanos as int) + (",\n"@ + ("  "@ + doc_tail_anon_size_ratio(p)))));
    assert(doc_tail_file_write_frac(p).len() == "\"file_write_frac\": "@.len() + render_dec(p.file_write_frac.nanos as int).len() + 4 + doc_tail_anon_size_ratio(p).len());
    assert(doc_tail_anon_size_ratio(p).len() >= 1 && doc_tail_anon_size_ratio(p)[0] == '"') by {
        reveal_strlit("\"anon_size_ratio\": ");
    }
    let q2 = ParamsV { file_write_frac: Decimal { nanos: p.file_write_frac.nanos }, ..q1 };
    lemma_member_file_write_frac(s, s.len() - doc_tail_file_write_frac(p).len(), q1, false, p.file_write_frac.nanos, doc_tail_anon_size_ratio(p));
    assert(q2 =~= (ParamsV { file_addr_rps_base_frac: Decimal { nanos: p.file_addr_rps_base_frac.nanos }, file_write_frac: Decimal { nanos: p.file_write_frac.nanos }, ..q }));
}

#[verifier::rlimit(100)]
proof fn lemma_members_run_8(s: Seq<char>, b: int, q: ParamsV, p: ParamsV, first: bool)
    requires
        0 <= b <= s.len(),
        b == s.len() - doc_tail_anon_size_ratio(p).len(),
        s.subrange(b, s.len() as int) == doc_tail_anon_size_ratio(p),
    ensures
        parse_members(s, b, q, first) == parse_members(s, s.len() - doc_tail_anon_addr_stdev_ratio(p).len(), (ParamsV { anon_size_ratio: Decimal { nanos: p.anon_size_ratio.nanos }, anon_size_stdev_ratio: Decimal { nanos: p.anon_size_stdev_ratio.nanos }, ..q }), false),
        s.subrange(s.len() - doc_tail_anon_addr_stdev_ratio(p).len(), s.len() as int) == doc_tail_anon_addr_stdev_ratio(p),
        b < s.len() - doc_tail_anon_addr_stdev_ratio(p).len() <= s.len(),
{
    reveal_strlit("  ");
    reveal_strlit(",\n");
    reveal_strlit("\"anon_addr_stdev_ratio\": ");
    reveal_strlit("\"anon_size_ratio\": ");
    reveal_strlit("\"anon_size_stdev_ratio\": ");
    assert(doc_tail_anon_size_ratio(p) == "\"anon_size_ratio\": "@ + (render_dec(p.anon_size_ratio.nanos as int) + (",\n"@ + ("  "@ + doc_tail_anon_size_stdev_ratio(p)))));
    assert(doc_tail_anon_size_ratio(p).len() == "\"anon_size_ratio\": "@.len() + render_dec(p.anon_size_ratio.nanos as int).len() + 4 + doc_tail_anon_size_stdev_ratio(p).len());
    assert(doc_tail_anon_size_stdev_ratio(p).len() >= 1 && doc_tail_anon_size_stdev_ratio(p)[0] == '"') by {
        reveal_strlit("\"anon_size_stdev_ratio\": ");
    }
    let q1 = ParamsV { anon_size_ratio: Decimal { nanos: p.anon_size_ratio.nanos }, ..q };
    lemma_member_anon_size_ratio(s, s.len() - doc_tail_anon_size_ratio(p).len(), q, first, p.anon_size_ratio.nanos, doc_tail_anon_size_stdev_ratio(p));
    assert(doc_tail_anon_size_stdev_ratio(p) == "\"anon_size_stdev_ratio\": "@ + (render_dec(p.anon_size_stdev_ratio.nanos as int) + (",\n"@ + ("  "@ + doc_tail_anon_addr_stdev_ratio(p)))));
    assert(doc_tail_anon_size_stdev_ratio(p).len() == "\"anon_size_stdev_ratio\": "@.len() + render_dec(p.anon_size_stdev_ratio.nanos as int).len() + 4 + doc_tail_anon_addr_stdev_ratio(p).len());
    assert(doc_tail_anon_addr_stdev_ratio(p).len() >= 1 && doc_tail_anon_addr_stdev_ratio(p)[0] == '"') by {
        reveal_strlit("\"anon_addr_stdev_ratio\": ");
    }
    let q2 = ParamsV { anon_size_stdev_ratio: Decimal { nanos: p.anon_size_stdev_ratio.nanos }, ..q1 };
    lemma_member_anon_size_stdev_ratio(s, s.len() - doc_tail_anon_size_stdev_ratio(p).len(), q1, false, p.anon_size_stdev_ratio.nanos, doc_tail_anon_addr_stdev_ratio(p));
    assert(q2 =~= (ParamsV { anon_size_ratio: Decimal { nanos: p.anon_size_ratio.nanos }, anon_size_stdev_ratio: Decimal { nanos: p.anon_size_stdev_ratio.nanos }, ..q }));
}

#[verifier::rlimit(100)]
proof fn lemma_members_run_9(s: Seq<char>, b: int, q: ParamsV, p: ParamsV, first: bool)
    requires
        0 <= b <= s.len(),
        b == s.len() - doc_tail_anon_addr_stdev_ratio(p).len(),
        s.subrange(b, s.len() as int) == doc_tail_anon_addr_stdev_ratio(p),
    ensures
        parse_members(s, b, q, first) == parse_members(s, s.len() - doc_tail_anon_write_frac(p).len(), (ParamsV { anon_addr_stdev_ratio: Decimal { nanos: p.anon_addr_stdev_ratio.nanos }, anon_addr_rps_base_frac: Decimal { nanos: p.anon_addr_rps_base_frac.nanos }, ..q }), false),
        s.subrange(s.len() - doc_tail_anon_write_frac(p).len(), s.len() as int) == doc_tail_anon_write_frac(p),
        b < s.len() - doc_tail_anon_write_frac(p).len() <= s.len(),
{
    reveal_strlit("  ");
    reveal_strlit(",\n");
    reveal_strlit("\"anon_addr_rps_base_frac\": ");
    reveal_strlit("\"anon_addr_stdev_ratio\": ");
    reveal_strlit("\"anon_write_frac\": ");
    assert(doc_tail_anon_addr_stdev_ratio(p) == "\"anon_addr_stdev_ratio\": "@ + (render_dec(p.anon_addr_stdev_ratio.nanos as int) + (",\n"@ + ("  "@ + doc_tail_anon_addr_rps_base_frac(p)))));
    assert(doc_tail_anon_addr_stdev_ratio(p).len() == "\"anon_addr_stdev_ratio\": "@.len() + render_dec(p.anon_addr_stdev_ratio.nanos as int).len() + 4 + doc_tail_anon_addr_rps_base_frac(p).len());
    assert(doc_tail_anon_addr_rps_base_frac(p).len() >= 1 && doc_tail_anon_addr_rps_base_frac(p)[0] == '"') by {
        reveal_strlit("\"anon_addr_rps_base_frac\": ");
    }
    let q1 = ParamsV { anon_addr_stdev_ratio: Decimal { nanos: p.anon_addr_stdev_ratio.nanos }, ..q };
    lemma_member_anon_addr_stdev_ratio(s, s.len() - doc_tail_anon_addr_stdev_ratio(p).len(), q, first, p.anon_addr_stdev_ratio.nanos, doc_tail_anon_addr_rps_base_frac(p));
    assert(doc_tail_anon_addr_rps_base_frac(p) == "\"anon_addr_rps_base_frac\": "@ + (render_dec(p.anon_addr_rps_base_frac.nanos as int) + (",\n"@ + ("  "@ + doc_tail_anon_write_frac(p)))));
    assert(doc_tail_anon_addr_rps_base_frac(p).len() == "\"anon_addr_rps_base_frac\": "@.len() + render_dec(p.anon_addr_rps_base_frac.nanos as int).len() + 4 + doc_tail_anon_write_frac(p).len());
    assert(doc_tail_anon_write_frac(p).len() >= 1 && doc_tail_anon_write_frac(p)[0] == '"') by {
        reveal_strlit("\"anon_write_frac\": ");
    }
    let q2 = ParamsV { anon_addr_rps_base_frac: Decimal { nanos: p.anon_addr_rps_base_frac.nanos }, ..q1 };
    lemma_member_anon_addr_rps_base_frac(s, s.len() - doc_tail_anon_addr_rps_base_frac(p).len(), q1, false, p.anon_addr_rps_base_frac.nanos, doc_tail_anon_write_frac(p));
    assert(q2 =~= (ParamsV { anon_addr_stdev_ratio: Decimal { nanos: p.anon_addr_stdev_ratio.nanos }, anon_addr_rps_base_frac: Decimal { nanos: p.anon_addr_rps_base_frac.nanos }, ..q }));
}

#[verifier::rlimit(100)]
proof fn lemma_members_run_10(s: Seq<char>, b: int, q: ParamsV, p: ParamsV, first: bool)
    requires
        0 <= b <= s.len(),
        b == s.len() - doc_tail_anon_write_frac(p).len(),
        s.subrange(b, s.len() as int) == doc_tail_anon_write_frac(p),
    ensures
        parse_members(s, b, q, first) == parse_members(s, s.len() - doc_tail_sleep_stdev_ratio(p).len(), (ParamsV { anon_write_frac: Decimal { nanos: p.anon_write_frac.nanos }, sleep_mean: Decimal { nanos: p.sleep_mean.nanos }, ..q }), false),
        s.subrange(s.len() - doc_tail_sleep_stdev_ratio(p).len(), s.len() as int) == doc_tail_sleep_stdev_ratio(p),
        b < s.len() - doc_tail_sleep_stdev_ratio(p).len() <= s.len(),
{
    reveal_strlit("  ");
    reveal_strlit(",\n");
    reveal_strlit("\"anon_write_frac\": ");
    reveal_strlit("\"sleep_mean\": ");
    reveal_strlit("\"sleep_stdev_ratio\": ");
    assert(doc_tail_anon_write_frac(p) == "\"anon_write_frac\": "@ + (render_dec(p.anon_write_frac.nanos as int) + (",\n"@ + ("  "@ + doc_tail_sleep_mean(p)))));
    assert(doc_tail_anon_write_frac(p).len() == "\"anon_write_frac\": "@.len() + render_dec(p.anon_write_frac.nanos as int).len() + 4 + doc_tail_sleep_mean(p).len());
    assert(doc_tail_sleep_mean(p).len() >= 1 && doc_tail_sleep_mean(p)[0] == '"') by {
        reveal_strlit("\"sleep_mean\": ");
    }
    let q1 = ParamsV { anon_write_frac: Decimal { nanos: p.anon_write_frac.nanos }, ..q };
    lemma_member_anon_write_frac(s, s.len() - doc_tail_anon_write_frac(p).len(), q, first, p.anon_write_frac.nanos, doc_tail_sleep_mean(p));
    assert(doc_tail_sleep_mean(p) == "\"sleep_mean\": "@ + (render_dec(p.sleep_mean.nanos as int) + (",\n"@ + ("  "@ + doc_tail_sleep_stdev_ratio(p)))));
    assert(doc_tail_sleep_mean(p).len() == "\"sleep_mean\": "@.len() + render_dec(p.sleep_mean.nanos as int).len() + 4 + doc_tail_sleep_stdev_ratio(p).len());
    assert(doc_tail_sleep_stdev_ratio(p).len() >= 1 && doc_tail_sleep_stdev_ratio(p)[0] == '"') by {
        reveal_strlit("\"sleep_stdev_ratio\": ");
    }
    let q2 = ParamsV { sleep_mean: Decimal { nanos: p.sleep_mean.nanos }, ..q1 };
    lemma_member_sleep_mean(s, s.len() - doc_tail_sleep_mean(p).len(), q1, false, p.sleep_mean.nanos, doc_tail_sleep_stdev_ratio(p));
    assert(q2 =~= (ParamsV { anon_write_frac: Decimal { nanos: p.anon_write_frac.nanos }, sleep_mean: Decimal { nanos: p.sleep_mean.nanos }, ..q }));
}

#[verifier::rlimit(100)]
proof fn lemma_members_run_11(s: Seq<char>, b: int, q: ParamsV, p: ParamsV, first: bool)
    requires
        0 <= b <= s.len(),
        b == s.len() - doc_tail_sleep_stdev_ratio(p).len(),
        s.subrange(b, s.len() as int) == doc_tail_sleep_stdev_ratio(p),
    ensures
        parse_members(s, b, q, first) == parse_members(s, s.len() - doc_tail_log_bps(p).len(), (ParamsV { sleep_stdev_ratio: Decimal { nanos: p.sleep_stdev_ratio.nanos }, cpu_ratio: Decimal { nanos: p.cpu_ratio.nanos }, ..q }), false),
        s.subrange(s.len() - doc_tail_log_bps(p).len(), s.len() as int) == doc_tail_log_bps(p),
        b < s.len() - doc_tail_log_bps(p).len() <= s.len(),
{
    reveal_strlit("  ");
    reveal_strlit(",\n");
    reveal_strlit("\"cpu_ratio\": ");
    reveal_strlit("\"log_bps\": ");
    reveal_strlit("\"sleep_stdev_ratio\": ");
    assert(doc_tail_sleep_stdev_ratio(p) == "\"sleep_stdev_ratio\": "@ + (render_dec(p.sleep_stdev_ratio.nanos as int) + (",\n"@ + ("  "@ + doc_tail_cpu_ratio(p)))));
    assert(doc_tail_sleep_stdev_ratio(p).len() == "\"sleep_stdev_ratio\": "@.len() + render_dec(p.sleep_stdev_ratio.nanos as int).len() + 4 + doc_tail_cpu_ratio(p).len());
    assert(doc_tail_cpu_ratio(p).len() >= 1 && doc_tail_cpu_ratio(p)[0] == '"') by {
        reveal_strlit("\"cpu_ratio\": ");
    }
    let q1 = ParamsV { sleep_stdev_ratio: Decimal { nanos: p.sleep_stdev_ratio.nanos }, ..q };
    lemma_member_sleep_stdev_ratio(s, s.len() - doc_tail_sleep_stdev_ratio(p).len(), q, first, p.sleep_stdev_ratio.nanos, doc_tail_cpu_ratio(p));
    assert(doc_tail_cpu_ratio(p) == "\"cpu_ratio\": "@ + (render_dec(p.cpu_ratio.nanos as int) + (",\n"@ + ("  "@ + doc_tail_log_bps(p)))));
    assert(doc_tail_cpu_ratio(p).len() == "\"cpu_ratio\": "@.len() + render_dec(p.cpu_ratio.nanos as int).len() + 4 + doc_tail_log_bps(p).len());
    assert(doc_tail_log_bps(p).len() >= 1 && doc_tail_log_bps(p)[0] == '"') by {
        reveal_strlit("\"log_bps\": ");
    }
    let q2 = ParamsV { cpu_ratio: Decimal { nanos: p.cpu_ratio.nanos }, ..q1 };
    lemma_member_cpu_ratio(s, s.len() - doc_tail_cpu_ratio(p).len(), q1, false, p.cpu_ratio.nanos, doc_tail_log_bps(p));
    assert(q2 =~= (ParamsV { sleep_stdev_ratio: Decimal { nanos: p.sleep_stdev_ratio.nanos }, cpu_ratio: Decimal { nanos: p.cpu_ratio.nanos }, ..q }));
}

#[verifier::rlimit(100)]
proof fn lemma_members_run_12(s: Seq<char>, b: int, q: ParamsV, p: ParamsV, first: bool)
    requires
        0 <= b <= s.len(),
        b == s.len() - doc_tail_log_bps(p).len(),
        s.subrange(b, s.len() as int) == doc_tail_log_bps(p),
    ensures
        parse_members(s, b, q, first) == parse_members(s, s.len() - doc_tail_acc_dist_slots(p).len(), (ParamsV { log_bps: p.log_bps, fake_cpu_load: p.fake_cpu_load, ..q }), false),
        s.subrange(s.len() - doc_tail_acc_dist_slots(p).len(), s.len() as int) == doc_tail_acc_dist_slots(p),
        b < s.len() - doc_tail_acc_dist_slots(p).len() <= s.len(),
{
    reveal_strlit("  ");
    reveal_strlit(",\n");
    reveal_strlit("\"acc_dist_slots\": ");
    reveal_strlit("\"fake_cpu_load\": ");
    reveal_strlit("\"log_bps\": ");
    assert(doc_tail_log_bps(p) == "\"log_bps\": "@ + (render_uint(p.log_bps as nat) + (",\n"@ + ("  "@ + doc_tail_fake_cpu_load(p)))));
    assert(doc_tail_log_bps(p).len() == "\"log_bps\": "@.len() + render_uint(p.log_bps as nat).len() + 4 + doc_tail_fake_cpu_load(p).len());
    assert(doc_tail_fake_cpu_load(p).len() >= 1 && doc_tail_fake_cpu_load(p)[0] == '"') by {
        reveal_strlit("\"fake_cpu_load\": ");
    }
    let q1 = ParamsV { log_bps: p.log_bps, ..q };
    lemma_member_log_bps(s, s.len() - doc_tail_log_bps(p).len(), q, first, p.log_bps, doc_tail_fake_cpu_load(p));
    assert(doc_tail_fake_cpu_load(p) == "\"fake_cpu_load\": "@ + ((if p.fake_cpu_load { "true"@ } else { "false"@ }) + (",\n"@ + ("  "@ + doc_tail_acc_dist_slots(p)))));
    assert(doc_tail_fake_cpu_load(p).len() == "\"fake_cpu_load\": "@.len() + (if p.fake_cpu_load { "true"@ } else { "false"@ }).len() + 4 + doc_tail_acc_dist_slots(p).len());
    assert(doc_tail_acc_dist_slots(p).len() >= 1 && doc_tail_acc_dist_slots(p)[0] == '"') by {
        reveal_strlit("\"acc_dist_slots\": ");
    }
    let q2 = ParamsV { fake_cpu_load: p.fake_cpu_load, ..q1 };
    lemma_member_fake_cpu_load(s, s.len() - doc_tail_fake_cpu_load(p).len(), q1, false, p.fake_cpu_load, doc_tail_acc_dist_slots(p));
    assert(q2 =~= (ParamsV { log_bps: p.log_bps, fake_cpu_load: p.fake_cpu_load, ..q }));
}

#[verifier::rlimit(100)]
proof fn lemma_members_run_13(s: Seq<char>, b: int, q: ParamsV, p: ParamsV, first: bool)
    requires
        0 <= b <= s.len(),
        b == s.len() - doc_tail_acc_dist_slots(p).len(),
        s.subrange(b, s.len() as int) == doc_tail_acc_dist_slots(p),
    ensures
        parse_members(s, b, q, first) == parse_members(s, s.len() - doc_tail_rps_pid(p).len(), (ParamsV { acc_dist_slots: p.acc_dist_slots, lat_pid: p.lat_pid, ..q }), false),
        s.subrange(s.len() - doc_tail_rps_pid(p).len(), s.len() as int) == doc_tail_rps_pid(p),
        b < s.len() - doc_tail_rps_pid(p).len() <= s.len(),
{
    reveal_strlit("  ");
    reveal_strlit(",\n");
    reveal_strlit("\"acc_dist_slots\": ");
    reveal_strlit("\"lat_pid\": ");
    reveal_strlit("\"rps_pid\": ");
    assert(doc_tail_acc_dist_slots(p) == "\"acc_dist_slots\": "@ + (render_uint(p.acc_dist_slots as nat) + (",\n"@ + ("  "@ + doc_tail_lat_pid(p)))));
    assert(doc_tail_acc_dist_slots(p).len() == "\"acc_dist_slots\": "@.len() + render_uint(p.acc_dist_slots as nat).len() + 4 + doc_tail_lat_pid(p).len());
    assert(doc_tail_lat_pid(p).len() >= 1 && doc_tail_lat_pid(p)[0] == '"') by {
        reveal_strlit("\"lat_pid\": ");
    }
    let q1 = ParamsV { acc_dist_slots: p.acc_dist_slots, ..q };
    lemma_member_acc_dist_slots(s, s.len() - doc_tail_acc_dist_slots(p).len(), q, first, p.acc_dist_slots, doc_tail_lat_pid(p));
    assert(doc_tail_lat_pid(p) == "\"lat_pid\": "@ + (render_pid(p.lat_pid) + (",\n"@ + ("  "@ + doc_tail_rps_pid(p)))));
    assert(doc_tail_lat_pid(p).len() == "\"lat_pid\": "@.len() + render_pid(p.lat_pid).len() + 4 + doc_tail_rps_pid(p).len());
    assert(doc_tail_rps_pid(p).len() >= 1 && doc_tail_rps_pid(p)[0] == '"') by {
        reveal_strlit("\"rps_pid\": ");
    }
    let q2 = ParamsV { lat_pid: p.lat_pid, ..q1 };
    lemma_member_lat_pid(s, s.len() - doc_tail_lat_pid(p).len(), q1, false, p.lat_pid, doc_tail_rps_pid(p));
    assert(q2 =~= (ParamsV { acc_dist_slots: p.acc_dist_slots, lat_pid: p.lat_pid, ..q }));
}

#[verifier::rlimit(100)]
proof fn lemma_members_run_14(s: Seq<char>, b: int, q: ParamsV, p: ParamsV, first: bool)
    requires
        0 <= b <= s.len(),
        b == s.len() - doc_tail_rps_pid(p).len(),
        s.subrange(b, s.len() as int) == doc_tail_rps_pid(p),
    ensures
        parse_members(s, b, q, first) == Some(((ParamsV { rps_pid: p.rps_pid, anon_histogram: p.anon_histogram, ..q }), s.len() - 1)),
        s.len() >= 1,
        skip_trivia(s, s.len() - 1) == s.len(),
{
    reveal_strlit("  ");
    reveal_strlit(",\n");
    reveal_strlit("\"anon_histogram\": ");
    reveal_strlit("\"rps_pid\": ");
    reveal_strlit("\n}\n");
    assert(doc_tail_rps_pid(p) == "\"rps_pid\": "@ + (render_pid(p.rps_pid) + (",\n"@ + ("  "@ + doc_tail_anon_histogram(p)))));
    assert(doc_tail_rps_pid(p).len() == "\"rps_pid\": "@.len() + render_pid(p.rps_pid).len() + 4 + doc_tail_anon_histogram(p).len());
    assert(doc_tail_anon_histogram(p).len() >= 1 && doc_tail_anon_histogram(p)[0] == '"') by {
        reveal_strlit("\"anon_histogram\": ");
    }
    let q1 = ParamsV { rps_pid: p.rps_pid, ..q };
    lemma_member_rps_pid(s, s.len() - doc_tail_rps_pid(p).len(), q, first, p.rps_pid, doc_tail_anon_histogram(p));
    assert(doc_tail_anon_histogram(p) == "\"anon_histogram\": "@ + (render_hist(p.anon_histogram) + "\n}\n"@));
    assert(doc_tail_anon_histogram(p).len() == "\"anon_histogram\": "@.len() + render_hist(p.anon_histogram).len() + 3);
    let q2 = ParamsV { anon_histogram: p.anon_histogram, ..q1 };
    lemma_member_anon_histogram(s, s.len() - doc_tail_anon_histogram(p).len(), q1, p.anon_histogram);
    assert(q2 =~= (ParamsV { rps_pid: p.rps_pid, anon_histogram: p.anon_histogram, ..q }));
}

proof fn lemma_body_form(p: ParamsV)
    ensures
        spec_body(p) == "{\n"@ + ("  "@ + doc_tail_control_period(p)),
{
    lemma_chunks_d(p);
    lemma_chunks_c(p);
    lemma_chunks_b(p);
    lemma_chunks_a(p);
    lemma_concat_associative(body_a(p) + body_b(p), body_c(p), body_d(p));
    lemma_concat_associative(body_a(p), body_b(p), body_c(p) + body_d(p));
    assert(body_c(p) + body_d(p) == "  "@ + doc_tail_anon_size_ratio(p));
    assert(body_b(p) + (body_c(p) + body_d(p)) == "  "@ + doc_tail_chunk_pages(p));
    assert(body_a(p) + (body_b(p) + (body_c(p) + body_d(p))) == "{\n"@ + ("  "@
        + doc_tail_control_period(p)));
}

proof fn lemma_comment_frame(s: Seq<char>, rc: Seq<char>)
    requires
        6 + rc.len() < s.len(),
        s[0] == '/',
        s[1] == '*',
        s[2] == '\n',
        forall|x: int| 3 <= x < 3 + rc.len() ==> #[trigger] s[x] == rc[x - 3],
        s[3 + rc.len() as int] == '*',
        s[4 + rc.len() as int] == '/',
        s[5 + rc.len() as int] == '\n',
        !contains_close(rc),
        !is_ws(s[6 + rc.len() as int]),
        s[6 + rc.len() as int] != '/',
    ensures
        skip_trivia(s, 0) == 6 + rc.len(),
{
    let rcl = rc.len() as int;
    assert(skip_trivia(s, 0) == skip_comment(s, 2));
    assert forall|k: int| 2 <= k < 3 + rcl implies !(#[trigger] s[k] == '*' && s[k + 1] == '/') by {
        if k == 2 {
            assert(s[2] == '\n');
        } else {
            assert(s[k] == rc[k - 3]);
            if k < 2 + rcl {
                assert(s[k + 1] == rc[k - 2]);
                if s[k] == '*' && s[k + 1] == '/' {
                    assert(contains_close(rc)) by {
                        assert(rc[k - 3] == '*' && rc[(k - 3) + 1] == '/');
                    }
                }
            } else {
                assert(s[k + 1] == '*');
            }
        }
    }
    lemma_skip_comment_region(s, 2, 3 + rcl);
    lemma_skip_ws_region(s, 5 + rcl, 6 + rcl);
}

#[verifier::rlimit(100)]
proof fn lemma_doc_frame(p: ParamsV)
    ensures
        ({
            let s = spec_save(p);
            let t1 = doc_tail_control_period(p);
            let b = s.len() - t1.len();
            skip_trivia(s, 0) == b - 4
            && 0 <= b - 4 < s.len()
            && s[b - 4] == '{'
            && skip_trivia(s, b - 3) == b
            && b - 4 < b <= s.len()
            && s.subrange(b, s.len() as int) == t1
        }),
{
    reveal_strlit("/*\n");
    reveal_strlit("*/\n");
    reveal_strlit("{\n");
    reveal_strlit("  ");
    reveal_strlit("\"control_period\": ");
    let s = spec_save(p);
    let rc = render_comment(crate::save::PARAMS_DOC@);
    let body = spec_body(p);
    let rcl = rc.len() as int;
    assert(s == "/*\n"@ + rc + "*/\n"@ + body);
    lemma_body_form(p);
    let t1 = doc_tail_control_period(p);
    assert(body.len() == 4 + t1.len());
    let ib = 6 + rcl;
    let ln = s.len() as int;
    assert(ln == ib + body.len());
    assert(s[0] == '/') by { assert(("/*\n"@)[0] == '/'); }
    assert(s[1] == '*') by { assert(("/*\n"@)[1] == '*'); }
    assert(s[2] == '\n') by { assert(("/*\n"@)[2] == '\n'); }
    assert(forall|x: int| 3 <= x < 3 + rcl ==> #[trigger] s[x] == rc[x - 3]);
    assert(s[3 + rcl] == '*') by { assert(("*/\n"@)[0] == '*'); }
    assert(s[4 + rcl] == '/') by { assert(("*/\n"@)[1] == '/'); }
    assert(s[5 + rcl] == '\n') by { assert(("*/\n"@)[2] == '\n'); }
    assert(s[ib] == '{') by { assert(body[0] == '{'); }
    assert(s[ib + 1] == '\n') by { assert(body[1] == '\n'); }
    assert(s[ib + 2] == ' ') by { assert(body[2] == ' '); }
    assert(s[ib + 3] == ' ') by { assert(body[3] == ' '); }
    assert(t1[0] == '"');
    assert(s[ib + 4] == t1[0]) by { assert(body[4] == t1[0]); }
    if contains_close(crate::save::PARAMS_DOC@) {
        assert(rc.len() == 0);
    } else {
        assert(rc == crate::save::PARAMS_DOC@);
    }
    assert(!contains_close(rc));
    lemma_comment_frame(s, rc);
    lemma_skip_ws_region(s, ib + 1, ib + 4);
    assert forall|t: int| 0 <= t < t1.len() implies s.subrange(ib + 4, ln)[t] == t1[t] by {
        assert(s[ib + 4 + t] == body[4 + t]);
        assert(body[4 + t] == t1[t]);
    }
    assert(s.subrange(ib + 4, ln) =~= t1);
    assert(ib + 4 == ln - t1.len());
}

/// Round trip: a saved document always loads back, and the snapshot it
/// yields is the saved one, normalized — every field equal, with only the
/// `file_frac` floor applied.
#[verifier::rlimit(100)]
pub proof fn lemma_save_load_round_trip(p: ParamsV)
    ensures
        spec_load(spec_save(p)) == Some(spec_normalize(p)),
{
    let s = spec_save(p);
    let ln = s.len() as int;
    let t1 = doc_tail_control_period(p);
    let b = ln - t1.len() as int;
    lemma_doc_frame(p);
    let d = spec_default();
    lemma_members_run_1(s, b, d, p, true);
    let q1 = ParamsV { control_period: Decimal { nanos: p.control_period.nanos }, concurrency_max: p.concurrency_max, ..d };
    lemma_members_run_2(s, ln - doc_tail_lat_target_pct(p).len(), q1, p, false);
    let q2 = ParamsV { lat_target_pct: Decimal { nanos: p.lat_target_pct.nanos }, lat_target: Decimal { nanos: p.lat_target.nanos }, ..q1 };
    lemma_members_run_3(s, ln - doc_tail_rps_target(p).len(), q2, p, false);
    let q3 = ParamsV { rps_target: p.rps_target, rps_max: p.rps_max, ..q2 };
    lemma_members_run_4(s, ln - doc_tail_mem_frac(p).len(), q3, p, false);
    let q4 = ParamsV { mem_frac: Decimal { nanos: p.mem_frac.nanos }, chunk_pages: p.chunk_pages, ..q3 };
    lemma_members_run_5(s, ln - doc_tail_file_frac(p).len(), q4, p, false);
    let q5 = ParamsV { file_frac: Decimal { nanos: p.file_frac.nanos }, file_size_mean: p.file_size_mean, ..q4 };
    lemma_members_run_6(s, ln - doc_tail_file_size_stdev_ratio(p).len(), q5, p, false);
    let q6 = ParamsV { file_size_stdev_ratio: Decimal { nanos: p.file_size_stdev_ratio.nanos }, file_addr_stdev_ratio: Decimal { nanos: p.file_addr_stdev_ratio.nanos }, ..q5 };
    lemma_members_run_7(s, ln - doc_tail_file_addr_rps_base_frac(p).len(), q6, p, false);
    let q7 = ParamsV { file_addr_rps_base_frac: Decimal { nanos: p.file_addr_rps_base_frac.nanos }, file_write_frac: Decimal { nanos: p.file_write_frac.nanos }, ..q6 };
    lemma_members_run_8(s, ln - doc_tail_anon_size_ratio(p).len(), q7, p, false);
    let q8 = ParamsV { anon_size_ratio: Decimal { nanos: p.anon_size_ratio.nanos }, anon_size_stdev_ratio: Decimal { nanos: p.anon_size_stdev_ratio.nanos }, ..q7 };
    lemma_members_run_9(s, ln - doc_tail_anon_addr_stdev_ratio(p).len(), q8, p, false);
    let q9 = ParamsV { anon_addr_stdev_ratio: Decimal { nanos: p.anon_addr_stdev_ratio.nanos }, anon_addr_rps_base_frac: Decimal { nanos: p.anon_addr_rps_base_frac.nanos }, ..q8 };
    lemma_members_run_10(s, ln - doc_tail_anon_write_frac(p).len(), q9, p, false);
    let q10 = ParamsV { anon_write_frac: Decimal { nanos: p.anon_write_frac.nanos }, sleep_mean: Decimal { nanos: p.sleep_mean.nanos }, ..q9 };
    lemma_members_run_11(s, ln - doc_tail_sleep_stdev_ratio(p).len(), q10, p, false);
    let q11 = ParamsV { sleep_stdev_ratio: Decimal { nanos: p.sleep_stdev_ratio.nanos }, cpu_ratio: Decimal { nanos: p.cpu_ratio.nanos }, ..q10 };
    lemma_members_run_12(s, ln - doc_tail_log_bps(p).len(), q11, p, false);
    let q12 = ParamsV { log_bps: p.log_bps, fake_cpu_load: p.fake_cpu_load, ..q11 };
    lemma_members_run_13(s, ln - doc_tail_acc_dist_slots(p).len(), q12, p, false);
    let q13 = ParamsV { acc_dist_slots: p.acc_dist_slots, lat_pid: p.lat_pid, ..q12 };
    lemma_members_run_14(s, ln - doc_tail_rps_pid(p).len(), q13, p, false);
    let q14 = ParamsV { rps_pid: p.rps_pid, anon_histogram: p.anon_histogram, ..q13 };
    assert(parse_members(s, b, d, true) == Some((q14, ln - 1)));
    assert(q14 =~= p);
    assert(spec_load(s) == Some(spec_normalize(q14)));
}

/// Floor invariant: whatever document loads, the snapshot it yields has
/// `file_frac` at or above the floor.
pub proof fn lemma_load_file_frac_floor(s: Seq<char>)
    ensures
        spec_load(s) matches Some(p) ==> p.file_frac.nanos >= FILE_FRAC_MIN_NANOS,
{
}

/// The normalization step floors `file_frac` and touches nothing else: a
/// snapshot already at or above the floor passes through unchanged.
pub proof fn lemma_normalize_file_frac(p: ParamsV)
    ensures
        p.file_frac.nanos >= FILE_FRAC_MIN_NANOS ==> spec_normalize(p) == p,
        spec_normalize(p) == (if p.file_frac.nanos < FILE_FRAC_MIN_NANOS {
            ParamsV { file_frac: Decimal { nanos: FILE_FRAC_MIN_NANOS }, ..p }
        } else {
            p
        }),
{
}

/// Forward compatibility: a document with no members at all yields the
/// compiled-in defaults (normalized); every absent member keeps its default.
pub proof fn lemma_empty_doc_defaults()
    ensures
        spec_load("{}"@) == Some(spec_normalize(spec_default())),
{
    reveal_strlit("{}");
    let s = "{}"@;
    assert(s.len() == 2);
    assert(s[0] == '{');
    assert(s[1] == '}');
    assert(skip_trivia(s, 0) == 0);
    assert(skip_trivia(s, 1) == 1);
    assert(parse_members(s, 1, spec_default(), true) == Some((spec_default(), 2int)));
    assert(skip_trivia(s, 2) == 2);
}

} // verus!

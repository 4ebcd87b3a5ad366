//! Writing a parameter document.
//!
//! `save` is deterministic: the same snapshot always yields the same text.
//! The document opens with a fixed block comment documenting every field,
//! then the object holds every field in declaration order. Decimals are
//! written with all nine fraction digits so that reading the text back
//! recovers the snapshot exactly.

use vstd::prelude::*;
use crate::params::{Decimal, PidParams, ParamsV, Params};
use crate::text::{digit_char, dec_digits, fixed_digits, pow10};

verus! {

/// The fixed documentation block written ahead of every saved document.
pub const PARAMS_DOC: &'static str = "
rd-hashd runtime parameters

All parameters can be updated while running and will be applied immediately.

rd-hashd keeps calculating SHA1s of different parts of testfiles using
concurrent worker threads. The testfile indices and hash sizes are
determined using truncated normal distributions which gradually transforms
to uniform distributions as their standard deviations increase.

All durations are in seconds and memory bytes. A _frac field should be <=
1.0 and specifies a sub-proportion of some other value. A _ratio field is
similar but may be greater than 1.0.

The concurrency level is modulated using two PID controllers to target the
specified latency and RPS so that neither is exceeded. The total number
of concurrent threads is limited by `concurrency_max`.

The total size of testfiles is set up during startup and can't be changed
online. However, the portion which is actively used by rd-hashd can be
scaled down with `file_frac`.

Anonymous memory accesses can be specified in two different ways:
1) Anonymous memory total and access sizes can be configured as to be
proportional to file access sizes.
2) A histogram from which the memory access pattern will be sampled from
can be passed in.

The total footprint for file accesses is scaled between
`file_addr_rps_base_frac` and 1.0 linearly if the current RPS is lower than
`rps_max`. If `rps_max` is 0, access footprint scaling is disabled. Anon
footprint is scaled the same way between 'anon_addr_rps_base_frac' and 1.0.

Worker threads will sleep according to the sleep duration distribution and
their CPU consumption can be scaled up and down using `cpu_ratio`.

 control_period: PID control period, best left alone
 concurrency_max: Maximum number of worker threads
 lat_target_pct: Latency target percentile
 lat_target: Latency target
 rps_target: Request-per-second target
 rps_max: Reference maximum RPS, used to scale the amount of used memory
 chunk_pages: Memory access chunk size in pages
 mem_frac: Memory footprint scaling factor - [0.0, 1.0]
 file_frac: Page cache proportion of memory footprint - [0.0, 1.0]
 file_size_mean: File access size average
 file_size_stdev_ratio: Standard deviation of file access sizes
 file_addr_stdev_ratio: Standard deviation of file access addresses
 file_addr_rps_base_frac: Memory scaling starting point for file accesses
 file_write_frac: The proportion of writes in file accesses
 anon_size_ratio: Anon access size average - 1.0 means equal as file
   accesses (ignored if anon_histogram is provided)
 anon_size_stdev_ratio: Standard deviation of anon access sizes (ignored
   if anon_histogram is provided)
 anon_addr_stdev_ratio: Standard deviation of anon access addresses
   (ignored if anon_histogram is provided)
 anon_addr_rps_base_frac: Memory scaling starting point for anon accesses
 anon_write_frac: The proportion of writes in anon accesses
 anon_histogram: List of ints where the index of each element represents
   a memory access chunk (see chunk_pages) and the value is the weight
   which determines how frequently that chunk is accessed
 sleep_mean: Worker sleep duration average
 sleep_stdev_ratio: Standard deviation of sleep duration distribution
 cpu_ratio: CPU usage scaling - 1.0 hashes the same number of bytes as
   accessed
 log_bps: Log write bps at rps_max
 fake_cpu_load: Sleep equivalent time durations instead of calculating
   SHA1s
 acc_dist_slots: Access distribution report slots - 0 disables
 lat_pid: PID controller parameters for latency convergence
 rps_pid: PID controller parameters for RPS convergence
";

/// Whether `t` holds the two characters that would close a block comment.
pub open spec fn contains_close(t: Seq<char>) -> bool {
    exists|k: int| 0 <= k < t.len() - 1 && t[k] == '*' && #[trigger] t[k + 1] == '/'
}

/// Text of the documentation block as embedded in a comment: the text
/// itself, or nothing if it could close the comment early.
pub open spec fn render_comment(t: Seq<char>) -> Seq<char> {
    if contains_close(t) {
        Seq::empty()
    } else {
        t
    }
}

/// Digit string of an unsigned value.
pub open spec fn render_uint(n: nat) -> Seq<char> {
    dec_digits(n)
}

/// A decimal in billionths: sign, integer digits, point, and all nine
/// fraction digits.
pub open spec fn render_dec(nanos: int) -> Seq<char> {
    let mag = if nanos < 0 { (-nanos) as nat } else { nanos as nat };
    let sign: Seq<char> = if nanos < 0 { "-"@ } else { Seq::empty() };
    sign + dec_digits(mag / 1_000_000_000) + "."@ + fixed_digits(mag % 1_000_000_000, 9)
}

/// A controller object with its three gains.
pub open spec fn render_pid(p: PidParams) -> Seq<char> {
    "{ \"kp\": "@ + render_dec(p.kp.nanos as int) + ", \"ki\": "@ + render_dec(p.ki.nanos as int)
        + ", \"kd\": "@ + render_dec(p.kd.nanos as int) + " }"@
}

/// Comma-separated histogram weights.
pub open spec fn render_hist_items(h: Seq<u64>) -> Seq<char>
    decreases h.len(),
{
    if h.len() == 0 {
        Seq::empty()
    } else if h.len() == 1 {
        render_uint(h[0] as nat)
    } else {
        render_uint(h[0] as nat) + ", "@ + render_hist_items(h.drop_first())
    }
}

/// The histogram array.
pub open spec fn render_hist(h: Seq<u64>) -> Seq<char> {
    "["@ + render_hist_items(h) + "]"@
}

/// First quarter of the object: control targets.
pub open spec fn body_a(p: ParamsV) -> Seq<char> {
    "{\n"@
        + "  \"control_period\": "@ + render_dec(p.control_period.nanos as int) + ",\n"@
        + "  \"concurrency_max\": "@ + render_uint(p.concurrency_max as nat) + ",\n"@
        + "  \"lat_target_pct\": "@ + render_dec(p.lat_target_pct.nanos as int) + ",\n"@
        + "  \"lat_target\": "@ + render_dec(p.lat_target.nanos as int) + ",\n"@
        + "  \"rps_target\": "@ + render_uint(p.rps_target as nat) + ",\n"@
        + "  \"rps_max\": "@ + render_uint(p.rps_max as nat) + ",\n"@
        + "  \"mem_frac\": "@ + render_dec(p.mem_frac.nanos as int) + ",\n"@
}

/// Second quarter: file access shape.
pub open spec fn body_b1(p: ParamsV) -> Seq<char> {
    "  \"chunk_pages\": "@ + render_uint(p.chunk_pages as nat) + ",\n"@
        + "  \"file_frac\": "@ + render_dec(p.file_frac.nanos as int) + ",\n"@
        + "  \"file_size_mean\": "@ + render_uint(p.file_size_mean as nat) + ",\n"@
        + "  \"file_size_stdev_ratio\": "@ + render_dec(p.file_size_stdev_ratio.nanos as int) + ",\n"@
}

pub open spec fn body_b2(p: ParamsV) -> Seq<char> {
    "  \"file_addr_stdev_ratio\": "@ + render_dec(p.file_addr_stdev_ratio.nanos as int) + ",\n"@
        + "  \"file_addr_rps_base_frac\": "@ + render_dec(p.file_addr_rps_base_frac.nanos as int) + ",\n"@
        + "  \"file_write_frac\": "@ + render_dec(p.file_write_frac.nanos as int) + ",\n"@
}

pub open spec fn body_b(p: ParamsV) -> Seq<char> {
    body_b1(p) + body_b2(p)
}

/// Third quarter: anonymous access shape and timing.
pub open spec fn body_c(p: ParamsV) -> Seq<char> {
    "  \"anon_size_ratio\": "@ + render_dec(p.anon_size_ratio.nanos as int) + ",\n"@
        + "  \"anon_size_stdev_ratio\": "@ + render_dec(p.anon_size_stdev_ratio.nanos as int) + ",\n"@
        + "  \"anon_addr_stdev_ratio\": "@ + render_dec(p.anon_addr_stdev_ratio.nanos as int) + ",\n"@
        + "  \"anon_addr_rps_base_frac\": "@ + render_dec(p.anon_addr_rps_base_frac.nanos as int) + ",\n"@
        + "  \"anon_write_frac\": "@ + render_dec(p.anon_write_frac.nanos as int) + ",\n"@
        + "  \"sleep_mean\": "@ + render_dec(p.sleep_mean.nanos as int) + ",\n"@
        + "  \"sleep_stdev_ratio\": "@ + render_dec(p.sleep_stdev_ratio.nanos as int) + ",\n"@
}

/// Last quarter: load scaling, telemetry, controllers, histogram.
pub open spec fn body_d(p: ParamsV) -> Seq<char> {
    "  \"cpu_ratio\": "@ + render_dec(p.cpu_ratio.nanos as int) + ",\n"@
        + "  \"log_bps\": "@ + render_uint(p.log_bps as nat) + ",\n"@
        + "  \"fake_cpu_load\": "@ + (if p.fake_cpu_load { "true"@ } else { "false"@ }) + ",\n"@
        + "  \"acc_dist_slots\": "@ + render_uint(p.acc_dist_slots as nat) + ",\n"@
        + "  \"lat_pid\": "@ + render_pid(p.lat_pid) + ",\n"@
        + "  \"rps_pid\": "@ + render_pid(p.rps_pid) + ",\n"@
        + "  \"anon_histogram\": "@ + render_hist(p.anon_histogram) + "\n}\n"@
}

/// The object part of the document: every field in declaration order.
pub open spec fn spec_body(p: ParamsV) -> Seq<char> {
    body_a(p) + body_b(p) + body_c(p) + body_d(p)
}

/// The whole document: the comment block, then the object.
pub open spec fn spec_save(p: ParamsV) -> Seq<char> {
    "/*\n"@ + render_comment(PARAMS_DOC@) + "*/\n"@ + spec_body(p)
}

/// One digit as text.
fn digit_str(d: u64) -> (r: &'static str)
    requires
        d < 10,
    ensures
        r@ == seq![digit_char(d as nat)],
{
    proof {
        reveal_strlit("0");
        reveal_strlit("1");
        reveal_strlit("2");
        reveal_strlit("3");
        reveal_strlit("4");
        reveal_strlit("5");
        reveal_strlit("6");
        reveal_strlit("7");
        reveal_strlit("8");
        reveal_strlit("9");
    }
    if d == 0 { "0" }
    else if d == 1 { "1" }
    else if d == 2 { "2" }
    else if d == 3 { "3" }
    else if d == 4 { "4" }
    else if d == 5 { "5" }
    else if d == 6 { "6" }
    else if d == 7 { "7" }
    else if d == 8 { "8" }
    else { "9" }
}

fn append_uint(out: &mut String, n: u64)
    ensures
        final(out)@ == old(out)@ + dec_digits(n as nat),
    decreases n,
{
    if n >= 10 {
        append_uint(out, n / 10);
        out.append(digit_str(n % 10));
        proof {
            assert(final(out)@ =~= old(out)@ + dec_digits(n as nat));
        }
    } else {
        out.append(digit_str(n));
        proof {
            assert(final(out)@ =~= old(out)@ + dec_digits(n as nat));
        }
    }
}

fn append_fixed(out: &mut String, n: u64, k: usize)
    requires
        k <= 9,
        (n as nat) < pow10(k as nat),
    ensures
        final(out)@ == old(out)@ + fixed_digits(n as nat, k as nat),
    decreases k,
{
    if k > 0 {
        proof {
            assert(pow10(k as nat) == 10 * pow10((k - 1) as nat));
        }
        append_fixed(out, n / 10, k - 1);
        out.append(digit_str(n % 10));
        proof {
            assert(final(out)@ =~= old(out)@ + fixed_digits(n as nat, k as nat));
        }
    } else {
        proof {
            assert(fixed_digits(n as nat, 0) =~= Seq::<char>::empty());
            assert(final(out)@ =~= old(out)@ + fixed_digits(n as nat, k as nat));
        }
    }
}

fn append_dec(out: &mut String, nanos: i64)
    ensures
        final(out)@ == old(out)@ + render_dec(nanos as int),
{
    let mag: u64 = if nanos < 0 {
        if nanos == i64::MIN {
            0x8000_0000_0000_0000u64
        } else {
            (-nanos) as u64
        }
    } else {
        nanos as u64
    };
    if nanos < 0 {
        out.append("-");
    }
    append_uint(out, mag / 1_000_000_000);
    out.append(".");
    proof {
        assert(pow10(9) == 1_000_000_000) by {
            assert(pow10(0) == 1);
            assert(pow10(1) == 10);
            assert(pow10(2) == 100);
            assert(pow10(3) == 1000);
            assert(pow10(4) == 10000);
            assert(pow10(5) == 100000);
            assert(pow10(6) == 1000000);
            assert(pow10(7) == 10000000);
            assert(pow10(8) == 100000000);
        }
    }
    append_fixed(out, mag % 1_000_000_000, 9);
    proof {
        assert(final(out)@ =~= old(out)@ + render_dec(nanos as int));
    }
}

fn append_pid(out: &mut String, p: &PidParams)
    ensures
        final(out)@ == old(out)@ + render_pid(*p),
{
    out.append("{ \"kp\": ");
    append_dec(out, p.kp.nanos);
    out.append(", \"ki\": ");
    append_dec(out, p.ki.nanos);
    out.append(", \"kd\": ");
    append_dec(out, p.kd.nanos);
    out.append(" }");
    proof {
        assert(final(out)@ =~= old(out)@ + render_pid(*p));
    }
}

fn append_hist_items(out: &mut String, h: &Vec<u64>, k: usize)
    requires
        k <= h@.len(),
    ensures
        final(out)@ == old(out)@ + render_hist_items(h@.skip(k as int)),
    decreases h@.len() - k,
{
    if k < h.len() {
        append_uint(out, h[k]);
        proof {
            assert(h@.skip(k as int)[0] == h@[k as int]);
        }
        if k + 1 < h.len() {
            out.append(", ");
            append_hist_items(out, h, k + 1);
            proof {
                assert(h@.skip(k as int).drop_first() =~= h@.skip(k + 1));
                assert(final(out)@ =~= old(out)@ + render_hist_items(h@.skip(k as int)));
            }
        } else {
            proof {
                assert(h@.skip(k as int).len() == 1);
                assert(final(out)@ =~= old(out)@ + render_hist_items(h@.skip(k as int)));
            }
        }
    } else {
        proof {
            assert(h@.skip(k as int).len() == 0);
            assert(final(out)@ =~= old(out)@ + render_hist_items(h@.skip(k as int)));
        }
    }
}

fn append_hist(out: &mut String, h: &Vec<u64>)
    ensures
        final(out)@ == old(out)@ + render_hist(h@),
{
    out.append("[");
    append_hist_items(out, h, 0);
    out.append("]");
    proof {
        assert(h@.skip(0) =~= h@);
        assert(final(out)@ =~= old(out)@ + render_hist(h@));
    }
}

/// Appends the documentation text, after checking at run time that nothing
/// in it could close the surrounding comment early.
fn append_comment_text(out: &mut String, t: &str)
    ensures
        final(out)@ == old(out)@ + render_comment(t@),
{
    let n = t.unicode_len();
    let n1: usize = if n == 0 { 0 } else { n - 1 };
    let mut k: usize = 0;
    let mut found = false;
    while k < n1
        invariant
            n == t@.len(),
            n1 <= n,
            n >= 1 ==> n1 == n - 1,
            0 <= k <= n1,
            !found ==> forall|m: int|
                0 <= m < k ==> !(t@[m] == '*' && #[trigger] t@[m + 1] == '/'),
            found ==> contains_close(t@),
        decreases n - k,
    {
        if t.get_char(k) == '*' && t.get_char(k + 1) == '/' {
            found = true;
        }
        k += 1;
    }
    if found {
        proof {
            assert(render_comment(t@) =~= Seq::<char>::empty());
            assert(final(out)@ =~= old(out)@ + render_comment(t@));
        }
    } else {
        proof {
            assert(!contains_close(t@));
        }
        out.append(t);
        proof {
            assert(final(out)@ =~= old(out)@ + render_comment(t@));
        }
    }
}


#[verifier::rlimit(100)]
fn append_body_a(out: &mut String, p: &Params)
    ensures
        final(out)@ == old(out)@ + body_a(p@),
{
    out.append("{\n");
    out.append("  \"control_period\": ");
    append_dec(out, p.control_period.nanos);
    out.append(",\n");
    out.append("  \"concurrency_max\": ");
    append_uint(out, p.concurrency_max as u64);
    out.append(",\n");
    out.append("  \"lat_target_pct\": ");
    append_dec(out, p.lat_target_pct.nanos);
    out.append(",\n");
    out.append("  \"lat_target\": ");
    append_dec(out, p.lat_target.nanos);
    out.append(",\n");
    out.append("  \"rps_target\": ");
    append_uint(out, p.rps_target as u64);
    out.append(",\n");
    out.append("  \"rps_max\": ");
    append_uint(out, p.rps_max as u64);
    out.append(",\n");
    out.append("  \"mem_frac\": ");
    append_dec(out, p.mem_frac.nanos);
    out.append(",\n");
    proof {
        assert(final(out)@ =~= old(out)@ + body_a(p@));
    }
}

#[verifier::rlimit(100)]
fn append_body_b1(out: &mut String, p: &Params)
    ensures
        final(out)@ == old(out)@ + body_b1(p@),
{
    out.append("  \"chunk_pages\": ");
    append_uint(out, p.chunk_pages as u64);
    out.append(",\n");
    out.append("  \"file_frac\": ");
    append_dec(out, p.file_frac.nanos);
    out.append(",\n");
    out.append("  \"file_size_mean\": ");
    append_uint(out, p.file_size_mean as u64);
    out.append(",\n");
    out.append("  \"file_size_stdev_ratio\": ");
    append_dec(out, p.file_size_stdev_ratio.nanos);
    out.append(",\n");
    proof {
        assert(final(out)@ =~= old(out)@ + body_b1(p@));
    }
}

fn append_body_b2(out: &mut String, p: &Params)
    ensures
        final(out)@ == old(out)@ + body_b2(p@),
{
    out.append("  \"file_addr_stdev_ratio\": ");
    append_dec(out, p.file_addr_stdev_ratio.nanos);
    out.append(",\n");
    out.append("  \"file_addr_rps_base_frac\": ");
    append_dec(out, p.file_addr_rps_base_frac.nanos);
    out.append(",\n");
    out.append("  \"file_write_frac\": ");
    append_dec(out, p.file_write_frac.nanos);
    out.append(",\n");
    proof {
        assert(final(out)@ =~= old(out)@ + body_b2(p@));
    }
}

fn append_body_b(out: &mut String, p: &Params)
    ensures
        final(out)@ == old(out)@ + body_b(p@),
{
    append_body_b1(out, p);
    append_body_b2(out, p);
    proof {
        vstd::seq_lib::lemma_concat_associative(old(out)@, body_b1(p@), body_b2(p@));
    }
}

#[verifier::rlimit(100)]
fn append_body_c(out: &mut String, p: &Params)
    ensures
        final(out)@ == old(out)@ + body_c(p@),
{
    out.append("  \"anon_size_ratio\": ");
    append_dec(out, p.anon_size_ratio.nanos);
    out.append(",\n");
    out.append("  \"anon_size_stdev_ratio\": ");
    append_dec(out, p.anon_size_stdev_ratio.nanos);
    out.append(",\n");
    out.append("  \"anon_addr_stdev_ratio\": ");
    append_dec(out, p.anon_addr_stdev_ratio.nanos);
    out.append(",\n");
    out.append("  \"anon_addr_rps_base_frac\": ");
    append_dec(out, p.anon_addr_rps_base_frac.nanos);
    out.append(",\n");
    out.append("  \"anon_write_frac\": ");
    append_dec(out, p.anon_write_frac.nanos);
    out.append(",\n");
    out.append("  \"sleep_mean\": ");
    append_dec(out, p.sleep_mean.nanos);
    out.append(",\n");
    out.append("  \"sleep_stdev_ratio\": ");
    append_dec(out, p.sleep_stdev_ratio.nanos);
    out.append(",\n");
    proof {
        assert(final(out)@ =~= old(out)@ + body_c(p@));
    }
}

#[verifier::rlimit(100)]
fn append_body_d(out: &mut String, p: &Params)
    ensures
        final(out)@ == old(out)@ + body_d(p@),
{
    out.append("  \"cpu_ratio\": ");
    append_dec(out, p.cpu_ratio.nanos);
    out.append(",\n");
    out.append("  \"log_bps\": ");
    append_uint(out, p.log_bps);
    out.append(",\n");
    out.append("  \"fake_cpu_load\": ");
    if p.fake_cpu_load {
        out.append("true");
    } else {
        out.append("false");
    }
    out.append(",\n");
    out.append("  \"acc_dist_slots\": ");
    append_uint(out, p.acc_dist_slots as u64);
    out.append(",\n");
    out.append("  \"lat_pid\": ");
    append_pid(out, &p.lat_pid);
    out.append(",\n");
    out.append("  \"rps_pid\": ");
    append_pid(out, &p.rps_pid);
    out.append(",\n");
    out.append("  \"anon_histogram\": ");
    append_hist(out, &p.anon_histogram);
    out.append("\n}\n");
    proof {
        assert(final(out)@ =~= old(out)@ + body_d(p@));
    }
}

impl Params {

    /// Writes the snapshot as a document that `load` reads back: the fixed
    /// documentation comment, then every field in declaration order. Always
    /// succeeds, and the same snapshot always yields the same text.
    pub fn save(&self) -> (r: String)
        ensures
            r@ == spec_save(self@),
    {
        let mut out = String::new();
        out.append("/*\n");
        proof {
            assert(out@ =~= "/*\n"@);
        }
        append_comment_text(&mut out, PARAMS_DOC);
        out.append("*/\n");
        append_body_a(&mut out, self);
        append_body_b(&mut out, self);
        append_body_c(&mut out, self);
        append_body_d(&mut out, self);
        proof {
            assert(out@ =~= spec_save(self@));
        }
        out
    }

    /// The fixed documentation block that heads every saved document.
    pub fn preamble() -> (r: Option<String>)
        ensures
            r matches Some(s) && s@ == PARAMS_DOC@,
    {
        Some(String::from_str(PARAMS_DOC))
    }
}

} // verus!

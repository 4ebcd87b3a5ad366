//! The parameter snapshot: data model, defaults, normalization, and the
//! derived `log_padding` quantity.

use vstd::prelude::*;

verus! {

/// Number of `Decimal` units that make up 1.0.
pub const NANO: i64 = 1_000_000_000;

/// Hard floor for `file_frac`, in `Decimal` units (0.001).
pub const FILE_FRAC_MIN_NANOS: i64 = 1_000_000;

/// A fractional quantity held exactly as a signed count of billionths.
/// `nanos == 1_500_000_000` stands for 1.5.
#[derive(Clone, Copy, PartialEq, Eq, Structural, Debug)]
pub struct Decimal {
    pub nanos: i64,
}

impl Decimal {
    /// Builds the decimal that stands for `nanos` billionths.
    pub fn from_nanos(nanos: i64) -> (r: Decimal)
        ensures
            r.nanos == nanos,
    {
        Decimal { nanos }
    }
}

/// Gain coefficients for one proportional-integral-derivative controller.
#[derive(Clone, Copy, PartialEq, Eq, Structural, Debug)]
pub struct PidParams {
    pub kp: Decimal,
    pub ki: Decimal,
    pub kd: Decimal,
}

/// Dispatch and hash parameters; every field can be adjusted between control
/// periods by reloading the persisted document.
#[derive(Clone, Debug)]
pub struct Params {
    pub control_period: Decimal,
    pub concurrency_max: u32,
    pub lat_target_pct: Decimal,
    pub lat_target: Decimal,
    pub rps_target: u32,
    pub rps_max: u32,
    pub mem_frac: Decimal,
    pub chunk_pages: usize,
    pub file_frac: Decimal,
    pub file_size_mean: usize,
    pub file_size_stdev_ratio: Decimal,
    pub file_addr_stdev_ratio: Decimal,
    pub file_addr_rps_base_frac: Decimal,
    pub file_write_frac: Decimal,
    pub anon_size_ratio: Decimal,
    pub anon_size_stdev_ratio: Decimal,
    pub anon_addr_stdev_ratio: Decimal,
    pub anon_addr_rps_base_frac: Decimal,
    pub anon_write_frac: Decimal,
    pub sleep_mean: Decimal,
    pub sleep_stdev_ratio: Decimal,
    pub cpu_ratio: Decimal,
    pub log_bps: u64,
    pub fake_cpu_load: bool,
    pub acc_dist_slots: usize,
    pub lat_pid: PidParams,
    pub rps_pid: PidParams,
    pub anon_histogram: Vec<u64>,
}

/// Mathematical model of a snapshot: every field a plain value, the
/// histogram a sequence.
#[verifier::ext_equal]
pub struct ParamsV {
    pub control_period: Decimal,
    pub concurrency_max: u32,
    pub lat_target_pct: Decimal,
    pub lat_target: Decimal,
    pub rps_target: u32,
    pub rps_max: u32,
    pub mem_frac: Decimal,
    pub chunk_pages: usize,
    pub file_frac: Decimal,
    pub file_size_mean: usize,
    pub file_size_stdev_ratio: Decimal,
    pub file_addr_stdev_ratio: Decimal,
    pub file_addr_rps_base_frac: Decimal,
    pub file_write_frac: Decimal,
    pub anon_size_ratio: Decimal,
    pub anon_size_stdev_ratio: Decimal,
    pub anon_addr_stdev_ratio: Decimal,
    pub anon_addr_rps_base_frac: Decimal,
    pub anon_write_frac: Decimal,
    pub sleep_mean: Decimal,
    pub sleep_stdev_ratio: Decimal,
    pub cpu_ratio: Decimal,
    pub log_bps: u64,
    pub fake_cpu_load: bool,
    pub acc_dist_slots: usize,
    pub lat_pid: PidParams,
    pub rps_pid: PidParams,
    pub anon_histogram: Seq<u64>,
}

impl View for Params {
    type V = ParamsV;

    open spec fn view(&self) -> ParamsV {
        ParamsV {
            control_period: self.control_period,
            concurrency_max: self.concurrency_max,
            lat_target_pct: self.lat_target_pct,
            lat_target: self.lat_target,
            rps_target: self.rps_target,
            rps_max: self.rps_max,
            mem_frac: self.mem_frac,
            chunk_pages: self.chunk_pages,
            file_frac: self.file_frac,
            file_size_mean: self.file_size_mean,
            file_size_stdev_ratio: self.file_size_stdev_ratio,
            file_addr_stdev_ratio: self.file_addr_stdev_ratio,
            file_addr_rps_base_frac: self.file_addr_rps_base_frac,
            file_write_frac: self.file_write_frac,
            anon_size_ratio: self.anon_size_ratio,
            anon_size_stdev_ratio: self.anon_size_stdev_ratio,
            anon_addr_stdev_ratio: self.anon_addr_stdev_ratio,
            anon_addr_rps_base_frac: self.anon_addr_rps_base_frac,
            anon_write_frac: self.anon_write_frac,
            sleep_mean: self.sleep_mean,
            sleep_stdev_ratio: self.sleep_stdev_ratio,
            cpu_ratio: self.cpu_ratio,
            log_bps: self.log_bps,
            fake_cpu_load: self.fake_cpu_load,
            acc_dist_slots: self.acc_dist_slots,
            lat_pid: self.lat_pid,
            rps_pid: self.rps_pid,
            anon_histogram: self.anon_histogram@,
        }
    }
}

/// The compiled-in baseline configuration.
pub open spec fn spec_default() -> ParamsV {
    ParamsV {
        control_period: Decimal { nanos: 1_000_000_000 },
        concurrency_max: 65536u32,
        lat_target_pct: Decimal { nanos: 950_000_000 },
        lat_target: Decimal { nanos: 75_000_000 },
        rps_target: 65536u32,
        rps_max: 0u32,
        mem_frac: Decimal { nanos: 800_000_000 },
        chunk_pages: 25usize,
        file_frac: Decimal { nanos: 250_000_000 },
        file_size_mean: 1258291usize,
        file_size_stdev_ratio: Decimal { nanos: 450_000_000 },
        file_addr_stdev_ratio: Decimal { nanos: 215_000_000 },
        file_addr_rps_base_frac: Decimal { nanos: 500_000_000 },
        file_write_frac: Decimal { nanos: 0 },
        anon_size_ratio: Decimal { nanos: 2_300_000_000 },
        anon_size_stdev_ratio: Decimal { nanos: 450_000_000 },
        anon_addr_stdev_ratio: Decimal { nanos: 235_000_000 },
        anon_addr_rps_base_frac: Decimal { nanos: 500_000_000 },
        anon_write_frac: Decimal { nanos: 300_000_000 },
        sleep_mean: Decimal { nanos: 20_000_000 },
        sleep_stdev_ratio: Decimal { nanos: 330_000_000 },
        cpu_ratio: Decimal { nanos: 930_000_000 },
        log_bps: 1100794u64,
        fake_cpu_load: false,
        acc_dist_slots: 0usize,
        lat_pid: PidParams {
            kp: Decimal { nanos: 100_000_000 },
            ki: Decimal { nanos: 10_000_000 },
            kd: Decimal { nanos: 10_000_000 },
        },
        rps_pid: PidParams {
            kp: Decimal { nanos: 250_000_000 },
            ki: Decimal { nanos: 10_000_000 },
            kd: Decimal { nanos: 10_000_000 },
        },
        anon_histogram: Seq::empty(),
    }
}

/// The single post-load validation step: `file_frac` is floored at
/// `FILE_FRAC_MIN_NANOS`; every other field passes through unchanged.
pub open spec fn spec_normalize(p: ParamsV) -> ParamsV {
    if p.file_frac.nanos < FILE_FRAC_MIN_NANOS {
        ParamsV { file_frac: Decimal { nanos: FILE_FRAC_MIN_NANOS }, ..p }
    } else {
        p
    }
}

/// Bytes of padding per request needed to reach `log_bps` at `rps_max`
/// requests per second: the quotient rounded to the nearest integer, ties
/// away from zero; 0 when `rps_max` is 0.
pub open spec fn spec_log_padding(p: ParamsV) -> nat {
    if p.rps_max == 0 {
        0
    } else {
        ((2 * p.log_bps as int + p.rps_max as int) / (2 * p.rps_max as int)) as nat
    }
}

impl Default for Params {
    /// Returns the compiled-in baseline; deterministic and never failing.
    fn default() -> (r: Params)
        ensures
            r@ == spec_default(),
    {
        let r = Params {
            control_period: Decimal { nanos: 1_000_000_000 },
            concurrency_max: 65536,
            lat_target_pct: Decimal { nanos: 950_000_000 },
            lat_target: Decimal { nanos: 75_000_000 },
            rps_target: 65536,
            rps_max: 0,
            mem_frac: Decimal { nanos: 800_000_000 },
            chunk_pages: 25,
            file_frac: Decimal { nanos: 250_000_000 },
            file_size_mean: 1258291,
            file_size_stdev_ratio: Decimal { nanos: 450_000_000 },
            file_addr_stdev_ratio: Decimal { nanos: 215_000_000 },
            file_addr_rps_base_frac: Decimal { nanos: 500_000_000 },
            file_write_frac: Decimal { nanos: 0 },
            anon_size_ratio: Decimal { nanos: 2_300_000_000 },
            anon_size_stdev_ratio: Decimal { nanos: 450_000_000 },
            anon_addr_stdev_ratio: Decimal { nanos: 235_000_000 },
            anon_addr_rps_base_frac: Decimal { nanos: 500_000_000 },
            anon_write_frac: Decimal { nanos: 300_000_000 },
            sleep_mean: Decimal { nanos: 20_000_000 },
            sleep_stdev_ratio: Decimal { nanos: 330_000_000 },
            cpu_ratio: Decimal { nanos: 930_000_000 },
            log_bps: 1100794,
            fake_cpu_load: false,
            acc_dist_slots: 0,
            lat_pid: PidParams {
                kp: Decimal { nanos: 100_000_000 },
                ki: Decimal { nanos: 10_000_000 },
                kd: Decimal { nanos: 10_000_000 },
            },
            rps_pid: PidParams {
                kp: Decimal { nanos: 250_000_000 },
                ki: Decimal { nanos: 10_000_000 },
                kd: Decimal { nanos: 10_000_000 },
            },
            anon_histogram: Vec::new(),
        };
        proof {
            assert(r@ =~= spec_default());
        }
        r
    }
}

impl Params {
    /// Validation hook run on every construction path. The previous snapshot
    /// is handed in so that a future policy may consult it; the current
    /// policy ignores it and only floors `file_frac`.
    pub fn loaded(&mut self, _prev: Option<&Params>)
        ensures
            final(self)@ == spec_normalize(old(self)@),
    {
        if self.file_frac.nanos < FILE_FRAC_MIN_NANOS {
            self.file_frac = Decimal { nanos: FILE_FRAC_MIN_NANOS };
        }
        proof {
            assert(self@ =~= spec_normalize(old(self)@));
        }
    }

    /// Padding bytes per request: `log_bps / rps_max` rounded to the nearest
    /// integer, and 0 whenever `rps_max` is 0.
    pub fn log_padding(&self) -> (r: u64)
        ensures
            r == spec_log_padding(self@),
    {
        if self.rps_max > 0 {
            let num: u128 = 2 * (self.log_bps as u128) + (self.rps_max as u128);
            let den: u128 = 2 * (self.rps_max as u128);
            let q: u128 = num / den;
            proof {
                assert(q * den <= num) by (nonlinear_arith)
                    requires den > 0 && q == num / den;
                assert(q <= self.log_bps) by (nonlinear_arith)
                    requires
                        q * den <= num,
                        num == 2 * (self.log_bps as u128) + (self.rps_max as u128),
                        den == 2 * (self.rps_max as u128),
                        den >= 2;
            }
            q as u64
        } else {
            0
        }
    }
}

} // verus!

use hashd_params::params::{Decimal, Params, PidParams, FILE_FRAC_MIN_NANOS};

fn assert_params_eq(a: &Params, b: &Params) {
    assert_eq!(a.control_period, b.control_period);
    assert_eq!(a.concurrency_max, b.concurrency_max);
    assert_eq!(a.lat_target_pct, b.lat_target_pct);
    assert_eq!(a.lat_target, b.lat_target);
    assert_eq!(a.rps_target, b.rps_target);
    assert_eq!(a.rps_max, b.rps_max);
    assert_eq!(a.mem_frac, b.mem_frac);
    assert_eq!(a.chunk_pages, b.chunk_pages);
    assert_eq!(a.file_frac, b.file_frac);
    assert_eq!(a.file_size_mean, b.file_size_mean);
    assert_eq!(a.file_size_stdev_ratio, b.file_size_stdev_ratio);
    assert_eq!(a.file_addr_stdev_ratio, b.file_addr_stdev_ratio);
    assert_eq!(a.file_addr_rps_base_frac, b.file_addr_rps_base_frac);
    assert_eq!(a.file_write_frac, b.file_write_frac);
    assert_eq!(a.anon_size_ratio, b.anon_size_ratio);
    assert_eq!(a.anon_size_stdev_ratio, b.anon_size_stdev_ratio);
    assert_eq!(a.anon_addr_stdev_ratio, b.anon_addr_stdev_ratio);
    assert_eq!(a.anon_addr_rps_base_frac, b.anon_addr_rps_base_frac);
    assert_eq!(a.anon_write_frac, b.anon_write_frac);
    assert_eq!(a.sleep_mean, b.sleep_mean);
    assert_eq!(a.sleep_stdev_ratio, b.sleep_stdev_ratio);
    assert_eq!(a.cpu_ratio, b.cpu_ratio);
    assert_eq!(a.log_bps, b.log_bps);
    assert_eq!(a.fake_cpu_load, b.fake_cpu_load);
    assert_eq!(a.acc_dist_slots, b.acc_dist_slots);
    assert_eq!(a.lat_pid, b.lat_pid);
    assert_eq!(a.rps_pid, b.rps_pid);
    assert_eq!(a.anon_histogram, b.anon_histogram);
}

#[test]
fn default_values_are_the_documented_baseline() {
    let p = Params::default();
    assert_eq!(p.control_period.nanos, 1_000_000_000);
    assert_eq!(p.concurrency_max, 65536);
    assert_eq!(p.lat_target_pct.nanos, 950_000_000);
    assert_eq!(p.lat_target.nanos, 75_000_000);
    assert_eq!(p.rps_target, 65536);
    assert_eq!(p.rps_max, 0);
    assert_eq!(p.chunk_pages, 25);
    assert_eq!(p.mem_frac.nanos, 800_000_000);
    assert_eq!(p.file_frac.nanos, 250_000_000);
    assert_eq!(p.file_size_mean, 1258291);
    assert_eq!(p.file_size_stdev_ratio.nanos, 450_000_000);
    assert_eq!(p.file_addr_stdev_ratio.nanos, 215_000_000);
    assert_eq!(p.file_addr_rps_base_frac.nanos, 500_000_000);
    assert_eq!(p.file_write_frac.nanos, 0);
    assert_eq!(p.anon_size_ratio.nanos, 2_300_000_000);
    assert_eq!(p.anon_size_stdev_ratio.nanos, 450_000_000);
    assert_eq!(p.anon_addr_stdev_ratio.nanos, 235_000_000);
    assert_eq!(p.anon_addr_rps_base_frac.nanos, 500_000_000);
    assert_eq!(p.anon_write_frac.nanos, 300_000_000);
    assert_eq!(p.sleep_mean.nanos, 20_000_000);
    assert_eq!(p.sleep_stdev_ratio.nanos, 330_000_000);
    assert_eq!(p.cpu_ratio.nanos, 930_000_000);
    assert_eq!(p.log_bps, 1100794);
    assert_eq!(p.fake_cpu_load, false);
    assert_eq!(p.acc_dist_slots, 0);
    assert_eq!(p.lat_pid.kp.nanos, 100_000_000);
    assert_eq!(p.lat_pid.ki.nanos, 10_000_000);
    assert_eq!(p.lat_pid.kd.nanos, 10_000_000);
    assert_eq!(p.rps_pid.kp.nanos, 250_000_000);
    assert_eq!(p.rps_pid.ki.nanos, 10_000_000);
    assert_eq!(p.rps_pid.kd.nanos, 10_000_000);
    assert!(p.anon_histogram.is_empty());
}

#[test]
fn default_is_stable_across_calls() {
    let a = Params::default();
    let b = Params::default();
    assert_params_eq(&a, &b);
}

#[test]
fn round_trip_of_the_default_snapshot() {
    let p = Params::default();
    let doc = p.save();
    let q = Params::load(&doc).unwrap();
    assert_params_eq(&p, &q);
}

#[test]
fn round_trip_of_a_customized_snapshot() {
    let mut p = Params::default();
    p.control_period = Decimal::from_nanos(2_500_000_000);
    p.concurrency_max = 7;
    p.rps_max = 4096;
    p.file_write_frac = Decimal::from_nanos(-123_456_789);
    p.fake_cpu_load = true;
    p.log_bps = u64::MAX;
    p.acc_dist_slots = 33;
    p.lat_pid = PidParams {
        kp: Decimal::from_nanos(-1),
        ki: Decimal::from_nanos(i64::MAX),
        kd: Decimal::from_nanos(i64::MIN),
    };
    p.anon_histogram = vec![0, 1, 99, u64::MAX];
    let doc = p.save();
    let q = Params::load(&doc).unwrap();
    assert_params_eq(&p, &q);
}

#[test]
fn round_trip_clamps_a_low_file_frac() {
    let mut p = Params::default();
    p.file_frac = Decimal::from_nanos(5);
    let doc = p.save();
    let q = Params::load(&doc).unwrap();
    assert_eq!(q.file_frac.nanos, FILE_FRAC_MIN_NANOS);
}

#[test]
fn save_is_deterministic() {
    let p = Params::default();
    assert_eq!(p.save(), p.save());
}

#[test]
fn saved_document_opens_with_the_documentation_block() {
    let doc = Params::default().save();
    assert!(doc.starts_with("/*\n"));
    assert!(doc.contains("rd-hashd runtime parameters"));
    let preamble = Params::preamble().unwrap();
    assert!(doc.contains(preamble.as_str()));
}

#[test]
fn file_frac_below_the_floor_is_raised() {
    let q = Params::load("{\"file_frac\": 0.0005}").unwrap();
    assert_eq!(q.file_frac.nanos, 1_000_000);
}

#[test]
fn negative_file_frac_is_raised_to_the_floor() {
    let q = Params::load("{\"file_frac\": -0.25}").unwrap();
    assert_eq!(q.file_frac.nanos, FILE_FRAC_MIN_NANOS);
}

#[test]
fn file_frac_at_or_above_the_floor_passes_through() {
    let q = Params::load("{\"file_frac\": 0.002}").unwrap();
    assert_eq!(q.file_frac.nanos, 2_000_000);
    let r = Params::load("{\"file_frac\": 0.001}").unwrap();
    assert_eq!(r.file_frac.nanos, 1_000_000);
}

#[test]
fn empty_document_yields_the_defaults() {
    let q = Params::load("{}").unwrap();
    assert_params_eq(&q, &Params::default());
}

#[test]
fn absent_members_keep_their_defaults() {
    let q = Params::load("{\"concurrency_max\": 42}").unwrap();
    assert_eq!(q.concurrency_max, 42);
    let mut expect = Params::default();
    expect.concurrency_max = 42;
    assert_params_eq(&q, &expect);
}

#[test]
fn log_padding_is_zero_when_rps_max_is_zero() {
    let mut p = Params::default();
    p.rps_max = 0;
    p.log_bps = u64::MAX;
    assert_eq!(p.log_padding(), 0);
}

#[test]
fn log_padding_rounds_the_quotient() {
    let mut p = Params::default();
    p.log_bps = 1100794;
    p.rps_max = 65536;
    assert_eq!(p.log_padding(), 17);
    p.log_bps = 10;
    p.rps_max = 4;
    assert_eq!(p.log_padding(), 3);
    p.log_bps = 9;
    p.rps_max = 4;
    assert_eq!(p.log_padding(), 2);
}

#[test]
fn histogram_is_loaded_and_distribution_fields_pass_through() {
    let q = Params::load(
        "{\"anon_histogram\": [5, 6, 7], \"anon_size_ratio\": 9.5, \"anon_size_stdev_ratio\": 0.125}",
    )
    .unwrap();
    assert_eq!(q.anon_histogram, vec![5, 6, 7]);
    assert_eq!(q.anon_size_ratio.nanos, 9_500_000_000);
    assert_eq!(q.anon_size_stdev_ratio.nanos, 125_000_000);
    let r = Params::load(&q.save()).unwrap();
    assert_params_eq(&q, &r);
}

#[test]
fn loaded_hook_applies_the_floor() {
    let mut p = Params::default();
    p.file_frac = Decimal::from_nanos(-7);
    p.loaded(None);
    assert_eq!(p.file_frac.nanos, FILE_FRAC_MIN_NANOS);
    let prev = Params::default();
    let mut q = Params::default();
    q.loaded(Some(&prev));
    assert_params_eq(&q, &Params::default());
}

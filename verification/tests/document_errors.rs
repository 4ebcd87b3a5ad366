use hashd_params::params::Params;

#[test]
fn non_numeric_value_for_a_numeric_member_is_rejected() {
    assert!(Params::load("{\"concurrency_max\": \"many\"}").is_err());
    assert!(Params::load("{\"mem_frac\": \"half\"}").is_err());
}

#[test]
fn fractional_value_for_an_integer_member_is_rejected() {
    assert!(Params::load("{\"concurrency_max\": 1.5}").is_err());
    assert!(Params::load("{\"log_bps\": 3.0}").is_err());
}

#[test]
fn negative_value_for_an_unsigned_member_is_rejected() {
    assert!(Params::load("{\"rps_max\": -1}").is_err());
    assert!(Params::load("{\"anon_histogram\": [-2]}").is_err());
}

#[test]
fn out_of_range_numbers_are_rejected() {
    assert!(Params::load("{\"concurrency_max\": 4294967296}").is_err());
    assert!(Params::load("{\"rps_max\": 4294967295}").is_ok());
    assert!(Params::load("{\"log_bps\": 99999999999999999999999999}").is_err());
}

#[test]
fn malformed_syntax_is_rejected() {
    assert!(Params::load("").is_err());
    assert!(Params::load("{").is_err());
    assert!(Params::load("{\"rps_max\" 3}").is_err());
    assert!(Params::load("{\"rps_max\": 3,}").is_err());
    assert!(Params::load("{\"rps_max\": 3} trailing").is_err());
    assert!(Params::load("[1, 2]").is_err());
    assert!(Params::load("{\"rps_max\": 3").is_err());
}

#[test]
fn wrong_shape_for_a_member_is_rejected() {
    assert!(Params::load("{\"lat_pid\": 3}").is_err());
    assert!(Params::load("{\"anon_histogram\": 3}").is_err());
    assert!(Params::load("{\"fake_cpu_load\": 1}").is_err());
}

#[test]
fn controller_object_loads_in_any_order_and_needs_all_gains() {
    let q = Params::load("{\"lat_pid\": {\"kd\": 0.5, \"kp\": 1.25, \"ki\": 0.125}}").unwrap();
    assert_eq!(q.lat_pid.kp.nanos, 1_250_000_000);
    assert_eq!(q.lat_pid.ki.nanos, 125_000_000);
    assert_eq!(q.lat_pid.kd.nanos, 500_000_000);
    assert!(Params::load("{\"lat_pid\": {\"kp\": 1.0, \"ki\": 0.1}}").is_err());
    assert!(Params::load("{\"lat_pid\": {}}").is_err());
}

#[test]
fn unknown_members_are_ignored() {
    let q = Params::load(
        "{\"later_field\": [1, {\"x\": \"quoted \\\" text\"}, null, true], \"rps_max\": 3}",
    )
    .unwrap();
    assert_eq!(q.rps_max, 3);
}

#[test]
fn comments_and_whitespace_stand_between_tokens() {
    let q = Params::load(
        "/* a note */\n{\n  /* inner */ \"rps_max\": 9,\n  \"rps_target\": 11\n}\n/* end */\n",
    )
    .unwrap();
    assert_eq!(q.rps_max, 9);
    assert_eq!(q.rps_target, 11);
}

#[test]
fn a_repeated_member_takes_the_later_value() {
    let q = Params::load("{\"rps_max\": 1, \"rps_max\": 2}").unwrap();
    assert_eq!(q.rps_max, 2);
}

#[test]
fn integer_tokens_fill_decimal_members() {
    let q = Params::load("{\"anon_size_ratio\": 3}").unwrap();
    assert_eq!(q.anon_size_ratio.nanos, 3_000_000_000);
}

#[test]
fn long_fractions_keep_nine_digits() {
    let q = Params::load("{\"mem_frac\": 0.1234567891234}").unwrap();
    assert_eq!(q.mem_frac.nanos, 123_456_789);
}

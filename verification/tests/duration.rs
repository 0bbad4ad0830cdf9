use gateway_api::duration::{Duration, MAX_DURATION_MS};
use gateway_api::parse::K8sDuration;
use std::str::FromStr;

/// The parts of a Kubernetes duration, as the library holds them.
fn k8s_parts(d: kube::core::Duration) -> K8sDuration {
    let std_duration = std::time::Duration::from(d);
    K8sDuration {
        is_negative: d.is_negative(),
        secs: std_duration.as_secs(),
        subsec_nanos: std_duration.subsec_nanos(),
    }
}

#[test]
fn test_gep2257_from_valid_duration() {
    let test_cases = vec![
        Duration::from_secs(0),
        Duration::from_secs(10),
        Duration::from_secs(1800),
        Duration::from_secs(3600),
        Duration::from_secs(9000),
        Duration::from_secs(5410),
        Duration::from_millis(500),
        Duration::from_millis(600),
        Duration::new(7200, 600_000_000),
        Duration::new(7200 + 1800, 600_000_000),
        Duration::new(7200 + 1800 + 10, 600_000_000),
        Duration::from_millis(MAX_DURATION_MS as u64),
    ];

    for (idx, duration) in test_cases.iter().enumerate() {
        assert!(duration.is_ok(), "{:?}: Duration {:?} should be OK", idx, duration);
    }
}

#[test]
fn test_gep2257_from_invalid_duration() {
    let test_cases = vec![
        (
            Duration::from_micros(100),
            Err("Cannot express sub-millisecond precision in GEP-2257".to_string()),
        ),
        (
            Duration::from_secs(10000 * 86400),
            Err("Duration exceeds GEP-2257 maximum 99999h59m59s999ms".to_string()),
        ),
        (
            Duration::from_millis((MAX_DURATION_MS + 1) as u64),
            Err("Duration exceeds GEP-2257 maximum 99999h59m59s999ms".to_string()),
        ),
    ];

    for (idx, (duration, expected)) in test_cases.into_iter().enumerate() {
        assert_eq!(duration, expected, "{:?}: Duration {:?} should be an error", idx, duration);
    }
}

#[test]
fn test_gep2257_from_valid_k8s_duration() {
    let test_cases = vec![
        (kube::core::Duration::from_str("0s").unwrap(), Duration::from_secs(0).unwrap()),
        (kube::core::Duration::from_str("1h").unwrap(), Duration::from_secs(3600).unwrap()),
        (kube::core::Duration::from_str("500ms").unwrap(), Duration::from_millis(500).unwrap()),
        (
            kube::core::Duration::from_str("2h600ms").unwrap(),
            Duration::new(7200, 600_000_000).unwrap(),
        ),
    ];

    for (idx, (k8s_duration, expected)) in test_cases.into_iter().enumerate() {
        let duration = Duration::try_from_k8s(k8s_parts(k8s_duration));

        assert!(
            duration.as_ref().is_ok_and(|d| *d == expected),
            "{:?}: Duration {:?} should be {:?}",
            idx,
            duration,
            expected
        );
    }
}

#[test]
fn test_gep2257_from_invalid_k8s_duration() {
    let test_cases: Vec<(kube::core::Duration, Result<Duration, String>)> = vec![
        (
            kube::core::Duration::from_str("100us").unwrap(),
            Err("Cannot express sub-millisecond precision in GEP-2257".to_string()),
        ),
        (
            kube::core::Duration::from_str("100000h").unwrap(),
            Err("Duration exceeds GEP-2257 maximum 99999h59m59s999ms".to_string()),
        ),
        (
            kube::core::Duration::from(std::time::Duration::from_millis(
                (MAX_DURATION_MS + 1) as u64,
            )),
            Err("Duration exceeds GEP-2257 maximum 99999h59m59s999ms".to_string()),
        ),
        (
            kube::core::Duration::from_str("-5s").unwrap(),
            Err("Duration cannot be negative".to_string()),
        ),
    ];

    for (idx, (k8s_duration, expected)) in test_cases.into_iter().enumerate() {
        assert_eq!(
            Duration::try_from_k8s(k8s_parts(k8s_duration)),
            expected,
            "{:?}: k8sDuration {:?} should be error {:?}",
            idx,
            k8s_duration,
            expected
        );
    }
}

#[test]
fn test_gep2257_from_str() {
    let test_cases = vec![
        ("0h", Duration::from_secs(0)),
        ("0s", Duration::from_secs(0)),
        ("0h0m0s", Duration::from_secs(0)),
        ("1h", Duration::from_secs(3600)),
        ("30m", Duration::from_secs(1800)),
        ("10s", Duration::from_secs(10)),
        ("500ms", Duration::from_millis(500)),
        ("2h30m", Duration::from_secs(9000)),
        ("150m", Duration::from_secs(9000)),
        ("7230s", Duration::from_secs(7230)),
        ("1h30m10s", Duration::from_secs(5410)),
        ("10s30m1h", Duration::from_secs(5410)),
        ("100ms200ms300ms", Duration::from_millis(600)),
        ("100ms200ms300ms", Duration::from_millis(600)),
        ("99999h59m59s999ms", Duration::from_millis(MAX_DURATION_MS as u64)),
        ("1d", Err("Invalid duration format".to_string())),
        ("1", Err("Invalid duration format".to_string())),
        ("1m1", Err("Invalid duration format".to_string())),
        ("1h30m10s20ms50h", Err("Invalid duration format".to_string())),
        ("999999h", Err("Invalid duration format".to_string())),
        ("1.5h", Err("Invalid duration format".to_string())),
        ("-15m", Err("Invalid duration format".to_string())),
        (
            "99999h59m59s1000ms",
            Err("Duration exceeds GEP-2257 maximum 99999h59m59s999ms".to_string()),
        ),
    ];

    for (idx, (duration_str, expected)) in test_cases.into_iter().enumerate() {
        assert_eq!(
            Duration::from_str(duration_str),
            expected,
            "{:?}: Duration {:?} should be {:?}",
            idx,
            duration_str,
            expected
        );
    }
}

#[test]
fn test_gep2257_format() {
    let test_cases = vec![
        (Duration::from_secs(0), "0s".to_string()),
        (Duration::from_secs(3600), "1h".to_string()),
        (Duration::from_secs(1800), "30m".to_string()),
        (Duration::from_secs(10), "10s".to_string()),
        (Duration::from_millis(500), "500ms".to_string()),
        (Duration::from_secs(9000), "2h30m".to_string()),
        (Duration::from_secs(5410), "1h30m10s".to_string()),
        (Duration::from_millis(600), "600ms".to_string()),
        (Duration::new(7200, 600_000_000), "2h600ms".to_string()),
        (Duration::new(7200 + 1800, 600_000_000), "2h30m600ms".to_string()),
        (Duration::new(7200 + 1800 + 10, 600_000_000), "2h30m10s600ms".to_string()),
    ];

    for (idx, (duration, expected)) in test_cases.into_iter().enumerate() {
        assert!(
            duration.as_ref().is_ok_and(|d| d.to_string() == expected),
            "{:?}: Duration {:?} should be {:?}",
            idx,
            duration,
            expected
        );
    }
}

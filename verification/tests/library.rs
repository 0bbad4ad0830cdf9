use gateway_api::duration::{is_valid, Duration, MAX_DURATION_MS};
use gateway_api::parse::K8sDuration;
use gateway_api::text::{append_decimal, append_part, is_gep2257_format};

const SUB_MS: &str = "Cannot express sub-millisecond precision in GEP-2257";
const TOO_LONG: &str = "Duration exceeds GEP-2257 maximum 99999h59m59s999ms";

#[test]
fn format_check_agrees_with_the_pattern() {
    let pattern = regex::Regex::new(r"^([0-9]{1,5}(h|m|s|ms)){1,4}$").unwrap();
    let pieces = ["", "0", "1", "12345", "123456", "h", "m", "s", "ms", "mss", "d", "-", ".", "µ"];
    let mut texts: Vec<String> = Vec::new();
    for a in pieces.iter() {
        for b in pieces.iter() {
            for c in pieces.iter() {
                texts.push(format!("{}{}{}", a, b, c));
            }
        }
    }
    for extra in [
        "1h1m1s1ms",
        "1h1m1s1ms1h",
        "1ms1ms1ms1ms",
        "99999h59m59s999ms",
        "00000h",
        "1m1s",
        "1mss",
        "1msms",
        "1h ",
        " 1h",
        "1H",
    ] {
        texts.push(extra.to_string());
    }
    for text in texts.iter() {
        assert_eq!(is_gep2257_format(text), pattern.is_match(text), "{:?}", text);
    }
}

#[test]
fn getters_give_the_parts() {
    let d = Duration::new(5410, 250_000_000).unwrap();
    assert_eq!(d.as_secs(), 5410);
    assert_eq!(d.as_millis(), 5_410_250);
    assert_eq!(d.as_nanos(), 5_410_250_000);
    assert_eq!(Duration::from_millis(1).unwrap().as_nanos(), 1000);
    assert_eq!(d.subsec_nanos(), 250_000_000);
    assert!(!d.is_zero());
    assert!(Duration::from_secs(0).unwrap().is_zero());
    let max = Duration::from_millis(MAX_DURATION_MS as u64).unwrap();
    assert_eq!(max.as_millis(), MAX_DURATION_MS);
    assert_eq!(max.as_secs(), 359_999_999);
    assert_eq!(max.subsec_nanos(), 999_000_000);
}

#[test]
fn new_carries_nanoseconds_into_seconds() {
    let d = Duration::new(1, 1_500_000_000).unwrap();
    assert_eq!(d, Duration::from_millis(2500).unwrap());
    assert_eq!(d.to_string(), "2s500ms");
    assert_eq!(Duration::new(0, 1_000_001), Err(SUB_MS.to_string()));
}

#[test]
fn each_error_has_its_input() {
    assert_eq!(Duration::from_micros(1_500), Err(SUB_MS.to_string()));
    assert_eq!(Duration::from_micros(1_000).unwrap().as_millis(), 1);
    assert_eq!(Duration::from_secs(360_000_000), Err(TOO_LONG.to_string()));
    assert_eq!(Duration::from_secs(359_999_999).unwrap().as_millis(), 359_999_999_000);
    assert_eq!(Duration::from_str("1h1h1h1h1h"), Err("Invalid duration format".to_string()));
    assert_eq!(Duration::from_str(""), Err("Invalid duration format".to_string()));
    assert_eq!(
        Duration::try_from_k8s(K8sDuration { is_negative: true, secs: 1, subsec_nanos: 0 }),
        Err("Duration cannot be negative".to_string())
    );
    assert_eq!(is_valid(1, 1), Err(SUB_MS.to_string()));
    assert_eq!(is_valid(359_999_999, 999_000_000), Ok(()));
    assert_eq!(is_valid(360_000_000, 0), Err(TOO_LONG.to_string()));
}

#[test]
fn std_durations_convert() {
    let d = Duration::try_from_std(std::time::Duration::from_millis(90_061_001)).unwrap();
    assert_eq!(d.as_millis(), 90_061_001);
    assert_eq!(d.to_string(), "25h1m1s1ms");
    assert_eq!(
        Duration::try_from_std(std::time::Duration::from_nanos(1)),
        Err(SUB_MS.to_string())
    );
    assert_eq!(
        Duration::try_from_std(std::time::Duration::from_secs(360_000_000)),
        Err(TOO_LONG.to_string())
    );
}

#[test]
fn parse_reads_each_unit() {
    assert_eq!(Duration::from_str("1h").unwrap().as_millis(), 3_600_000);
    assert_eq!(Duration::from_str("1m").unwrap().as_millis(), 60_000);
    assert_eq!(Duration::from_str("1s").unwrap().as_millis(), 1_000);
    assert_eq!(Duration::from_str("1ms").unwrap().as_millis(), 1);
    assert_eq!(Duration::from_str("00042s").unwrap().as_millis(), 42_000);
}

#[test]
fn zero_is_written_0s() {
    assert_eq!(Duration::from_millis(0).unwrap().to_string(), "0s");
}

#[test]
fn formatting_writes_each_unit_once_greatest_first() {
    let max = Duration::from_millis(MAX_DURATION_MS as u64).unwrap();
    assert_eq!(max.to_string(), "99999h59m59s999ms");
    assert_eq!(Duration::from_millis(3_600_001).unwrap().to_string(), "1h1ms");
    assert_eq!(Duration::from_millis(61_000).unwrap().to_string(), "1m1s");
}

#[test]
fn formatted_text_parses_back() {
    let mut ms: u64 = 0;
    while ms <= MAX_DURATION_MS as u64 {
        let d = Duration::from_millis(ms).unwrap();
        let text = d.to_string();
        assert!(is_gep2257_format(&text), "{}", text);
        assert_eq!(Duration::from_str(&text), Ok(d), "{}", text);
        ms = ms * 7 + 12_345;
    }
    for ms in [1u64, 999, 1000, 59_999, 60_000, 3_599_999, 3_600_000, 86_399_999] {
        let d = Duration::from_millis(ms).unwrap();
        assert_eq!(Duration::from_str(&d.to_string()), Ok(d));
    }
}

#[test]
fn parse_of_a_text_in_the_format_is_its_sum() {
    assert_eq!(Duration::from_str("1ms1s1m1h").unwrap().as_millis(), 3_661_001);
    assert_eq!(Duration::from_str("10h90m").unwrap().as_millis(), 41_400_000);
    assert_eq!(Duration::from_str("99999h99999m"), Err(TOO_LONG.to_string()));
}

#[test]
fn decimal_numerals() {
    let mut out = String::from("x");
    append_decimal(&mut out, 0);
    append_decimal(&mut out, 907);
    append_decimal(&mut out, u64::MAX);
    assert_eq!(out, format!("x0907{}", u64::MAX));
    let mut part = String::new();
    append_part(&mut part, 0, "h");
    append_part(&mut part, 12, "m");
    assert_eq!(part, "12m");
}

#[test]
fn same_length_is_equality() {
    let a = Duration::from_millis(1500).unwrap();
    let b = Duration::new(1, 500_000_000).unwrap();
    let c = Duration::from_millis(1501).unwrap();
    assert!(a.same_length(&b));
    assert_eq!(a, b);
    assert!(!a.same_length(&c));
}

#[test]
fn std_conversion_examples() {
    assert_eq!(
        Duration::try_from_std(std::time::Duration::from_millis(1500)),
        Duration::from_millis(1500)
    );
    assert_eq!(
        Duration::try_from_std(std::time::Duration::from_micros(100)),
        Err(SUB_MS.to_string())
    );
}

#[test]
fn k8s_converts_as_its_std_magnitude() {
    for (secs, nanos) in [(0u64, 0u32), (5, 250_000_000), (1, 1), (360_000_000, 0)] {
        let k = K8sDuration { is_negative: false, secs, subsec_nanos: nanos };
        let d = std::time::Duration::new(secs, nanos);
        assert_eq!(Duration::try_from_k8s(k), Duration::try_from_std(d));
    }
}

/// Every count of a unit that the format allows parses exactly.
fn parses_every_count_of(unit: &str, unit_ms: u64) {
    for count in 0..=99_999u64 {
        let text = format!("{}{}", count, unit);
        assert_eq!(
            Duration::from_str(&text),
            Duration::from_millis(count * unit_ms),
            "{}",
            text
        );
    }
}

#[test]
fn parses_every_count_of_hours() {
    parses_every_count_of("h", 3_600_000);
}

#[test]
fn parses_every_count_of_minutes() {
    parses_every_count_of("m", 60_000);
}

#[test]
fn parses_every_count_of_seconds() {
    parses_every_count_of("s", 1_000);
}

#[test]
fn parses_every_count_of_milliseconds() {
    parses_every_count_of("ms", 1);
}

use dns_bench::duration::Duration;
use dns_bench::net::IpAddress;
use dns_bench::output::{duration_color, success_rate_color, Color};
use dns_bench::result::{MeasureResult, RawResultEntry, TimeResult};

fn google(resolved: IpAddress, time: TimeResult) -> MeasureResult {
    MeasureResult {
        name: String::from("Google"),
        ip: IpAddress::V4(8, 8, 8, 8),
        resolved_ip: resolved,
        time,
    }
}

#[test]
fn test_raw_result_entry_from() {
    let measure_results = vec![
        MeasureResult {
            name: String::from("Google"),
            ip: IpAddress::V4(8, 8, 8, 8),
            resolved_ip: IpAddress::V4(8, 8, 8, 8),
            time: TimeResult::Succeeded(Duration::new(0, 100)),
        },
        MeasureResult {
            name: String::from("Google"),
            ip: IpAddress::V4(8, 8, 8, 8),
            resolved_ip: IpAddress::V4(8, 8, 8, 8),
            time: TimeResult::Succeeded(Duration::new(0, 200)),
        },
        MeasureResult {
            name: String::from("Google"),
            ip: IpAddress::V4(8, 8, 8, 8),
            resolved_ip: IpAddress::V4(8, 8, 8, 8),
            time: TimeResult::Failed(String::from("Timeout")),
        },
    ];

    let result_entry = RawResultEntry::from(measure_results);

    assert_eq!(result_entry.name, "Google");
    assert_eq!(result_entry.ip, IpAddress::V4(8, 8, 8, 8));
    assert_eq!(result_entry.last_resolved_ip, IpAddress::V4(8, 8, 8, 8));
    assert_eq!(result_entry.total_requests, 3);
    assert_eq!(result_entry.successful_requests, 2);
    let (successful, total) = result_entry.success_ratio();
    let percentage = successful as f32 / total as f32 * 100.0;
    assert_eq!(percentage, 66.66667);
    assert_eq!(
        success_rate_color(result_entry.successful_requests, result_entry.total_requests),
        Color::BrightYellow
    );
    // Min
    assert_eq!(
        result_entry.min_duration,
        TimeResult::Succeeded(Duration::new(0, 100))
    );
    assert_eq!(duration_color(&result_entry.min_duration), Color::BrightGreen);
    // Max
    assert_eq!(
        result_entry.max_duration,
        TimeResult::Succeeded(Duration::new(0, 200))
    );
    assert_eq!(duration_color(&result_entry.max_duration), Color::BrightGreen);
    // Avg
    assert_eq!(
        result_entry.avg_duration,
        TimeResult::Succeeded(Duration::new(0, 150))
    );
    assert_eq!(duration_color(&result_entry.avg_duration), Color::BrightGreen);
}

#[test]
fn aggregate_all_failed_marks_every_duration() {
    let entry = RawResultEntry::from(vec![
        google(IpAddress::V4(0, 0, 0, 0), TimeResult::Failed(String::from("refused"))),
        google(IpAddress::V4(0, 0, 0, 0), TimeResult::Failed(String::from("timed out"))),
    ]);
    let marker = TimeResult::Failed(String::from("No responses"));
    assert_eq!(entry.total_requests, 2);
    assert_eq!(entry.successful_requests, 0);
    assert_eq!(entry.min_duration, marker);
    assert_eq!(entry.max_duration, marker);
    assert_eq!(entry.avg_duration, marker);
    assert_eq!(entry.last_resolved_ip, IpAddress::V4(0, 0, 0, 0));
}

#[test]
fn aggregate_keeps_last_successful_address() {
    let entry = RawResultEntry::from(vec![
        google(IpAddress::V4(1, 2, 3, 4), TimeResult::Succeeded(Duration::new(0, 10))),
        google(IpAddress::V4(5, 6, 7, 8), TimeResult::Succeeded(Duration::new(0, 20))),
        google(IpAddress::V4(0, 0, 0, 0), TimeResult::Failed(String::from("timeout"))),
    ]);
    assert_eq!(entry.last_resolved_ip, IpAddress::V4(5, 6, 7, 8));
}

#[test]
fn aggregate_average_rounds_down() {
    let entry = RawResultEntry::from(vec![
        google(IpAddress::V4(1, 1, 1, 1), TimeResult::Succeeded(Duration::new(0, 1))),
        google(IpAddress::V4(1, 1, 1, 1), TimeResult::Succeeded(Duration::new(0, 2))),
    ]);
    assert_eq!(entry.avg_duration, TimeResult::Succeeded(Duration::new(0, 1)));
    let entry = RawResultEntry::from(vec![
        google(IpAddress::V4(1, 1, 1, 1), TimeResult::Succeeded(Duration::new(1, 0))),
        google(IpAddress::V4(1, 1, 1, 1), TimeResult::Succeeded(Duration::new(2, 1))),
        google(IpAddress::V4(1, 1, 1, 1), TimeResult::Succeeded(Duration::new(u64::MAX, 999_999_999))),
    ]);
    let total: u128 = 1_000_000_000 + 2_000_000_001 + (u64::MAX as u128 * 1_000_000_000 + 999_999_999);
    assert_eq!(entry.avg_duration, TimeResult::Succeeded(Duration::from_nanos(total / 3)));
    assert_eq!(entry.max_duration, TimeResult::Succeeded(Duration::new(u64::MAX, 999_999_999)));
    assert_eq!(entry.min_duration, TimeResult::Succeeded(Duration::new(1, 0)));
}

#[test]
fn aggregate_twice_gives_equal_records() {
    let measurements = vec![
        google(IpAddress::V4(9, 9, 9, 9), TimeResult::Succeeded(Duration::new(0, 700))),
        google(IpAddress::V4(0, 0, 0, 0), TimeResult::Failed(String::from("refused"))),
        google(IpAddress::V4(9, 9, 9, 8), TimeResult::Succeeded(Duration::new(3, 5))),
    ];
    let first = RawResultEntry::from(measurements.clone());
    let second = RawResultEntry::from(measurements);
    assert_eq!(first, second);
}

#[test]
fn is_timeout_looks_for_either_phrase_in_any_case() {
    assert!(TimeResult::Failed(String::from("request timed out")).is_timeout());
    assert!(TimeResult::Failed(String::from("Timeout")).is_timeout());
    assert!(TimeResult::Failed(String::from("connection TIMED OUT after 1s")).is_timeout());
    assert!(TimeResult::Failed(String::from("xTiMeOuTx")).is_timeout());
    assert!(!TimeResult::Failed(String::from("connection refused")).is_timeout());
    assert!(!TimeResult::Failed(String::from("timed  out")).is_timeout());
    assert!(!TimeResult::Failed(String::from("time out")).is_timeout());
    assert!(!TimeResult::Failed(String::new()).is_timeout());
    assert!(!TimeResult::Succeeded(Duration::new(0, 1)).is_timeout());
}

#[test]
fn is_timeout_agrees_with_lowercase_search() {
    for text in ["Timed Out", "no", "TIMEOUT!", "tımeout", "ti meout", "éTIMEOUTé", "timedout"] {
        let lower = text.to_ascii_lowercase();
        let expected = lower.contains("timeout") || lower.contains("timed out");
        assert_eq!(TimeResult::Failed(String::from(text)).is_timeout(), expected);
    }
}

#[test]
fn xml_type_and_error_text() {
    let ok = TimeResult::Succeeded(Duration::new(0, 100));
    let failed = TimeResult::Failed(String::from("Timeout"));
    assert!(ok.is_succeeded() && !ok.is_failed());
    assert!(failed.is_failed() && !failed.is_succeeded());
    assert_eq!(ok.get_xml_type_str(), "succeeded");
    assert_eq!(failed.get_xml_type_str(), "failed");
    assert_eq!(ok.get_error_str(), None);
    assert_eq!(failed.get_error_str(), Some("Timeout"));
}

#[test]
fn duration_millis_has_six_decimal_places() {
    let millis = |secs, nanos| TimeResult::Succeeded(Duration::new(secs, nanos)).get_duration_millis();
    assert_eq!(millis(0, 100), Some(String::from("0.000100")));
    assert_eq!(millis(0, 150), Some(String::from("0.000150")));
    assert_eq!(millis(0, 50), Some(String::from("0.000050")));
    assert_eq!(millis(0, 0), Some(String::from("0.000000")));
    assert_eq!(millis(1, 500_000), Some(String::from("1000.500000")));
    assert_eq!(millis(12, 345_678_901), Some(String::from("12345.678901")));
    assert_eq!(TimeResult::Failed(String::from("x")).get_duration_millis(), None);
}

#[test]
fn duration_millis_agrees_with_floating_point() {
    for (secs, nanos) in [(0u64, 1u32), (0, 999_999), (0, 1_000_000), (3, 141_592_653), (86_400, 7)] {
        let d = std::time::Duration::new(secs, nanos);
        let millis = d.as_secs() * 1000 + u64::from(d.subsec_millis());
        let fractional = d.subsec_nanos() % 1_000_000;
        let expected = format!("{:.6}", millis as f64 + fractional as f64 / 1_000_000.0);
        assert_eq!(
            TimeResult::Succeeded(Duration::new(secs, nanos)).get_duration_millis(),
            Some(expected)
        );
    }
}

#[test]
fn time_result_text() {
    assert_eq!(TimeResult::Succeeded(Duration::new(0, 100)).to_text(), "100ns");
    assert_eq!(TimeResult::Succeeded(Duration::new(0, 150)).to_text(), "150ns");
    assert_eq!(TimeResult::Failed(String::from("No responses")).to_text(), "No responses");
}

#[test]
fn duration_text_agrees_with_std() {
    let cases: [(u64, u32); 16] = [
        (0, 0),
        (0, 1),
        (0, 999),
        (0, 1_000),
        (0, 1_500),
        (0, 2_250),
        (0, 999_999),
        (0, 1_000_000),
        (0, 150_000_000),
        (0, 1_234_567),
        (0, 999_999_999),
        (1, 0),
        (1, 500_000_000),
        (1, 1),
        (12, 340_000_000),
        (u64::MAX, 999_999_999),
    ];
    for (secs, nanos) in cases {
        let expected = format!("{:?}", std::time::Duration::new(secs, nanos));
        assert_eq!(Duration::new(secs, nanos).to_text(), expected);
    }
}

#[test]
fn duration_parts() {
    let d = Duration::new(2, 1_500_000_000);
    assert_eq!(d.as_nanos(), 3_500_000_000);
    assert_eq!(d.as_millis(), 3_500);
    assert_eq!(d.subsec_nanos(), 500_000_000);
    assert_eq!(Duration::from_nanos(3_500_000_000), d);
}

#[test]
fn duration_millis_of_long_durations_is_exact() {
    let millis = |secs, nanos| TimeResult::Succeeded(Duration::new(secs, nanos)).get_duration_millis();
    assert_eq!(millis(10_000_000_000, 1), Some(String::from("10000000000000.000001")));
    assert_eq!(
        millis(u64::MAX, 999_999_999),
        Some(String::from("18446744073709551615999.999999"))
    );
}

#[test]
fn aggregate_of_no_measurements() {
    let entry = RawResultEntry::from(vec![]);
    let marker = TimeResult::Failed(String::from("No responses"));
    assert_eq!(
        entry,
        RawResultEntry {
            name: String::new(),
            ip: IpAddress::V4(0, 0, 0, 0),
            last_resolved_ip: IpAddress::V4(0, 0, 0, 0),
            total_requests: 0,
            successful_requests: 0,
            min_duration: marker.clone(),
            max_duration: marker.clone(),
            avg_duration: marker,
        }
    );
    assert_eq!(entry.success_ratio(), (0, 1));
    let (successful, total) = entry.success_ratio();
    let percentage = successful as f32 / total as f32 * 100.0;
    assert_eq!(percentage.to_bits(), 0.0f32.to_bits());
}

#[test]
fn success_ratio_is_the_counts_where_attempts_were_made() {
    let all_failed = RawResultEntry::from(vec![google(
        IpAddress::V4(0, 0, 0, 0),
        TimeResult::Failed(String::from("refused")),
    )]);
    assert_eq!(all_failed.success_ratio(), (0, 1));
    let some = RawResultEntry::from(vec![
        google(IpAddress::V4(1, 1, 1, 1), TimeResult::Succeeded(Duration::new(0, 1))),
        google(IpAddress::V4(0, 0, 0, 0), TimeResult::Failed(String::from("refused"))),
        google(IpAddress::V4(1, 1, 1, 1), TimeResult::Succeeded(Duration::new(0, 3))),
    ]);
    assert_eq!(some.success_ratio(), (2, 3));
}

#[test]
fn aggregate_of_many_long_durations_does_not_overflow() {
    let longest = Duration::new(u64::MAX, 999_999_999);
    let measurements: Vec<MeasureResult> = (0..1000)
        .map(|i| {
            let time = if i % 3 == 0 {
                TimeResult::Succeeded(Duration::new(u64::MAX - 2, 999_999_998))
            } else {
                TimeResult::Succeeded(longest)
            };
            google(IpAddress::V4(1, 1, 1, 1), time)
        })
        .collect();
    let entry = RawResultEntry::from(measurements);
    assert_eq!(entry.total_requests, 1000);
    assert_eq!(entry.successful_requests, 1000);
    assert_eq!(entry.max_duration, TimeResult::Succeeded(longest));
    assert_eq!(
        entry.min_duration,
        TimeResult::Succeeded(Duration::new(u64::MAX - 2, 999_999_998))
    );
    // 334 durations are shorter by 2.000000001 s than the other 666.
    let longest_nanos = u64::MAX as u128 * 1_000_000_000 + 999_999_999;
    let expected = longest_nanos - (334 * 2_000_000_001u128 + 999) / 1000;
    assert_eq!(entry.avg_duration, TimeResult::Succeeded(Duration::from_nanos(expected)));
    assert_eq!(Duration::new(7, 5).as_secs(), 7);
}

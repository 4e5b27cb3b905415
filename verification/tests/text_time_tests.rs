use rustcost::codes::{AlertMetricType, AlertOperator, AlertSeverity, LlmProvider};
use rustcost::text::{key_upper, parse_i32, parse_u32, parse_u64, parse_usize, text_lower, trim_str, u64_to_dec};
use rustcost::metrics::adapters::{month_file_key, month_file_key_of, year_file_key, year_file_key_of};
use rustcost::time::{instant_string, UtcTime};

#[test]
fn decimal_text_reads_back() {
    for n in [0u64, 7, 10, 99, 12345, u64::MAX] {
        assert_eq!(parse_u64(&u64_to_dec(n)), Some(n));
    }
    assert_eq!(u64_to_dec(1200), "1200");
}

#[test]
fn numbers_parse_like_from_str() {
    assert_eq!(parse_u64("+42"), Some(42));
    assert_eq!(parse_u64(""), None);
    assert_eq!(parse_u64("-1"), None);
    assert_eq!(parse_u64("18446744073709551616"), None);
    assert_eq!(parse_u32("4294967295"), Some(u32::MAX));
    assert_eq!(parse_u32("4294967296"), None);
    assert_eq!(parse_usize("12a"), None);
    assert_eq!(parse_i32("-2147483648"), Some(i32::MIN));
    assert_eq!(parse_i32("2147483648"), None);
}

#[test]
fn trim_and_case() {
    assert_eq!(trim_str("  a b \t\n"), "a b");
    assert_eq!(key_upper("enable_x"), "ENABLE_X");
    assert_eq!(key_upper("straße"), "STRASSE");
    assert_eq!(text_lower("16Gi"), "16gi");
    assert_eq!(text_lower("ÄB"), "äb");
}

#[test]
fn rfc3339_instant_text() {
    let with_nanos = UtcTime { secs: 1_704_164_645, nanos: 500_000_000 };
    assert_eq!(instant_string(with_nanos), "2024-01-02T03:04:05.500+00:00");
    let whole = UtcTime { secs: 1_704_164_645, nanos: 0 };
    assert_eq!(instant_string(whole), "2024-01-02T03:04:05+00:00");
    assert_eq!(instant_string(UtcTime { secs: i64::MAX, nanos: 0 }), "");
}

#[test]
fn calendar_breakdown() {
    let t = UtcTime { secs: 1_704_164_645, nanos: 0 };
    assert_eq!(month_file_key_of(t), Some("2024-01".to_string()));
    assert_eq!(year_file_key_of(t), Some("2024".to_string()));
    assert_eq!(month_file_key(2024, 3), Some("2024-03".to_string()));
    assert_eq!(month_file_key(2024, 13), None);
    assert_eq!(year_file_key(2024), Some("2024".to_string()));
}

#[test]
fn alert_codes_round_trip() {
    for m in [
        AlertMetricType::CpuUsagePercent,
        AlertMetricType::MemoryUsagePercent,
        AlertMetricType::DiskUsagePercent,
        AlertMetricType::GpuUsagePercent,
    ] {
        assert_eq!(AlertMetricType::from_code(m.as_code()), Some(m));
    }
    for o in [AlertOperator::GreaterThan, AlertOperator::LessThan, AlertOperator::GreaterThanOrEqual, AlertOperator::LessThanOrEqual] {
        assert_eq!(AlertOperator::from_code(o.as_code()), Some(o));
    }
    for s in [AlertSeverity::Info, AlertSeverity::Warning, AlertSeverity::Critical] {
        assert_eq!(AlertSeverity::from_code(s.as_code()), Some(s));
    }
    assert_eq!(AlertMetricType::from_code("memory"), Some(AlertMetricType::MemoryUsagePercent));
    assert_eq!(AlertOperator::from_code("gte"), Some(AlertOperator::GreaterThanOrEqual));
    assert_eq!(AlertSeverity::from_code("bogus"), None);
}

#[test]
fn provider_codes_and_aliases() {
    for p in [LlmProvider::Gpt, LlmProvider::Gemini, LlmProvider::Grok, LlmProvider::HuggingFace] {
        assert_eq!(LlmProvider::from_code(p.as_code()), Some(p));
    }
    assert_eq!(LlmProvider::from_code("openai"), Some(LlmProvider::Gpt));
    assert_eq!(LlmProvider::from_code("Google"), Some(LlmProvider::Gemini));
    assert_eq!(LlmProvider::from_code("xai"), Some(LlmProvider::Grok));
    assert_eq!(LlmProvider::from_code("hf"), Some(LlmProvider::HuggingFace));
    assert_eq!(LlmProvider::from_code("mistral"), None);
}

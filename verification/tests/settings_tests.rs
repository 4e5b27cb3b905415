use rustcost::codes::{AlertMetricType, AlertOperator, AlertSeverity, LlmProvider};
use rustcost::settings::alerts::{AlertRuleEntity, InfoAlertEntity, InfoAlertFsAdapter, InfoAlertRepository, InfoAlertUpsertRequest, normalize_string_opt};
use rustcost::settings::llm::{
    InfoLlmEntity, InfoLlmFsAdapter, InfoLlmRepository, InfoLlmUpsertRequest, LlmFloatBits, LlmFloatTexts, clean_list,
    normalize_string, DEFAULT_TEMPERATURE_BITS,
};
use rustcost::time::UtcTime;

fn at(secs: i64) -> UtcTime {
    UtcTime { secs, nanos: 0 }
}

fn rule(id: &str, threshold: f64) -> AlertRuleEntity {
    AlertRuleEntity {
        id: id.to_string(),
        name: format!("{} rule", id),
        metric_type: AlertMetricType::MemoryUsagePercent,
        operator: AlertOperator::GreaterThanOrEqual,
        threshold_bits: threshold.to_bits(),
        for_duration_sec: 300,
        severity: AlertSeverity::Critical,
        enabled: false,
    }
}

fn empty_alert_update() -> InfoAlertUpsertRequest {
    InfoAlertUpsertRequest {
        enable_cluster_health_alert: None,
        enable_rustcost_health_alert: None,
        global_alert_subject: None,
        linkback_url: None,
        email_recipients: None,
        slack_webhook_url: None,
        teams_webhook_url: None,
        discord_webhook_url: None,
        rules: None,
    }
}

#[test]
fn alert_defaults() {
    let e = InfoAlertEntity::default_at(at(100));
    assert!(!e.enable_cluster_health_alert);
    assert_eq!(e.global_alert_subject, "RustCost Alert");
    assert_eq!(e.version, "1.0.0");
    assert!(e.rules.is_empty());
    assert_eq!(e.created_at, at(100));
}

#[test]
fn alert_update_normalizes_urls() {
    assert_eq!(normalize_string_opt(Some("  ".to_string())), Some(None));
    assert_eq!(normalize_string_opt(Some(" x ".to_string())), Some(Some(" x ".to_string())));
    assert_eq!(normalize_string_opt(None), None);
    let mut e = InfoAlertEntity::default_at(at(1));
    e.slack_webhook_url = Some("https://hooks/old".to_string());
    let mut req = empty_alert_update();
    req.slack_webhook_url = Some("   ".to_string());
    req.linkback_url = Some("https://cost".to_string());
    req.enable_cluster_health_alert = Some(true);
    e.apply_update_at(req, at(50));
    assert_eq!(e.slack_webhook_url, None);
    assert_eq!(e.linkback_url, Some("https://cost".to_string()));
    assert!(e.enable_cluster_health_alert);
    assert_eq!(e.updated_at, at(50));
    assert_eq!(e.created_at, at(1));
}

#[test]
fn alert_empty_update_changes_only_time() {
    let mut e = InfoAlertEntity::default_at(at(1));
    e.apply_update_at(empty_alert_update(), at(9));
    let mut f = InfoAlertEntity::default_at(at(1));
    f.updated_at = at(9);
    assert_eq!(format!("{:?}", e), format!("{:?}", f));
}

#[test]
fn alert_file_round_trip() {
    let mut e = InfoAlertEntity::default_at(at(1_700_000_000));
    e.updated_at = UtcTime { secs: 1_700_000_500, nanos: 123_456_789 };
    e.enable_rustcost_health_alert = true;
    e.email_recipients = vec!["a@x.io".to_string(), "b@x.io".to_string()];
    e.discord_webhook_url = Some("https://discord/hook".to_string());
    e.rules = vec![rule("cpu-high", 75.5), rule("mem", 90.0)];
    let texts: Vec<String> = e.rules.iter().map(|r| format!("{}", f64::from_bits(r.threshold_bits))).collect();
    let lines = InfoAlertFsAdapter::file_lines(&e, &texts);
    assert_eq!(lines[0], "ALERT_RULE_COUNT:2");
    assert_eq!(lines[1], "ALERT_RULE_0_ID:cpu-high");
    assert_eq!(lines[5], "ALERT_RULE_0_THRESHOLD:75.5");
    assert_eq!(lines[8], "ALERT_RULE_0_ENABLED:false");
    assert!(lines.contains(&"EMAIL_RECIPIENTS:a@x.io,b@x.io".to_string()));
    assert!(lines.contains(&"LINKBACK_URL:".to_string()));
    let read_texts = InfoAlertFsAdapter::threshold_texts(&lines);
    assert_eq!(read_texts, vec![Some("75.5".to_string()), Some("90".to_string())]);
    let bits: Vec<u64> = read_texts.iter().map(|t| t.as_ref().and_then(|s| s.parse::<f64>().ok()).unwrap_or(0.0).to_bits()).collect();
    let back = InfoAlertFsAdapter::settings_from_lines(&lines, at(5), &bits);
    assert_eq!(format!("{:?}", back), format!("{:?}", e));
}

#[test]
fn alert_file_reading_defaults_and_oddities() {
    let lines: Vec<String> = vec![
        "  enable_cluster_health_alert :  TRUE ".to_string(),
        "no colon here".to_string(),
        "ALERT_RULE_COUNT:2".to_string(),
        "ALERT_RULE_1_METRIC:gpu".to_string(),
        "ALERT_RULE_1_FOR_SEC:abc".to_string(),
        "CREATED_AT:garbage".to_string(),
        "VERSION: 2.0 ".to_string(),
    ];
    let e = InfoAlertFsAdapter::settings_from_lines(&lines, at(77), &vec![]);
    assert!(e.enable_cluster_health_alert);
    assert_eq!(e.version, "2.0");
    assert_eq!(e.created_at, at(77));
    assert_eq!(e.rules.len(), 2);
    assert_eq!(e.rules[0].id, "rule-0");
    assert_eq!(e.rules[0].name, "rule-0");
    assert_eq!(e.rules[0].metric_type, AlertMetricType::CpuUsagePercent);
    assert_eq!(e.rules[0].threshold_bits, 0);
    assert!(e.rules[0].enabled);
    assert_eq!(e.rules[1].metric_type, AlertMetricType::GpuUsagePercent);
    assert_eq!(e.rules[1].for_duration_sec, 0);
    assert_eq!(e.rules[1].severity, AlertSeverity::Warning);
}

#[test]
fn repositories_build() {
    let _a = InfoAlertRepository::new();
    let _l = InfoLlmRepository::new();
}

fn empty_llm_update() -> InfoLlmUpsertRequest {
    InfoLlmUpsertRequest {
        provider: None,
        base_url: None,
        token: None,
        model: None,
        max_output_tokens: None,
        temperature_bits: None,
        top_p_bits: None,
        top_k: None,
        presence_penalty_bits: None,
        frequency_penalty_bits: None,
        timeout_ms: None,
        stream: None,
        stop_sequences: None,
        organization: None,
        user: None,
    }
}

#[test]
fn llm_defaults() {
    let e = InfoLlmEntity::default_at(at(3));
    assert_eq!(e.provider, LlmProvider::Gpt);
    assert_eq!(e.model, Some("gpt-4o-mini".to_string()));
    assert_eq!(e.max_output_tokens, Some(2048));
    assert_eq!(e.temperature_bits, Some(0.2f32.to_bits()));
    assert_eq!(DEFAULT_TEMPERATURE_BITS, 0.2f32.to_bits());
    assert_eq!(e.timeout_ms, Some(30_000));
    assert!(!e.stream);
}

#[test]
fn llm_normalizing() {
    assert_eq!(normalize_string("  gpt-4o ".to_string()), Some("gpt-4o".to_string()));
    assert_eq!(normalize_string(" \t".to_string()), None);
    assert_eq!(clean_list(vec![" a ".to_string(), "".to_string(), "  ".to_string(), "b".to_string()]), Some(vec!["a".to_string(), "b".to_string()]));
    assert_eq!(clean_list(vec![" ".to_string()]), None);
}

#[test]
fn llm_update_applies_fields() {
    let mut e = InfoLlmEntity::default_at(at(3));
    let mut req = empty_llm_update();
    req.provider = Some(LlmProvider::Gemini);
    req.token = Some("  sk-123  ".to_string());
    req.model = Some("   ".to_string());
    req.top_p_bits = Some(0.9f32.to_bits());
    req.stop_sequences = Some(vec!["END".to_string(), " ".to_string()]);
    req.stream = Some(true);
    e.apply_update_at(req, at(10));
    assert_eq!(e.provider, LlmProvider::Gemini);
    assert_eq!(e.token, Some("sk-123".to_string()));
    assert_eq!(e.model, None);
    assert_eq!(e.top_p_bits, Some(0.9f32.to_bits()));
    assert_eq!(e.stop_sequences, Some(vec!["END".to_string()]));
    assert!(e.stream);
    assert_eq!(e.updated_at, at(10));
    assert_eq!(e.created_at, at(3));
}

#[test]
fn llm_masked_token() {
    let mut e = InfoLlmEntity::default_at(at(3));
    assert_eq!(e.masked_token(), None);
    e.token = Some("short".to_string());
    assert_eq!(e.masked_token(), Some("***".to_string()));
    e.token = Some("12345678".to_string());
    assert_eq!(e.masked_token(), Some("***".to_string()));
    e.token = Some("sk-abcdefgh1234".to_string());
    assert_eq!(e.masked_token(), Some("***1234".to_string()));
    e.token = Some("ééééé".to_string());
    assert_eq!(e.masked_token(), Some("***éééé".to_string()));
    e.token = Some("abcdefgh€".to_string());
    assert_eq!(e.masked_token(), Some("***fgh€".to_string()));
    e.token = Some("€€€".to_string());
    assert_eq!(e.masked_token(), Some("***€€€".to_string()));
}

#[test]
fn llm_file_round_trip() {
    let mut e = InfoLlmEntity::default_at(at(1_700_000_000));
    e.provider = LlmProvider::Grok;
    e.token = Some("secret".to_string());
    e.top_k = Some(40);
    e.presence_penalty_bits = Some(0.5f32.to_bits());
    e.stop_sequences = Some(vec!["STOP".to_string(), "END".to_string()]);
    e.user = Some("me".to_string());
    e.created_at = UtcTime { secs: 1_600_000_000, nanos: 250_000_000 };
    let texts = LlmFloatTexts {
        temperature: e.temperature_bits.map(|b| format!("{}", f32::from_bits(b))),
        top_p: None,
        presence_penalty: e.presence_penalty_bits.map(|b| format!("{}", f32::from_bits(b))),
        frequency_penalty: None,
    };
    let lines = InfoLlmFsAdapter::file_lines(&e, &texts);
    assert_eq!(lines[0], "PROVIDER:GROK");
    assert!(lines.contains(&"TEMPERATURE:0.2".to_string()));
    assert!(lines.contains(&"STOP_SEQUENCES:STOP,END".to_string()));
    assert!(!lines.iter().any(|l| l.starts_with("TOP_P:")));
    let read = InfoLlmFsAdapter::float_texts(&lines);
    assert_eq!(read.temperature, Some("0.2".to_string()));
    assert_eq!(read.top_p, None);
    let parse = |t: &Option<String>| t.as_ref().and_then(|s| s.parse::<f32>().ok()).map(|f| f.to_bits());
    let parsed = LlmFloatBits {
        temperature: parse(&read.temperature),
        top_p: parse(&read.top_p),
        presence_penalty: parse(&read.presence_penalty),
        frequency_penalty: parse(&read.frequency_penalty),
    };
    let back = InfoLlmFsAdapter::settings_from_lines(&lines, at(2), parsed);
    assert_eq!(format!("{:?}", back), format!("{:?}", e));
}

#[test]
fn llm_file_reading_bad_numbers() {
    let lines: Vec<String> = vec![
        "MAX_OUTPUT_TOKENS: lots".to_string(),
        "PROVIDER:unknown".to_string(),
        "TEMPERATURE:warm".to_string(),
        "STOP_SEQUENCES: , ".to_string(),
        "stream:True".to_string(),
    ];
    let read = InfoLlmFsAdapter::float_texts(&lines);
    assert_eq!(read.temperature, Some("warm".to_string()));
    let parsed = LlmFloatBits { temperature: None, top_p: None, presence_penalty: None, frequency_penalty: None };
    let e = InfoLlmFsAdapter::settings_from_lines(&lines, at(2), parsed);
    assert_eq!(e.max_output_tokens, None);
    assert_eq!(e.provider, LlmProvider::Gpt);
    assert_eq!(e.temperature_bits, None);
    assert_eq!(e.stop_sequences, None);
    assert!(e.stream);
    assert_eq!(e.timeout_ms, Some(30_000));
}

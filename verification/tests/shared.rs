use javy::shared_config::{config_schema, SharedConfig, SharedConfigExtended};
use javy::text::{parse_u64, str_eq};
use javy::Config;

fn empty_shared() -> SharedConfig {
    SharedConfig {
        javy_stream_io: None,
        simd_json_builtins: None,
        text_encoding: None,
        event_loop: None,
        timers: None,
        redirect_stdout_to_stderr: None,
        wait_for_completion: None,
    }
}

#[test]
fn shared_config_applies_only_given_settings() {
    let mut config = Config::default();
    let mut shared = empty_shared();
    shared.event_loop = Some(true);
    shared.timers = Some(true);
    shared.apply_to_config(&mut config);

    assert!(config.event_loop_enabled);
    assert!(config.timers_enabled);
    assert!(!config.javy_stream_io);
    assert!(!config.wait_for_completion_enabled);
    assert_eq!(config.wait_timeout_ms_value, None);
}

#[test]
fn extended_shared_config_carries_the_timeout() {
    let mut config = Config::default();
    let mut base = empty_shared();
    base.event_loop = Some(true);
    base.wait_for_completion = Some(true);
    let extended = SharedConfigExtended {
        base,
        wait_timeout_ms: Some(1234),
    };
    extended.apply_to_config(&mut config);

    assert!(config.event_loop_enabled);
    assert!(config.wait_for_completion_enabled);
    assert_eq!(config.wait_timeout_ms_value, Some(1234));

    // An absent timeout leaves the configured one alone
    let extended = SharedConfigExtended {
        base: empty_shared(),
        wait_timeout_ms: None,
    };
    extended.apply_to_config(&mut config);
    assert_eq!(config.wait_timeout_ms_value, Some(1234));
}

#[test]
fn schema_lists_every_supported_property() {
    let schema = config_schema();
    let names: Vec<String> = schema
        .supported_properties
        .iter()
        .map(|p| p.name.clone())
        .collect();
    assert_eq!(
        names,
        vec![
            "javy-stream-io",
            "simd-json-builtins",
            "text-encoding",
            "event-loop",
            "timers",
            "redirect-stdout-to-stderr",
            "wait-for-completion",
            "wait-timeout-ms",
        ]
    );
    for property in &schema.supported_properties {
        assert!(!property.doc.is_empty());
    }
}

#[test]
fn decimal_parsing_matches_the_standard_library() {
    assert_eq!(parse_u64("0"), Some(0));
    assert_eq!(parse_u64("5000"), Some(5000));
    assert_eq!(parse_u64("+42"), Some(42));
    assert_eq!(parse_u64("18446744073709551615"), Some(u64::MAX));
    assert_eq!(parse_u64("18446744073709551616"), None);
    assert_eq!(parse_u64("99999999999999999999"), None);
    assert_eq!(parse_u64(""), None);
    assert_eq!(parse_u64("+"), None);
    assert_eq!(parse_u64("12a"), None);
    assert_eq!(parse_u64("-1"), None);

    for case in ["0", "5000", "+42", "18446744073709551615", "12a", "-1", ""] {
        assert_eq!(parse_u64(case), case.parse::<u64>().ok());
    }
}

#[test]
fn string_equality_compares_characters() {
    assert!(str_eq("wait-for-completion", "wait-for-completion"));
    assert!(!str_eq("event-loop", "event-lop"));
    assert!(!str_eq("a", "ab"));
    assert!(str_eq("", ""));
}

use javy::commands::{
    CodegenGroupValue, CodegenOption, CodegenOptionGroup, GroupOption, GroupOptionParser,
    JsConfigError, JsGroupOption, JsGroupOptionParser, JsGroupValue, WitOptions,
};
use javy::js_config::{JsConfig, JsConfigProperty, JsOptionValue};
use javy::shared_config::config_schema;

fn default_plugin_properties() -> Vec<JsConfigProperty> {
    config_schema().supported_properties
}

#[test]
fn js_config_from_config_values() {
    let properties = default_plugin_properties();

    let group = JsConfig::from_group_values(&properties, vec![]).unwrap();
    assert_eq!(group.get("javy-stream-io"), None);
    assert_eq!(group.get("simd-json-builtins"), None);
    assert_eq!(group.get("text-encoding"), None);

    let group = JsConfig::from_group_values(
        &properties,
        vec![JsGroupValue::Opt(JsGroupOption {
            name: "javy-stream-io".to_string(),
            value: JsOptionValue::Boolean(false),
        })],
    )
    .unwrap();
    assert_eq!(group.get("javy-stream-io"), Some(false));

    let group = JsConfig::from_group_values(
        &properties,
        vec![JsGroupValue::Opt(JsGroupOption {
            name: "javy-stream-io".to_string(),
            value: JsOptionValue::Boolean(true),
        })],
    )
    .unwrap();
    assert_eq!(group.get("javy-stream-io"), Some(true));

    let group = JsConfig::from_group_values(
        &properties,
        vec![JsGroupValue::Opt(JsGroupOption {
            name: "simd-json-builtins".to_string(),
            value: JsOptionValue::Boolean(false),
        })],
    )
    .unwrap();
    assert_eq!(group.get("simd-json-builtins"), Some(false));

    let group = JsConfig::from_group_values(
        &properties,
        vec![JsGroupValue::Opt(JsGroupOption {
            name: "simd-json-builtins".to_string(),
            value: JsOptionValue::Boolean(true),
        })],
    )
    .unwrap();
    assert_eq!(group.get("simd-json-builtins"), Some(true));

    let group = JsConfig::from_group_values(
        &properties,
        vec![JsGroupValue::Opt(JsGroupOption {
            name: "text-encoding".to_string(),
            value: JsOptionValue::Boolean(false),
        })],
    )
    .unwrap();
    assert_eq!(group.get("text-encoding"), Some(false));

    let group = JsConfig::from_group_values(
        &properties,
        vec![JsGroupValue::Opt(JsGroupOption {
            name: "text-encoding".to_string(),
            value: JsOptionValue::Boolean(true),
        })],
    )
    .unwrap();
    assert_eq!(group.get("text-encoding"), Some(true));

    let group = JsConfig::from_group_values(
        &properties,
        vec![
            JsGroupValue::Opt(JsGroupOption {
                name: "javy-stream-io".to_string(),
                value: JsOptionValue::Boolean(false),
            }),
            JsGroupValue::Opt(JsGroupOption {
                name: "simd-json-builtins".to_string(),
                value: JsOptionValue::Boolean(false),
            }),
            JsGroupValue::Opt(JsGroupOption {
                name: "text-encoding".to_string(),
                value: JsOptionValue::Boolean(false),
            }),
        ],
    )
    .unwrap();
    assert_eq!(group.get("javy-stream-io"), Some(false));
    assert_eq!(group.get("simd-json-builtins"), Some(false));
    assert_eq!(group.get("text-encoding"), Some(false));
}

#[test]
fn codegen_group_conversion_between_vector_of_options_and_group() {
    let group = CodegenOptionGroup::try_from(vec![]).unwrap();
    assert_eq!(group, CodegenOptionGroup::default());

    let raw = vec![GroupOption(vec![
        CodegenOption::Dynamic(true),
        CodegenOption::Plugin("file.wasm".to_string()),
    ])];
    let group = CodegenOptionGroup::try_from(raw).unwrap();
    let expected = CodegenOptionGroup {
        dynamic: true,
        plugin: Some("file.wasm".to_string()),
        ..Default::default()
    };

    assert_eq!(group, expected);

    let raw = vec![GroupOption(vec![CodegenOption::SourceCompression(false)])];
    let group = CodegenOptionGroup::try_from(raw).unwrap();
    let expected = CodegenOptionGroup {
        source_compression: false,
        ..Default::default()
    };

    assert_eq!(group, expected);

    let raw = vec![GroupOption(vec![CodegenOption::Dynamic(true)])];
    let result = CodegenOptionGroup::try_from(raw);
    assert_eq!(
        result.err().unwrap().message(),
        "Must specify plugin when using dynamic linking"
    );
}

#[test]
fn codegen_option_specified_twice_should_return_error() {
    let raw = vec![GroupOption(vec![
        CodegenOption::Dynamic(true),
        CodegenOption::Dynamic(false),
    ])];
    let result = CodegenOptionGroup::try_from(raw);
    assert_eq!(
        result.err().unwrap().message(),
        "dynamic can only be specified once"
    );

    let raw = vec![GroupOption(vec![
        CodegenOption::Wit("file.wit".to_string()),
        CodegenOption::Wit("file2.wit".to_string()),
    ])];
    let result = CodegenOptionGroup::try_from(raw);
    assert_eq!(
        result.err().unwrap().message(),
        "wit can only be specified once"
    );

    let raw = vec![GroupOption(vec![
        CodegenOption::WitWorld("world".to_string()),
        CodegenOption::WitWorld("world2".to_string()),
    ])];
    let result = CodegenOptionGroup::try_from(raw);
    assert_eq!(
        result.err().unwrap().message(),
        "wit-world can only be specified once"
    );

    let raw = vec![GroupOption(vec![
        CodegenOption::SourceCompression(true),
        CodegenOption::SourceCompression(false),
    ])];
    let result = CodegenOptionGroup::try_from(raw);
    assert_eq!(
        result.err().unwrap().message(),
        "source-compression can only be specified once"
    );

    let raw = vec![GroupOption(vec![
        CodegenOption::Plugin("file.wasm".to_string()),
        CodegenOption::Plugin("file2.wasm".to_string()),
    ])];
    let result = CodegenOptionGroup::try_from(raw);
    assert_eq!(
        result.err().unwrap().message(),
        "plugin can only be specified once"
    );
}

#[test]
fn js_option_specified_twice_should_return_error() {
    let properties = default_plugin_properties();
    let result = JsConfig::from_group_values(
        &properties,
        vec![
            JsGroupValue::Opt(JsGroupOption {
                name: "javy-stream-io".to_string(),
                value: JsOptionValue::Boolean(false),
            }),
            JsGroupValue::Opt(JsGroupOption {
                name: "javy-stream-io".to_string(),
                value: JsOptionValue::Boolean(true),
            }),
        ],
    );
    assert_eq!(
        result.err().unwrap().message(),
        "javy-stream-io can only be specified once"
    );
}

#[test]
fn wait_for_completion_requires_event_loop() {
    let properties = default_plugin_properties();

    // Test: wait-for-completion=y without event-loop should fail
    let result = JsConfig::from_group_values(
        &properties,
        vec![JsGroupValue::Opt(JsGroupOption {
            name: "wait-for-completion".to_string(),
            value: JsOptionValue::Boolean(true),
        })],
    );
    assert!(result.is_err());
    assert!(result
        .err()
        .unwrap()
        .message()
        .contains("wait-for-completion requires event-loop to be enabled"));

    // Test: wait-for-completion=y with event-loop=n should fail
    let result = JsConfig::from_group_values(
        &properties,
        vec![
            JsGroupValue::Opt(JsGroupOption {
                name: "event-loop".to_string(),
                value: JsOptionValue::Boolean(false),
            }),
            JsGroupValue::Opt(JsGroupOption {
                name: "wait-for-completion".to_string(),
                value: JsOptionValue::Boolean(true),
            }),
        ],
    );
    assert!(result.is_err());
    assert!(result
        .err()
        .unwrap()
        .message()
        .contains("wait-for-completion requires event-loop to be enabled"));

    // Test: wait-for-completion=y with event-loop=y should succeed
    let result = JsConfig::from_group_values(
        &properties,
        vec![
            JsGroupValue::Opt(JsGroupOption {
                name: "event-loop".to_string(),
                value: JsOptionValue::Boolean(true),
            }),
            JsGroupValue::Opt(JsGroupOption {
                name: "wait-for-completion".to_string(),
                value: JsOptionValue::Boolean(true),
            }),
        ],
    );
    assert!(result.is_ok());

    // Test: wait-for-completion=n should always succeed regardless of
    // event-loop
    let result = JsConfig::from_group_values(
        &properties,
        vec![JsGroupValue::Opt(JsGroupOption {
            name: "wait-for-completion".to_string(),
            value: JsOptionValue::Boolean(false),
        })],
    );
    assert!(result.is_ok());
}

#[test]
fn wait_timeout_ms_parameter_parsing() {
    let properties = default_plugin_properties();

    // Test: wait-timeout-ms with a numeric value should succeed
    let result = JsConfig::from_group_values(
        &properties,
        vec![
            JsGroupValue::Opt(JsGroupOption {
                name: "event-loop".to_string(),
                value: JsOptionValue::Boolean(true),
            }),
            JsGroupValue::Opt(JsGroupOption {
                name: "wait-for-completion".to_string(),
                value: JsOptionValue::Boolean(true),
            }),
            JsGroupValue::Opt(JsGroupOption {
                name: "wait-timeout-ms".to_string(),
                value: JsOptionValue::Number(5000),
            }),
        ],
    );
    assert!(result.is_ok());
    let config = result.unwrap();
    assert_eq!(config.get_number("wait-timeout-ms"), Some(5000));

    // Test: wait-timeout-ms with a different numeric value
    let result = JsConfig::from_group_values(
        &properties,
        vec![JsGroupValue::Opt(JsGroupOption {
            name: "wait-timeout-ms".to_string(),
            value: JsOptionValue::Number(1000),
        })],
    );
    assert!(result.is_ok());
    let config = result.unwrap();
    assert_eq!(config.get_number("wait-timeout-ms"), Some(1000));
}

#[test]
fn js_group_option_text_parses() {
    let parser = JsGroupOptionParser;

    match parser.parse_ref("help") {
        Ok(JsGroupValue::Help) => {}
        _ => panic!("help should parse as the help request"),
    }

    match parser.parse_ref("event-loop=y") {
        Ok(JsGroupValue::Opt(o)) => {
            assert_eq!(o.name, "event-loop");
            assert_eq!(o.value, JsOptionValue::Boolean(true));
        }
        _ => panic!("expected a boolean option"),
    }

    match parser.parse_ref("event-loop=n") {
        Ok(JsGroupValue::Opt(o)) => {
            assert_eq!(o.name, "event-loop");
            assert_eq!(o.value, JsOptionValue::Boolean(false));
        }
        _ => panic!("expected a boolean option"),
    }

    match parser.parse_ref("timers") {
        Ok(JsGroupValue::Opt(o)) => {
            assert_eq!(o.name, "timers");
            assert_eq!(o.value, JsOptionValue::Boolean(true));
        }
        _ => panic!("a bare name defaults to enabled"),
    }

    match parser.parse_ref("wait-timeout-ms=5000") {
        Ok(JsGroupValue::Opt(o)) => {
            assert_eq!(o.name, "wait-timeout-ms");
            assert_eq!(o.value, JsOptionValue::Number(5000));
        }
        _ => panic!("expected a numeric option"),
    }

    assert!(parser.parse_ref("wait-timeout-ms").is_err());
    assert!(parser.parse_ref("wait-timeout-ms=abc").is_err());
    assert!(parser.parse_ref("wait-timeout-ms=99999999999999999999").is_err());
    assert!(parser.parse_ref("event-loop=maybe").is_err());
}

#[test]
fn codegen_option_text_parses() {
    let parser = GroupOptionParser;

    match parser.parse_ref("help") {
        Ok(CodegenGroupValue::Help) => {}
        _ => panic!("help should parse as the help request"),
    }

    match parser.parse_ref("dynamic=y,plugin=file.wasm") {
        Ok(CodegenGroupValue::Group(group)) => {
            assert_eq!(group.0.len(), 2);
            assert!(matches!(group.0[0], CodegenOption::Dynamic(true)));
            match &group.0[1] {
                CodegenOption::Plugin(p) => assert_eq!(p, "file.wasm"),
                _ => panic!("expected the plugin path"),
            }
        }
        _ => panic!("expected a parsed group"),
    }

    match parser.parse_ref("source-compression=n") {
        Ok(CodegenGroupValue::Group(group)) => {
            assert!(matches!(group.0[0], CodegenOption::SourceCompression(false)));
        }
        _ => panic!("expected a parsed group"),
    }

    match parser.parse_ref("wit=file.wit,wit-world=world") {
        Ok(CodegenGroupValue::Group(group)) => {
            match &group.0[0] {
                CodegenOption::Wit(p) => assert_eq!(p, "file.wit"),
                _ => panic!("expected the wit path"),
            }
            match &group.0[1] {
                CodegenOption::WitWorld(w) => assert_eq!(w, "world"),
                _ => panic!("expected the wit world"),
            }
        }
        _ => panic!("expected a parsed group"),
    }

    assert!(parser.parse_ref("bogus").is_err());
    assert!(parser.parse_ref("wit").is_err());
    assert!(parser.parse_ref("dynamic=maybe").is_err());
}

#[test]
fn wit_file_requires_world() {
    let raw = vec![GroupOption(vec![CodegenOption::Wit("file.wit".to_string())])];
    let result = CodegenOptionGroup::try_from(raw);
    assert_eq!(
        result.err().unwrap().message(),
        "Must provide WIT world when providing WIT file"
    );

    // A world alone is ignored
    let raw = vec![GroupOption(vec![CodegenOption::WitWorld("world".to_string())])];
    let group = CodegenOptionGroup::try_from(raw).unwrap();
    assert_eq!(group.wit, WitOptions::default());

    // A file with a world is kept
    let raw = vec![GroupOption(vec![
        CodegenOption::Wit("file.wit".to_string()),
        CodegenOption::WitWorld("world".to_string()),
    ])];
    let group = CodegenOptionGroup::try_from(raw).unwrap();
    assert_eq!(group.wit.path, Some("file.wit".to_string()));
    assert_eq!(group.wit.world, Some("world".to_string()));
}

#[test]
fn help_and_unsupported_property_are_distinct_errors() {
    let properties = default_plugin_properties();

    let result = JsConfig::from_group_values(&properties, vec![JsGroupValue::Help]);
    assert!(matches!(result, Err(JsConfigError::HelpRequested)));

    let result = JsConfig::from_group_values(
        &properties,
        vec![JsGroupValue::Opt(JsGroupOption {
            name: "no-such-option".to_string(),
            value: JsOptionValue::Boolean(true),
        })],
    );
    assert_eq!(
        result.err().unwrap().message(),
        "Property no-such-option is not supported for runtime configuration"
    );
}

//! Runtime configuration received from the command-line tool: the settings a
//! plugin accepts, how they apply to a `Config`, and the schema the plugin
//! reports so that the tool can validate property names up front.
//!
//! The JSON carrying these settings is decoded and encoded at the process
//! boundary; the meaning of the decoded values lives here.

use vstd::prelude::*;

use crate::config::Config;
use crate::js_config::{ConfigSchema, JsConfigProperty};

verus! {

/// An optional setting's value, or the default where it was not given.
pub open spec fn opt_or(setting: Option<bool>, default: bool) -> bool {
    match setting {
        Some(b) => b,
        None => default,
    }
}

/// The runtime settings shared between the command-line tool and a plugin;
/// absent fields leave the configuration untouched.
pub struct SharedConfig {
    /// Whether to enable the `Javy.readSync` and `Javy.writeSync` builtins.
    pub javy_stream_io: Option<bool>,
    /// Whether to override the `JSON.parse` and `JSON.stringify`
    /// implementations with an alternative, more performant one.
    pub simd_json_builtins: Option<bool>,
    /// Whether to enable support for the `TextEncoder` and `TextDecoder`
    /// APIs.
    pub text_encoding: Option<bool>,
    /// Whether to enable the event loop.
    pub event_loop: Option<bool>,
    /// Whether to enable timer APIs (`setTimeout`, `clearTimeout`,
    /// `setInterval`, `clearInterval`).
    pub timers: Option<bool>,
    /// Whether to redirect `console.log` output to stderr instead of stdout.
    pub redirect_stdout_to_stderr: Option<bool>,
    /// Whether to wait for asynchronous operations (timers, promises) to
    /// complete before exiting.
    pub wait_for_completion: Option<bool>,
}

/// The shared settings together with the wait deadline, which rides beside
/// them in the same document.
pub struct SharedConfigExtended {
    pub base: SharedConfig,
    /// Maximum time to wait for asynchronous operations in milliseconds.
    pub wait_timeout_ms: Option<u64>,
}

impl SharedConfig {
    /// Apply every given setting to the configuration; absent settings and
    /// the wait deadline stay as they were.
    #[verifier::rlimit(60)]
    pub fn apply_to_config(&self, config: &mut Config)
        ensures
            *final(config) == (Config {
                javy_stream_io: opt_or(self.javy_stream_io, old(config).javy_stream_io),
                simd_json_builtins: opt_or(
                    self.simd_json_builtins,
                    old(config).simd_json_builtins,
                ),
                text_encoding: opt_or(self.text_encoding, old(config).text_encoding),
                redirect_stdout_to_stderr: opt_or(
                    self.redirect_stdout_to_stderr,
                    old(config).redirect_stdout_to_stderr,
                ),
                timers_enabled: opt_or(self.timers, old(config).timers_enabled),
                event_loop_enabled: opt_or(self.event_loop, old(config).event_loop_enabled),
                wait_for_completion_enabled: opt_or(
                    self.wait_for_completion,
                    old(config).wait_for_completion_enabled,
                ),
                wait_timeout_ms_value: old(config).wait_timeout_ms_value,
            }),
    {
        if let Some(enable) = self.javy_stream_io {
            config.javy_stream_io = enable;
        }
        if let Some(enable) = self.simd_json_builtins {
            config.simd_json_builtins = enable;
        }
        if let Some(enable) = self.text_encoding {
            config.text_encoding = enable;
        }
        if let Some(enable) = self.event_loop {
            config.event_loop(enable);
        }
        if let Some(enable) = self.timers {
            config.timers(enable);
        }
        if let Some(enable) = self.redirect_stdout_to_stderr {
            config.redirect_stdout_to_stderr = enable;
        }
        if let Some(enable) = self.wait_for_completion {
            config.wait_for_completion(enable);
        }
    }
}

impl SharedConfigExtended {
    /// Apply the shared settings, then the wait deadline when given.
    pub fn apply_to_config(&self, config: &mut Config)
        ensures
            *final(config) == (Config {
                javy_stream_io: opt_or(self.base.javy_stream_io, old(config).javy_stream_io),
                simd_json_builtins: opt_or(
                    self.base.simd_json_builtins,
                    old(config).simd_json_builtins,
                ),
                text_encoding: opt_or(self.base.text_encoding, old(config).text_encoding),
                redirect_stdout_to_stderr: opt_or(
                    self.base.redirect_stdout_to_stderr,
                    old(config).redirect_stdout_to_stderr,
                ),
                timers_enabled: opt_or(self.base.timers, old(config).timers_enabled),
                event_loop_enabled: opt_or(
                    self.base.event_loop,
                    old(config).event_loop_enabled,
                ),
                wait_for_completion_enabled: opt_or(
                    self.base.wait_for_completion,
                    old(config).wait_for_completion_enabled,
                ),
                wait_timeout_ms_value: (match self.wait_timeout_ms {
                    Some(t) => Some(t),
                    None => old(config).wait_timeout_ms_value,
                }),
            }),
    {
        self.base.apply_to_config(config);
        if let Some(timeout_ms) = self.wait_timeout_ms {
            config.wait_timeout_ms(Some(timeout_ms));
        }
    }
}

/// The configuration schema this plugin understands: each property's name
/// and its documentation.
pub fn config_schema() -> (schema: ConfigSchema)
    ensures
        schema.supported_properties@.len() == 8,
        schema.supported_properties@[0].name@ == "javy-stream-io"@,
        schema.supported_properties@[1].name@ == "simd-json-builtins"@,
        schema.supported_properties@[2].name@ == "text-encoding"@,
        schema.supported_properties@[3].name@ == "event-loop"@,
        schema.supported_properties@[4].name@ == "timers"@,
        schema.supported_properties@[5].name@ == "redirect-stdout-to-stderr"@,
        schema.supported_properties@[6].name@ == "wait-for-completion"@,
        schema.supported_properties@[7].name@ == "wait-timeout-ms"@,
{
    let mut supported_properties: Vec<JsConfigProperty> = Vec::new();
    supported_properties.push(
        JsConfigProperty {
            name: String::from_str("javy-stream-io"),
            doc: String::from_str(
                "Whether to enable the `Javy.readSync` and `Javy.writeSync` builtins.\n",
            ),
        },
    );
    supported_properties.push(
        JsConfigProperty {
            name: String::from_str("simd-json-builtins"),
            doc: String::from_str(
                "Whether to override the `JSON.parse` and `JSON.stringify` implementations with an alternative, more performant, SIMD based implementation.\n",
            ),
        },
    );
    supported_properties.push(
        JsConfigProperty {
            name: String::from_str("text-encoding"),
            doc: String::from_str(
                "Whether to enable support for the `TextEncoder` and `TextDecoder` APIs.\n",
            ),
        },
    );
    supported_properties.push(
        JsConfigProperty {
            name: String::from_str("event-loop"),
            doc: String::from_str("Whether to enable the event loop.\n"),
        },
    );
    supported_properties.push(
        JsConfigProperty {
            name: String::from_str("timers"),
            doc: String::from_str(
                "Whether to enable timer APIs (`setTimeout`, `clearTimeout`, `setInterval`, `clearInterval`).\n",
            ),
        },
    );
    supported_properties.push(
        JsConfigProperty {
            name: String::from_str("redirect-stdout-to-stderr"),
            doc: String::from_str(
                "Whether to redirect console.log output to stderr instead of stdout.\n",
            ),
        },
    );
    supported_properties.push(
        JsConfigProperty {
            name: String::from_str("wait-for-completion"),
            doc: String::from_str(
                "Whether to wait for async operations (timers, promises) to complete before exiting.\n",
            ),
        },
    );
    supported_properties.push(
        JsConfigProperty {
            name: String::from_str("wait-timeout-ms"),
            doc: String::from_str(
                "Maximum time to wait for async operations in milliseconds.\n",
            ),
        },
    );
    ConfigSchema { supported_properties }
}

} // verus!

//! Runtime configuration for a plugin activation, and the validity rule
//! that gates initialization.

use vstd::prelude::*;

verus! {

/// Process-wide configuration, fixed once per plugin initialization.
pub struct Config {
    /// Whether to enable the `Javy.readSync` and `Javy.writeSync` builtins.
    pub javy_stream_io: bool,
    /// Whether to override the `JSON.parse` and `JSON.stringify`
    /// implementations with an alternative, more performant one.
    pub simd_json_builtins: bool,
    /// Whether to enable support for the `TextEncoder` and `TextDecoder`
    /// APIs.
    pub text_encoding: bool,
    /// Whether to redirect `console.log` output to stderr instead of stdout.
    pub redirect_stdout_to_stderr: bool,
    /// Whether timer APIs (`setTimeout`, `clearTimeout`, `setInterval`,
    /// `clearInterval`) are exposed to the guest.
    pub timers_enabled: bool,
    /// Whether promises and timers may remain pending across an evaluation,
    /// requiring explicit draining.
    pub event_loop_enabled: bool,
    /// Whether to block until all asynchronous work completes before
    /// exiting.  Requires the event loop to be enabled.
    pub wait_for_completion_enabled: bool,
    /// Maximum time to wait for asynchronous work, in milliseconds.  `None`
    /// means an unbounded wait.
    pub wait_timeout_ms_value: Option<u64>,
}

impl Default for Config {
    /// Every feature off, with an unbounded wait.
    fn default() -> (c: Config)
        ensures
            !c.javy_stream_io,
            !c.simd_json_builtins,
            !c.text_encoding,
            !c.redirect_stdout_to_stderr,
            !c.timers_enabled,
            !c.event_loop_enabled,
            !c.wait_for_completion_enabled,
            c.wait_timeout_ms_value is None,
    {
        Config {
            javy_stream_io: false,
            simd_json_builtins: false,
            text_encoding: false,
            redirect_stdout_to_stderr: false,
            timers_enabled: false,
            event_loop_enabled: false,
            wait_for_completion_enabled: false,
            wait_timeout_ms_value: None,
        }
    }
}

impl Config {
    /// A configuration is valid when waiting for completion implies that the
    /// event loop is enabled.
    pub open spec fn valid(&self) -> bool {
        self.wait_for_completion_enabled ==> self.event_loop_enabled
    }

    /// Whether to enable the event loop.
    pub fn event_loop(&mut self, enabled: bool)
        ensures
            *final(self) == (Config { event_loop_enabled: enabled, ..*old(self) }),
    {
        self.event_loop_enabled = enabled;
    }

    /// Whether to enable timer APIs (`setTimeout`, `clearTimeout`,
    /// `setInterval`, `clearInterval`).
    pub fn timers(&mut self, enabled: bool)
        ensures
            *final(self) == (Config { timers_enabled: enabled, ..*old(self) }),
    {
        self.timers_enabled = enabled;
    }

    /// Whether to wait for asynchronous operations (timers, promises) to
    /// complete before exiting.  Requires the event loop to be enabled.
    pub fn wait_for_completion(&mut self, enabled: bool)
        ensures
            *final(self) == (Config { wait_for_completion_enabled: enabled, ..*old(self) }),
    {
        self.wait_for_completion_enabled = enabled;
    }

    /// Set the maximum time to wait for asynchronous operations in
    /// milliseconds.  `None` means an unbounded wait (the default); it only
    /// applies when waiting for completion is enabled.
    pub fn wait_timeout_ms(&mut self, timeout_ms: Option<u64>)
        ensures
            *final(self) == (Config { wait_timeout_ms_value: timeout_ms, ..*old(self) }),
    {
        self.wait_timeout_ms_value = timeout_ms;
    }
}

} // verus!

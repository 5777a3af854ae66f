//! A JavaScript-to-WebAssembly toolchain core: timer queue, timer runtime,
//! event-loop execution protocol, and the configuration surface that gates
//! them.
//!
//! The embedded JavaScript engine itself is an external collaborator: code
//! here decides what to do (which timers fire, how a returned promise must be
//! treated, when a completion wait may stop) and hands the engine-facing
//! shell a plan of plain values to carry out.

pub mod blob;
pub mod commands;
pub mod config;
pub mod js_config;
pub mod laws;
pub mod protocol;
pub mod queue;
pub mod shared_config;
pub mod text;
pub mod timers;

pub use config::Config;
pub use queue::TimerQueue;
pub use timers::TimersRuntime;

//! Verified core of the OpenClaw animation companion: the mapping from
//! gateway tool events to character actions, the anti-flicker state
//! machine, the SSE line framing, the reconnect backoff and the
//! non-sensitive configuration defaults.
pub mod action;
pub mod pairs;
pub mod text;
pub mod clock;
pub mod state_machine;
pub mod machine_laws;
pub mod config;
pub mod sse;
pub mod token;

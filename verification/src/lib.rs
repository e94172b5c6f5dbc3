//! Core of a terminal session manager: the registry of sessions, the state
//! machine of each session's attached process, and the plans by which process
//! trees are torn down. The crate decides; its caller spawns, reads, writes
//! and signals.
//!
//! A caller keeps one [`AppState`], asks it what to do for each request, and
//! carries out the answer: a [`process::CommandSpec`] is spawned, a
//! [`terminate::KillAction`] is performed, the text of a
//! [`process::PollOutcome`] is handed to whoever polled. What the operating
//! system reports comes back as plain values.

pub mod error;
pub mod files;
pub mod ident;
pub mod laws;
pub mod operations;
pub mod output;
pub mod platform;
pub mod ports;
pub mod process;
pub mod pty;
pub mod registry;
pub mod relay;
pub mod session;
pub mod terminate;
pub mod text;

pub use error::SessionError;
pub use files::FileInfo;
pub use platform::Platform;
pub use registry::AppState;
pub use session::{BackendKind, TerminalOutput, TerminalSession, TerminalSessionData};

//! The plain data that crosses the manager's boundary: sizes, creation
//! options, the creation response, and the error taxonomy of the synchronous
//! operations.

use vstd::prelude::*;

verus! {

/// Terminal size configuration.
#[derive(Debug, Clone, Copy, PartialEq, Eq, Structural)]
pub struct TerminalSize {
    pub rows: u16,
    pub cols: u16,
}

/// One environment-variable override handed to a new session.
pub struct EnvPair {
    pub key: String,
    pub value: String,
}

/// Terminal creation options. Every field is optional; the manager fills in
/// platform defaults for the missing ones.
pub struct CreateTerminalOptions {
    pub shell: Option<String>,
    pub cwd: Option<String>,
    pub env: Option<Vec<EnvPair>>,
    pub size: Option<TerminalSize>,
}

/// Response for terminal creation.
pub struct CreateTerminalResponse {
    pub terminal_id: String,
}

/// Failures of the synchronous operations. Setup and I/O failures originate
/// in the process- and handle-level glue around the library and carry its
/// message; `NotFound` is decided here, by the registry.
#[derive(Debug, Clone)]
pub enum TerminalError {
    /// The operation referenced a session id absent from the registry.
    NotFound,
    /// PTY allocation, handle derivation, or process spawn failed.
    Setup(String),
    /// An underlying handle write, flush, or resize call failed.
    Io(String),
}

} // verus!

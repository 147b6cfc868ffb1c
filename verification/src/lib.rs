//! Core of a terminal-hosting desktop application: a pseudo-terminal (PTY)
//! session manager together with the pure logic around it (shell resolution,
//! command assembly, reader-event translation) and the small managers that
//! back the browser pane and the editor metadata.

mod browser;
mod editor;
mod events;
mod ident;
mod manager;
mod options;
mod shell;
mod text;

pub use browser::base64_decoding;
pub use browser::BrowserEntry;
pub use browser::BrowserManager;
pub use browser::BrowserState;
pub use browser::ConsoleMessage;
pub use browser::entries_contain;
pub use browser::screenshot_bytes;
pub use browser::state_of;
pub use browser::CONSOLE_LOG_CAP;
pub use editor::EditorSession;
pub use editor::FileChangeEvent;
pub use editor::FileMetadata;
pub use events::bytes_as_numbers;
pub use events::chunks_read;
pub use events::ends_naturally;
pub use events::events_of_trace;
pub use events::halted_by_shutdown;
pub use events::is_terminal_event;
pub use events::lemma_bytes_transported_in_order;
pub use events::lemma_no_terminal_event_on_shutdown;
pub use events::lemma_one_terminal_event_when_natural;
pub use events::lemma_output_events_match_chunks;
pub use events::output_payloads;
pub use events::reader_step;
pub use events::step_control;
pub use events::step_event;
pub use events::EventModel;
pub use events::OutcomeModel;
pub use events::ReadOutcome;
pub use events::ReaderControl;
pub use events::TerminalEvent;
pub use ident::dec_digits;
pub use ident::id_shape;
pub use ident::lemma_dec_digits_injective;
pub use ident::u64_to_dec;
pub use manager::close_result;
pub use manager::close_sessions;
pub use manager::index_of_session;
pub use manager::lemma_close_is_not_repeatable;
pub use manager::session_ids_distinct;
pub use manager::sessions_contain;
pub use manager::SessionRecord;
pub use manager::TerminalManager;
pub use options::CreateTerminalOptions;
pub use options::CreateTerminalResponse;
pub use options::EnvPair;
pub use options::TerminalError;
pub use options::TerminalSize;
pub use shell::build_command;
pub use shell::caller_env;
pub use shell::env_has_key;
pub use shell::get_shell_command;
pub use shell::injects_path;
pub use shell::resolved_shell;
pub use shell::CommandSpec;
pub use shell::ShellProbe;
pub use text::contains_seq;
pub use text::contains_str;
pub use text::str_eq;

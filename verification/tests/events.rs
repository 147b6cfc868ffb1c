//! The reader engine's translation of read outcomes into events: each
//! outcome alone, then whole simulated runs — the natural-exit run with its
//! single trailing terminal event and faithfully transported bytes, and the
//! shutdown run that emits no terminal event.

use forge_core::bytes_as_numbers;
use forge_core::reader_step;
use forge_core::ReadOutcome;
use forge_core::ReaderControl;
use forge_core::TerminalEvent;

fn run_reader(id: &str, outcomes: Vec<ReadOutcome>) -> Vec<TerminalEvent> {
    let mut events = Vec::new();
    for outcome in outcomes {
        let (event, control) = reader_step(id, outcome);
        if let Some(e) = event {
            events.push(e);
        }
        if control == ReaderControl::Stop {
            break;
        }
    }
    events
}

#[test]
fn data_becomes_output_and_continues() {
    let (event, control) = reader_step("t1", ReadOutcome::Data(b"hello".to_vec()));
    assert_eq!(control, ReaderControl::Continue);
    match event {
        Some(TerminalEvent::Output { terminal_id, data }) => {
            assert_eq!(terminal_id, "t1");
            assert_eq!(data, b"hello".to_vec());
        }
        other => panic!("expected an Output event, got {:?}", other.is_some()),
    }
}

#[test]
fn eof_becomes_exit_with_unknown_code_and_stops() {
    let (event, control) = reader_step("t1", ReadOutcome::Eof);
    assert_eq!(control, ReaderControl::Stop);
    match event {
        Some(TerminalEvent::Exit { terminal_id, exit_code }) => {
            assert_eq!(terminal_id, "t1");
            assert_eq!(exit_code, None);
        }
        other => panic!("expected an Exit event, got {:?}", other.is_some()),
    }
}

#[test]
fn would_block_backs_off_without_event() {
    let (event, control) = reader_step("t1", ReadOutcome::WouldBlock);
    assert_eq!(control, ReaderControl::Backoff);
    assert!(event.is_none());
}

#[test]
fn shutdown_stops_without_event() {
    let (event, control) = reader_step("t1", ReadOutcome::Shutdown);
    assert_eq!(control, ReaderControl::Stop);
    assert!(event.is_none());
}

#[test]
fn failure_becomes_error_and_stops() {
    let (event, control) = reader_step("t1", ReadOutcome::Failed("Read error: broken".to_string()));
    assert_eq!(control, ReaderControl::Stop);
    match event {
        Some(TerminalEvent::Error { terminal_id, message }) => {
            assert_eq!(terminal_id, "t1");
            assert_eq!(message, "Read error: broken");
        }
        other => panic!("expected an Error event, got {:?}", other.is_some()),
    }
}

#[test]
fn natural_run_transports_bytes_and_ends_with_one_exit() {
    let events = run_reader(
        "t1",
        vec![
            ReadOutcome::Data(b"ab".to_vec()),
            ReadOutcome::WouldBlock,
            ReadOutcome::Data(b"cd".to_vec()),
            ReadOutcome::Eof,
        ],
    );
    assert_eq!(events.len(), 3);
    let mut collected: Vec<u8> = Vec::new();
    let mut terminal_events = 0;
    for event in &events {
        match event {
            TerminalEvent::Output { data, .. } => collected.extend_from_slice(data),
            _ => terminal_events += 1,
        }
    }
    assert_eq!(collected, b"abcd".to_vec());
    assert_eq!(terminal_events, 1);
    assert!(matches!(events.last(), Some(TerminalEvent::Exit { exit_code: None, .. })));
}

#[test]
fn each_chunk_stays_contiguous_in_its_own_event() {
    let events = run_reader(
        "t1",
        vec![
            ReadOutcome::Data(b"first".to_vec()),
            ReadOutcome::Data(b"second".to_vec()),
            ReadOutcome::Eof,
        ],
    );
    assert!(matches!(&events[0], TerminalEvent::Output { data, .. } if data == &b"first".to_vec()));
    assert!(
        matches!(&events[1], TerminalEvent::Output { data, .. } if data == &b"second".to_vec())
    );
}

#[test]
fn error_run_ends_with_one_error_event() {
    let events = run_reader(
        "t1",
        vec![ReadOutcome::Data(b"x".to_vec()), ReadOutcome::Failed("Read error: io".to_string())],
    );
    assert_eq!(events.len(), 2);
    assert!(matches!(events.last(), Some(TerminalEvent::Error { .. })));
}

#[test]
fn shutdown_run_emits_no_terminal_event() {
    let events = run_reader(
        "t1",
        vec![
            ReadOutcome::Data(b"late".to_vec()),
            ReadOutcome::Shutdown,
            ReadOutcome::Eof,
        ],
    );
    assert_eq!(events.len(), 1);
    assert!(matches!(&events[0], TerminalEvent::Output { .. }));
}

#[test]
fn reader_ignores_outcomes_after_stopping() {
    let events = run_reader(
        "t1",
        vec![ReadOutcome::Eof, ReadOutcome::Data(b"never".to_vec())],
    );
    assert_eq!(events.len(), 1);
    assert!(matches!(&events[0], TerminalEvent::Exit { .. }));
}

#[test]
fn output_bytes_widen_to_numbers() {
    let numbers = bytes_as_numbers(&[0u8, 1, 127, 128, 255]);
    assert_eq!(numbers, vec![0i32, 1, 127, 128, 255]);
    assert!(bytes_as_numbers(&[]).is_empty());
}

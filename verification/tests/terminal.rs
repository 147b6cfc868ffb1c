//! Lifecycle behaviour of the terminal manager: identifier uniqueness,
//! unknown-id failures, close-twice, resize bookkeeping, and one live
//! end-to-end session over a real PTY.

use std::io::Read;
use std::io::Write;

use forge_core::build_command;
use forge_core::get_shell_command;
use forge_core::reader_step;
use forge_core::CreateTerminalOptions;
use forge_core::ReadOutcome;
use forge_core::ReaderControl;
use forge_core::ShellProbe;
use forge_core::TerminalError;
use forge_core::TerminalEvent;
use forge_core::TerminalManager;
use forge_core::TerminalSize;

fn plain_options() -> CreateTerminalOptions {
    CreateTerminalOptions { shell: None, cwd: None, env: None, size: None }
}

fn host_probe() -> ShellProbe {
    ShellProbe {
        windows: false,
        powershell_exists: false,
        bin_bash_exists: std::path::Path::new("/bin/bash").exists(),
        usr_bin_bash_exists: std::path::Path::new("/usr/bin/bash").exists(),
        usr_local_bin_bash_exists: std::path::Path::new("/usr/local/bin/bash").exists(),
        shell_var: None,
        bin_sh_exists: std::path::Path::new("/bin/sh").exists(),
    }
}

#[test]
fn create_returns_unique_nonempty_ids() {
    let mut manager = TerminalManager::new();
    let mut seen: Vec<String> = Vec::new();
    for _ in 0..50 {
        let response = manager.create_terminal(&plain_options());
        assert!(!response.terminal_id.is_empty());
        assert!(!seen.contains(&response.terminal_id));
        seen.push(response.terminal_id);
    }
}

#[test]
fn ids_stay_unique_across_close() {
    let mut manager = TerminalManager::new();
    let first = manager.create_terminal(&plain_options()).terminal_id;
    assert!(manager.close_terminal(&first).is_ok());
    let second = manager.create_terminal(&plain_options()).terminal_id;
    assert_ne!(first, second);
}

#[test]
fn unknown_id_operations_fail_with_not_found() {
    let mut manager = TerminalManager::new();
    let size = TerminalSize { rows: 50, cols: 120 };
    assert!(matches!(
        manager.write_to_terminal("does-not-exist", b"x"),
        Err(TerminalError::NotFound)
    ));
    assert!(matches!(
        manager.resize_terminal("does-not-exist", &size),
        Err(TerminalError::NotFound)
    ));
    assert!(matches!(manager.close_terminal("does-not-exist"), Err(TerminalError::NotFound)));
}

#[test]
fn close_twice_fails_the_second_time() {
    let mut manager = TerminalManager::new();
    let id = manager.create_terminal(&plain_options()).terminal_id;
    assert!(manager.close_terminal(&id).is_ok());
    assert!(matches!(manager.close_terminal(&id), Err(TerminalError::NotFound)));
}

#[test]
fn write_after_close_fails_with_not_found() {
    let mut manager = TerminalManager::new();
    let id = manager.create_terminal(&plain_options()).terminal_id;
    assert!(manager.close_terminal(&id).is_ok());
    assert!(matches!(manager.write_to_terminal(&id, b"x"), Err(TerminalError::NotFound)));
}

#[test]
fn resize_updates_the_recorded_size() {
    let mut manager = TerminalManager::new();
    let options = CreateTerminalOptions {
        shell: None,
        cwd: None,
        env: None,
        size: Some(TerminalSize { rows: 24, cols: 80 }),
    };
    let id = manager.create_terminal(&options).terminal_id;
    let before = manager.terminal_size(&id).unwrap();
    assert_eq!(before.rows, 24);
    assert_eq!(before.cols, 80);
    let outcome = manager.resize_terminal(&id, &TerminalSize { rows: 50, cols: 120 });
    assert!(outcome.is_ok());
    let after = manager.terminal_size(&id).unwrap();
    assert_eq!(after.rows, 50);
    assert_eq!(after.cols, 120);
}

#[test]
fn default_size_is_24_by_80() {
    let mut manager = TerminalManager::new();
    let id = manager.create_terminal(&plain_options()).terminal_id;
    let size = manager.terminal_size(&id).unwrap();
    assert_eq!(size.rows, 24);
    assert_eq!(size.cols, 80);
}

#[test]
fn read_from_terminal_returns_empty() {
    let manager = TerminalManager::new();
    let read = manager.read_from_terminal("anything");
    assert!(matches!(read, Ok(v) if v.is_empty()));
}

#[test]
fn deregister_is_idempotent() {
    let mut manager = TerminalManager::new();
    let id = manager.create_terminal(&plain_options()).terminal_id;
    manager.deregister_terminal(&id);
    assert!(!manager.has_terminal(&id));
    manager.deregister_terminal(&id);
    assert!(!manager.has_terminal(&id));
    assert_eq!(manager.terminal_count(), 0);
}

#[test]
fn test_create_terminal() {
    let mut manager = TerminalManager::new();
    let options = CreateTerminalOptions {
        shell: None,
        cwd: None,
        env: None,
        size: Some(TerminalSize { rows: 24, cols: 80 }),
    };

    let shell = get_shell_command(&options, &host_probe());
    let path_var = Some("/usr/local/sbin:/usr/local/bin:/usr/sbin:/usr/bin:/sbin:/bin".to_string());
    let spec = build_command(&shell, &options, &path_var);

    let pty_system = portable_pty::native_pty_system();
    let pair = pty_system
        .openpty(portable_pty::PtySize { rows: 24, cols: 80, pixel_width: 0, pixel_height: 0 })
        .expect("openpty");
    let mut cmd = portable_pty::CommandBuilder::new(&spec.program);
    for arg in &spec.args {
        cmd.arg(arg);
    }
    if let Some(cwd) = &spec.cwd {
        cmd.cwd(cwd);
    }
    for pair_kv in &spec.env {
        cmd.env(&pair_kv.key, &pair_kv.value);
    }
    let mut child = pair.slave.spawn_command(cmd).expect("spawn shell");
    let mut reader = pair.master.try_clone_reader().expect("clone reader");
    let mut writer = pair.master.take_writer().expect("take writer");

    let response = manager.create_terminal(&options);
    assert!(!response.terminal_id.is_empty());
    let terminal_id = response.terminal_id.clone();

    let write_gate = manager.write_to_terminal(&terminal_id, b"echo 'Hello from Rust terminal!'\n");
    assert!(write_gate.is_ok());
    writer.write_all(b"echo 'Hello from Rust terminal!'\n").expect("write");
    writer.flush().expect("flush");

    let mut collected: Vec<u8> = Vec::new();
    let mut buffer = vec![0u8; 4096];
    let deadline = std::time::Instant::now() + std::time::Duration::from_secs(10);
    while std::time::Instant::now() < deadline {
        let outcome = match reader.read(&mut buffer) {
            Ok(0) => ReadOutcome::Eof,
            Ok(n) => ReadOutcome::Data(buffer[..n].to_vec()),
            Err(e) if e.kind() == std::io::ErrorKind::WouldBlock => ReadOutcome::WouldBlock,
            Err(e) => ReadOutcome::Failed(format!("Read error: {}", e)),
        };
        let (event, control) = reader_step(&terminal_id, outcome);
        if let Some(TerminalEvent::Output { data, .. }) = event {
            collected.extend_from_slice(&data);
        }
        let text = String::from_utf8_lossy(&collected).to_string();
        println!("Terminal output: {}", text);
        if text.contains("Hello from Rust terminal!") {
            break;
        }
        if control == ReaderControl::Stop {
            break;
        }
    }
    assert!(String::from_utf8_lossy(&collected).contains("Hello from Rust terminal!"));

    let close_result = manager.close_terminal(&terminal_id);
    assert!(close_result.is_ok());
    let _ = child.kill();
    let _ = child.wait();
}

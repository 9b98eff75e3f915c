use thinking_space::terminal::Terminal;
use thinking_space::terminal::TerminalError;
use thinking_space::terminal::TerminalManager;
use thinking_space::terminal::DEFAULT_MAX_OUTPUT_BYTES;

#[test]
fn test_terminal_manager_creation() {
    let manager = TerminalManager::new();
    assert!(matches!(manager.get_output(1), Err(TerminalError::NotFound)));
}

#[test]
fn test_create_terminal_default_ceiling() {
    let mut manager = TerminalManager::new();
    let id = manager.create_terminal(None);
    let (output, exit) = manager.get_output(id).unwrap();
    assert_eq!(output, "");
    assert!(exit.is_none());
    // the ceiling defaults: a large append is cut down to the default
    let chunk = "x".repeat(DEFAULT_MAX_OUTPUT_BYTES + 500);
    manager.append_chunk(id, &chunk).unwrap();
    let (output, _) = manager.get_output(id).unwrap();
    assert_eq!(output.len(), DEFAULT_MAX_OUTPUT_BYTES);
}

#[test]
fn test_terminal_output_truncation() {
    // 200 bytes of output against a 100-byte ceiling: what is retained
    // is at most 100 bytes and a suffix of the true output.
    let mut manager = TerminalManager::new();
    let id = manager.create_terminal(Some(100));
    let chunk = "A".repeat(200);
    manager.append_chunk(id, &chunk).unwrap();
    let (output, _) = manager.get_output(id).unwrap();
    assert!(output.len() <= 100);
    assert!(chunk.ends_with(&output));
    assert_eq!(output, "A".repeat(100));
}

#[test]
fn test_truncation_does_not_split_multibyte_character() {
    let mut manager = TerminalManager::new();
    let id = manager.create_terminal(Some(4));
    manager.append_chunk(id, "h\u{e9}llo").unwrap();
    let (output, _) = manager.get_output(id).unwrap();
    // "héllo" is 6 bytes; the naive cut lands inside "é" and must move
    // forward to the next character boundary.
    assert_eq!(output, "llo");
}

#[test]
fn test_truncation_across_appends_keeps_suffix() {
    let mut manager = TerminalManager::new();
    let id = manager.create_terminal(Some(10));
    manager.append_chunk(id, "one\n").unwrap();
    manager.append_chunk(id, "two\n").unwrap();
    manager.append_chunk(id, "three\n").unwrap();
    let (output, _) = manager.get_output(id).unwrap();
    assert!(output.len() <= 10);
    assert!("one\ntwo\nthree\n".ends_with(&output));
}

#[test]
fn test_append_under_ceiling_keeps_everything() {
    let mut manager = TerminalManager::new();
    let id = manager.create_terminal(Some(100));
    manager.append_chunk(id, "hello\n").unwrap();
    manager.append_chunk(id, "world\n").unwrap();
    let (output, _) = manager.get_output(id).unwrap();
    assert_eq!(output, "hello\nworld\n");
}

#[test]
fn test_record_exit_and_poll() {
    let mut manager = TerminalManager::new();
    let id = manager.create_terminal(None);
    assert_eq!(manager.poll_exit(id).unwrap(), None);
    manager.record_exit(id, 3).unwrap();
    assert_eq!(manager.poll_exit(id).unwrap(), Some(3));
    let (_, exit) = manager.get_output(id).unwrap();
    assert_eq!(exit, Some(3));
}

#[test]
fn test_kill_decision() {
    let mut manager = TerminalManager::new();
    let id = manager.create_terminal(None);
    // still running: the shell must signal the process
    assert_eq!(manager.kill(id).unwrap(), true);
    manager.record_exit(id, 0).unwrap();
    // already exited: nothing to signal
    assert_eq!(manager.kill(id).unwrap(), false);
    // killing never removes the terminal
    assert!(manager.get_output(id).is_ok());
}

#[test]
fn test_kill_of_missing_terminal_is_an_error() {
    let manager = TerminalManager::new();
    assert!(matches!(manager.kill(42), Err(TerminalError::NotFound)));
}

#[test]
fn test_release_removes_without_killing() {
    // releasing a terminal that was never killed: later lookups report
    // "not found"; nothing stops the process as a side effect.
    let mut manager = TerminalManager::new();
    let id = manager.create_terminal(None);
    manager.append_chunk(id, "data").unwrap();
    manager.release(id).unwrap();
    assert!(matches!(manager.get_output(id), Err(TerminalError::NotFound)));
    assert!(matches!(manager.poll_exit(id), Err(TerminalError::NotFound)));
    assert!(matches!(manager.append_chunk(id, "late"), Err(TerminalError::NotFound)));
}

#[test]
fn test_release_is_idempotent() {
    let mut manager = TerminalManager::new();
    let id = manager.create_terminal(None);
    manager.release(id).unwrap();
    assert!(manager.release(id).is_ok());
}

#[test]
fn test_terminals_are_independent() {
    let mut manager = TerminalManager::new();
    let a = manager.create_terminal(Some(100));
    let b = manager.create_terminal(Some(100));
    assert_ne!(a, b);
    manager.append_chunk(a, "for a").unwrap();
    manager.append_chunk(b, "for b").unwrap();
    manager.release(a).unwrap();
    let (output, _) = manager.get_output(b).unwrap();
    assert_eq!(output, "for b");
}

#[test]
fn test_standalone_terminal_append() {
    let mut t = Terminal::new(7, 5);
    t.append_output("abcdefgh");
    assert_eq!(t.output, "defgh");
    assert_eq!(t.id, 7);
    assert!(t.exit_status.is_none());
}

use xtrans::terminal::{
    on_window_resize, Backend, CleanupStep, Terminal, UnixTerminal, WindowsTerminal,
    ENABLE_VIRTUAL_TERMINAL_INPUT, ENABLE_VIRTUAL_TERMINAL_PROCESSING,
};

#[test]
fn console_flags_match_win32() {
    assert_eq!(
        ENABLE_VIRTUAL_TERMINAL_INPUT,
        windows_sys::Win32::System::Console::ENABLE_VIRTUAL_TERMINAL_INPUT
    );
    assert_eq!(
        ENABLE_VIRTUAL_TERMINAL_PROCESSING,
        windows_sys::Win32::System::Console::ENABLE_VIRTUAL_TERMINAL_PROCESSING
    );
}

#[test]
fn pty_session_lifecycle() {
    let mut term = Terminal::new(Backend::Pty(UnixTerminal::new(5, 6)));
    assert_eq!(term.ssh_stdin(), Some(6));
    assert_eq!(term.finalize(), Some(5));
    // the master end was handed over: cleanup restores but closes nothing
    assert_eq!(
        term.cleanup(),
        vec![CleanupStep::RestoreTerminalMode, CleanupStep::StopResizeForwarding]
    );
}

#[test]
fn pty_cleanup_closes_master_once() {
    let mut term = Terminal::new(Backend::Pty(UnixTerminal::new(3, 4)));
    assert_eq!(
        term.cleanup(),
        vec![
            CleanupStep::RestoreTerminalMode,
            CleanupStep::StopResizeForwarding,
            CleanupStep::Close(3),
        ]
    );
    assert_eq!(
        term.cleanup(),
        vec![CleanupStep::RestoreTerminalMode, CleanupStep::StopResizeForwarding]
    );
}

#[test]
fn slave_is_handed_out_once() {
    let mut pty = UnixTerminal::new(10, 11);
    assert_eq!(pty.ssh_stdin(), 11);
    assert_eq!(pty.slave_fd, None);
    assert_eq!(pty.master_fd, 10);
}

#[test]
fn console_session_sets_and_restores_modes() {
    let (mut console, input_mode) = WindowsTerminal::new(Some(0x1f7));
    assert_eq!(input_mode, Some(ENABLE_VIRTUAL_TERMINAL_INPUT));
    assert_eq!(console.enable_output_processing(Some(0x3)), Some(0x3 | 0x4));
    let mut term = Terminal::new(Backend::Console(console));
    assert_eq!(term.ssh_stdin(), None);
    assert_eq!(term.finalize(), None);
    assert_eq!(
        term.cleanup(),
        vec![CleanupStep::SetInputMode(0x1f7), CleanupStep::SetOutputMode(0x3)]
    );
}

#[test]
fn console_without_output_mode_restores_input_only() {
    let (mut console, _) = WindowsTerminal::new(Some(7));
    assert_eq!(console.enable_output_processing(None), None);
    assert_eq!(console.cleanup(), vec![CleanupStep::SetInputMode(7)]);
}

#[test]
fn non_console_is_left_alone() {
    let (console, input_mode) = WindowsTerminal::new(None);
    assert!(!console.is_console);
    assert_eq!(input_mode, None);
    assert_eq!(console.cleanup(), vec![]);
}

#[test]
fn resize_before_and_after_start() {
    let idle = on_window_resize(-1, -1);
    assert_eq!(idle.copy_size_to, None);
    assert_eq!(idle.signal_child, None);
    let running = on_window_resize(7, 4321);
    assert_eq!(running.copy_size_to, Some(7));
    assert_eq!(running.signal_child, Some(4321));
}

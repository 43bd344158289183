//! What a terminal session holds and what it must give back.
//!
//! On Unix the session owns a pseudo-terminal pair: the slave end becomes
//! ssh's terminal, the master end carries the intercepted input, and the
//! real terminal is in raw mode until cleanup. On Windows a real console is
//! switched to virtual-terminal input and output, and cleanup restores the
//! modes it had; a non-console terminal (a pipe from mintty or MSYS2) is
//! left alone. The system calls are the caller's; this module decides which
//! descriptors and modes are handed out, kept and restored.
use vstd::prelude::*;

verus! {

/// Console input mode flag: deliver virtual-terminal sequences (so Ctrl+V
/// reaches the program as byte `0x16`).
pub const ENABLE_VIRTUAL_TERMINAL_INPUT: u32 = 0x0200;

/// Console output mode flag: interpret virtual-terminal sequences.
pub const ENABLE_VIRTUAL_TERMINAL_PROCESSING: u32 = 0x0004;

/// The pseudo-terminal pair of a Unix session.
#[derive(PartialEq, Eq, Structural, Debug, Clone, Copy)]
pub struct UnixTerminal {
    /// The master end; `-1` once handed out or closed.
    pub master_fd: i32,
    /// The slave end, until it is handed to ssh.
    pub slave_fd: Option<i32>,
}

/// The console state of a Windows session.
#[derive(PartialEq, Eq, Structural, Debug, Clone, Copy)]
pub struct WindowsTerminal {
    /// Whether standard input is a real console (its mode could be read).
    pub is_console: bool,
    /// The input mode before the session changed it.
    pub original_in_mode: u32,
    /// The output mode before the session changed it, if it did.
    pub original_out_mode: Option<u32>,
}

/// One thing to do when the session ends.
#[derive(PartialEq, Eq, Structural, Debug, Clone, Copy)]
pub enum CleanupStep {
    /// Put the real terminal back into the mode saved when raw mode began.
    RestoreTerminalMode,
    /// Stop forwarding window-size changes (forget the pty and the child).
    StopResizeForwarding,
    /// Close this descriptor.
    Close(i32),
    /// Set the console's input mode.
    SetInputMode(u32),
    /// Set the console's output mode.
    SetOutputMode(u32),
}

/// The cleanup of a Unix session whose master end is `master_fd`: restore
/// the terminal, stop resize forwarding, and close the master end if the
/// session still holds it.
pub open spec fn unix_cleanup_steps(master_fd: i32) -> Seq<CleanupStep> {
    seq![CleanupStep::RestoreTerminalMode, CleanupStep::StopResizeForwarding] + if master_fd >= 0 {
        seq![CleanupStep::Close(master_fd)]
    } else {
        seq![]
    }
}

/// The cleanup of a Windows session: for a real console, restore the input
/// mode and (if it was changed) the output mode; otherwise nothing.
pub open spec fn windows_cleanup_steps(t: WindowsTerminal) -> Seq<CleanupStep> {
    if !t.is_console {
        seq![]
    } else {
        seq![CleanupStep::SetInputMode(t.original_in_mode)] + match t.original_out_mode {
            Some(mode) => seq![CleanupStep::SetOutputMode(mode)],
            None => seq![],
        }
    }
}

fn steps_from_seq_start(first: CleanupStep, second: CleanupStep) -> (v: Vec<CleanupStep>)
    ensures
        v@ == seq![first, second],
{
    let mut v: Vec<CleanupStep> = Vec::new();
    v.push(first);
    v.push(second);
    assert(v@ =~= seq![first, second]);
    v
}

impl UnixTerminal {
    /// A session on a freshly opened pseudo-terminal pair.
    pub fn new(master_fd: i32, slave_fd: i32) -> (t: UnixTerminal)
        requires
            master_fd >= 0,
            slave_fd >= 0,
        ensures
            t.master_fd == master_fd,
            t.slave_fd == Some(slave_fd),
    {
        UnixTerminal { master_fd, slave_fd: Some(slave_fd) }
    }

    /// Hands the slave end to ssh as its standard input; it can be handed
    /// out only once.
    pub fn ssh_stdin(&mut self) -> (fd: i32)
        requires
            old(self).slave_fd is Some,
        ensures
            Some(fd) == old(self).slave_fd,
            final(self).slave_fd is None,
            final(self).master_fd == old(self).master_fd,
    {
        let fd = self.slave_fd.unwrap();
        self.slave_fd = None;
        fd
    }

    /// Hands the master end over to the writer of intercepted input; the
    /// session no longer holds it.
    pub fn finalize(&mut self) -> (fd: i32)
        requires
            old(self).master_fd >= 0,
        ensures
            fd == old(self).master_fd,
            final(self).master_fd == -1,
            final(self).slave_fd == old(self).slave_fd,
    {
        let fd = self.master_fd;
        self.master_fd = -1;
        fd
    }

    /// Ends the session: restore the terminal, stop resize forwarding, and
    /// close the master end if the session still holds it.
    pub fn cleanup(&mut self) -> (steps: Vec<CleanupStep>)
        ensures
            steps@ == unix_cleanup_steps(old(self).master_fd),
            final(self).master_fd == (if old(self).master_fd >= 0 {
                -1i32
            } else {
                old(self).master_fd
            }),
            final(self).slave_fd == old(self).slave_fd,
    {
        let mut steps = steps_from_seq_start(
            CleanupStep::RestoreTerminalMode,
            CleanupStep::StopResizeForwarding,
        );
        if self.master_fd >= 0 {
            steps.push(CleanupStep::Close(self.master_fd));
            self.master_fd = -1;
        }
        assert(steps@ =~= unix_cleanup_steps(old(self).master_fd));
        steps
    }
}

/// A second cleanup closes nothing: the master end is closed at most once.
pub proof fn lemma_master_closed_once(master_fd: i32)
    ensures
        ({
            let after = if master_fd >= 0 {
                -1i32
            } else {
                master_fd
            };
            forall|i: int| 0 <= i < unix_cleanup_steps(after).len() ==> !(#[trigger] unix_cleanup_steps(after)[i] is Close)
        }),
{
}

impl WindowsTerminal {
    /// Starts a session from the mode of standard input (`None` when it is
    /// not a console, or its mode cannot be read). Returns the session and
    /// the input mode to set: virtual-terminal input for a real console,
    /// nothing otherwise.
    pub fn new(stdin_mode: Option<u32>) -> (r: (WindowsTerminal, Option<u32>))
        ensures
            r.0.is_console == stdin_mode is Some,
            r.0.original_in_mode == (match stdin_mode {
                Some(mode) => mode,
                None => 0,
            }),
            r.0.original_out_mode is None,
            r.1 == (if stdin_mode is Some {
                Some(ENABLE_VIRTUAL_TERMINAL_INPUT)
            } else {
                None
            }),
    {
        match stdin_mode {
            Some(mode) => (
                WindowsTerminal { is_console: true, original_in_mode: mode, original_out_mode: None },
                Some(ENABLE_VIRTUAL_TERMINAL_INPUT),
            ),
            None => (
                WindowsTerminal { is_console: false, original_in_mode: 0, original_out_mode: None },
                None,
            ),
        }
    }

    /// Records the mode of standard output (`None` when it is not a
    /// console, or its mode cannot be read) and returns the output mode to
    /// set: the same mode with virtual-terminal processing added.
    pub fn enable_output_processing(&mut self, stdout_mode: Option<u32>) -> (set: Option<u32>)
        requires
            old(self).is_console,
        ensures
            set == (match stdout_mode {
                Some(mode) => Some(mode | ENABLE_VIRTUAL_TERMINAL_PROCESSING),
                None => None,
            }),
            final(self).original_out_mode == stdout_mode,
            final(self).is_console == old(self).is_console,
            final(self).original_in_mode == old(self).original_in_mode,
    {
        self.original_out_mode = stdout_mode;
        match stdout_mode {
            Some(mode) => Some(mode | ENABLE_VIRTUAL_TERMINAL_PROCESSING),
            None => None,
        }
    }

    /// Ends the session: the console modes to restore.
    pub fn cleanup(&self) -> (steps: Vec<CleanupStep>)
        ensures
            steps@ == windows_cleanup_steps(*self),
    {
        let mut steps: Vec<CleanupStep> = Vec::new();
        if !self.is_console {
            assert(steps@ =~= windows_cleanup_steps(*self));
            return steps;
        }
        steps.push(CleanupStep::SetInputMode(self.original_in_mode));
        match self.original_out_mode {
            Some(mode) => steps.push(CleanupStep::SetOutputMode(mode)),
            None => {},
        }
        assert(steps@ =~= windows_cleanup_steps(*self));
        steps
    }
}

/// A console session's cleanup restores exactly the modes it found: the
/// input mode, and the output mode whenever the session changed it.
pub proof fn lemma_console_restores_what_it_changed(stdin_mode: u32, stdout_mode: Option<u32>)
    ensures
        ({
            let t = WindowsTerminal {
                is_console: true,
                original_in_mode: stdin_mode,
                original_out_mode: stdout_mode,
            };
            windows_cleanup_steps(t) == seq![CleanupStep::SetInputMode(stdin_mode)] + match stdout_mode {
                Some(mode) => seq![CleanupStep::SetOutputMode(mode)],
                None => seq![],
            }
        }),
{
}

/// The platform part of a session.
#[derive(PartialEq, Eq, Structural, Debug, Clone, Copy)]
pub enum Backend {
    /// A pseudo-terminal pair (Unix).
    Pty(UnixTerminal),
    /// A console (Windows).
    Console(WindowsTerminal),
}

/// A terminal session for proxying ssh.
#[derive(Debug)]
pub struct Terminal {
    inner: Backend,
}

/// The cleanup steps of a backend.
pub open spec fn cleanup_steps(b: Backend) -> Seq<CleanupStep> {
    match b {
        Backend::Pty(t) => unix_cleanup_steps(t.master_fd),
        Backend::Console(t) => windows_cleanup_steps(t),
    }
}

impl Terminal {
    /// What the session holds.
    pub closed spec fn backend(&self) -> Backend {
        self.inner
    }

    /// What the session holds now.
    pub fn state(&self) -> (b: Backend)
        ensures
            b == self.backend(),
    {
        self.inner
    }

    /// A session over a prepared backend: a pseudo-terminal pair whose
    /// real terminal is now in raw mode, or a console whose modes are set.
    pub fn new(inner: Backend) -> (t: Terminal)
        ensures
            t.backend() == inner,
    {
        Terminal { inner }
    }

    /// The source of ssh's standard input: the pty's slave end (handed out
    /// once), or `None` for a pipe on a console.
    pub fn ssh_stdin(&mut self) -> (fd: Option<i32>)
        requires
            old(self).backend() matches Backend::Pty(t) ==> t.slave_fd is Some,
        ensures
            match old(self).backend() {
                Backend::Pty(t) => fd == t.slave_fd && final(self).backend() == Backend::Pty(
                    UnixTerminal { master_fd: t.master_fd, slave_fd: None },
                ),
                Backend::Console(_) => fd is None && final(self).backend() == old(self).backend(),
            },
    {
        match &mut self.inner {
            Backend::Pty(t) => Some(t.ssh_stdin()),
            Backend::Console(_) => None,
        }
    }

    /// The writer for intercepted input after ssh has started: the pty's
    /// master end (which the session then no longer holds), or `None` for
    /// ssh's standard-input pipe on a console.
    pub fn finalize(&mut self) -> (fd: Option<i32>)
        requires
            old(self).backend() matches Backend::Pty(t) ==> t.master_fd >= 0,
        ensures
            match old(self).backend() {
                Backend::Pty(t) => fd == Some(t.master_fd) && final(self).backend() == Backend::Pty(
                    UnixTerminal { master_fd: -1i32, slave_fd: t.slave_fd },
                ),
                Backend::Console(_) => fd is None && final(self).backend() == old(self).backend(),
            },
    {
        match &mut self.inner {
            Backend::Pty(t) => Some(t.finalize()),
            Backend::Console(_) => None,
        }
    }

    /// Restores the terminal: the steps to perform before the process
    /// exits.
    pub fn cleanup(&mut self) -> (steps: Vec<CleanupStep>)
        ensures
            steps@ == cleanup_steps(old(self).backend()),
            match old(self).backend() {
                Backend::Pty(t) => final(self).backend() == Backend::Pty(
                    UnixTerminal {
                        master_fd: if t.master_fd >= 0 {
                            -1i32
                        } else {
                            t.master_fd
                        },
                        slave_fd: t.slave_fd,
                    },
                ),
                Backend::Console(_) => final(self).backend() == old(self).backend(),
            },
    {
        match &mut self.inner {
            Backend::Pty(t) => t.cleanup(),
            Backend::Console(t) => t.cleanup(),
        }
    }
}

/// What a window-size change does: copy the real terminal's size to the
/// pty (when the session holds one) and signal the ssh child (when it has
/// started).
#[derive(PartialEq, Eq, Structural, Debug, Clone, Copy)]
pub struct ResizePlan {
    pub copy_size_to: Option<i32>,
    pub signal_child: Option<i32>,
}

/// Decides what a window-size change does, from the pty master end (`-1`
/// when there is none) and the ssh child's process id (`-1` before it has
/// started).
pub fn on_window_resize(master_fd: i32, child_pid: i32) -> (plan: ResizePlan)
    ensures
        plan.copy_size_to == (if master_fd >= 0 {
            Some(master_fd)
        } else {
            None
        }),
        plan.signal_child == (if child_pid > 0 {
            Some(child_pid)
        } else {
            None
        }),
{
    ResizePlan {
        copy_size_to: if master_fd >= 0 {
            Some(master_fd)
        } else {
            None
        },
        signal_child: if child_pid > 0 {
            Some(child_pid)
        } else {
            None
        },
    }
}

/// A Unix session's cleanup, for every master descriptor `m`: first the
/// terminal mode is restored, then resize forwarding stops, then `m` is
/// closed exactly when the session still holds it (`m >= 0`).
pub proof fn lemma_unix_cleanup_layout(m: i32)
    ensures
        m >= 0 ==> unix_cleanup_steps(m) == seq![
            CleanupStep::RestoreTerminalMode,
            CleanupStep::StopResizeForwarding,
            CleanupStep::Close(m),
        ],
        m < 0 ==> unix_cleanup_steps(m) == seq![
            CleanupStep::RestoreTerminalMode,
            CleanupStep::StopResizeForwarding,
        ],
{
    if m >= 0 {
        assert(unix_cleanup_steps(m) =~= seq![
            CleanupStep::RestoreTerminalMode,
            CleanupStep::StopResizeForwarding,
            CleanupStep::Close(m),
        ]);
    } else {
        assert(unix_cleanup_steps(m) =~= seq![
            CleanupStep::RestoreTerminalMode,
            CleanupStep::StopResizeForwarding,
        ]);
    }
}

/// The console modes a session sets: virtual-terminal input (`0x0200`) on
/// a real console's input, and the found output mode with
/// virtual-terminal processing (`0x0004`) added.
pub proof fn lemma_console_mode_flags()
    ensures
        ENABLE_VIRTUAL_TERMINAL_INPUT == 0x0200u32,
        ENABLE_VIRTUAL_TERMINAL_PROCESSING == 0x0004u32,
{
}

} // verus!

use vstd::prelude::*;

verus! {

/// The errors of the pseudo-terminal subsystem.
#[derive(Clone, Copy, Debug, PartialEq, Eq, Structural)]
pub enum ProcessError {
    /// The platform offers no pseudo-terminal.
    PlatformUnsupported,
    /// The system could not allocate a terminal or a process.
    ResourceExhausted,
    /// The executable is missing, not permitted, or the command is malformed.
    SpawnFailed,
    /// Input was written after the child exited.
    ClosedChannel,
    /// A signal was sent to a child that had already exited.
    NoSuchProcess,
    /// A path or argument is not valid text.
    EncodingError,
    /// The backend cannot resize its terminal.
    Unsupported,
}

/// How a child ended.
#[derive(Clone, Copy, Debug, PartialEq, Eq, Structural)]
pub enum ExitStatus {
    /// It exited with this code.
    Code(u32),
    /// A signal ended it.
    Signaled,
}

/// Where a child stands in its life.
#[derive(Clone, Copy, Debug, PartialEq, Eq, Structural)]
pub enum ChildState {
    Spawned,
    Running,
    Exited(ExitStatus),
}

/// The bookkeeping of one child attached to its own terminal.
pub struct ChildLifecycle {
    pub state: ChildState,
    /// A kill was requested while the child ran.
    pub kill_sent: bool,
    /// The terminal has not been released yet.
    pub terminal_open: bool,
}

impl ChildLifecycle {
    /// A child that was just spawned and owns its terminal.
    pub fn spawned() -> (r: Self)
        ensures
            r.state == ChildState::Spawned,
            !r.kill_sent,
            r.terminal_open,
    {
        ChildLifecycle { state: ChildState::Spawned, kill_sent: false, terminal_open: true }
    }

    pub open spec fn has_exited(&self) -> bool {
        self.state is Exited
    }

    /// Marks a spawned child as running; any other state stays.
    pub fn start(&mut self)
        ensures
            old(self).state == ChildState::Spawned ==> final(self).state == ChildState::Running,
            old(self).state != ChildState::Spawned ==> final(self).state == old(self).state,
            final(self).kill_sent == old(self).kill_sent,
            final(self).terminal_open == old(self).terminal_open,
    {
        if self.state == ChildState::Spawned {
            self.state = ChildState::Running;
        }
    }

    /// Records that the child ended with `status` and returns the status that
    /// `wait` reports: the first one seen, whatever is reported later.
    pub fn observe_exit(&mut self, status: ExitStatus) -> (r: ExitStatus)
        ensures
            old(self).state matches ChildState::Exited(s) ==> (r == s && final(self).state
                == old(self).state),
            !old(self).has_exited() ==> r == status && final(self).state == ChildState::Exited(
                status,
            ),
            final(self).kill_sent == old(self).kill_sent,
            final(self).terminal_open == old(self).terminal_open,
    {
        match self.state {
            ChildState::Exited(s) => s,
            _ => {
                self.state = ChildState::Exited(status);
                status
            },
        }
    }

    /// Reads an exit that the system reported: a success is code 0; a failure
    /// after a kill was sent counts as ended by the signal; any other failure
    /// keeps its code.
    pub fn classify_exit(&self, success: bool, code: u32) -> (r: ExitStatus)
        ensures
            success ==> r == ExitStatus::Code(0),
            !success && self.kill_sent ==> r == ExitStatus::Signaled,
            !success && !self.kill_sent ==> r == ExitStatus::Code(code),
    {
        if success {
            ExitStatus::Code(0)
        } else if self.kill_sent {
            ExitStatus::Signaled
        } else {
            ExitStatus::Code(code)
        }
    }

    /// The status `wait` returns without blocking: `None` while the child runs.
    pub fn cached_status(&self) -> (r: Option<ExitStatus>)
        ensures
            self.state matches ChildState::Exited(s) ==> r == Some(s),
            !self.has_exited() ==> r is None,
    {
        match self.state {
            ChildState::Exited(s) => Some(s),
            _ => None,
        }
    }

    /// Whether input may still be written to the child.
    pub fn check_write(&self) -> (r: Result<(), ProcessError>)
        ensures
            r == (if self.has_exited() {
                Err::<(), ProcessError>(ProcessError::ClosedChannel)
            } else {
                Ok(())
            }),
    {
        if self.has_exited_exec() {
            Err(ProcessError::ClosedChannel)
        } else {
            Ok(())
        }
    }

    fn has_exited_exec(&self) -> (r: bool)
        ensures
            r == self.has_exited(),
    {
        match self.state {
            ChildState::Exited(_) => true,
            _ => false,
        }
    }

    /// Decides a kill: a child that has exited gives `NoSuchProcess` and
    /// nothing changes; otherwise the signal goes to its process group. The
    /// state itself changes only when `wait` sees the exit.
    pub fn kill(&mut self) -> (r: Result<(), ProcessError>)
        ensures
            old(self).has_exited() ==> r == Err::<(), ProcessError>(ProcessError::NoSuchProcess)
                && final(self).kill_sent == old(self).kill_sent,
            !old(self).has_exited() ==> r == Ok::<(), ProcessError>(()) && final(self).kill_sent,
            final(self).state == old(self).state,
            final(self).terminal_open == old(self).terminal_open,
    {
        if self.has_exited_exec() {
            Err(ProcessError::NoSuchProcess)
        } else {
            self.kill_sent = true;
            Ok(())
        }
    }

    /// Decides a resize: a backend without resize support gives `Unsupported`.
    /// The child's state is untouched either way.
    pub fn resize(&self, cols: u16, rows: u16, supported: bool) -> (r: Result<(), ProcessError>)
        ensures
            r == (if supported {
                Ok::<(), ProcessError>(())
            } else {
                Err(ProcessError::Unsupported)
            }),
    {
        if supported {
            Ok(())
        } else {
            Err(ProcessError::Unsupported)
        }
    }

    /// Releases the terminal. Returns `true` the first time only, so that the
    /// device is closed exactly once, whichever path gets there first.
    pub fn release_terminal(&mut self) -> (r: bool)
        ensures
            r == old(self).terminal_open,
            !final(self).terminal_open,
            final(self).state == old(self).state,
            final(self).kill_sent == old(self).kill_sent,
    {
        let was_open = self.terminal_open;
        self.terminal_open = false;
        was_open
    }
}

/// The count of open terminals after an allocation was tried.
pub open spec fn after_allocate(open: int) -> int {
    if open < u64::MAX {
        open + 1
    } else {
        open
    }
}

/// The count of open terminals after a spawn on a fresh terminal settled.
pub open spec fn after_settle(open: int, spawned: bool) -> int {
    if spawned {
        open
    } else {
        open - 1
    }
}

/// The count of open terminals after a child's terminal was released.
pub open spec fn after_release(open: int, terminal_open: bool) -> int {
    if terminal_open {
        open - 1
    } else {
        open
    }
}

/// No terminal leaks from a run: a spawn that fails gives back the terminal
/// it was allocated, and one that succeeds hands it to the child, which
/// gives it back when released; a second release changes nothing.
pub proof fn lemma_run_leaks_no_terminal(open: u64)
    requires
        open < u64::MAX,
    ensures
        after_settle(after_allocate(open as int), false) == open,
        after_release(after_settle(after_allocate(open as int), true), true) == open,
        after_release(after_release(after_settle(after_allocate(open as int), true), true), false)
            == open,
{
}

/// The count of terminals that are allocated and not yet released.
pub struct TerminalPool {
    pub open: u64,
}

impl TerminalPool {
    pub fn new() -> (r: Self)
        ensures
            r.open == 0,
    {
        TerminalPool { open: 0 }
    }

    /// Accounts for a terminal that the system handed out.
    pub fn allocate(&mut self) -> (r: Result<(), ProcessError>)
        ensures
            final(self).open == after_allocate(old(self).open as int),
            old(self).open < u64::MAX ==> r == Ok::<(), ProcessError>(()),
            old(self).open == u64::MAX ==> r == Err::<(), ProcessError>(
                ProcessError::ResourceExhausted,
            ),
    {
        if self.open < u64::MAX {
            self.open = self.open + 1;
            Ok(())
        } else {
            Err(ProcessError::ResourceExhausted)
        }
    }

    /// Settles a spawn on a freshly allocated terminal: on success the child
    /// owns the terminal; on failure the terminal is released and no child
    /// is returned.
    pub fn settle_spawn(&mut self, outcome: Result<(), ProcessError>) -> (r: Result<
        ChildLifecycle,
        ProcessError,
    >)
        requires
            old(self).open > 0,
        ensures
            final(self).open == after_settle(old(self).open as int, outcome is Ok),
            outcome matches Err(e) ==> r == Err::<ChildLifecycle, ProcessError>(e),
            outcome is Ok ==> (r matches Ok(c) && c.state == ChildState::Spawned
                && c.terminal_open && !c.kill_sent),
    {
        match outcome {
            Ok(()) => Ok(ChildLifecycle::spawned()),
            Err(e) => {
                self.open = self.open - 1;
                Err(e)
            },
        }
    }

    /// Releases the terminal of `child`, once.
    pub fn release(&mut self, child: &mut ChildLifecycle)
        requires
            old(child).terminal_open ==> old(self).open > 0,
        ensures
            final(self).open == after_release(old(self).open as int, old(child).terminal_open),
            !final(child).terminal_open,
            final(child).state == old(child).state,
            final(child).kill_sent == old(child).kill_sent,
    {
        if child.release_terminal() {
            self.open = self.open - 1;
        }
    }
}

} // verus!

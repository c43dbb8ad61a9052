//! The lifecycle bootstrapper, as a state machine.
//!
//! Bootstrapping interleaves filesystem and process effects (create the
//! runtime directory, probe and write the PID file, detach, bind the socket)
//! with decisions between them. The effects run outside this crate; the
//! machine here owns the decisions: which effect comes next, and how each
//! effect's outcome moves the bootstrap forward. The driver repeatedly asks
//! [`Bootstrap::next_action`], performs the effect, and reports its outcome
//! through [`Bootstrap::step`].

use vstd::prelude::*;

verus! {

/// Where the bootstrap stands.
#[derive(Debug, Clone, Copy, PartialEq, Eq, Structural)]
pub enum BootPhase {
    /// Nothing has happened yet; the runtime directory must be created.
    Start,
    /// The runtime directory exists; the PID file must be probed.
    PidPending,
    /// No PID file was found; it must be written (directly, or while
    /// detaching in background mode).
    WritePending,
    /// The PID file is in place; the socket must be bound.
    BindPending,
    /// The socket is bound: the daemon runs until shutdown.
    Running,
    /// A PID file already existed: another instance owns the location, and
    /// this attempt ends benignly with nothing else done.
    AlreadyRunning,
    /// A fatal initialization error: the process must not continue
    /// half-initialized.
    Failed,
}

/// The next effect the driver must perform.
#[derive(Debug, Clone, Copy, PartialEq, Eq, Structural)]
pub enum BootAction {
    /// Recursively create the runtime directory.
    CreateDir,
    /// Check whether the PID file exists.
    ProbePidFile,
    /// Write the current process id into the PID file and stay attached.
    WritePidForeground,
    /// Create the log files, detach from the terminal, and write the PID
    /// file as part of detaching.
    DaemonizeWithLogs,
    /// Bind the listening socket inside the runtime directory.
    BindSocket,
    /// Enter the accept loop; bootstrap is complete.
    EnterAcceptLoop,
    /// Log that an instance is already running and exit with status 0.
    ExitAlreadyRunning,
    /// Abort: a fatal initialization error occurred.
    FailFatal,
}

/// The outcome of one performed effect.
#[derive(Debug, Clone, Copy, PartialEq, Eq, Structural)]
pub enum BootEvent {
    /// Whether creating the runtime directory succeeded.
    DirCreated(bool),
    /// Whether the PID file already existed.
    PidProbed(bool),
    /// Whether writing the PID file in foreground mode succeeded.
    PidWritten(bool),
    /// Whether detaching (and writing the PID file with it) succeeded.
    Daemonized(bool),
    /// Whether binding the socket succeeded.
    SocketBound(bool),
}

/// The effect owed in a phase. Foreground and background mode differ only in
/// how the PID file gets written.
pub open spec fn boot_action(phase: BootPhase, background: bool) -> BootAction {
    match phase {
        BootPhase::Start => BootAction::CreateDir,
        BootPhase::PidPending => BootAction::ProbePidFile,
        BootPhase::WritePending => if background {
            BootAction::DaemonizeWithLogs
        } else {
            BootAction::WritePidForeground
        },
        BootPhase::BindPending => BootAction::BindSocket,
        BootPhase::Running => BootAction::EnterAcceptLoop,
        BootPhase::AlreadyRunning => BootAction::ExitAlreadyRunning,
        BootPhase::Failed => BootAction::FailFatal,
    }
}

/// Whether the bootstrap is over: running, benignly exited, or failed.
pub open spec fn boot_terminal(phase: BootPhase) -> bool {
    match phase {
        BootPhase::Running => true,
        BootPhase::AlreadyRunning => true,
        BootPhase::Failed => true,
        _ => false,
    }
}

/// How an effect's outcome moves the bootstrap forward. An outcome that does
/// not answer the phase's own action — a terminal phase included — is an
/// internal-consistency fault and fails the bootstrap.
pub open spec fn boot_step(phase: BootPhase, background: bool, ev: BootEvent) -> BootPhase {
    match (phase, ev) {
        (BootPhase::Start, BootEvent::DirCreated(ok)) => if ok {
            BootPhase::PidPending
        } else {
            BootPhase::Failed
        },
        (BootPhase::PidPending, BootEvent::PidProbed(exists)) => if exists {
            BootPhase::AlreadyRunning
        } else {
            BootPhase::WritePending
        },
        (BootPhase::WritePending, BootEvent::PidWritten(ok)) => if !background && ok {
            BootPhase::BindPending
        } else {
            BootPhase::Failed
        },
        (BootPhase::WritePending, BootEvent::Daemonized(ok)) => if background && ok {
            BootPhase::BindPending
        } else {
            BootPhase::Failed
        },
        (BootPhase::BindPending, BootEvent::SocketBound(ok)) => if ok {
            BootPhase::Running
        } else {
            BootPhase::Failed
        },
        _ => BootPhase::Failed,
    }
}

/// The phase a bootstrap reaches after the given outcomes, in order, from
/// the start.
pub open spec fn boot_run(background: bool, events: Seq<BootEvent>) -> BootPhase
    decreases events.len(),
{
    if events.len() == 0 {
        BootPhase::Start
    } else {
        boot_step(boot_run(background, events.drop_last()), background, events.last())
    }
}

/// The PID-writing outcome a successful run carries in the mode's own shape.
pub open spec fn pid_written_event(background: bool) -> BootEvent {
    if background {
        BootEvent::Daemonized(true)
    } else {
        BootEvent::PidWritten(true)
    }
}

/// A bootstrap in progress.
#[derive(Debug, Clone, Copy, PartialEq, Eq, Structural)]
pub struct Bootstrap {
    /// Whether the daemon detaches into the background.
    pub background: bool,
    /// Where the bootstrap stands.
    pub phase: BootPhase,
}

impl Bootstrap {
    /// A bootstrap that has done nothing yet.
    pub fn new(background: bool) -> (r: Self)
        ensures
            r.background == background,
            r.phase == BootPhase::Start,
    {
        Bootstrap { background, phase: BootPhase::Start }
    }

    /// The effect the driver must perform next.
    pub fn next_action(&self) -> (r: BootAction)
        ensures
            r == boot_action(self.phase, self.background),
    {
        match self.phase {
            BootPhase::Start => BootAction::CreateDir,
            BootPhase::PidPending => BootAction::ProbePidFile,
            BootPhase::WritePending => if self.background {
                BootAction::DaemonizeWithLogs
            } else {
                BootAction::WritePidForeground
            },
            BootPhase::BindPending => BootAction::BindSocket,
            BootPhase::Running => BootAction::EnterAcceptLoop,
            BootPhase::AlreadyRunning => BootAction::ExitAlreadyRunning,
            BootPhase::Failed => BootAction::FailFatal,
        }
    }

    /// Whether the bootstrap is over.
    pub fn is_terminal(&self) -> (r: bool)
        ensures
            r == boot_terminal(self.phase),
    {
        match self.phase {
            BootPhase::Running => true,
            BootPhase::AlreadyRunning => true,
            BootPhase::Failed => true,
            _ => false,
        }
    }

    /// Reports the outcome of the performed effect and moves the bootstrap
    /// forward.
    pub fn step(&mut self, ev: BootEvent)
        ensures
            final(self).background == old(self).background,
            final(self).phase == boot_step(old(self).phase, old(self).background, ev),
    {
        let next = match (self.phase, ev) {
            (BootPhase::Start, BootEvent::DirCreated(ok)) => if ok {
                BootPhase::PidPending
            } else {
                BootPhase::Failed
            },
            (BootPhase::PidPending, BootEvent::PidProbed(exists)) => if exists {
                BootPhase::AlreadyRunning
            } else {
                BootPhase::WritePending
            },
            (BootPhase::WritePending, BootEvent::PidWritten(ok)) => if !self.background && ok {
                BootPhase::BindPending
            } else {
                BootPhase::Failed
            },
            (BootPhase::WritePending, BootEvent::Daemonized(ok)) => if self.background && ok {
                BootPhase::BindPending
            } else {
                BootPhase::Failed
            },
            (BootPhase::BindPending, BootEvent::SocketBound(ok)) => if ok {
                BootPhase::Running
            } else {
                BootPhase::Failed
            },
            _ => BootPhase::Failed,
        };
        self.phase = next;
    }
}

/// Each reachable non-failed phase pins down the exact outcomes that led to
/// it: the machine's runs are linear.
proof fn lemma_boot_run_shape(background: bool, events: Seq<BootEvent>)
    ensures
        boot_run(background, events) == BootPhase::Start ==> events.len() == 0,
        boot_run(background, events) == BootPhase::PidPending ==> events =~= seq![
            BootEvent::DirCreated(true),
        ],
        boot_run(background, events) == BootPhase::WritePending ==> events =~= seq![
            BootEvent::DirCreated(true),
            BootEvent::PidProbed(false),
        ],
        boot_run(background, events) == BootPhase::BindPending ==> events =~= seq![
            BootEvent::DirCreated(true),
            BootEvent::PidProbed(false),
            pid_written_event(background),
        ],
        boot_run(background, events) == BootPhase::Running ==> events =~= seq![
            BootEvent::DirCreated(true),
            BootEvent::PidProbed(false),
            pid_written_event(background),
            BootEvent::SocketBound(true),
        ],
        boot_run(background, events) == BootPhase::AlreadyRunning ==> events =~= seq![
            BootEvent::DirCreated(true),
            BootEvent::PidProbed(true),
        ],
    decreases events.len(),
{
    if events.len() > 0 {
        lemma_boot_run_shape(background, events.drop_last());
    }
}

/// The runtime directory is created before the socket is bound: a run that
/// reaches the running phase created the directory with its first outcome
/// and bound the socket with its last, and did nothing before the creation.
pub proof fn lemma_dir_created_before_bind(background: bool, events: Seq<BootEvent>)
    requires
        boot_run(background, events) == BootPhase::Running,
    ensures
        events.len() == 4,
        events[0] == BootEvent::DirCreated(true),
        events[1] == BootEvent::PidProbed(false),
        events[2] == pid_written_event(background),
        events[3] == BootEvent::SocketBound(true),
{
    lemma_boot_run_shape(background, events);
}

/// An existing PID file is the single-instance guard: a second bootstrap
/// attempt that finds one never binds the socket, never writes anything, and
/// ends benignly; and finding the PID file right after creating the
/// directory ends the attempt at once.
pub proof fn lemma_pid_file_guard(background: bool, events: Seq<BootEvent>)
    requires
        boot_run(background, events) == BootPhase::AlreadyRunning,
    ensures
        events =~= seq![BootEvent::DirCreated(true), BootEvent::PidProbed(true)],
        forall|i: int|
            0 <= i < events.len() ==> !((#[trigger] events[i]) matches BootEvent::SocketBound(_)),
        forall|i: int|
            0 <= i < events.len() ==> !((#[trigger] events[i]) matches BootEvent::PidWritten(_)),
        boot_action(BootPhase::AlreadyRunning, background) == BootAction::ExitAlreadyRunning,
        boot_run(background, seq![BootEvent::DirCreated(true), BootEvent::PidProbed(true)])
            == BootPhase::AlreadyRunning,
    {
    lemma_boot_run_shape(background, events);
    let guard = seq![BootEvent::DirCreated(true), BootEvent::PidProbed(true)];
    assert(guard.drop_last() =~= seq![BootEvent::DirCreated(true)]);
    assert(guard.drop_last().drop_last() =~= Seq::<BootEvent>::empty());
    assert(boot_run(background, guard.drop_last().drop_last()) == BootPhase::Start);
    assert(boot_run(background, guard.drop_last()) == BootPhase::PidPending);
}

/// At a location left empty — as teardown leaves it — a fresh bootstrap
/// whose effects all succeed reaches the running phase: the directory is
/// re-created, no PID file is found, and the socket binds.
pub proof fn lemma_restart_after_teardown(background: bool)
    ensures
        boot_run(
            background,
            seq![
                BootEvent::DirCreated(true),
                BootEvent::PidProbed(false),
                pid_written_event(background),
                BootEvent::SocketBound(true),
            ],
        ) == BootPhase::Running,
{
    let events = seq![
        BootEvent::DirCreated(true),
        BootEvent::PidProbed(false),
        pid_written_event(background),
        BootEvent::SocketBound(true),
    ];
    assert(events.drop_last() =~= seq![
        BootEvent::DirCreated(true),
        BootEvent::PidProbed(false),
        pid_written_event(background),
    ]);
    assert(events.drop_last().drop_last() =~= seq![
        BootEvent::DirCreated(true),
        BootEvent::PidProbed(false),
    ]);
    assert(events.drop_last().drop_last().drop_last() =~= seq![BootEvent::DirCreated(true)]);
    assert(events.drop_last().drop_last().drop_last().drop_last() =~= Seq::<BootEvent>::empty());
    assert(boot_run(background, events.drop_last().drop_last().drop_last().drop_last())
        == BootPhase::Start);
    assert(boot_run(background, events.drop_last().drop_last().drop_last())
        == BootPhase::PidPending);
    assert(boot_run(background, events.drop_last().drop_last()) == BootPhase::WritePending);
    assert(boot_run(background, events.drop_last()) == BootPhase::BindPending);
}

} // verus!

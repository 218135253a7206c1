use vstd::prelude::*;

verus! {

/// How long the supervisor waits before it starts a worker again after the
/// worker could not open the log source.
pub const RESTART_DELAY_MS: u64 = 1235;

/// Exit status of a worker that ended on its own to give back its resources.
pub const EXIT_RECYCLED: i32 = 0;

/// Exit status of a worker whose start can never succeed (a bad setting).
pub const EXIT_FATAL: i32 = 2;

/// Exit status of a worker that could not open or seek the log source.
pub const EXIT_SOURCE_UNAVAILABLE: i32 = 3;

/// Where the supervisor stands.
#[derive(Debug, Clone, Copy, PartialEq, Eq, Structural)]
pub enum Phase {
    Idle,
    Starting,
    Running,
    Exited,
    Crashed,
    Stopped,
}

/// How a worker ended.
#[derive(Debug, Clone, Copy, PartialEq, Eq, Structural)]
pub enum WorkerEnd {
    /// It stopped on its own, after its share of records.
    Recycled,
    /// It could not open or seek the log source.
    SourceUnavailable,
    /// Its start can never succeed.
    Fatal,
    /// It died otherwise: a panic, a signal, an unknown status.
    Crashed,
}

/// What happened since the supervisor's last action.
#[derive(Debug, Clone, Copy, PartialEq, Eq, Structural)]
pub enum SupervisorEvent {
    Begin,
    Spawned,
    SpawnFailed,
    WorkerEnded(WorkerEnd),
    Shutdown,
}

/// What the supervisor asks to be done next.
#[derive(Debug, Clone, Copy, PartialEq, Eq, Structural)]
pub enum SupervisorAction {
    /// Start a worker from the last persisted checkpoint.
    Spawn,
    /// Wait this many milliseconds, then start a worker.
    SpawnAfter(u64),
    /// Wait for the worker to end.
    AwaitWorker,
    /// Do nothing more.
    Stop,
    /// The event does not apply now; go on as before.
    Ignore,
}

/// The supervisor's transition: its next phase and action.
pub open spec fn supervise(p: Phase, e: SupervisorEvent) -> (Phase, SupervisorAction) {
    if p == Phase::Stopped || e == SupervisorEvent::Shutdown {
        (Phase::Stopped, SupervisorAction::Stop)
    } else {
        match e {
            SupervisorEvent::Begin => if p == Phase::Idle {
                (Phase::Starting, SupervisorAction::Spawn)
            } else {
                (p, SupervisorAction::Ignore)
            },
            SupervisorEvent::Spawned => if p == Phase::Starting || p == Phase::Exited || p
                == Phase::Crashed {
                (Phase::Running, SupervisorAction::AwaitWorker)
            } else {
                (p, SupervisorAction::Ignore)
            },
            SupervisorEvent::SpawnFailed => if p == Phase::Starting || p == Phase::Exited || p
                == Phase::Crashed {
                (Phase::Stopped, SupervisorAction::Stop)
            } else {
                (p, SupervisorAction::Ignore)
            },
            SupervisorEvent::WorkerEnded(end) => if p == Phase::Running {
                match end {
                    WorkerEnd::Recycled => (Phase::Exited, SupervisorAction::Spawn),
                    WorkerEnd::SourceUnavailable => (
                        Phase::Exited,
                        SupervisorAction::SpawnAfter(RESTART_DELAY_MS),
                    ),
                    WorkerEnd::Fatal => (Phase::Stopped, SupervisorAction::Stop),
                    WorkerEnd::Crashed => (Phase::Crashed, SupervisorAction::Spawn),
                }
            } else {
                (p, SupervisorAction::Ignore)
            },
            SupervisorEvent::Shutdown => (Phase::Stopped, SupervisorAction::Stop),
        }
    }
}

/// Starts, watches and restarts the worker that reads and ships records.
#[derive(Debug)]
pub struct Supervisor {
    pub phase: Phase,
}

impl Supervisor {
    pub fn new() -> (r: Supervisor)
        ensures
            r.phase == Phase::Idle,
    {
        Supervisor { phase: Phase::Idle }
    }

    /// Takes one event and says what to do next.
    pub fn step(&mut self, e: SupervisorEvent) -> (r: SupervisorAction)
        ensures
            (final(self).phase, r) == supervise(old(self).phase, e),
    {
        let (p, a) = if self.phase == Phase::Stopped || e == SupervisorEvent::Shutdown {
            (Phase::Stopped, SupervisorAction::Stop)
        } else {
            match e {
                SupervisorEvent::Begin => if self.phase == Phase::Idle {
                    (Phase::Starting, SupervisorAction::Spawn)
                } else {
                    (self.phase, SupervisorAction::Ignore)
                },
                SupervisorEvent::Spawned => if self.phase == Phase::Starting || self.phase
                    == Phase::Exited || self.phase == Phase::Crashed {
                    (Phase::Running, SupervisorAction::AwaitWorker)
                } else {
                    (self.phase, SupervisorAction::Ignore)
                },
                SupervisorEvent::SpawnFailed => if self.phase == Phase::Starting || self.phase
                    == Phase::Exited || self.phase == Phase::Crashed {
                    (Phase::Stopped, SupervisorAction::Stop)
                } else {
                    (self.phase, SupervisorAction::Ignore)
                },
                SupervisorEvent::WorkerEnded(end) => if self.phase == Phase::Running {
                    match end {
                        WorkerEnd::Recycled => (Phase::Exited, SupervisorAction::Spawn),
                        WorkerEnd::SourceUnavailable => (
                            Phase::Exited,
                            SupervisorAction::SpawnAfter(RESTART_DELAY_MS),
                        ),
                        WorkerEnd::Fatal => (Phase::Stopped, SupervisorAction::Stop),
                        WorkerEnd::Crashed => (Phase::Crashed, SupervisorAction::Spawn),
                    }
                } else {
                    (self.phase, SupervisorAction::Ignore)
                },
                SupervisorEvent::Shutdown => (Phase::Stopped, SupervisorAction::Stop),
            }
        };
        self.phase = p;
        a
    }
}

/// How a worker ended, from its exit status; `None` when it did not exit
/// with a status (a signal killed it).
pub fn worker_end_of(status: Option<i32>) -> (r: WorkerEnd)
    ensures
        r == match status {
            Some(c) => if c == EXIT_RECYCLED {
                WorkerEnd::Recycled
            } else if c == EXIT_FATAL {
                WorkerEnd::Fatal
            } else if c == EXIT_SOURCE_UNAVAILABLE {
                WorkerEnd::SourceUnavailable
            } else {
                WorkerEnd::Crashed
            },
            None => WorkerEnd::Crashed,
        },
{
    match status {
        Some(c) => if c == EXIT_RECYCLED {
            WorkerEnd::Recycled
        } else if c == EXIT_FATAL {
            WorkerEnd::Fatal
        } else if c == EXIT_SOURCE_UNAVAILABLE {
            WorkerEnd::SourceUnavailable
        } else {
            WorkerEnd::Crashed
        },
        None => WorkerEnd::Crashed,
    }
}

/// A running worker that ends for any reason but a fatal one is followed at
/// once by a new worker (after a short wait when the source was
/// unavailable); the supervisor stops only on shutdown, on a fatal end, or
/// when no worker can be started, and once stopped it stays stopped.
pub proof fn worker_always_replaced(end: WorkerEnd, p: Phase, e: SupervisorEvent)
    ensures
        end != WorkerEnd::Fatal ==> {
            let (q, a) = supervise(Phase::Running, SupervisorEvent::WorkerEnded(end));
            &&& q != Phase::Stopped
            &&& (a == SupervisorAction::Spawn || a == SupervisorAction::SpawnAfter(
                RESTART_DELAY_MS,
            ))
        },
        supervise(p, e).0 == Phase::Stopped ==> (p == Phase::Stopped || e
            == SupervisorEvent::Shutdown || e == SupervisorEvent::SpawnFailed || e
            == SupervisorEvent::WorkerEnded(WorkerEnd::Fatal)),
        supervise(Phase::Stopped, e) == (Phase::Stopped, SupervisorAction::Stop),
{
}

} // verus!

use vstd::prelude::*;

verus! {

/// The message the supervisor sends to the watcher thread.
#[derive(Debug, Clone, Copy, PartialEq, Eq, Structural)]
pub enum WatchStatus {
    /// Heartbeat; the watcher ignores it.
    KeepAlive,
    /// The watcher must stop at its next turn.
    Exit,
}

/// Where the supervisor stands.
#[derive(Debug, Clone, Copy, PartialEq, Eq, Structural)]
pub enum SupervisorState {
    /// The watched folders are not yet available; no watcher runs.
    WaitingForRoot,
    /// A watcher runs and is probed by heartbeats.
    Watching,
}

/// What the supervisor learnt since its last step.
#[derive(Debug, Clone, Copy, PartialEq, Eq, Structural)]
pub enum SupervisorEvent {
    /// Whether the watched folders could be ensured.
    RootChecked(bool),
    /// Whether a heartbeat reached the watcher, and whether the watched
    /// folders could still be ensured afterwards.
    Heartbeat { delivered: bool, root_available: bool },
}

/// An operator notice; each has a fixed line prefix.
#[derive(Debug, Clone, Copy, PartialEq, Eq, Structural)]
pub enum Notice {
    KeepAliveFailed,
    FolderAccessLost,
    WatcherRestart,
}

/// One thing for the supervisor's runner to do, in order.
#[derive(Debug, Clone, Copy, PartialEq, Eq, Structural)]
pub enum Command {
    /// Start a watcher thread on a fresh heartbeat channel.
    SpawnWatcher,
    /// Send this message to the current watcher; a failure is ignored.
    Send(WatchStatus),
    /// Print this notice.
    Report(Notice),
    /// Sleep one heartbeat interval, then send a heartbeat and check the folders.
    AwaitHeartbeat,
    /// Sleep one backoff period, then check the folders.
    AwaitRoot,
}

/// The next state and the commands for one step of the supervisor.
pub open spec fn step_of(state: SupervisorState, event: SupervisorEvent) -> (
    SupervisorState,
    Seq<Command>,
) {
    let root_ok = match event {
        SupervisorEvent::RootChecked(ok) => ok,
        SupervisorEvent::Heartbeat { root_available, .. } => root_available,
    };
    let delivered = match event {
        SupervisorEvent::RootChecked(_) => true,
        SupervisorEvent::Heartbeat { delivered, .. } => delivered,
    };
    match state {
        SupervisorState::WaitingForRoot => if root_ok {
            (SupervisorState::Watching, seq![Command::SpawnWatcher, Command::AwaitHeartbeat])
        } else {
            (SupervisorState::WaitingForRoot, seq![Command::AwaitRoot])
        },
        SupervisorState::Watching => if !root_ok {
            (
                SupervisorState::WaitingForRoot,
                seq![
                    Command::Report(Notice::FolderAccessLost),
                    Command::Send(WatchStatus::Exit),
                    Command::Report(Notice::WatcherRestart),
                    Command::AwaitRoot,
                ],
            )
        } else if !delivered {
            (
                SupervisorState::Watching,
                seq![
                    Command::Report(Notice::KeepAliveFailed),
                    Command::SpawnWatcher,
                    Command::AwaitHeartbeat,
                ],
            )
        } else {
            (SupervisorState::Watching, seq![Command::AwaitHeartbeat])
        },
    }
}

/// How many times `c` occurs in `s`.
pub open spec fn count(s: Seq<Command>, c: Command) -> nat
    decreases s.len(),
{
    if s.len() == 0 {
        0
    } else {
        count(s.drop_last(), c) + if s.last() == c {
            1nat
        } else {
            0nat
        }
    }
}

/// One step of the supervisor: from its state and what it learnt, its next
/// state and what to do.
pub fn supervisor_step(state: SupervisorState, event: SupervisorEvent) -> (r: (
    SupervisorState,
    Vec<Command>,
))
    ensures
        r.0 == step_of(state, event).0,
        r.1@ == step_of(state, event).1,
{
    let (root_ok, delivered) = match event {
        SupervisorEvent::RootChecked(ok) => (ok, true),
        SupervisorEvent::Heartbeat { delivered, root_available } => (root_available, delivered),
    };
    match state {
        SupervisorState::WaitingForRoot => {
            if root_ok {
                (SupervisorState::Watching, vec![Command::SpawnWatcher, Command::AwaitHeartbeat])
            } else {
                (SupervisorState::WaitingForRoot, vec![Command::AwaitRoot])
            }
        },
        SupervisorState::Watching => {
            if !root_ok {
                (
                    SupervisorState::WaitingForRoot,
                    vec![
                        Command::Report(Notice::FolderAccessLost),
                        Command::Send(WatchStatus::Exit),
                        Command::Report(Notice::WatcherRestart),
                        Command::AwaitRoot,
                    ],
                )
            } else if !delivered {
                (
                    SupervisorState::Watching,
                    vec![
                        Command::Report(Notice::KeepAliveFailed),
                        Command::SpawnWatcher,
                        Command::AwaitHeartbeat,
                    ],
                )
            } else {
                (SupervisorState::Watching, vec![Command::AwaitHeartbeat])
            }
        },
    }
}

/// The first step of the supervisor, before anything is known.
pub fn initial_state() -> (r: SupervisorState)
    ensures
        r == SupervisorState::WaitingForRoot,
{
    SupervisorState::WaitingForRoot
}

/// When a heartbeat cannot be delivered while the folders are available, the
/// supervisor starts exactly one new watcher, before it next waits for a
/// heartbeat interval, and keeps watching.
pub proof fn lemma_lost_heartbeat_restarts_once()
    ensures
        ({
            let (next, cmds) = step_of(
                SupervisorState::Watching,
                SupervisorEvent::Heartbeat { delivered: false, root_available: true },
            );
            &&& next == SupervisorState::Watching
            &&& count(cmds, Command::SpawnWatcher) == 1
            &&& exists|i: int, j: int|
                0 <= i < j < cmds.len() && cmds[i] == Command::SpawnWatcher && cmds[j]
                    == Command::AwaitHeartbeat && forall|k: int|
                    0 <= k < i ==> cmds[k] != Command::AwaitHeartbeat
        }),
{
    let cmds = step_of(
        SupervisorState::Watching,
        SupervisorEvent::Heartbeat { delivered: false, root_available: true },
    ).1;
    assert(cmds.drop_last().drop_last().drop_last() =~= Seq::<Command>::empty());
    assert(count(cmds, Command::SpawnWatcher) == 1) by {
        reveal_with_fuel(count, 4);
    }
    assert(cmds[1] == Command::SpawnWatcher && cmds[2] == Command::AwaitHeartbeat);
}

/// Once the folders are lost, no watcher is started until they are back: the
/// old watcher is told to exit and the supervisor waits for the folders.
pub proof fn lemma_lost_root_waits(delivered: bool)
    ensures
        ({
            let (next, cmds) = step_of(
                SupervisorState::Watching,
                SupervisorEvent::Heartbeat { delivered, root_available: false },
            );
            &&& next == SupervisorState::WaitingForRoot
            &&& count(cmds, Command::SpawnWatcher) == 0
            &&& cmds.contains(Command::Send(WatchStatus::Exit))
        }),
{
    let cmds = step_of(
        SupervisorState::Watching,
        SupervisorEvent::Heartbeat { delivered, root_available: false },
    ).1;
    assert(cmds.drop_last().drop_last().drop_last().drop_last() =~= Seq::<Command>::empty());
    assert(count(cmds, Command::SpawnWatcher) == 0) by {
        reveal_with_fuel(count, 5);
    }
    assert(cmds[1] == Command::Send(WatchStatus::Exit));
}

} // verus!

//! Termination of process trees: which signals a session's processes are
//! sent, in what order, and how long to wait between them.
//!
//! Termination is planned here and carried out by the caller, one action
//! after the other. Every action is best effort: the caller goes on to the
//! next whether or not the one before found its target.

use crate::platform::Platform;
use crate::session::{AttachedProcess, Backend, BackendModel, ProcessModel, SessionModel, TerminalSessionData};
use vstd::prelude::*;

verus! {

/// Milliseconds granted between the request to terminate and the kill.
pub const GRACE_MS: u64 = 100;

/// Milliseconds granted to a process that is signalled on its own after its
/// group has been dealt with.
pub const SHORT_GRACE_MS: u64 = 50;

/// The two strengths of termination.
#[derive(Clone, Copy, Debug, PartialEq, Eq, Structural)]
pub enum Signal {
    /// Asks the target to exit; it may clean up, or ignore the request.
    Terminate,
    /// Ends the target; it cannot be caught or ignored.
    Kill,
}

/// One step of a termination.
#[derive(Clone, Copy, Debug, PartialEq, Eq, Structural)]
pub enum KillAction {
    /// Send `signal` to `target`, which is read as the operating system
    /// reads it: a positive number is one process, a negative number the
    /// process group of that magnitude.
    Signal { target: i32, signal: Signal },
    /// Wait before the next step.
    Pause { millis: u64 },
    /// Kill the child attached to the session through its own handle.
    KillChild,
    /// End the process `pid` by force; with `recursive`, its descendants too.
    KillTree { pid: u32, recursive: bool },
    /// Let go of the session's pseudo-terminal, which ends its shell.
    ReleaseTerminal,
}

/// The largest number that names a process where processes are signalled.
pub const MAX_PID: u32 = 0x7fff_ffff;

/// The target that addresses the one process `pid`, if a process can have
/// that id. No process has the id 0, which as a target would address the
/// caller's own group, nor an id beyond `MAX_PID`.
pub open spec fn process_target(pid: u32) -> Option<i32> {
    if 0 < pid <= MAX_PID {
        Some(pid as i32)
    } else {
        None
    }
}

/// The target that addresses the process group led by `leader`: the
/// negated id, if a group can have that leader. The negation of 1 would
/// address every process, so 1 leads no group that can be signalled.
pub open spec fn group_target(leader: int) -> Option<i32> {
    if 1 < leader <= MAX_PID {
        Some((-leader) as i32)
    } else {
        None
    }
}

/// A request to terminate, a pause, then a kill, all for one target.
pub open spec fn escalation(target: i32, grace: u64) -> Seq<KillAction> {
    seq![
        KillAction::Signal { target, signal: Signal::Terminate },
        KillAction::Pause { millis: grace },
        KillAction::Signal { target, signal: Signal::Kill },
    ]
}

/// The escalation for a target, and nothing where there is no target.
pub open spec fn escalation_of(target: Option<i32>, grace: u64) -> Seq<KillAction> {
    match target {
        Some(target) => escalation(target, grace),
        None => Seq::empty(),
    }
}

/// The forced end of the process `pid`, and nothing where no process can
/// have that id.
pub open spec fn tree_kill(pid: u32, recursive: bool) -> Seq<KillAction> {
    if pid > 0 {
        seq![KillAction::KillTree { pid, recursive }]
    } else {
        Seq::empty()
    }
}

/// How the attached process is ended: its whole group by escalation (or its
/// tree by force) when its id is known, then the child itself through its
/// handle. Nothing when no process is attached.
pub open spec fn attached_plan(platform: Platform, current: Option<AttachedProcess>) -> Seq<
    KillAction,
> {
    match current {
        None => Seq::empty(),
        Some(process) => {
            let by_id = match process.pid {
                None => Seq::empty(),
                Some(pid) => match platform {
                    Platform::Posix => escalation_of(group_target(pid as int), GRACE_MS),
                    Platform::Windows => tree_kill(pid, true),
                },
            };
            by_id.push(KillAction::KillChild)
        },
    }
}

/// How the recorded process group is ended. Only signals reach a group.
pub open spec fn group_plan(platform: Platform, group: Option<i32>) -> Seq<KillAction> {
    match group {
        Some(leader) if platform == Platform::Posix => escalation_of(
            group_target(leader as int),
            GRACE_MS,
        ),
        _ => Seq::empty(),
    }
}

/// How one tracked process is ended on its own.
pub open spec fn single_plan(platform: Platform, pid: u32) -> Seq<KillAction> {
    match platform {
        Platform::Posix => escalation_of(process_target(pid), SHORT_GRACE_MS),
        Platform::Windows => tree_kill(pid, false),
    }
}

/// How every tracked process is ended, one after the other in the order in
/// which they were recorded.
pub open spec fn tracked_plan(platform: Platform, running: Seq<u32>) -> Seq<KillAction>
    decreases running.len(),
{
    if running.len() == 0 {
        Seq::empty()
    } else {
        tracked_plan(platform, running.drop_last()) + single_plan(platform, running.last())
    }
}

/// The three phases by which a process-backed session is torn down: the
/// attached process, then the recorded group, then each tracked process.
pub open spec fn process_teardown(platform: Platform, state: ProcessModel) -> Seq<KillAction> {
    attached_plan(platform, state.current) + group_plan(platform, state.group) + tracked_plan(
        platform,
        state.running,
    )
}

/// How a session is torn down once it has left the registry.
pub open spec fn teardown_plan(platform: Platform, session: SessionModel) -> Seq<KillAction> {
    match session.backend {
        BackendModel::Pty(_) => seq![KillAction::ReleaseTerminal],
        BackendModel::Process(state) => process_teardown(platform, state),
    }
}

/// Computes the target that addresses the one process `pid`.
pub fn target_of_process(pid: u32) -> (target: Option<i32>)
    ensures
        target == process_target(pid),
{
    if 0 < pid && pid <= MAX_PID {
        Some(pid as i32)
    } else {
        None
    }
}

/// Computes the target that addresses the group led by `leader`.
pub fn target_of_group(leader: i64) -> (target: Option<i32>)
    ensures
        target == group_target(leader as int),
{
    if 1 < leader && leader <= 0x7fff_ffff {
        Some((-leader) as i32)
    } else {
        None
    }
}

fn push_escalation(plan: &mut Vec<KillAction>, target: Option<i32>, grace: u64)
    ensures
        final(plan)@ == old(plan)@ + escalation_of(target, grace),
{
    match target {
        Some(target) => {
            plan.push(KillAction::Signal { target, signal: Signal::Terminate });
            plan.push(KillAction::Pause { millis: grace });
            plan.push(KillAction::Signal { target, signal: Signal::Kill });
        },
        None => {},
    }
    assert(plan@ =~= old(plan)@ + escalation_of(target, grace));
}

fn push_tree_kill(plan: &mut Vec<KillAction>, pid: u32, recursive: bool)
    ensures
        final(plan)@ == old(plan)@ + tree_kill(pid, recursive),
{
    if pid > 0 {
        plan.push(KillAction::KillTree { pid, recursive });
    }
    assert(plan@ =~= old(plan)@ + tree_kill(pid, recursive));
}

fn push_attached(plan: &mut Vec<KillAction>, platform: Platform, current: Option<AttachedProcess>)
    ensures
        final(plan)@ == old(plan)@ + attached_plan(platform, current),
{
    match current {
        None => {
            assert(plan@ =~= old(plan)@ + attached_plan(platform, current));
        },
        Some(process) => {
            match process.pid {
                None => {},
                Some(pid) => match platform {
                    Platform::Posix => {
                        push_escalation(plan, target_of_group(pid as i64), GRACE_MS);
                    },
                    Platform::Windows => {
                        push_tree_kill(plan, pid, true);
                    },
                },
            }
            plan.push(KillAction::KillChild);
            assert(plan@ =~= old(plan)@ + attached_plan(platform, current));
        },
    }
}

fn push_group(plan: &mut Vec<KillAction>, platform: Platform, group: Option<i32>)
    ensures
        final(plan)@ == old(plan)@ + group_plan(platform, group),
{
    match (platform, group) {
        (Platform::Posix, Some(leader)) => {
            push_escalation(plan, target_of_group(leader as i64), GRACE_MS);
        },
        _ => {
            assert(plan@ =~= old(plan)@ + group_plan(platform, group));
        },
    }
}

fn push_tracked(plan: &mut Vec<KillAction>, platform: Platform, running: &Vec<u32>)
    ensures
        final(plan)@ == old(plan)@ + tracked_plan(platform, running@),
{
    let mut i: usize = 0;
    assert(running@.take(0) =~= Seq::empty());
    assert(plan@ =~= old(plan)@ + tracked_plan(platform, running@.take(0)));
    while i < running.len()
        invariant
            i <= running@.len(),
            plan@ == old(plan)@ + tracked_plan(platform, running@.take(i as int)),
        decreases running.len() - i,
    {
        let pid = running[i];
        let ghost before = plan@;
        match platform {
            Platform::Posix => {
                push_escalation(plan, target_of_process(pid), SHORT_GRACE_MS);
            },
            Platform::Windows => {
                push_tree_kill(plan, pid, false);
            },
        }
        proof {
            let next = running@.take(i + 1);
            assert(next.drop_last() =~= running@.take(i as int));
            assert(next.last() == pid);
            assert(plan@ =~= before + single_plan(platform, pid));
            assert(plan@ =~= old(plan)@ + tracked_plan(platform, next));
        }
        i += 1;
    }
    assert(running@.take(i as int) =~= running@);
}

/// Plans how the process attached to a session is ended.
pub fn plan_attached(platform: Platform, current: Option<AttachedProcess>) -> (plan: Vec<
    KillAction,
>)
    ensures
        plan@ == attached_plan(platform, current),
{
    let mut plan: Vec<KillAction> = Vec::new();
    push_attached(&mut plan, platform, current);
    assert(plan@ =~= attached_plan(platform, current));
    plan
}

/// Plans how a session is torn down once it has left the registry.
pub fn plan_teardown(platform: Platform, data: &TerminalSessionData) -> (plan: Vec<KillAction>)
    ensures
        plan@ == teardown_plan(platform, data@),
{
    let mut plan: Vec<KillAction> = Vec::new();
    match &data.backend {
        Backend::Pty(_) => {
            plan.push(KillAction::ReleaseTerminal);
            assert(plan@ =~= teardown_plan(platform, data@));
        },
        Backend::Process(state) => {
            push_attached(&mut plan, platform, state.current_process);
            push_group(&mut plan, platform, state.process_group_id);
            push_tracked(&mut plan, platform, &state.running_processes);
            assert(plan@ =~= teardown_plan(platform, data@));
        },
    }
    plan
}

} // verus!

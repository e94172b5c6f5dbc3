//! Properties that hold of the session manager as a whole, stated over the
//! same models as the contracts of its operations.

use crate::error::SessionError;
use crate::operations::{ReadEventModel, ReaderStepModel};
use crate::platform::Platform;
use crate::process::{idle_marker, ChildStatus, PollModel};
use crate::registry::{
    all_teardowns, has_session, ids_of, ids_unique, index_of, issued, lemma_index_of,
    lemma_remove, lemma_replace, lookup, removed, replaced, teardown_of, TeardownModel,
};
use crate::session::{
    initial_session, BackendKind, BackendModel, OutputInfo, ProcessModel, SessionModel,
};
use crate::ports::{first_line_len, line_plan, listing_plan};
use crate::terminate::{
    attached_plan, group_plan, single_plan, teardown_plan, tracked_plan, KillAction, Signal,
    GRACE_MS, MAX_PID,
};
use crate::text::{
    all_digits, decimal, digit_char, digit_value, digits_value, is_digit, parse_i32, parse_u32,
    signed_decimal,
};
use vstd::prelude::*;
use vstd::utf8::{decode_utf8, encode_utf8, valid_utf8};

verus! {

/// Whether a process is attached to the session.
pub open spec fn has_attached_process(session: SessionModel) -> bool {
    session.backend matches BackendModel::Process(state) && state.current is Some
}

/// A session that is closed right after it was created leaves the sessions
/// of the registry as they were before; only its identifier stays handed
/// out. Its teardown signals no process: a process-backed session has
/// spawned none, and a terminal-backed session only lets go of its
/// terminal.
pub proof fn law_create_then_close(
    platform: Platform,
    sessions: Seq<SessionModel>,
    id: Seq<char>,
    working_directory: Seq<char>,
    kind: BackendKind,
)
    requires
        ids_unique(sessions),
        !has_session(sessions, id),
    ensures
        ids_unique(sessions.push(initial_session(id, working_directory, kind))),
        removed(sessions.push(initial_session(id, working_directory, kind)), id) == sessions,
        teardown_of(platform, sessions.push(initial_session(id, working_directory, kind)), id) == (
        match kind {
            BackendKind::Process => Seq::<KillAction>::empty(),
            BackendKind::Pty => seq![KillAction::ReleaseTerminal],
        }),
{
    let created = initial_session(id, working_directory, kind);
    let after = sessions.push(created);
    let last = sessions.len() as int;
    assert forall|i: int, j: int| 0 <= i < j < after.len() implies (#[trigger] after[i]).info.id != (
    #[trigger] after[j]).info.id by {
        if j == last {
            assert(sessions[i].info.id != id);
        } else {
            assert(sessions[i].info.id != sessions[j].info.id);
        }
    }
    lemma_index_of(after, id, last);
    lemma_remove(after, id, last);
    assert(after.remove(last) =~= sessions);
    assert(tracked_plan(platform, Seq::<u32>::empty()) =~= Seq::<KillAction>::empty());
    match kind {
        BackendKind::Process => {
            assert(teardown_plan(platform, created) =~= Seq::<KillAction>::empty());
        },
        BackendKind::Pty => {},
    }
}

/// A poll of a session without an attached process gives the idle marker,
/// whatever is said of the process, and changes nothing. The marker is not
/// the empty text, so "nothing attached" cannot be taken for "nothing new".
pub proof fn law_idle_poll(session: SessionModel, status: ChildStatus)
    requires
        !has_attached_process(session),
    ensures
        session.poll_outcome(status) == PollModel::Idle,
        session.poll_outcome(status).wire_text() == idle_marker(),
        session.poll_outcome(status).wire_text().len() > 0,
        session.polled(status) == session,
{
    reveal_strlit("__NO_PROCESS__");
}

/// After a command that was run to its end, a poll gives the idle marker:
/// a command can only be launched while nothing is attached, and running it
/// to its end attaches nothing, whether or not its process id was recorded.
pub proof fn law_one_shot_leaves_idle(
    platform: Platform,
    session: SessionModel,
    command: Seq<char>,
    pid: u32,
    status: ChildStatus,
)
    requires
        session.launch(platform, command, false) is Ok,
    ensures
        session.poll_outcome(status) == PollModel::Idle,
        session.spawned(pid).poll_outcome(status) == PollModel::Idle,
        session.spawned(pid).poll_outcome(status).wire_text() == idle_marker(),
{
}

/// What happens to a session with a running process between two moments:
/// the reader delivers output, or the caller polls.
pub enum Step {
    Output(Seq<char>),
    Poll,
}

/// Everything the reader delivered during `steps`, in order.
pub open spec fn delivered(steps: Seq<Step>) -> Seq<char>
    decreases steps.len(),
{
    if steps.len() == 0 {
        Seq::empty()
    } else {
        match steps.last() {
            Step::Output(text) => delivered(steps.drop_last()) + text,
            Step::Poll => delivered(steps.drop_last()),
        }
    }
}

/// The state of a running process after `steps`.
pub open spec fn state_after(state: ProcessModel, steps: Seq<Step>) -> ProcessModel
    decreases steps.len(),
{
    if steps.len() == 0 {
        state
    } else {
        let before = state_after(state, steps.drop_last());
        match steps.last() {
            Step::Output(text) => before.appended(text),
            Step::Poll => before.polled(ChildStatus::Running),
        }
    }
}

/// The text that a poll hands out.
pub open spec fn handed_out(outcome: PollModel) -> Seq<char> {
    match outcome {
        PollModel::Data(text) => text,
        PollModel::Exited { output, .. } => output,
        _ => Seq::empty(),
    }
}

/// Everything the polls during `steps` handed out, in order.
pub open spec fn collected(state: ProcessModel, steps: Seq<Step>) -> Seq<char>
    decreases steps.len(),
{
    if steps.len() == 0 {
        Seq::empty()
    } else {
        let before = state_after(state, steps.drop_last());
        match steps.last() {
            Step::Output(_) => collected(state, steps.drop_last()),
            Step::Poll => collected(state, steps.drop_last()) + handed_out(
                before.poll_outcome(ChildStatus::Running),
            ),
        }
    }
}

/// However deliveries and polls of a running process interleave, the polls
/// hand out what was delivered, in the order of delivery, with nothing left
/// out and nothing repeated: what the polls have handed out, followed by
/// what is still buffered, is what was buffered at the start followed by
/// everything delivered since. The poll that reports the exit hands out
/// the rest.
pub proof fn law_polls_preserve_output(state: ProcessModel, steps: Seq<Step>, code: Option<i32>)
    requires
        state.current is Some,
    ensures
        state_after(state, steps).current == state.current,
        collected(state, steps) + state_after(state, steps).buffer == state.buffer + delivered(
            steps,
        ),
        collected(state, steps) + handed_out(
            state_after(state, steps).poll_outcome(ChildStatus::Exited(code)),
        ) == state.buffer + delivered(steps),
    decreases steps.len(),
{
    if steps.len() == 0 {
        assert(Seq::<char>::empty() + state.buffer =~= state.buffer + Seq::<char>::empty());
    } else {
        let earlier = steps.drop_last();
        law_polls_preserve_output(state, earlier, code);
        let before = state_after(state, earlier);
        match steps.last() {
            Step::Output(text) => {
                assert(collected(state, earlier) + (before.buffer + text) =~= (collected(
                    state,
                    earlier,
                ) + before.buffer) + text);
                assert((state.buffer + delivered(earlier)) + text =~= state.buffer + (delivered(
                    earlier,
                ) + text));
            },
            Step::Poll => {
                let out = handed_out(before.poll_outcome(ChildStatus::Running));
                assert(out =~= before.buffer);
                assert((collected(state, earlier) + out) + Seq::<char>::empty() =~= collected(
                    state,
                    earlier,
                ) + before.buffer);
            },
        }
    }
}

/// An interrupt does not stop at asking: where signals exist, the group of
/// the attached process is asked to terminate, given the grace period, and
/// then killed, and the child is killed through its handle in any case.
/// Afterwards nothing is attached and nothing is buffered.
pub proof fn law_interrupt_escalates(platform: Platform, state: ProcessModel, pid: u32)
    requires
        state.current matches Some(process) && process.pid == Some(pid),
        1 < pid <= MAX_PID,
    ensures
        attached_plan(platform, state.current) == (match platform {
            Platform::Posix => seq![
                KillAction::Signal { target: (-(pid as int)) as i32, signal: Signal::Terminate },
                KillAction::Pause { millis: GRACE_MS },
                KillAction::Signal { target: (-(pid as int)) as i32, signal: Signal::Kill },
                KillAction::KillChild,
            ],
            Platform::Windows => seq![
                KillAction::KillTree { pid, recursive: true },
                KillAction::KillChild,
            ],
        }),
        state.interrupted().current is None,
        state.interrupted().group is None,
        state.interrupted().buffer == Seq::<char>::empty(),
        !state.interrupted().running.contains(pid),
{
    assert(attached_plan(platform, state.current) =~= (match platform {
        Platform::Posix => seq![
            KillAction::Signal { target: (-(pid as int)) as i32, signal: Signal::Terminate },
            KillAction::Pause { millis: GRACE_MS },
            KillAction::Signal { target: (-(pid as int)) as i32, signal: Signal::Kill },
            KillAction::KillChild,
        ],
        Platform::Windows => seq![
            KillAction::KillTree { pid, recursive: true },
            KillAction::KillChild,
        ],
    }));
    let kept = state.running.filter(crate::process::other_than(pid));
    if kept.contains(pid) {
        let i = choose|i: int| 0 <= i < kept.len() && kept[i] == pid;
        state.running.lemma_filter_pred(crate::process::other_than(pid), i);
    }
}

/// Whether a step can only reach what was named: a signal goes to one
/// process (a positive target) or to one group (a target below -1), never
/// to the caller's own group (0) or to every process (-1), and a forced end
/// goes to a process with a positive id.
pub open spec fn is_aimed(action: KillAction) -> bool {
    match action {
        KillAction::Signal { target, .. } => target > 0 || target < -1,
        KillAction::KillTree { pid, .. } => pid > 0,
        _ => true,
    }
}

/// Whether every step of a plan can only reach what was named.
pub open spec fn all_aimed(plan: Seq<KillAction>) -> bool {
    forall|i: int| 0 <= i < plan.len() ==> is_aimed(#[trigger] plan[i])
}

/// Plans that consist of aimed steps join to a plan of aimed steps.
pub proof fn lemma_all_aimed_join(a: Seq<KillAction>, b: Seq<KillAction>)
    requires
        all_aimed(a),
        all_aimed(b),
    ensures
        all_aimed(a + b),
{
    assert forall|i: int| 0 <= i < (a + b).len() implies is_aimed(#[trigger] (a + b)[i]) by {
        if i < a.len() {
            assert((a + b)[i] == a[i]);
        } else {
            assert((a + b)[i] == b[i - a.len()]);
        }
    }
}

/// Ending the tracked processes one by one takes aimed steps only.
pub proof fn lemma_tracked_plan_aimed(platform: Platform, running: Seq<u32>)
    ensures
        all_aimed(tracked_plan(platform, running)),
    decreases running.len(),
{
    if running.len() > 0 {
        lemma_tracked_plan_aimed(platform, running.drop_last());
        lemma_all_aimed_join(
            tracked_plan(platform, running.drop_last()),
            single_plan(platform, running.last()),
        );
    }
}

/// Whatever a session holds, and whatever ids were recorded for it, its
/// teardown and its interrupt signal only single processes and single
/// groups: no step addresses the caller's own group or every process.
pub proof fn law_teardown_is_aimed(platform: Platform, session: SessionModel)
    ensures
        all_aimed(teardown_plan(platform, session)),
        all_aimed(session.interrupt_plan(platform)),
{
    match session.backend {
        BackendModel::Pty(_) => {},
        BackendModel::Process(state) => {
            lemma_tracked_plan_aimed(platform, state.running);
            lemma_all_aimed_join(
                attached_plan(platform, state.current),
                group_plan(platform, state.group),
            );
            lemma_all_aimed_join(
                attached_plan(platform, state.current) + group_plan(platform, state.group),
                tracked_plan(platform, state.running),
            );
        },
    }
}

/// Whatever a listing holds, the holders of a port are ended by aimed
/// steps only, and where signals are sent every target is a single process.
pub proof fn law_port_plan_is_aimed(platform: Platform, port: u16, text: Seq<char>)
    ensures
        all_aimed(listing_plan(platform, port, text)),
        forall|i: int|
            0 <= i < listing_plan(platform, port, text).len() ==> (#[trigger] listing_plan(
                platform,
                port,
                text,
            )[i] matches KillAction::Signal { target, .. } ==> target > 0),
    decreases text.len(),
{
    if text.len() > 0 {
        let n = first_line_len(text);
        if 0 <= n < text.len() {
            let head = line_plan(platform, port, text.take(n));
            let tail = listing_plan(platform, port, text.skip(n + 1));
            law_port_plan_is_aimed(platform, port, text.skip(n + 1));
            lemma_all_aimed_join(head, tail);
            assert forall|i: int| 0 <= i < (head + tail).len() implies (#[trigger] (head + tail)[i] matches KillAction::Signal {
                target,
                ..
            } ==> target > 0) by {
                if i < head.len() {
                    assert((head + tail)[i] == head[i]);
                } else {
                    assert((head + tail)[i] == tail[i - head.len()]);
                }
            }
        }
    }
}

/// A full shutdown covers every session: its plan holds, for each session
/// of the registry and in the registry's order, the teardown of that
/// session, whatever state the session is in.
pub proof fn law_cleanup_covers_all(platform: Platform, sessions: Seq<SessionModel>, i: int)
    requires
        0 <= i < sessions.len(),
    ensures
        all_teardowns(platform, sessions).len() == sessions.len(),
        all_teardowns(platform, sessions)[i] == (TeardownModel {
            session_id: sessions[i].info.id,
            actions: teardown_plan(platform, sessions[i]),
        }),
        ids_unique(sessions) ==> all_teardowns(platform, sessions)[i].actions == teardown_of(
            platform,
            sessions,
            sessions[i].info.id,
        ),
{
    if ids_unique(sessions) {
        lemma_index_of(sessions, sessions[i].info.id, i);
    }
}

/// Text written to a terminal and read back from it is published as
/// written, under the identifier of its session, and the reader goes on:
/// the input path hands the text on unchanged, the bytes of the text are
/// valid and decode to the text, and what a terminal read is published as
/// it was read.
pub proof fn law_terminal_round_trip(session: SessionModel, text: Seq<char>)
    requires
        session.backend is Pty,
        text.len() > 0,
    ensures
        forall|r: Result<String, SessionError>|
            session.accepts_raw_input() && #[trigger] session.raw_input_gives(text, r) ==> (
            r matches Ok(written) && written@ == text),
        encode_utf8(text).len() > 0,
        valid_utf8(encode_utf8(text)),
        decode_utf8(encode_utf8(text)) == text,
        session.reader_step(ReadEventModel::Text(decode_utf8(encode_utf8(text))))
            == (ReaderStepModel {
            publish: Some(OutputInfo { session_id: session.info.id, output: text, exit_code: None }),
            keep_reading: true,
        }),
        session.after_read(ReadEventModel::Text(text)) == session,
{
    vstd::utf8::encode_utf8_valid_utf8(text);
    vstd::utf8::encode_utf8_decode_utf8(text);
    if encode_utf8(text).len() == 0 {
        assert(decode_utf8(encode_utf8(text)) =~= Seq::<char>::empty());
    }
}

/// No operation on a session changes its identifier, its directory or the
/// kind of its backend.
pub proof fn law_backend_is_fixed(
    session: SessionModel,
    pid: u32,
    attached_pid: Option<u32>,
    has_stdin: bool,
    status: ChildStatus,
    event: ReadEventModel,
)
    ensures
        session.spawned(pid).info == session.info,
        session.spawned(pid).backend.kind() == session.backend.kind(),
        session.attached(attached_pid, has_stdin).info == session.info,
        session.attached(attached_pid, has_stdin).backend.kind() == session.backend.kind(),
        session.polled(status).info == session.info,
        session.polled(status).backend.kind() == session.backend.kind(),
        session.interrupted().info == session.info,
        session.interrupted().backend.kind() == session.backend.kind(),
        session.after_read(event).info == session.info,
        session.after_read(event).backend.kind() == session.backend.kind(),
{
}

/// What is done to one session leaves every other session as it was: a
/// session registered under another identifier is found as before after a
/// session has been replaced or removed.
pub proof fn law_sessions_are_independent(
    sessions: Seq<SessionModel>,
    id: Seq<char>,
    other: Seq<char>,
    session: SessionModel,
)
    requires
        ids_unique(sessions),
        other != id,
        session.info.id == id,
    ensures
        lookup(replaced(sessions, id, session), other) == lookup(sessions, other),
        lookup(removed(sessions, id), other) == lookup(sessions, other),
{
    if has_session(sessions, id) {
        let i = index_of(sessions, id);
        lemma_replace(sessions, id, i, session);
        lemma_remove(sessions, id, i);
        let updated = sessions.update(i, session);
        let shorter = sessions.remove(i);
        if has_session(sessions, other) {
            let j = index_of(sessions, other);
            assert(updated[j] == sessions[j]);
            lemma_index_of(updated, other, j);
            let k = if j < i {
                j
            } else {
                j - 1
            };
            assert(shorter[k] == sessions[j]);
            lemma_index_of(shorter, other, k);
        } else {
            if has_session(updated, other) {
                let j = index_of(updated, other);
                assert(updated[j] == sessions[j]);
                assert(sessions[j].info.id == other);
            }
            if has_session(shorter, other) {
                let k = index_of(shorter, other);
                let j = if k < i {
                    k
                } else {
                    k + 1
                };
                assert(shorter[k] == sessions[j]);
                assert(sessions[j].info.id == other);
            }
        }
    }
}

/// A numeral is a non-empty run of digits that writes its number.
pub proof fn law_numeral_is_read_back(n: nat)
    ensures
        decimal(n).len() > 0,
        all_digits(decimal(n)),
        is_digit(decimal(n)[0]),
        digits_value(decimal(n)) == n,
    decreases n,
{
    let last = digit_char(n % 10);
    assert(is_digit(last) && digit_value(last) == n % 10);
    if n >= 10 {
        law_numeral_is_read_back(n / 10);
        let shorter = decimal(n / 10);
        let whole = shorter.push(last);
        assert(whole.drop_last() =~= shorter);
        assert(whole[0] == shorter[0]);
        assert(digits_value(whole) == digits_value(shorter) * 10 + digit_value(last));
    } else {
        let whole = seq![last];
        assert(whole.drop_last() =~= Seq::<char>::empty());
        assert(digits_value(whole.drop_last()) == 0);
        assert(digits_value(whole) == digit_value(last));
    }
}

/// Reading the numeral of a 32-bit integer gives the integer back, signed
/// or unsigned.
pub proof fn law_numbers_round_trip(signed: i32, unsigned: u32)
    ensures
        parse_i32(signed_decimal(signed as int)) == Some(signed),
        parse_u32(decimal(unsigned as nat)) == Some(unsigned),
{
    law_numeral_is_read_back(unsigned as nat);
    if signed < 0 {
        let magnitude = (-signed) as nat;
        law_numeral_is_read_back(magnitude);
        let text = signed_decimal(signed as int);
        assert(text[0] == '-');
        assert(text.skip(1) =~= decimal(magnitude));
    } else {
        law_numeral_is_read_back(signed as nat);
    }
}

/// An identifier is among the identifiers of a registry exactly when a
/// session is registered under it.
proof fn lemma_ids_of(sessions: Seq<SessionModel>, id: Seq<char>)
    ensures
        ids_of(sessions).contains(id) == has_session(sessions, id),
{
    let ids = ids_of(sessions);
    if has_session(sessions, id) {
        let i = choose|i: int| 0 <= i < sessions.len() && (#[trigger] sessions[i]).info.id == id;
        assert(ids[i] == id);
    }
    if ids.contains(id) {
        let i = choose|i: int| 0 <= i < ids.len() && ids[i] == id;
        assert(sessions[i].info.id == id);
    }
}

/// An identifier that was handed out stays handed out, whatever happens to
/// its session: changing the session, closing it and a full shutdown all
/// leave the set of identifiers handed out as it was, and registration
/// adds to it. Since a session is registered only under an identifier
/// outside that set, no identifier is used again after its session was
/// removed.
pub proof fn law_identifiers_are_never_reused(
    sessions: Seq<SessionModel>,
    retired: Seq<Seq<char>>,
    id: Seq<char>,
    session: SessionModel,
    created: SessionModel,
)
    requires
        ids_unique(sessions),
        has_session(sessions, id),
        session.info.id == id,
    ensures
        issued(replaced(sessions, id, session), retired) == issued(sessions, retired),
        issued(removed(sessions, id), retired.push(id)) == issued(sessions, retired),
        issued(removed(sessions, id), retired.push(id)).contains(id),
        issued(Seq::empty(), retired + ids_of(sessions)) == issued(sessions, retired),
        issued(sessions.push(created), retired) == issued(sessions, retired).insert(
            created.info.id,
        ),
{
    let before = issued(sessions, retired);
    let changed = issued(replaced(sessions, id, session), retired);
    let closed = issued(removed(sessions, id), retired.push(id));
    let swept = issued(Seq::empty(), retired + ids_of(sessions));
    let grown = issued(sessions.push(created), retired);
    let i = index_of(sessions, id);
    lemma_replace(sessions, id, i, session);
    lemma_remove(sessions, id, i);
    assert(retired.push(id)[retired.len() as int] == id);
    assert forall|q: Seq<char>| changed.contains(q) == before.contains(q) by {
        if q == id {
            assert(sessions.update(i, session)[i].info.id == id);
        } else {
            law_sessions_are_independent(sessions, id, q, session);
        }
    }
    assert forall|q: Seq<char>| closed.contains(q) == before.contains(q) by {
        if q != id {
            law_sessions_are_independent(sessions, id, q, session);
            if retired.push(id).contains(q) {
                let k = choose|k: int| 0 <= k < retired.push(id).len() && retired.push(id)[k] == q;
                assert(retired[k] == q);
            }
            if retired.contains(q) {
                let k = choose|k: int| 0 <= k < retired.len() && retired[k] == q;
                assert(retired.push(id)[k] == q);
            }
        }
    }
    assert forall|q: Seq<char>| swept.contains(q) == before.contains(q) by {
        let ids = ids_of(sessions);
        let all = retired + ids;
        lemma_ids_of(sessions, q);
        if all.contains(q) {
            let k = choose|k: int| 0 <= k < all.len() && all[k] == q;
            if k < retired.len() {
                assert(retired[k] == q);
            } else {
                assert(ids[k - retired.len()] == q);
            }
        }
        if retired.contains(q) {
            let k = choose|k: int| 0 <= k < retired.len() && retired[k] == q;
            assert(all[k] == q);
        }
        if ids.contains(q) {
            let k = choose|k: int| 0 <= k < ids.len() && ids[k] == q;
            assert(all[retired.len() + k] == q);
        }
    }
    assert forall|q: Seq<char>| grown.contains(q) == before.insert(created.info.id).contains(
        q,
    ) by {
        let longer = sessions.push(created);
        if has_session(longer, q) {
            let k = choose|k: int| 0 <= k < longer.len() && (#[trigger] longer[k]).info.id == q;
            if k < sessions.len() {
                assert(sessions[k].info.id == q);
            }
        }
        if has_session(sessions, q) {
            let k = choose|k: int| 0 <= k < sessions.len() && (#[trigger] sessions[k]).info.id == q;
            assert(longer[k].info.id == q);
        }
        if q == created.info.id {
            assert(longer[sessions.len() as int].info.id == q);
        }
    }
    assert(changed =~= before);
    assert(closed =~= before);
    assert(swept =~= before);
    assert(grown =~= before.insert(created.info.id));
}

} // verus!

//! The registry of live sessions. It alone owns the state of every session;
//! a session is reached through its identifier and in no other way.

use crate::error::SessionError;
use crate::ident::{fresh_session_id, is_session_id};
use crate::operations::{ReadEvent, ReaderStep, ReaderStepModel};
use crate::platform::Platform;
use crate::ports::{cleanup_dev_ports, dev_ports};
use crate::process::{ChildStatus, CommandSpec, PollOutcome};
use crate::pty::{build_pty_launch, pty_launch, PtyLaunch};
use crate::session::{
    initial_session, BackendKind, SessionModel, TerminalSession, TerminalSessionData,
};
use crate::terminate::{plan_teardown, teardown_plan, KillAction};
use crate::text::str_eq;
use vstd::prelude::*;

verus! {

/// Whether no two sessions share an identifier.
pub open spec fn ids_unique(sessions: Seq<SessionModel>) -> bool {
    forall|i: int, j: int|
        0 <= i < j < sessions.len() ==> (#[trigger] sessions[i]).info.id != (
        #[trigger] sessions[j]).info.id
}

/// Whether a session is registered under `id`.
pub open spec fn has_session(sessions: Seq<SessionModel>, id: Seq<char>) -> bool {
    exists|i: int| 0 <= i < sessions.len() && (#[trigger] sessions[i]).info.id == id
}

/// The place of the session registered under `id`.
pub open spec fn index_of(sessions: Seq<SessionModel>, id: Seq<char>) -> int
    recommends
        has_session(sessions, id),
{
    choose|i: int| 0 <= i < sessions.len() && (#[trigger] sessions[i]).info.id == id
}

/// The session registered under `id`, if there is one.
pub open spec fn lookup(sessions: Seq<SessionModel>, id: Seq<char>) -> Option<SessionModel> {
    if has_session(sessions, id) {
        Some(sessions[index_of(sessions, id)])
    } else {
        None
    }
}

/// The registry with `session` in the place of the session registered under
/// `id`; unchanged if there is none.
pub open spec fn replaced(sessions: Seq<SessionModel>, id: Seq<char>, session: SessionModel) -> Seq<
    SessionModel,
> {
    if has_session(sessions, id) {
        sessions.update(index_of(sessions, id), session)
    } else {
        sessions
    }
}

/// The registry without the session registered under `id`; unchanged if
/// there is none.
pub open spec fn removed(sessions: Seq<SessionModel>, id: Seq<char>) -> Seq<SessionModel> {
    if has_session(sessions, id) {
        sessions.remove(index_of(sessions, id))
    } else {
        sessions
    }
}

/// How the session registered under `id` is torn down; nothing if there is
/// none.
pub open spec fn teardown_of(platform: Platform, sessions: Seq<SessionModel>, id: Seq<char>) -> Seq<
    KillAction,
> {
    match lookup(sessions, id) {
        Some(session) => teardown_plan(platform, session),
        None => Seq::empty(),
    }
}

/// The identifiers that have been handed out: those of the live sessions
/// and those of the sessions that were removed.
pub open spec fn issued(sessions: Seq<SessionModel>, retired: Seq<Seq<char>>) -> Set<Seq<char>> {
    Set::new(|id: Seq<char>| has_session(sessions, id) || retired.contains(id))
}

/// The identifiers of the sessions of a registry, in the registry's order.
pub open spec fn ids_of(sessions: Seq<SessionModel>) -> Seq<Seq<char>> {
    Seq::new(sessions.len(), |i: int| sessions[i].info.id)
}

/// The texts of a list of strings.
pub open spec fn texts(items: Seq<String>) -> Seq<Seq<char>> {
    Seq::new(items.len(), |i: int| items[i]@)
}

/// In a registry without duplicates, a place that holds the identifier is
/// the place of that identifier.
pub proof fn lemma_index_of(sessions: Seq<SessionModel>, id: Seq<char>, i: int)
    requires
        ids_unique(sessions),
        0 <= i < sessions.len(),
        sessions[i].info.id == id,
    ensures
        has_session(sessions, id),
        index_of(sessions, id) == i,
        lookup(sessions, id) == Some(sessions[i]),
{
    let j = index_of(sessions, id);
    assert(0 <= j < sessions.len() && sessions[j].info.id == id);
    if j < i {
        assert(sessions[j].info.id != sessions[i].info.id);
    } else if i < j {
        assert(sessions[i].info.id != sessions[j].info.id);
    }
}

/// The plain values of a list of sessions.
pub open spec fn models(items: Seq<TerminalSessionData>) -> Seq<SessionModel> {
    Seq::new(items.len(), |i: int| items[i]@)
}

/// The teardown of one session, as plain values.
pub struct TeardownModel {
    pub session_id: Seq<char>,
    pub actions: Seq<KillAction>,
}

/// The teardown of one session: whose it is and the steps to take.
#[derive(Debug)]
pub struct Teardown {
    pub session_id: String,
    pub actions: Vec<KillAction>,
}

impl View for Teardown {
    type V = TeardownModel;

    open spec fn view(&self) -> TeardownModel {
        TeardownModel { session_id: self.session_id@, actions: self.actions@ }
    }
}

/// A full shutdown, as plain values.
pub struct CleanupModel {
    pub sessions: Seq<TeardownModel>,
    pub ports: Seq<u16>,
}

/// A full shutdown: the teardown of every session, then the ports to
/// reclaim.
#[derive(Debug)]
pub struct CleanupPlan {
    pub sessions: Vec<Teardown>,
    pub ports: Vec<u16>,
}

impl View for CleanupPlan {
    type V = CleanupModel;

    open spec fn view(&self) -> CleanupModel {
        CleanupModel {
            sessions: Seq::new(self.sessions@.len(), |i: int| self.sessions@[i]@),
            ports: self.ports@,
        }
    }
}

/// The teardown of every session of a registry, in the registry's order.
pub open spec fn all_teardowns(platform: Platform, sessions: Seq<SessionModel>) -> Seq<
    TeardownModel,
> {
    Seq::new(
        sessions.len(),
        |i: int|
            TeardownModel {
                session_id: sessions[i].info.id,
                actions: teardown_plan(platform, sessions[i]),
            },
    )
}

/// The state shared by all session operations: the sessions that are alive,
/// in the order of their creation, the identifiers of the sessions that
/// were removed, and the platform they run on.
///
/// No two live sessions ever share an identifier, and no session is ever
/// registered under an identifier that was handed out before.
pub struct AppState {
    platform: Platform,
    terminals: Vec<TerminalSessionData>,
    retired: Vec<String>,
}

impl View for AppState {
    type V = Seq<SessionModel>;

    closed spec fn view(&self) -> Seq<SessionModel> {
        models(self.terminals@)
    }
}

impl AppState {
    #[verifier::type_invariant]
    spec fn well_formed(self) -> bool {
        ids_unique(models(self.terminals@))
    }

    /// The platform the registry plans for.
    pub closed spec fn spec_platform(&self) -> Platform {
        self.platform
    }

    /// The identifiers of the sessions that were removed, in the order of
    /// their removal.
    pub closed spec fn retired_ids(&self) -> Seq<Seq<char>> {
        texts(self.retired@)
    }

    /// An empty registry that has handed out no identifier.
    pub fn new(platform: Platform) -> (state: Self)
        ensures
            state@ == Seq::<SessionModel>::empty(),
            state.retired_ids() == Seq::<Seq<char>>::empty(),
            state.spec_platform() == platform,
    {
        let state = AppState { platform, terminals: Vec::new(), retired: Vec::new() };
        assert(state@ =~= Seq::<SessionModel>::empty());
        assert(state.retired_ids() =~= Seq::<Seq<char>>::empty());
        state
    }

    fn is_retired(&self, id: &str) -> (found: bool)
        ensures
            found == self.retired_ids().contains(id@),
    {
        let mut i: usize = 0;
        while i < self.retired.len()
            invariant
                i <= self.retired@.len(),
                forall|k: int| 0 <= k < i ==> texts(self.retired@)[k] != id@,
            decreases self.retired.len() - i,
        {
            if str_eq(self.retired[i].as_str(), id) {
                assert(texts(self.retired@)[i as int] == id@);
                return true;
            }
            i += 1;
        }
        false
    }

    /// Whether `id` has been handed out, to a session that is alive or to
    /// one that was removed.
    pub fn was_issued(&self, id: &str) -> (found: bool)
        ensures
            found == issued(self@, self.retired_ids()).contains(id@),
            ids_unique(self@),
    {
        self.find(id).is_some() || self.is_retired(id)
    }

    /// The platform the registry plans for.
    pub fn platform(&self) -> (p: Platform)
        ensures
            p == self.spec_platform(),
    {
        self.platform
    }

    /// The number of live sessions.
    pub fn len(&self) -> (n: usize)
        ensures
            n == self@.len(),
    {
        self.terminals.len()
    }

    /// Whether no session is alive.
    pub fn is_empty(&self) -> (empty: bool)
        ensures
            empty == (self@.len() == 0),
    {
        self.terminals.len() == 0
    }

    fn find(&self, id: &str) -> (r: Option<usize>)
        ensures
            ids_unique(self@),
            match r {
                Some(i) => i < self.terminals@.len() && lookup(self@, id@) == Some(
                    self.terminals@[i as int]@,
                ) && index_of(self@, id@) == i && has_session(self@, id@),
                None => !has_session(self@, id@) && lookup(self@, id@) is None,
            },
    {
        proof {
            use_type_invariant(self);
        }
        let mut i: usize = 0;
        while i < self.terminals.len()
            invariant
                i <= self.terminals@.len(),
                ids_unique(self@),
                self@ == models(self.terminals@),
                forall|k: int| 0 <= k < i ==> (#[trigger] self@[k]).info.id != id@,
            decreases self.terminals.len() - i,
        {
            if str_eq(self.terminals[i].session.id(), id) {
                proof {
                    lemma_index_of(self@, id@, i as int);
                }
                return Some(i);
            }
            i += 1;
        }
        None
    }

    /// Whether a session is registered under `id`.
    pub fn contains(&self, id: &str) -> (found: bool)
        ensures
            found == has_session(self@, id@),
    {
        self.find(id).is_some()
    }

    /// A copy of the record of the session registered under `id`.
    pub fn session(&self, id: &str) -> (r: Result<TerminalSession, SessionError>)
        ensures
            match lookup(self@, id@) {
                Some(found) => r matches Ok(session) && session@ == found.info,
                None => r matches Err(e) && e == SessionError::NotFound,
            },
    {
        match self.find(id) {
            Some(i) => Ok(self.terminals[i].session.clone()),
            None => Err(SessionError::NotFound),
        }
    }

    /// The state of the session registered under `id`.
    pub fn get(&self, id: &str) -> (r: Result<&TerminalSessionData, SessionError>)
        ensures
            match lookup(self@, id@) {
                Some(found) => r matches Ok(data) && data@ == found,
                None => r matches Err(e) && e == SessionError::NotFound,
            },
    {
        match self.find(id) {
            Some(i) => Ok(&self.terminals[i]),
            None => Err(SessionError::NotFound),
        }
    }

    /// Registers a new session under `id`, unless the identifier has been
    /// handed out before, to a session that is alive or to one that was
    /// removed. The new session comes last.
    pub fn register_session(&mut self, id: String, working_directory: String, kind: BackendKind) -> (r:
        Result<TerminalSession, SessionError>)
        ensures
            final(self).spec_platform() == old(self).spec_platform(),
            final(self).retired_ids() == old(self).retired_ids(),
            ids_unique(final(self)@),
            if issued(old(self)@, old(self).retired_ids()).contains(id@) {
                &&& r matches Err(e) && e == SessionError::IdInUse
                &&& final(self)@ == old(self)@
            } else {
                &&& r matches Ok(session) && session@ == initial_session(
                    id@,
                    working_directory@,
                    kind,
                ).info
                &&& final(self)@ == old(self)@.push(initial_session(id@, working_directory@, kind))
            },
    {
        if self.was_issued(id.as_str()) {
            return Err(SessionError::IdInUse);
        }
        let data = TerminalSessionData::new(id, working_directory, kind);
        let session = data.session.clone();
        let ghost before = self@;
        proof {
            let after = models(self.terminals@.push(data));
            assert(after =~= before.push(data@));
            assert forall|i: int, j: int| 0 <= i < j < after.len() implies (#[trigger] after[i]).info.id
                != (#[trigger] after[j]).info.id by {
                if j == before.len() {
                    assert(before[i].info.id != id@);
                } else {
                    assert(before[i].info.id != before[j].info.id);
                }
            }
        }
        let mut items: Vec<TerminalSessionData> = Vec::new();
        core::mem::swap(&mut self.terminals, &mut items);
        items.push(data);
        self.terminals = items;
        Ok(session)
    }

    /// Creates a session of the given kind in `working_directory`, once its
    /// backend has been started: `start` is the outcome of starting it, with
    /// the operating system's reason if it could not be started. A backend
    /// that did not start leaves no session behind.
    ///
    /// The session is registered under a newly drawn identifier, which is
    /// random. Should the draw repeat an identifier that was handed out
    /// before, nothing is registered and the creation fails; a registry
    /// that has handed out none cannot fail in this way.
    pub fn create_terminal_session(
        &mut self,
        working_directory: String,
        kind: BackendKind,
        start: Result<(), String>,
    ) -> (r: Result<TerminalSession, SessionError>)
        ensures
            final(self).spec_platform() == old(self).spec_platform(),
            final(self).retired_ids() == old(self).retired_ids(),
            ids_unique(final(self)@),
            match start {
                Err(reason) => {
                    &&& r matches Err(SessionError::Spawn(text)) && text@ == reason@
                    &&& final(self)@ == old(self)@
                },
                Ok(_) => match r {
                    Ok(session) => {
                        &&& is_session_id(session@.id)
                        &&& !issued(old(self)@, old(self).retired_ids()).contains(session@.id)
                        &&& session@ == initial_session(session@.id, working_directory@, kind).info
                        &&& final(self)@ == old(self)@.push(
                            initial_session(session@.id, working_directory@, kind),
                        )
                    },
                    Err(e) => {
                        &&& e == SessionError::IdInUse
                        &&& final(self)@ == old(self)@
                        &&& old(self)@.len() + old(self).retired_ids().len() > 0
                    },
                },
            },
    {
        match start {
            Err(reason) => {
                proof {
                    use_type_invariant(&*self);
                }
                Err(SessionError::Spawn(reason))
            },
            Ok(_) => {
                let id = fresh_session_id();
                proof {
                    if old(self)@.len() + old(self).retired_ids().len() == 0 {
                        assert(!issued(old(self)@, old(self).retired_ids()).contains(id@));
                    }
                }
                self.register_session(id, working_directory, kind)
            },
        }
    }

    /// The text to write to the process attached to a session for a line
    /// of input: the input and a line feed.
    pub fn send_input_to_process(&self, id: &str, input: &str) -> (r: Result<String, SessionError>)
        ensures
            match lookup(self@, id@) {
                None => r matches Err(e) && e == SessionError::NotFound,
                Some(session) => if session.accepts_input() {
                    r matches Ok(line) && line@ == input@ + "\n"@
                } else {
                    r matches Err(e) && e == SessionError::NoActiveProcess
                },
            },
    {
        match self.find(id) {
            None => Err(SessionError::NotFound),
            Some(i) => self.terminals[i].input_line(input),
        }
    }

    /// The text to write to the terminal of a session: the input as it is.
    /// Fails as a transfer once the input side of the terminal is closed,
    /// and on a session that has no terminal.
    pub fn write_input(&self, id: &str, text: &str) -> (r: Result<String, SessionError>)
        ensures
            match lookup(self@, id@) {
                None => r matches Err(e) && e == SessionError::NotFound,
                Some(session) => session.raw_input_gives(text@, r),
            },
    {
        match self.find(id) {
            None => Err(SessionError::NotFound),
            Some(i) => self.terminals[i].raw_input(text),
        }
    }

    /// Plans the opening of the terminal of a terminal-backed session, with
    /// `shell` attached to it.
    pub fn prepare_terminal(&self, id: &str, shell: &str) -> (r: Result<PtyLaunch, SessionError>)
        ensures
            match lookup(self@, id@) {
                None => r matches Err(e) && e == SessionError::NotFound,
                Some(session) => if session.backend is Pty {
                    r matches Ok(launch) && launch@ == pty_launch(
                        shell@,
                        session.info.working_directory,
                    )
                } else {
                    r matches Err(e) && e == SessionError::BackendMismatch
                },
            },
    {
        match self.find(id) {
            None => Err(SessionError::NotFound),
            Some(i) => match self.terminals[i].kind() {
                BackendKind::Pty => Ok(
                    build_pty_launch(self.terminals[i].session.working_directory(), shell),
                ),
                BackendKind::Process => Err(SessionError::BackendMismatch),
            },
        }
    }

    /// Prepares the launch of `command` in the directory of a session.
    /// With `interactive`, the child's standard input is kept open for the
    /// session.
    pub fn prepare_command(&self, id: &str, command: &str, interactive: bool) -> (r: Result<
        CommandSpec,
        SessionError,
    >)
        ensures
            match lookup(self@, id@) {
                None => r matches Err(e) && e == SessionError::NotFound,
                Some(session) => match session.launch(
                    self.spec_platform(),
                    command@,
                    interactive,
                ) {
                    Ok(model) => r matches Ok(spec) && spec@ == model,
                    Err(why) => r matches Err(e) && e == why,
                },
            },
    {
        match self.find(id) {
            None => Err(SessionError::NotFound),
            Some(i) => self.terminals[i].launch(self.platform, command, interactive),
        }
    }

    /// Records that a child with id `pid` was spawned for a session: the id
    /// joins the session's tracked processes and names its process group.
    pub fn record_spawn(&mut self, id: &str, pid: u32) -> (r: Result<(), SessionError>)
        ensures
            final(self).spec_platform() == old(self).spec_platform(),
            final(self).retired_ids() == old(self).retired_ids(),
            ids_unique(final(self)@),
            match lookup(old(self)@, id@) {
                None => r == Err::<(), SessionError>(SessionError::NotFound) && final(self)@ == old(
                    self,
                )@,
                Some(session) => r == Ok::<(), SessionError>(()) && final(self)@ == replaced(
                    old(self)@,
                    id@,
                    session.spawned(pid),
                ),
            },
    {
        match self.find(id) {
            None => Err(SessionError::NotFound),
            Some(i) => {
                let mut items: Vec<TerminalSessionData> = Vec::new();
                core::mem::swap(&mut self.terminals, &mut items);
                items[i].record_spawn(pid);
                proof {
                    lemma_replace(old(self)@, id@, i as int, items@[i as int]@);
                    assert(models(items@) =~= old(self)@.update(i as int, items@[i as int]@));
                }
                self.terminals = items;
                Ok(())
            },
        }
    }

    /// Attaches an interactive child to a session. Fails, and changes
    /// nothing, on a terminal-backed session and while a process is attached.
    pub fn attach_process(&mut self, id: &str, pid: Option<u32>, has_stdin: bool) -> (r: Result<
        (),
        SessionError,
    >)
        ensures
            final(self).spec_platform() == old(self).spec_platform(),
            final(self).retired_ids() == old(self).retired_ids(),
            ids_unique(final(self)@),
            match lookup(old(self)@, id@) {
                None => r == Err::<(), SessionError>(SessionError::NotFound) && final(self)@ == old(
                    self,
                )@,
                Some(session) => r == session.attach_result() && final(self)@ == replaced(
                    old(self)@,
                    id@,
                    session.attached(pid, has_stdin),
                ),
            },
    {
        match self.find(id) {
            None => Err(SessionError::NotFound),
            Some(i) => {
                let mut items: Vec<TerminalSessionData> = Vec::new();
                core::mem::swap(&mut self.terminals, &mut items);
                let r = items[i].attach(pid, has_stdin);
                proof {
                    lemma_replace(old(self)@, id@, i as int, items@[i as int]@);
                    assert(models(items@) =~= old(self)@.update(i as int, items@[i as int]@));
                }
                self.terminals = items;
                r
            },
        }
    }

    /// Hands out what a session's process has written since the last poll,
    /// given what the operating system says of the process. A process that
    /// has exited is detached by the poll that reports its exit.
    pub fn get_process_output(&mut self, id: &str, status: ChildStatus) -> (r: Result<
        PollOutcome,
        SessionError,
    >)
        ensures
            final(self).spec_platform() == old(self).spec_platform(),
            final(self).retired_ids() == old(self).retired_ids(),
            ids_unique(final(self)@),
            match lookup(old(self)@, id@) {
                None => r matches Err(e) && e == SessionError::NotFound && final(self)@ == old(
                    self,
                )@,
                Some(session) => r matches Ok(outcome) && outcome@ == session.poll_outcome(status)
                    && final(self)@ == replaced(old(self)@, id@, session.polled(status)),
            },
    {
        match self.find(id) {
            None => Err(SessionError::NotFound),
            Some(i) => {
                let mut items: Vec<TerminalSessionData> = Vec::new();
                core::mem::swap(&mut self.terminals, &mut items);
                let outcome = items[i].poll(status);
                proof {
                    lemma_replace(old(self)@, id@, i as int, items@[i as int]@);
                    assert(models(items@) =~= old(self)@.update(i as int, items@[i as int]@));
                }
                self.terminals = items;
                Ok(outcome)
            },
        }
    }

    /// Interrupts the process attached to a session: plans the termination
    /// of its whole group, detaches it and empties the output buffer. With
    /// no process attached the plan is empty and the call still succeeds.
    pub fn kill_current_process(&mut self, id: &str) -> (r: Result<Vec<KillAction>, SessionError>)
        ensures
            final(self).spec_platform() == old(self).spec_platform(),
            final(self).retired_ids() == old(self).retired_ids(),
            ids_unique(final(self)@),
            match lookup(old(self)@, id@) {
                None => r matches Err(e) && e == SessionError::NotFound && final(self)@ == old(
                    self,
                )@,
                Some(session) => r matches Ok(plan) && plan@ == session.interrupt_plan(
                    old(self).spec_platform(),
                ) && final(self)@ == replaced(old(self)@, id@, session.interrupted()),
            },
    {
        match self.find(id) {
            None => Err(SessionError::NotFound),
            Some(i) => {
                let mut items: Vec<TerminalSessionData> = Vec::new();
                core::mem::swap(&mut self.terminals, &mut items);
                let plan = items[i].interrupt(self.platform);
                proof {
                    lemma_replace(old(self)@, id@, i as int, items@[i as int]@);
                    assert(models(items@) =~= old(self)@.update(i as int, items@[i as int]@));
                }
                self.terminals = items;
                Ok(plan)
            },
        }
    }

    /// Handles what one read of a session's output reported. The reader of
    /// a session that is no longer registered stops without publishing.
    pub fn handle_read(&mut self, id: &str, event: ReadEvent) -> (step: ReaderStep)
        ensures
            final(self).spec_platform() == old(self).spec_platform(),
            final(self).retired_ids() == old(self).retired_ids(),
            ids_unique(final(self)@),
            match lookup(old(self)@, id@) {
                None => step@ == (ReaderStepModel { publish: None, keep_reading: false })
                    && final(self)@ == old(self)@,
                Some(session) => step@ == session.reader_step(event@) && final(self)@ == replaced(
                    old(self)@,
                    id@,
                    session.after_read(event@),
                ),
            },
    {
        match self.find(id) {
            None => ReaderStep { publish: None, keep_reading: false },
            Some(i) => {
                let mut items: Vec<TerminalSessionData> = Vec::new();
                core::mem::swap(&mut self.terminals, &mut items);
                let step = items[i].handle_read(event);
                proof {
                    lemma_replace(old(self)@, id@, i as int, items@[i as int]@);
                    assert(models(items@) =~= old(self)@.update(i as int, items@[i as int]@));
                }
                self.terminals = items;
                step
            },
        }
    }

    /// Removes a session from the registry, retires its identifier and plans
    /// how the session is torn down. Closing a session that is not
    /// registered changes nothing and plans nothing; it is not an error.
    pub fn close_terminal_session(&mut self, id: &str) -> (plan: Vec<KillAction>)
        ensures
            final(self).spec_platform() == old(self).spec_platform(),
            ids_unique(final(self)@),
            !has_session(final(self)@, id@),
            final(self)@ == removed(old(self)@, id@),
            final(self).retired_ids() == if has_session(old(self)@, id@) {
                old(self).retired_ids().push(id@)
            } else {
                old(self).retired_ids()
            },
            plan@ == teardown_of(old(self).spec_platform(), old(self)@, id@),
    {
        match self.find(id) {
            None => Vec::new(),
            Some(i) => {
                let mut items: Vec<TerminalSessionData> = Vec::new();
                core::mem::swap(&mut self.terminals, &mut items);
                let data = items.remove(i);
                let plan = plan_teardown(self.platform, &data);
                proof {
                    lemma_remove(old(self)@, id@, i as int);
                    assert(models(items@) =~= old(self)@.remove(i as int));
                }
                self.terminals = items;
                let mut gone: Vec<String> = Vec::new();
                core::mem::swap(&mut self.retired, &mut gone);
                gone.push(String::from_str(id));
                assert(texts(gone@) =~= old(self).retired_ids().push(id@));
                self.retired = gone;
                plan
            },
        }
    }
}

impl AppState {
    /// Empties the registry and plans the teardown of every session that was
    /// in it, followed by the ports that a full shutdown reclaims. The sweep
    /// covers every session: no step of the plan depends on the success of
    /// another.
    pub fn cleanup_all_terminals(&mut self) -> (plan: CleanupPlan)
        ensures
            final(self).spec_platform() == old(self).spec_platform(),
            final(self)@ == Seq::<SessionModel>::empty(),
            final(self).retired_ids() == old(self).retired_ids() + ids_of(old(self)@),
            plan@.sessions == all_teardowns(old(self).spec_platform(), old(self)@),
            plan@.ports == dev_ports(),
    {
        let mut items: Vec<TerminalSessionData> = Vec::new();
        core::mem::swap(&mut self.terminals, &mut items);
        assert(self@ =~= Seq::<SessionModel>::empty());
        let mut gone: Vec<String> = Vec::new();
        core::mem::swap(&mut self.retired, &mut gone);
        let mut sessions: Vec<Teardown> = Vec::new();
        let mut i: usize = 0;
        assert(texts(gone@) =~= old(self).retired_ids() + ids_of(old(self)@).take(0));
        while i < items.len()
            invariant
                i <= items@.len(),
                sessions@.len() == i,
                models(items@) == old(self)@,
                texts(gone@) == old(self).retired_ids() + ids_of(old(self)@).take(i as int),
                forall|k: int|
                    0 <= k < i ==> (#[trigger] sessions@[k])@ == (TeardownModel {
                        session_id: items@[k]@.info.id,
                        actions: teardown_plan(self.spec_platform(), items@[k]@),
                    }),
            decreases items.len() - i,
        {
            let session_id = String::from_str(items[i].session.id());
            let actions = plan_teardown(self.platform, &items[i]);
            sessions.push(Teardown { session_id, actions });
            let ghost earlier = texts(gone@);
            gone.push(String::from_str(items[i].session.id()));
            proof {
                let ids = ids_of(old(self)@);
                assert(ids[i as int] == items@[i as int]@.info.id);
                assert(ids.take(i + 1) =~= ids.take(i as int).push(ids[i as int]));
                assert(texts(gone@) =~= earlier.push(ids[i as int]));
                assert(texts(gone@) =~= old(self).retired_ids() + ids.take(i + 1));
            }
            i += 1;
        }
        proof {
            let ids = ids_of(old(self)@);
            assert(ids.take(i as int) =~= ids);
        }
        self.retired = gone;
        let plan = CleanupPlan { sessions, ports: cleanup_dev_ports() };
        assert(plan@.sessions =~= all_teardowns(old(self).spec_platform(), old(self)@));
        plan
    }
}

/// Putting a session with the same identifier in a place of a registry
/// without duplicates leaves it without duplicates.
pub proof fn lemma_replace(sessions: Seq<SessionModel>, id: Seq<char>, i: int, session: SessionModel)
    requires
        ids_unique(sessions),
        0 <= i < sessions.len(),
        sessions[i].info.id == id,
        session.info.id == id,
    ensures
        replaced(sessions, id, session) == sessions.update(i, session),
        ids_unique(sessions.update(i, session)),
{
    lemma_index_of(sessions, id, i);
    let after = sessions.update(i, session);
    assert forall|a: int, b: int| 0 <= a < b < after.len() implies (#[trigger] after[a]).info.id != (
    #[trigger] after[b]).info.id by {
        assert(sessions[a].info.id != sessions[b].info.id);
    }
}

/// Taking a session out of a registry without duplicates leaves no session
/// under its identifier, and no duplicates.
pub proof fn lemma_remove(sessions: Seq<SessionModel>, id: Seq<char>, i: int)
    requires
        ids_unique(sessions),
        0 <= i < sessions.len(),
        sessions[i].info.id == id,
    ensures
        removed(sessions, id) == sessions.remove(i),
        ids_unique(sessions.remove(i)),
        !has_session(sessions.remove(i), id),
{
    lemma_index_of(sessions, id, i);
    let after = sessions.remove(i);
    assert forall|a: int, b: int| 0 <= a < b < after.len() implies (#[trigger] after[a]).info.id != (
    #[trigger] after[b]).info.id by {
        let a0 = if a < i { a } else { a + 1 };
        let b0 = if b < i { b } else { b + 1 };
        assert(after[a] == sessions[a0]);
        assert(after[b] == sessions[b0]);
        assert(sessions[a0].info.id != sessions[b0].info.id);
    }
    assert forall|k: int| 0 <= k < after.len() implies (#[trigger] after[k]).info.id != id by {
        let k0 = if k < i { k } else { k + 1 };
        assert(after[k] == sessions[k0]);
        if k0 < i {
            assert(sessions[k0].info.id != sessions[i].info.id);
        } else {
            assert(sessions[i].info.id != sessions[k0].info.id);
        }
    }
}

} // verus!

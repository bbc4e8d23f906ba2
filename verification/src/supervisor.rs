//! The supervisor of the one child process that the watcher may have.
//!
//! The supervisor never touches a process.  It holds the identifier of the
//! child, asks for one operation at a time (kill, wait, poll, spawn) and
//! is told the outcome.  Before a new child is started, the one that is
//! running is terminated and reaped, or waited for, as the policy says.

use vstd::prelude::*;
use crate::report::{executing, only_if, say, say_all, say_if, Line, LineModel};
use crate::text::clone_texts;

verus! {

/// The outcome of an operation that the supervisor asked for.  A `String`
/// is the system's own description of what went wrong.
#[derive(Debug, PartialEq, Eq)]
pub enum ProcReply {
    /// The termination signal was sent.
    Killed,
    /// The termination signal could not be sent.
    KillFailed(String),
    /// The wait is over: the child has exited and was reaped.  The code is
    /// absent where a signal ended the child.
    Waited(Option<i32>),
    /// The wait itself failed.
    WaitFailed(String),
    /// The check found the child running.
    StillRunning,
    /// The check found that the child has exited.  The code is absent where
    /// a signal ended the child.
    Exited(Option<i32>),
    /// The check itself failed.
    PollFailed(String),
    /// A new child runs under this identifier.
    Spawned(u32),
    /// The command could not be started.
    SpawnFailed(String),
}

/// The mathematical content of a [`ProcReply`].
pub enum ProcReplyModel {
    Killed,
    KillFailed(Seq<char>),
    Waited(Option<i32>),
    WaitFailed(Seq<char>),
    StillRunning,
    Exited(Option<i32>),
    PollFailed(Seq<char>),
    Spawned(u32),
    SpawnFailed(Seq<char>),
}

impl DeepView for ProcReply {
    type V = ProcReplyModel;

    open spec fn deep_view(&self) -> ProcReplyModel {
        match *self {
            ProcReply::Killed => ProcReplyModel::Killed,
            ProcReply::KillFailed(reason) => ProcReplyModel::KillFailed(reason@),
            ProcReply::Waited(code) => ProcReplyModel::Waited(code),
            ProcReply::WaitFailed(reason) => ProcReplyModel::WaitFailed(reason@),
            ProcReply::StillRunning => ProcReplyModel::StillRunning,
            ProcReply::Exited(code) => ProcReplyModel::Exited(code),
            ProcReply::PollFailed(reason) => ProcReplyModel::PollFailed(reason@),
            ProcReply::Spawned(id) => ProcReplyModel::Spawned(id),
            ProcReply::SpawnFailed(reason) => ProcReplyModel::SpawnFailed(reason@),
        }
    }
}

/// An operation on a process that the supervisor asks for.
#[derive(Debug, PartialEq, Eq)]
pub enum ProcRequest {
    /// Send the termination signal to this child.
    Kill(u32),
    /// Block until this child has exited, and reap it.
    Wait(u32),
    /// Check, without blocking, whether this child has exited.
    Poll(u32),
    /// Start `command[0]` with the rest of `command` as its arguments,
    /// after clearing the terminal where `clear` is set.
    Spawn { command: Vec<String>, clear: bool },
}

/// The mathematical content of a [`ProcRequest`].
pub enum ProcRequestModel {
    Kill(u32),
    Wait(u32),
    Poll(u32),
    Spawn { command: Seq<Seq<char>>, clear: bool },
}

impl DeepView for ProcRequest {
    type V = ProcRequestModel;

    open spec fn deep_view(&self) -> ProcRequestModel {
        match *self {
            ProcRequest::Kill(id) => ProcRequestModel::Kill(id),
            ProcRequest::Wait(id) => ProcRequestModel::Wait(id),
            ProcRequest::Poll(id) => ProcRequestModel::Poll(id),
            ProcRequest::Spawn { command, clear } => ProcRequestModel::Spawn {
                command: command.deep_view(),
                clear,
            },
        }
    }
}

/// Where the supervisor stands between two operations.
#[derive(Clone, Copy, Debug, PartialEq, Eq, Structural)]
pub enum Stage {
    /// Nothing is asked for.
    Settled,
    /// The child is being sent the termination signal.
    Killing,
    /// The child is being waited for.
    Reaping,
    /// The child is being checked.
    Polling,
    /// A new child is being started.
    Launching,
}

/// A command that is to be started once the running child is out of the way.
pub struct LaunchModel {
    pub command: Seq<Seq<char>>,
    pub clear: bool,
}

/// The state of the supervisor.
pub struct SupervisorModel {
    /// The child that is held, if any.
    pub child: Option<u32>,
    pub stage: Stage,
    /// What to start when the child has been resolved.
    pub launch: Option<LaunchModel>,
    /// Whether diagnostics are wanted.
    pub verbose: bool,
}

/// The status reported for a child: its exit code, or zero where it has
/// none.
pub open spec fn exit_status(code: Option<i32>) -> i32 {
    match code {
        Some(c) => c,
        None => 0,
    }
}

impl SupervisorModel {
    /// The supervisor before anything has happened.
    pub open spec fn initial(verbose: bool) -> SupervisorModel {
        SupervisorModel { child: None, stage: Stage::Settled, launch: None, verbose }
    }

    /// Every state that the supervisor can be in satisfies this.  A child is
    /// held while it is operated on; none is held while a new one is
    /// started.
    pub open spec fn wf(self) -> bool {
        match self.stage {
            Stage::Settled => self.launch is None,
            Stage::Killing | Stage::Reaping => self.child is Some,
            Stage::Polling => self.child is Some && self.launch is None,
            Stage::Launching => self.child is None && self.launch is Some
                && self.launch->0.command.len() > 0,
        }
    }

    /// No child, and nothing asked for.
    pub open spec fn is_idle(self) -> bool {
        self.child is None && self.stage == Stage::Settled
    }

    /// The operation that the supervisor waits to hear of, if any.
    pub open spec fn request(self) -> Option<ProcRequestModel> {
        match self.stage {
            Stage::Settled => None,
            Stage::Killing => Some(ProcRequestModel::Kill(self.child->0)),
            Stage::Reaping => Some(ProcRequestModel::Wait(self.child->0)),
            Stage::Polling => Some(ProcRequestModel::Poll(self.child->0)),
            Stage::Launching => Some(
                ProcRequestModel::Spawn {
                    command: self.launch->0.command,
                    clear: self.launch->0.clear,
                },
            ),
        }
    }

    /// The supervisor with no child and nothing left to do.
    pub open spec fn idle(self) -> SupervisorModel {
        SupervisorModel { child: None, stage: Stage::Settled, launch: None, verbose: self.verbose }
    }

    /// Starts `command`, no child being held.  An empty command cannot be
    /// started: that is reported, and the supervisor stays idle.
    pub open spec fn launch_now(self, command: Seq<Seq<char>>, clear: bool) -> (
        SupervisorModel,
        Seq<LineModel>,
    ) {
        if command.len() == 0 {
            (self.idle(), seq![LineModel::NoCommand])
        } else {
            (
                SupervisorModel {
                    child: None,
                    stage: Stage::Launching,
                    launch: Some(LaunchModel { command, clear }),
                    verbose: self.verbose,
                },
                only_if(self.verbose, LineModel::Executing(command)),
            )
        }
    }

    /// Begins to resolve the child that is held: by terminating it where
    /// `kill` is set, by waiting for it otherwise.
    pub open spec fn resolve_child(self, kill: bool, launch: Option<LaunchModel>) -> (
        SupervisorModel,
        Seq<LineModel>,
    ) {
        if kill {
            (
                SupervisorModel { stage: Stage::Killing, launch, ..self },
                only_if(self.verbose, LineModel::Killing),
            )
        } else {
            (
                SupervisorModel { stage: Stage::Reaping, launch, ..self },
                only_if(self.verbose, LineModel::Waiting),
            )
        }
    }

    /// A request to run `command`.  A running child is resolved first.  In
    /// the middle of another operation the request is ignored.
    pub open spec fn begin_spawn(self, command: Seq<Seq<char>>, kill: bool, clear: bool) -> (
        SupervisorModel,
        Seq<LineModel>,
    ) {
        if self.stage != Stage::Settled {
            (self, Seq::empty())
        } else if self.child is Some {
            self.resolve_child(kill, Some(LaunchModel { command, clear }))
        } else {
            self.launch_now(command, clear)
        }
    }

    /// A request to get rid of the running child, with nothing to follow.
    /// Without a child, or in the middle of another operation, nothing
    /// happens.
    pub open spec fn begin_resolve(self, kill: bool) -> (SupervisorModel, Seq<LineModel>) {
        if self.stage != Stage::Settled || self.child is None {
            (self, Seq::empty())
        } else {
            self.resolve_child(kill, None)
        }
    }

    /// A request to check on the running child.  Without a child, or in the
    /// middle of another operation, nothing happens.
    pub open spec fn begin_poll(self) -> SupervisorModel {
        if self.stage != Stage::Settled || self.child is None {
            self
        } else {
            SupervisorModel { stage: Stage::Polling, ..self }
        }
    }

    /// The child has exited and was reaped: what follows.
    pub open spec fn reaped(self, code: Option<i32>) -> (SupervisorModel, Seq<LineModel>) {
        let told = only_if(self.verbose, LineModel::Exited(exit_status(code)));
        match self.launch {
            Some(l) => {
                let next = self.idle().launch_now(l.command, l.clear);
                (next.0, told + next.1)
            },
            None => (self.idle(), told),
        }
    }

    /// The outcome of the operation that was asked for.  Every failure is
    /// told in a warning and leaves the supervisor idle, with nothing
    /// started.  An outcome of another operation changes nothing.
    pub open spec fn reply(self, outcome: ProcReplyModel) -> (SupervisorModel, Seq<LineModel>) {
        match (self.stage, outcome) {
            (Stage::Killing, ProcReplyModel::Killed) => (
                SupervisorModel { stage: Stage::Reaping, ..self },
                only_if(self.verbose, LineModel::Waiting),
            ),
            (Stage::Killing, ProcReplyModel::KillFailed(reason)) => (
                self.idle(),
                seq![LineModel::KillFailed(reason)],
            ),
            (Stage::Reaping, ProcReplyModel::Waited(code)) => self.reaped(code),
            (Stage::Reaping, ProcReplyModel::WaitFailed(reason)) => (
                self.idle(),
                seq![LineModel::WaitFailed(reason)],
            ),
            (Stage::Polling, ProcReplyModel::StillRunning) => (
                SupervisorModel { stage: Stage::Settled, ..self },
                Seq::empty(),
            ),
            (Stage::Polling, ProcReplyModel::Exited(code)) => (
                self.idle(),
                only_if(self.verbose, LineModel::Exited(exit_status(code))),
            ),
            (Stage::Polling, ProcReplyModel::PollFailed(reason)) => (
                self.idle(),
                seq![LineModel::PollFailed(reason)],
            ),
            (Stage::Launching, ProcReplyModel::Spawned(id)) => (
                SupervisorModel {
                    child: Some(id),
                    stage: Stage::Settled,
                    launch: None,
                    verbose: self.verbose,
                },
                Seq::empty(),
            ),
            (Stage::Launching, ProcReplyModel::SpawnFailed(reason)) => (
                self.idle(),
                seq![LineModel::SpawnFailed { program: self.launch->0.command[0], reason }],
            ),
            _ => (self, Seq::empty()),
        }
    }
}

#[derive(Debug)]
struct Launch {
    command: Vec<String>,
    clear: bool,
}

/// The supervisor: at most one child, and the operation in progress.
#[derive(Debug)]
pub struct Supervisor {
    child: Option<u32>,
    stage: Stage,
    launch: Option<Launch>,
    verbose: bool,
}

impl View for Supervisor {
    type V = SupervisorModel;

    closed spec fn view(&self) -> SupervisorModel {
        SupervisorModel {
            child: self.child,
            stage: self.stage,
            launch: match self.launch {
                Some(l) => Some(LaunchModel { command: l.command.deep_view(), clear: l.clear }),
                None => None,
            },
            verbose: self.verbose,
        }
    }
}

/// The status to report for a child that has exited.
pub fn status_of(code: Option<i32>) -> (status: i32)
    ensures
        status == exit_status(code),
{
    match code {
        Some(c) => c,
        None => 0,
    }
}

impl Supervisor {
    #[verifier::type_invariant]
    spec fn inv(&self) -> bool {
        self@.wf()
    }

    /// A supervisor without a child.
    pub fn new(verbose: bool) -> (s: Supervisor)
        ensures
            s@ == SupervisorModel::initial(verbose),
            s@.wf(),
    {
        Supervisor { child: None, stage: Stage::Settled, launch: None, verbose }
    }

    /// The child that is held, if any.
    pub fn child(&self) -> (child: Option<u32>)
        ensures
            child == self@.child,
            self@.wf(),
    {
        proof {
            use_type_invariant(self);
        }
        self.child
    }

    /// Whether nothing is asked for.
    pub fn is_settled(&self) -> (settled: bool)
        ensures
            settled == (self@.stage == Stage::Settled),
            settled == (self@.request() is None),
    {
        self.stage == Stage::Settled
    }

    /// The operation to perform next, if any.
    pub fn request(&self) -> (request: Option<ProcRequest>)
        ensures
            request.deep_view() == self@.request(),
    {
        proof {
            use_type_invariant(self);
        }
        match self.stage {
            Stage::Settled => None,
            Stage::Killing => match self.child {
                Some(id) => Some(ProcRequest::Kill(id)),
                None => None,
            },
            Stage::Reaping => match self.child {
                Some(id) => Some(ProcRequest::Wait(id)),
                None => None,
            },
            Stage::Polling => match self.child {
                Some(id) => Some(ProcRequest::Poll(id)),
                None => None,
            },
            Stage::Launching => match &self.launch {
                Some(l) => Some(
                    ProcRequest::Spawn { command: clone_texts(&l.command), clear: l.clear },
                ),
                None => None,
            },
        }
    }

    fn idle(verbose: bool) -> (s: Supervisor)
        ensures
            s@ == (SupervisorModel { child: None, stage: Stage::Settled, launch: None, verbose }),
    {
        Supervisor { child: None, stage: Stage::Settled, launch: None, verbose }
    }

    fn launch_now(verbose: bool, command: Vec<String>, clear: bool) -> (r: (Supervisor, Vec<Line>))
        ensures
            (r.0@, r.1.deep_view()) == SupervisorModel::initial(verbose).launch_now(
                command.deep_view(),
                clear,
            ),
    {
        let mut lines: Vec<Line> = Vec::new();
        assert(lines.deep_view() =~= Seq::<LineModel>::empty());
        if command.len() == 0 {
            say(&mut lines, Line::NoCommand);
            assert(lines.deep_view() =~= seq![LineModel::NoCommand]);
            (Supervisor::idle(verbose), lines)
        } else {
            say_if(&mut lines, verbose, executing(&command));
            assert(lines.deep_view() =~= only_if(
                verbose,
                LineModel::Executing(command.deep_view()),
            ));
            (
                Supervisor {
                    child: None,
                    stage: Stage::Launching,
                    launch: Some(Launch { command, clear }),
                    verbose,
                },
                lines,
            )
        }
    }

    fn resolve_child(self, kill: bool, launch: Option<Launch>) -> (r: (Supervisor, Vec<Line>))
        requires
            self@.child is Some,
        ensures
            (r.0@, r.1.deep_view()) == self@.resolve_child(
                kill,
                match launch {
                    Some(l) => Some(LaunchModel { command: l.command.deep_view(), clear: l.clear }),
                    None => None,
                },
            ),
    {
        let mut lines: Vec<Line> = Vec::new();
        assert(lines.deep_view() =~= Seq::<LineModel>::empty());
        if kill {
            say_if(&mut lines, self.verbose, Line::Killing);
            assert(lines.deep_view() =~= only_if(self.verbose, LineModel::Killing));
            (
                Supervisor {
                    child: self.child,
                    stage: Stage::Killing,
                    launch,
                    verbose: self.verbose,
                },
                lines,
            )
        } else {
            say_if(&mut lines, self.verbose, Line::Waiting);
            assert(lines.deep_view() =~= only_if(self.verbose, LineModel::Waiting));
            (
                Supervisor {
                    child: self.child,
                    stage: Stage::Reaping,
                    launch,
                    verbose: self.verbose,
                },
                lines,
            )
        }
    }

    /// Asks for `command` to be run.  A child that is running is first
    /// terminated and reaped where `kill` is set, and waited for otherwise;
    /// the command is started once that has succeeded, after clearing the
    /// terminal where `clear` is set.
    pub fn try_spawn(self, command: Vec<String>, kill: bool, clear: bool) -> (r: (
        Supervisor,
        Vec<Line>,
    ))
        ensures
            (r.0@, r.1.deep_view()) == self@.begin_spawn(command.deep_view(), kill, clear),
            r.0@.wf(),
    {
        proof {
            use_type_invariant(&self);
        }
        if self.stage != Stage::Settled {
            let lines: Vec<Line> = Vec::new();
            assert(lines.deep_view() =~= Seq::<LineModel>::empty());
            (self, lines)
        } else if self.child.is_some() {
            self.resolve_child(kill, Some(Launch { command, clear }))
        } else {
            Supervisor::launch_now(self.verbose, command, clear)
        }
    }

    /// Asks for the running child to be terminated and reaped where `kill`
    /// is set, and waited for otherwise.
    pub fn resolve(self, kill: bool) -> (r: (Supervisor, Vec<Line>))
        ensures
            (r.0@, r.1.deep_view()) == self@.begin_resolve(kill),
            r.0@.wf(),
    {
        proof {
            use_type_invariant(&self);
        }
        if self.stage != Stage::Settled || self.child.is_none() {
            let lines: Vec<Line> = Vec::new();
            assert(lines.deep_view() =~= Seq::<LineModel>::empty());
            (self, lines)
        } else {
            self.resolve_child(kill, None)
        }
    }

    /// Asks for a check of the running child that does not block.
    pub fn poll(self) -> (s: Supervisor)
        ensures
            s@ == self@.begin_poll(),
            s@.wf(),
    {
        proof {
            use_type_invariant(&self);
        }
        if self.stage != Stage::Settled || self.child.is_none() {
            self
        } else {
            Supervisor {
                child: self.child,
                stage: Stage::Polling,
                launch: None,
                verbose: self.verbose,
            }
        }
    }

    /// Takes the outcome of the operation that was asked for.
    pub fn reply(self, outcome: ProcReply) -> (r: (Supervisor, Vec<Line>))
        ensures
            (r.0@, r.1.deep_view()) == self@.reply(outcome.deep_view()),
            r.0@.wf(),
    {
        proof {
            use_type_invariant(&self);
        }
        let mut lines: Vec<Line> = Vec::new();
        assert(lines.deep_view() =~= Seq::<LineModel>::empty());
        let verbose = self.verbose;
        match (self.stage, outcome) {
            (Stage::Killing, ProcReply::Killed) => {
                say_if(&mut lines, verbose, Line::Waiting);
                assert(lines.deep_view() =~= only_if(verbose, LineModel::Waiting));
                (
                    Supervisor {
                        child: self.child,
                        stage: Stage::Reaping,
                        launch: self.launch,
                        verbose,
                    },
                    lines,
                )
            },
            (Stage::Killing, ProcReply::KillFailed(reason)) => {
                say(&mut lines, Line::KillFailed(reason));
                assert(lines.deep_view() =~= seq![LineModel::KillFailed(reason@)]);
                (Supervisor::idle(verbose), lines)
            },
            (Stage::Reaping, ProcReply::Waited(code)) => {
                say_if(&mut lines, verbose, Line::Exited(status_of(code)));
                let ghost told = lines.deep_view();
                assert(told =~= only_if(verbose, LineModel::Exited(exit_status(code))));
                match self.launch {
                    Some(l) => {
                        let (next, more) = Supervisor::launch_now(verbose, l.command, l.clear);
                        say_all(&mut lines, more);
                        (next, lines)
                    },
                    None => (Supervisor::idle(verbose), lines),
                }
            },
            (Stage::Reaping, ProcReply::WaitFailed(reason)) => {
                say(&mut lines, Line::WaitFailed(reason));
                assert(lines.deep_view() =~= seq![LineModel::WaitFailed(reason@)]);
                (Supervisor::idle(verbose), lines)
            },
            (Stage::Polling, ProcReply::StillRunning) => (
                Supervisor { child: self.child, stage: Stage::Settled, launch: None, verbose },
                lines,
            ),
            (Stage::Polling, ProcReply::Exited(code)) => {
                say_if(&mut lines, verbose, Line::Exited(status_of(code)));
                assert(lines.deep_view() =~= only_if(
                    verbose,
                    LineModel::Exited(exit_status(code)),
                ));
                (Supervisor::idle(verbose), lines)
            },
            (Stage::Polling, ProcReply::PollFailed(reason)) => {
                say(&mut lines, Line::PollFailed(reason));
                assert(lines.deep_view() =~= seq![LineModel::PollFailed(reason@)]);
                (Supervisor::idle(verbose), lines)
            },
            (Stage::Launching, ProcReply::Spawned(id)) => (
                Supervisor { child: Some(id), stage: Stage::Settled, launch: None, verbose },
                lines,
            ),
            (Stage::Launching, ProcReply::SpawnFailed(reason)) => {
                match &self.launch {
                    Some(l) => {
                        assert(l.command.deep_view().len() == l.command.len());
                        say(
                            &mut lines,
                            Line::SpawnFailed { program: l.command[0].clone(), reason },
                        );
                        assert(lines.deep_view() =~= seq![
                            LineModel::SpawnFailed {
                                program: self@.launch->0.command[0],
                                reason: reason@,
                            },
                        ]);
                    },
                    None => {},
                }
                (Supervisor::idle(verbose), lines)
            },
            (_, _) => (self, lines),
        }
    }
}

/// Whatever is asked of the supervisor and whatever it is told, its state
/// stays well formed.
pub proof fn lemma_supervisor_stays_well_formed(
    m: SupervisorModel,
    command: Seq<Seq<char>>,
    kill: bool,
    clear: bool,
    outcome: ProcReplyModel,
)
    requires
        m.wf(),
    ensures
        SupervisorModel::initial(m.verbose).wf(),
        m.begin_spawn(command, kill, clear).0.wf(),
        m.begin_resolve(kill).0.wf(),
        m.begin_poll().wf(),
        m.reply(outcome).0.wf(),
{
}

/// The supervisor never has two children.  It holds at most one
/// identifier, it asks for a new child only while it holds none, and it
/// lets go of the one it holds only on hearing that the child has exited or
/// that an operation on it has failed.
pub proof fn lemma_at_most_one_child(m: SupervisorModel, outcome: ProcReplyModel)
    requires
        m.wf(),
    ensures
        m.request() matches Some(ProcRequestModel::Spawn { .. }) ==> m.child is None,
        m.reply(outcome).0.child != m.child ==> (m.child is None) != (m.reply(outcome).0.child
            is None),
        m.child is Some && m.reply(outcome).0.child is None ==> {
            ||| (m.stage == Stage::Killing && outcome is KillFailed)
            ||| (m.stage == Stage::Reaping && (outcome is Waited || outcome is WaitFailed))
            ||| (m.stage == Stage::Polling && (outcome is Exited || outcome is PollFailed))
        },
        m.child is None && m.reply(outcome).0.child is Some ==> m.stage == Stage::Launching
            && outcome == ProcReplyModel::Spawned(m.reply(outcome).0.child->0),
{
}

/// No failure goes unsaid, and none starts anything.  Where an operation
/// has failed, the supervisor is idle afterwards and exactly one line, a
/// warning with the reason, tells of it.
pub proof fn lemma_failures_are_told(m: SupervisorModel, reason: Seq<char>)
    requires
        m.wf(),
    ensures
        m.stage == Stage::Killing ==> m.reply(ProcReplyModel::KillFailed(reason)) == (
            m.idle(),
            seq![LineModel::KillFailed(reason)],
        ),
        m.stage == Stage::Reaping ==> m.reply(ProcReplyModel::WaitFailed(reason)) == (
            m.idle(),
            seq![LineModel::WaitFailed(reason)],
        ),
        m.stage == Stage::Polling ==> m.reply(ProcReplyModel::PollFailed(reason)) == (
            m.idle(),
            seq![LineModel::PollFailed(reason)],
        ),
        m.stage == Stage::Launching ==> m.reply(ProcReplyModel::SpawnFailed(reason)) == (
            m.idle(),
            seq![LineModel::SpawnFailed { program: m.launch->0.command[0], reason }],
        ),
        m.idle().is_idle(),
        LineModel::KillFailed(reason).is_warning(),
        LineModel::WaitFailed(reason).is_warning(),
        LineModel::PollFailed(reason).is_warning(),
        (LineModel::SpawnFailed { program: m.launch->0.command[0], reason }).is_warning(),
{
}

/// Restarting under the kill policy.  Asked to run a command while a child
/// is running, the supervisor has that child terminated, then reaped, and
/// asks for the new child only after that; once the new one is reported it
/// holds that one alone.
pub proof fn lemma_kill_policy_reaps_before_spawn(
    m: SupervisorModel,
    command: Seq<Seq<char>>,
    clear: bool,
    code: Option<i32>,
    id: u32,
)
    requires
        m.wf(),
        m.stage == Stage::Settled,
        m.child is Some,
        command.len() > 0,
    ensures
        ({
            let killing = m.begin_spawn(command, true, clear).0;
            let reaping = killing.reply(ProcReplyModel::Killed).0;
            let launching = reaping.reply(ProcReplyModel::Waited(code)).0;
            let running = launching.reply(ProcReplyModel::Spawned(id)).0;
            &&& killing.request() == Some(ProcRequestModel::Kill(m.child->0))
            &&& reaping.request() == Some(ProcRequestModel::Wait(m.child->0))
            &&& launching.child is None
            &&& launching.request() == Some(ProcRequestModel::Spawn { command, clear })
            &&& running.child == Some(id)
            &&& running.request() is None
        }),
{
}

/// Restarting under the wait policy.  Asked to run a command while a child
/// is running, the supervisor sends no signal: it waits until the child has
/// exited, and asks for the new child only after that.
pub proof fn lemma_wait_policy_waits_before_spawn(
    m: SupervisorModel,
    command: Seq<Seq<char>>,
    clear: bool,
    code: Option<i32>,
)
    requires
        m.wf(),
        m.stage == Stage::Settled,
        m.child is Some,
        command.len() > 0,
    ensures
        ({
            let waiting = m.begin_spawn(command, false, clear).0;
            let launching = waiting.reply(ProcReplyModel::Waited(code)).0;
            &&& waiting.request() == Some(ProcRequestModel::Wait(m.child->0))
            &&& waiting.child == m.child
            &&& launching.child is None
            &&& launching.request() == Some(ProcRequestModel::Spawn { command, clear })
        }),
{
}

} // verus!

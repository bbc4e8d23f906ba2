//! The watch loop: one poll cycle after the other, each from the check for
//! an interrupt to the sleep.
//!
//! The loop performs nothing itself.  [`WatchLoop::effect`] names what is
//! to be done next, and [`WatchLoop::step`] takes what came of it, moves on
//! and returns the lines to print.  A cycle goes through these phases:
//! interrupt check (with the resolution of the child or the exit question,
//! and the draining of the inbox), check of the child's exit status,
//! detection over every watch target, the decision and the execution, the
//! reading of the clock for the new baseline, and the sleep.

use vstd::prelude::*;
use crate::config::{RunConfig, RunConfigModel};
use crate::instant::{later_of, Timestamp};
use crate::prompt::{confirms, confirms_exit};
use crate::report::{changed_lines, say_all, say_changed, Line, LineModel};
use crate::scan::{
    lemma_found_is_kept, lemma_scanner_stays_well_formed, ScanReply, ScanReplyModel, ScanRequest,
    ScanRequestModel, Scanner, ScannerModel,
};
use crate::substitute::{substitute_args, substituted};
use crate::supervisor::{
    lemma_supervisor_stays_well_formed, ProcReply, ProcReplyModel, ProcRequest, ProcRequestModel,
    Stage, Supervisor, SupervisorModel,
};

verus! {

/// What the loop asks its surroundings to do.
#[derive(Debug, PartialEq, Eq)]
pub enum Effect {
    /// Take one interrupt out of the inbox, if there is one.
    CheckInterrupt,
    /// Ask the user whether to exit, and read one line.
    ConfirmExit,
    /// Empty the inbox.
    DrainInterrupts,
    /// Operate on a process.
    Process(ProcRequest),
    /// Read from the file system.
    Scan(ScanRequest),
    /// Read the clock.
    ReadClock,
    /// Sleep for so many milliseconds.
    Sleep(u64),
    /// Leave the loop.
    Exit,
}

/// The mathematical content of an [`Effect`].
pub enum EffectModel {
    CheckInterrupt,
    ConfirmExit,
    DrainInterrupts,
    Process(ProcRequestModel),
    Scan(ScanRequestModel),
    ReadClock,
    Sleep(u64),
    Exit,
}

impl DeepView for Effect {
    type V = EffectModel;

    open spec fn deep_view(&self) -> EffectModel {
        match *self {
            Effect::CheckInterrupt => EffectModel::CheckInterrupt,
            Effect::ConfirmExit => EffectModel::ConfirmExit,
            Effect::DrainInterrupts => EffectModel::DrainInterrupts,
            Effect::Process(request) => EffectModel::Process(request.deep_view()),
            Effect::Scan(request) => EffectModel::Scan(request.deep_view()),
            Effect::ReadClock => EffectModel::ReadClock,
            Effect::Sleep(ms) => EffectModel::Sleep(ms),
            Effect::Exit => EffectModel::Exit,
        }
    }
}

/// What came of an effect.
#[derive(Debug, PartialEq, Eq)]
pub enum Event {
    /// Whether an interrupt was waiting.
    Interrupt(bool),
    /// The line read in reply to the exit question, as it was read.
    Answer(String),
    /// The inbox is empty.
    Drained,
    /// The outcome of an operation on a process.
    Process(ProcReply),
    /// What was read from the file system.
    Scan(ScanReply),
    /// The time now.
    Clock(Timestamp),
    /// The sleep is over.
    Woke,
}

/// The mathematical content of an [`Event`].
pub enum EventModel {
    Interrupt(bool),
    Answer(Seq<char>),
    Drained,
    Process(ProcReplyModel),
    Scan(ScanReplyModel),
    Clock(Timestamp),
    Woke,
}

impl DeepView for Event {
    type V = EventModel;

    open spec fn deep_view(&self) -> EventModel {
        match *self {
            Event::Interrupt(pending) => EventModel::Interrupt(pending),
            Event::Answer(text) => EventModel::Answer(text@),
            Event::Drained => EventModel::Drained,
            Event::Process(reply) => EventModel::Process(reply.deep_view()),
            Event::Scan(reply) => EventModel::Scan(reply.deep_view()),
            Event::Clock(now) => EventModel::Clock(now),
            Event::Woke => EventModel::Woke,
        }
    }
}

/// Where in a cycle the loop stands.
#[derive(Clone, Copy, Debug, PartialEq, Eq, Structural)]
pub enum Phase {
    /// Looking into the inbox.
    Inbox,
    /// Asking whether to exit.
    Confirming,
    /// Getting rid of the child after an interrupt.
    Resolving,
    /// Emptying the inbox.
    Draining,
    /// Checking whether the child has exited.
    Polling,
    /// Walking a watch target.
    Scanning,
    /// Bringing the command to run.
    Executing,
    /// Reading the clock for the new baseline.
    Clock,
    /// Sleeping until the next cycle.
    Sleeping,
    /// The loop has ended.
    Exited,
}

/// The state of the watch loop.
pub struct WatchModel {
    pub config: RunConfigModel,
    /// The instant against which modification times are compared.
    pub baseline: Timestamp,
    /// Whether the command is still to be run once without a change.
    pub start_pending: bool,
    pub phase: Phase,
    pub supervisor: SupervisorModel,
    pub scanner: ScannerModel,
    /// The index of the watch target that is being walked.
    pub target: nat,
}

impl WatchModel {
    /// The loop before its first cycle.
    pub open spec fn initial(config: RunConfigModel, now: Timestamp) -> WatchModel {
        WatchModel {
            config,
            baseline: now,
            start_pending: config.start,
            phase: Phase::Inbox,
            supervisor: SupervisorModel::initial(config.verbose),
            scanner: ScannerModel::initial(now),
            target: 0,
        }
    }

    /// Every state that the loop can be in satisfies this.  The supervisor
    /// is in the middle of an operation in exactly the phases that operate
    /// on the child, and the scanner is in the middle of a walk in exactly
    /// the scanning phase.  The exit question is asked only while there is
    /// no child.  Before detection begins the scanner has found nothing.
    pub open spec fn wf(self) -> bool {
        &&& self.phase == Phase::Confirming ==> self.supervisor.child is None
        &&& self.supervisor.wf()
        &&& self.scanner.wf()
        &&& self.scanner.since == self.baseline
        &&& match self.phase {
            Phase::Resolving | Phase::Polling | Phase::Executing => self.supervisor.stage
                != Stage::Settled,
            _ => self.supervisor.stage == Stage::Settled,
        }
        &&& match self.phase {
            Phase::Scanning => !(self.scanner.request() is None) && self.target
                < self.config.targets.len(),
            _ => self.scanner.request() is None,
        }
        &&& match self.phase {
            Phase::Scanning | Phase::Executing | Phase::Clock => true,
            _ => self.scanner == ScannerModel::initial(self.baseline) && self.target == 0,
        }
    }

    /// What the loop asks for in this state.
    pub open spec fn effect(self) -> EffectModel {
        match self.phase {
            Phase::Inbox => EffectModel::CheckInterrupt,
            Phase::Confirming => EffectModel::ConfirmExit,
            Phase::Draining => EffectModel::DrainInterrupts,
            Phase::Resolving | Phase::Polling | Phase::Executing => EffectModel::Process(
                self.supervisor.request()->0,
            ),
            Phase::Scanning => EffectModel::Scan(self.scanner.request()->0),
            Phase::Clock => EffectModel::ReadClock,
            Phase::Sleeping => EffectModel::Sleep(self.config.interval_ms),
            Phase::Exited => EffectModel::Exit,
        }
    }

    /// The decision of a cycle, taken when every target has been walked.
    /// Where a path changed, or the command is still to be run once at
    /// startup: the changed paths are printed where printing is on, and a
    /// command that is configured is run with the changed paths in place of
    /// its placeholder.  The loop then goes on to read the clock, at once or
    /// when the supervisor has settled.
    pub open spec fn decide(self) -> (WatchModel, Seq<LineModel>) {
        let changed = self.scanner.changed;
        if changed.len() > 0 || self.start_pending {
            let printed = if self.config.print {
                changed_lines(changed)
            } else {
                Seq::empty()
            };
            match self.config.command {
                Some(template) => {
                    let run = self.supervisor.begin_spawn(
                        substituted(template, changed),
                        self.config.kill,
                        self.config.clear,
                    );
                    (
                        WatchModel {
                            start_pending: false,
                            supervisor: run.0,
                            phase: if run.0.stage == Stage::Settled {
                                Phase::Clock
                            } else {
                                Phase::Executing
                            },
                            ..self
                        },
                        printed + run.1,
                    )
                },
                None => (
                    WatchModel { start_pending: false, phase: Phase::Clock, ..self },
                    printed,
                ),
            }
        } else {
            (WatchModel { phase: Phase::Clock, ..self }, Seq::empty())
        }
    }

    /// Begins the walk of the watch target with index `index`, or takes the
    /// decision where there is no such target.
    pub open spec fn scan_from(self, index: nat) -> (WatchModel, Seq<LineModel>) {
        if index < self.config.targets.len() {
            (
                WatchModel {
                    scanner: self.scanner.visit(self.config.targets[index as int]),
                    target: index,
                    phase: Phase::Scanning,
                    ..self
                },
                Seq::empty(),
            )
        } else {
            (WatchModel { target: index, ..self }).decide()
        }
    }

    /// What follows the handling of interrupts: the check of the child where
    /// there is one, else detection.
    pub open spec fn after_interrupts(self) -> (WatchModel, Seq<LineModel>) {
        if self.supervisor.child is Some {
            (
                WatchModel {
                    supervisor: self.supervisor.begin_poll(),
                    phase: Phase::Polling,
                    ..self
                },
                Seq::empty(),
            )
        } else {
            self.scan_from(0)
        }
    }

    /// The loop with the supervisor told `outcome`; once the supervisor has
    /// settled the loop is in phase `then`.
    pub open spec fn supervised(self, outcome: ProcReplyModel, then: Phase) -> (
        WatchModel,
        Seq<LineModel>,
    ) {
        let told = self.supervisor.reply(outcome);
        (
            WatchModel {
                supervisor: told.0,
                phase: if told.0.stage == Stage::Settled {
                    then
                } else {
                    self.phase
                },
                ..self
            },
            told.1,
        )
    }

    /// One step of the loop: the state after `event`, and the lines to
    /// print.  An event that does not answer what the loop asked for changes
    /// nothing.
    pub open spec fn step(self, event: EventModel) -> (WatchModel, Seq<LineModel>) {
        match (self.phase, event) {
            (Phase::Inbox, EventModel::Interrupt(true)) => {
                if self.supervisor.child is Some {
                    let resolve = self.supervisor.begin_resolve(self.config.kill);
                    (
                        WatchModel { supervisor: resolve.0, phase: Phase::Resolving, ..self },
                        resolve.1,
                    )
                } else {
                    (WatchModel { phase: Phase::Confirming, ..self }, Seq::empty())
                }
            },
            (Phase::Inbox, EventModel::Interrupt(false)) => self.after_interrupts(),
            (Phase::Confirming, EventModel::Answer(text)) => {
                if confirms(text) {
                    (WatchModel { phase: Phase::Exited, ..self }, Seq::empty())
                } else {
                    (WatchModel { phase: Phase::Draining, ..self }, Seq::empty())
                }
            },
            (Phase::Resolving, EventModel::Process(outcome)) => self.supervised(
                outcome,
                Phase::Draining,
            ),
            (Phase::Draining, EventModel::Drained) => self.after_interrupts(),
            (Phase::Polling, EventModel::Process(outcome)) => {
                let polled = self.supervised(outcome, Phase::Polling);
                if polled.0.supervisor.stage == Stage::Settled {
                    let next = polled.0.scan_from(0);
                    (next.0, polled.1 + next.1)
                } else {
                    polled
                }
            },
            (Phase::Scanning, EventModel::Scan(answer)) => {
                let scanner = self.scanner.reply(answer);
                let warned = self.scanner.warnings(answer);
                if scanner.request() is None {
                    let next = (WatchModel { scanner, ..self }).scan_from(self.target + 1);
                    (next.0, warned + next.1)
                } else {
                    (WatchModel { scanner, ..self }, warned)
                }
            },
            (Phase::Executing, EventModel::Process(outcome)) => self.supervised(
                outcome,
                Phase::Clock,
            ),
            (Phase::Clock, EventModel::Clock(now)) => {
                let baseline = later_of(self.baseline, now);
                (
                    WatchModel {
                        baseline,
                        scanner: ScannerModel::initial(baseline),
                        target: 0,
                        phase: Phase::Sleeping,
                        ..self
                    },
                    Seq::empty(),
                )
            },
            (Phase::Sleeping, EventModel::Woke) => (
                WatchModel { phase: Phase::Inbox, ..self },
                Seq::empty(),
            ),
            _ => (self, Seq::empty()),
        }
    }
}

/// Whatever event arrives, the state of the loop stays well formed.
pub proof fn lemma_step_keeps_well_formed(m: WatchModel, event: EventModel)
    requires
        m.wf(),
    ensures
        m.step(event).0.wf(),
{
    let sup = m.supervisor;
    lemma_supervisor_stays_well_formed(sup, Seq::empty(), m.config.kill, m.config.clear,
        ProcReplyModel::Killed);
    match (m.phase, event) {
        (Phase::Inbox, EventModel::Interrupt(false)) => {
            lemma_after_interrupts_keeps_well_formed(m);
        },
        (Phase::Draining, EventModel::Drained) => {
            lemma_after_interrupts_keeps_well_formed(m);
        },
        (Phase::Resolving, EventModel::Process(outcome)) => {
            lemma_supervisor_stays_well_formed(sup, Seq::empty(), false, false, outcome);
        },
        (Phase::Executing, EventModel::Process(outcome)) => {
            lemma_supervisor_stays_well_formed(sup, Seq::empty(), false, false, outcome);
        },
        (Phase::Polling, EventModel::Process(outcome)) => {
            lemma_supervisor_stays_well_formed(sup, Seq::empty(), false, false, outcome);
            let polled = m.supervised(outcome, Phase::Polling);
            if polled.0.supervisor.stage == Stage::Settled {
                lemma_scan_from_keeps_well_formed(polled.0, 0);
            }
        },
        (Phase::Scanning, EventModel::Scan(answer)) => {
            lemma_scanner_stays_well_formed(m.scanner, Seq::empty(), answer);
            let scanner = m.scanner.reply(answer);
            if scanner.request() is None {
                lemma_scan_from_keeps_well_formed(WatchModel { scanner, ..m }, m.target + 1);
            }
        },
        _ => {},
    }
}

proof fn lemma_decide_keeps_well_formed(m: WatchModel)
    requires
        m.supervisor.wf(),
        m.scanner.wf(),
        m.scanner.since == m.baseline,
        m.supervisor.stage == Stage::Settled,
        m.scanner.request() is None,
    ensures
        m.decide().0.wf(),
{
    match m.config.command {
        Some(template) => {
            lemma_supervisor_stays_well_formed(
                m.supervisor,
                substituted(template, m.scanner.changed),
                m.config.kill,
                m.config.clear,
                ProcReplyModel::Killed,
            );
        },
        None => {},
    }
}

proof fn lemma_scan_from_keeps_well_formed(m: WatchModel, index: nat)
    requires
        m.supervisor.wf(),
        m.scanner.wf(),
        m.scanner.since == m.baseline,
        m.supervisor.stage == Stage::Settled,
        m.scanner.request() is None,
    ensures
        m.scan_from(index).0.wf(),
{
    if index < m.config.targets.len() {
        lemma_scanner_stays_well_formed(
            m.scanner,
            m.config.targets[index as int],
            ScanReplyModel::Stat(Err(Seq::empty())),
        );
    } else {
        lemma_decide_keeps_well_formed(WatchModel { target: index, ..m });
    }
}

proof fn lemma_after_interrupts_keeps_well_formed(m: WatchModel)
    requires
        m.supervisor.wf(),
        m.scanner == ScannerModel::initial(m.baseline),
        m.target == 0,
        m.supervisor.stage == Stage::Settled,
    ensures
        m.after_interrupts().0.wf(),
{
    if m.supervisor.child is None {
        lemma_scan_from_keeps_well_formed(m, 0);
    }
}

#[derive(Debug)]
struct Parts {
    config: RunConfig,
    baseline: Timestamp,
    start_pending: bool,
    phase: Phase,
    supervisor: Supervisor,
    scanner: Scanner,
    target: usize,
}

/// The watch loop.
#[derive(Debug)]
pub struct WatchLoop {
    parts: Parts,
}

impl Parts {
    spec fn model(self) -> WatchModel {
        WatchModel {
            config: self.config@,
            baseline: self.baseline,
            start_pending: self.start_pending,
            phase: self.phase,
            supervisor: self.supervisor@,
            scanner: self.scanner@,
            target: self.target as nat,
        }
    }

    fn decide(self) -> (r: (Parts, Vec<Line>))
        ensures
            (r.0.model(), r.1.deep_view()) == self.model().decide(),
    {
        let Parts { config, baseline, start_pending, phase, supervisor, scanner, target } = self;
        let mut lines: Vec<Line> = Vec::new();
        assert(lines.deep_view() =~= Seq::<LineModel>::empty());
        if scanner.changed().len() > 0 || start_pending {
            if config.print {
                say_changed(&mut lines, scanner.changed());
            }
            let ghost printed = lines.deep_view();
            assert(printed =~= if config.print {
                changed_lines(scanner@.changed)
            } else {
                Seq::empty()
            });
            match &config.command {
                Some(template) => {
                    let command = substitute_args(template, scanner.changed());
                    let (supervisor, more) = supervisor.try_spawn(
                        command,
                        config.kill,
                        config.clear,
                    );
                    say_all(&mut lines, more);
                    let phase = if supervisor.is_settled() {
                        Phase::Clock
                    } else {
                        Phase::Executing
                    };
                    (
                        Parts {
                            config,
                            baseline,
                            start_pending: false,
                            phase,
                            supervisor,
                            scanner,
                            target,
                        },
                        lines,
                    )
                },
                None => (
                    Parts {
                        config,
                        baseline,
                        start_pending: false,
                        phase: Phase::Clock,
                        supervisor,
                        scanner,
                        target,
                    },
                    lines,
                ),
            }
        } else {
            (
                Parts {
                    config,
                    baseline,
                    start_pending,
                    phase: Phase::Clock,
                    supervisor,
                    scanner,
                    target,
                },
                lines,
            )
        }
    }

    fn scan_from(self, index: usize) -> (r: (Parts, Vec<Line>))
        ensures
            (r.0.model(), r.1.deep_view()) == self.model().scan_from(index as nat),
    {
        let Parts { config, baseline, start_pending, phase, supervisor, scanner, target } = self;
        if index < config.targets.len() {
            let lines: Vec<Line> = Vec::new();
            assert(lines.deep_view() =~= Seq::<LineModel>::empty());
            let scanner = scanner.visit(config.targets[index].clone());
            (
                Parts {
                    config,
                    baseline,
                    start_pending,
                    phase: Phase::Scanning,
                    supervisor,
                    scanner,
                    target: index,
                },
                lines,
            )
        } else {
            let next = Parts {
                config,
                baseline,
                start_pending,
                phase,
                supervisor,
                scanner,
                target: index,
            };
            next.decide()
        }
    }

    fn after_interrupts(self) -> (r: (Parts, Vec<Line>))
        ensures
            (r.0.model(), r.1.deep_view()) == self.model().after_interrupts(),
    {
        if self.supervisor.child().is_some() {
            let Parts { config, baseline, start_pending, phase, supervisor, scanner, target } =
                self;
            let lines: Vec<Line> = Vec::new();
            assert(lines.deep_view() =~= Seq::<LineModel>::empty());
            (
                Parts {
                    config,
                    baseline,
                    start_pending,
                    phase: Phase::Polling,
                    supervisor: supervisor.poll(),
                    scanner,
                    target,
                },
                lines,
            )
        } else {
            self.scan_from(0)
        }
    }

    fn supervised(self, outcome: ProcReply, then: Phase) -> (r: (Parts, Vec<Line>))
        ensures
            (r.0.model(), r.1.deep_view()) == self.model().supervised(outcome.deep_view(), then),
    {
        let Parts { config, baseline, start_pending, phase, supervisor, scanner, target } = self;
        let (supervisor, lines) = supervisor.reply(outcome);
        let phase = if supervisor.is_settled() {
            then
        } else {
            phase
        };
        (Parts { config, baseline, start_pending, phase, supervisor, scanner, target }, lines)
    }

    fn quiet(self) -> (r: (Parts, Vec<Line>))
        ensures
            r.0 == self,
            r.1.deep_view() == Seq::<LineModel>::empty(),
    {
        let lines: Vec<Line> = Vec::new();
        assert(lines.deep_view() =~= Seq::<LineModel>::empty());
        (self, lines)
    }

    fn at(self, phase: Phase) -> (r: (Parts, Vec<Line>))
        ensures
            r.0.model() == (WatchModel { phase, ..self.model() }),
            r.1.deep_view() == Seq::<LineModel>::empty(),
    {
        let Parts { config, baseline, start_pending, phase: _, supervisor, scanner, target } = self;
        Parts { config, baseline, start_pending, phase, supervisor, scanner, target }.quiet()
    }

    fn step(self, event: Event) -> (r: (Parts, Vec<Line>))
        requires
            self.model().wf(),
        ensures
            (r.0.model(), r.1.deep_view()) == self.model().step(event.deep_view()),
    {
        match (self.phase, event) {
            (Phase::Inbox, Event::Interrupt(true)) => {
                if self.supervisor.child().is_some() {
                    let Parts {
                        config,
                        baseline,
                        start_pending,
                        phase,
                        supervisor,
                        scanner,
                        target,
                    } = self;
                    let (supervisor, lines) = supervisor.resolve(config.kill);
                    (
                        Parts {
                            config,
                            baseline,
                            start_pending,
                            phase: Phase::Resolving,
                            supervisor,
                            scanner,
                            target,
                        },
                        lines,
                    )
                } else {
                    self.at(Phase::Confirming)
                }
            },
            (Phase::Inbox, Event::Interrupt(false)) => self.after_interrupts(),
            (Phase::Confirming, Event::Answer(text)) => {
                if confirms_exit(text.as_str()) {
                    self.at(Phase::Exited)
                } else {
                    self.at(Phase::Draining)
                }
            },
            (Phase::Resolving, Event::Process(outcome)) => self.supervised(
                outcome,
                Phase::Draining,
            ),
            (Phase::Draining, Event::Drained) => self.after_interrupts(),
            (Phase::Polling, Event::Process(outcome)) => {
                let (polled, mut lines) = self.supervised(outcome, Phase::Polling);
                if polled.supervisor.is_settled() {
                    let (next, more) = polled.scan_from(0);
                    say_all(&mut lines, more);
                    (next, lines)
                } else {
                    (polled, lines)
                }
            },
            (Phase::Scanning, Event::Scan(answer)) => {
                assert(self.target < self.config.targets.len()) by {
                    assert(self.model().config.targets.len() == self.config.targets.len());
                }
                let Parts { config, baseline, start_pending, phase, supervisor, scanner, target } =
                    self;
                let (scanner, mut lines) = scanner.reply(answer);
                let done = scanner.is_idle();
                let next = Parts {
                    config,
                    baseline,
                    start_pending,
                    phase,
                    supervisor,
                    scanner,
                    target,
                };
                if done {
                    let (next, more) = next.scan_from(target + 1);
                    say_all(&mut lines, more);
                    (next, lines)
                } else {
                    (next, lines)
                }
            },
            (Phase::Executing, Event::Process(outcome)) => self.supervised(outcome, Phase::Clock),
            (Phase::Clock, Event::Clock(now)) => {
                let Parts { config, baseline, start_pending, phase, supervisor, scanner, target } =
                    self;
                let baseline = baseline.latest(now);
                Parts {
                    config,
                    baseline,
                    start_pending,
                    phase: Phase::Sleeping,
                    supervisor,
                    scanner: Scanner::new(baseline),
                    target: 0,
                }.quiet()
            },
            (Phase::Sleeping, Event::Woke) => self.at(Phase::Inbox),
            (_, _) => self.quiet(),
        }
    }
}

impl View for WatchLoop {
    type V = WatchModel;

    closed spec fn view(&self) -> WatchModel {
        self.parts.model()
    }
}

impl WatchLoop {
    #[verifier::type_invariant]
    spec fn inv(&self) -> bool {
        self.parts.model().wf()
    }

    /// The loop before its first cycle, with `now` as the first baseline.
    pub fn new(config: RunConfig, now: Timestamp) -> (w: WatchLoop)
        ensures
            w@ == WatchModel::initial(config@, now),
            w@.wf(),
    {
        let start_pending = config.start;
        let supervisor = Supervisor::new(config.verbose);
        WatchLoop {
            parts: Parts {
                config,
                baseline: now,
                start_pending,
                phase: Phase::Inbox,
                supervisor,
                scanner: Scanner::new(now),
                target: 0,
            },
        }
    }

    /// What is to be done next.
    pub fn effect(&self) -> (effect: Effect)
        ensures
            effect.deep_view() == self@.effect(),
            self@.wf(),
    {
        proof {
            use_type_invariant(self);
        }
        match self.parts.phase {
            Phase::Inbox => Effect::CheckInterrupt,
            Phase::Confirming => Effect::ConfirmExit,
            Phase::Draining => Effect::DrainInterrupts,
            Phase::Resolving | Phase::Polling | Phase::Executing => {
                match self.parts.supervisor.request() {
                    Some(request) => Effect::Process(request),
                    None => Effect::Exit,
                }
            },
            Phase::Scanning => match self.parts.scanner.request() {
                Some(request) => Effect::Scan(request),
                None => Effect::Exit,
            },
            Phase::Clock => Effect::ReadClock,
            Phase::Sleeping => Effect::Sleep(self.parts.config.interval_ms),
            Phase::Exited => Effect::Exit,
        }
    }

    /// Where in the cycle the loop stands.
    pub fn phase(&self) -> (phase: Phase)
        ensures
            phase == self@.phase,
    {
        self.parts.phase
    }

    /// The baseline of the cycle.
    pub fn baseline(&self) -> (baseline: Timestamp)
        ensures
            baseline == self@.baseline,
    {
        self.parts.baseline
    }

    /// The child that the supervisor holds, if any.
    pub fn child(&self) -> (child: Option<u32>)
        ensures
            child == self@.supervisor.child,
    {
        self.parts.supervisor.child()
    }

    /// Whether the loop has ended.
    pub fn has_exited(&self) -> (exited: bool)
        ensures
            exited == (self@.phase == Phase::Exited),
            exited == (self@.effect() is Exit),
    {
        proof {
            use_type_invariant(self);
        }
        self.parts.phase == Phase::Exited
    }

    /// Takes what came of the effect that [`WatchLoop::effect`] named, and
    /// moves on.  Returns the loop in its new state and the lines to print,
    /// in order.
    pub fn step(self, event: Event) -> (r: (WatchLoop, Vec<Line>))
        ensures
            (r.0@, r.1.deep_view()) == self@.step(event.deep_view()),
            r.0@.wf(),
            r.0@.baseline.at() >= self@.baseline.at(),
    {
        proof {
            use_type_invariant(&self);
            lemma_step_keeps_well_formed(self@, event.deep_view());
            lemma_baseline_only_advances(self@, event.deep_view());
        }
        let (parts, lines) = self.parts.step(event);
        (WatchLoop { parts }, lines)
    }
}

/// The baseline never moves back, and it moves only when the clock is read
/// at the end of a cycle: after detection, and after the supervisor has
/// settled whatever the cycle gave it to do.
pub proof fn lemma_baseline_only_advances(m: WatchModel, event: EventModel)
    requires
        m.wf(),
    ensures
        m.step(event).0.baseline.at() >= m.baseline.at(),
        m.step(event).0.baseline != m.baseline ==> m.phase == Phase::Clock && event
            == EventModel::Clock(m.step(event).0.baseline),
        m.phase == Phase::Clock ==> m.supervisor.stage == Stage::Settled
            && m.scanner.request() is None,
{
}

/// A burst of interrupts is one event.  The inbox is looked into once in a
/// cycle, at its start.  An interrupt found there is answered by one
/// resolution of the child, or by one exit question where there is no
/// child; what follows is the draining of the inbox, and the cycle goes on
/// without another look into it.
pub proof fn lemma_interrupt_handled_once(m: WatchModel, event: EventModel)
    requires
        m.wf(),
    ensures
        m.effect() is CheckInterrupt <==> m.phase == Phase::Inbox,
        m.effect() is DrainInterrupts <==> m.phase == Phase::Draining,
        m.step(event).0.phase == Phase::Inbox && m.phase != Phase::Inbox ==> m.phase
            == Phase::Sleeping && event == EventModel::Woke,
        m.phase == Phase::Inbox && event == EventModel::Interrupt(true) ==> m.step(event).0.phase
            == if m.supervisor.child is Some {
            Phase::Resolving
        } else {
            Phase::Confirming
        },
        m.phase == Phase::Resolving ==> m.step(event).0.phase == Phase::Resolving || m.step(
            event,
        ).0.phase == Phase::Draining,
        m.phase == Phase::Confirming ==> m.step(event).0.phase == Phase::Confirming || m.step(
            event,
        ).0.phase == Phase::Draining || m.step(event).0.phase == Phase::Exited,
        m.phase == Phase::Draining ==> m.step(event).0.phase != Phase::Inbox && m.step(
            event,
        ).0.phase != Phase::Resolving && m.step(event).0.phase != Phase::Confirming,
{
}

/// Nothing ends the loop but the user's word.  The loop ends only on an
/// answer to the exit question that confirms; no failure of a scan, of a
/// signal, of a wait or of a spawn ends it.  Once ended it stays so.
pub proof fn lemma_exit_only_on_confirmation(m: WatchModel, event: EventModel)
    requires
        m.wf(),
    ensures
        m.step(event).0.phase == Phase::Exited && m.phase != Phase::Exited ==> m.phase
            == Phase::Confirming && m.supervisor.child is None && (event matches EventModel::Answer(
            text,
        ) && confirms(text)),
        m.phase == Phase::Exited ==> m.step(event).0 == m,
{
    if m.phase == Phase::Inbox || m.phase == Phase::Draining {
        lemma_cycle_goes_on(m);
    }
    match (m.phase, event) {
        (Phase::Polling, EventModel::Process(outcome)) => {
            lemma_supervisor_stays_well_formed(m.supervisor, Seq::empty(), false, false, outcome);
            lemma_cycle_goes_on(m.supervised(outcome, Phase::Polling).0);
        },
        (Phase::Scanning, EventModel::Scan(answer)) => {
            lemma_cycle_goes_on(WatchModel { scanner: m.scanner.reply(answer), ..m });
        },
        _ => {},
    }
}

proof fn lemma_cycle_goes_on(m: WatchModel)
    ensures
        m.decide().0.phase != Phase::Exited,
        forall|index: nat| (#[trigger] m.scan_from(index)).0.phase != Phase::Exited,
        m.after_interrupts().0.phase != Phase::Exited,
{
    assert forall|index: nat| (#[trigger] m.scan_from(index)).0.phase != Phase::Exited by {
        let at = WatchModel { target: index, ..m };
        assert(at.decide().0.phase != Phase::Exited);
    }
}

/// Within one cycle detection comes first and is complete before anything
/// is decided.  The supervisor is asked to run the command only at the
/// decision, which is taken when the last watch target has been walked
/// and with everything that the walks found.
pub proof fn lemma_execution_follows_detection(m: WatchModel, event: EventModel)
    requires
        m.wf(),
    ensures
        m.step(event).0.phase == Phase::Executing && m.phase != Phase::Executing ==> {
            &&& m.phase == Phase::Polling || m.phase == Phase::Scanning || m.phase == Phase::Inbox
                || m.phase == Phase::Draining
            &&& m.step(event).0.target >= m.config.targets.len()
            &&& m.step(event).0.scanner.request() is None
            &&& m.config.command is Some
            &&& (m.step(event).0.scanner.changed.len() > 0 || m.start_pending)
            &&& !m.step(event).0.start_pending
        },
{
    match (m.phase, event) {
        (Phase::Polling, EventModel::Process(outcome)) => {
            lemma_supervisor_stays_well_formed(m.supervisor, Seq::empty(), false, false, outcome);
        },
        (Phase::Scanning, EventModel::Scan(answer)) => {
            lemma_scanner_stays_well_formed(m.scanner, Seq::empty(), answer);
        },
        _ => {},
    }
}

/// One pass gathers everything, in order, under one baseline.  Detection
/// begins at the first watch target with nothing found.  While it lasts the
/// baseline stays as it is, what has been found stays found, and the targets
/// are walked one after the other in the order of the configuration, each
/// from its own path.  Detection is over when the last target has been
/// walked, and the decision is taken on all that was found: an idle
/// supervisor is asked to start the command with exactly those paths in
/// place of the placeholder.
pub proof fn lemma_pass_gathers_in_order(m: WatchModel, event: EventModel)
    requires
        m.wf(),
    ensures
        ({
            let next = m.step(event).0;
            &&& next.scanner.since == next.baseline
            &&& m.phase != Phase::Scanning && next.phase == Phase::Scanning ==> {
                &&& next.target == 0
                &&& next.baseline == m.baseline
                &&& next.scanner.changed.len() == 0
                &&& next.scanner.request() == Some(ScanRequestModel::Stat(m.config.targets[0]))
            }
            &&& m.phase == Phase::Scanning ==> {
                &&& next.baseline == m.baseline
                &&& m.scanner.changed.is_prefix_of(next.scanner.changed)
                &&& next.phase == Phase::Scanning || next.phase == Phase::Executing || next.phase
                    == Phase::Clock
                &&& next.target == m.target || next.target == m.target + 1
                &&& next.target == m.target ==> next.phase == Phase::Scanning
                &&& next.phase == Phase::Scanning && next.target == m.target + 1
                    ==> next.scanner.request() == Some(
                    ScanRequestModel::Stat(m.config.targets[m.target as int + 1]),
                )
                &&& next.phase != Phase::Scanning ==> next.target == m.config.targets.len()
                &&& next.phase == Phase::Executing ==> m.config.command is Some
                &&& next.phase == Phase::Executing && m.supervisor.child is None
                    ==> next.supervisor.request() == Some(
                    ProcRequestModel::Spawn {
                        command: substituted(m.config.command->0, next.scanner.changed),
                        clear: m.config.clear,
                    },
                )
            }
        }),
{
    lemma_step_keeps_well_formed(m, event);
    match (m.phase, event) {
        (Phase::Scanning, EventModel::Scan(answer)) => {
            lemma_scanner_stays_well_formed(m.scanner, Seq::empty(), answer);
            lemma_found_is_kept(m.scanner, Seq::empty(), answer);
            let scanner = m.scanner.reply(answer);
            if scanner.request() is None && m.target + 1 < m.config.targets.len() {
                lemma_found_is_kept(scanner, m.config.targets[m.target as int + 1], answer);
            }
        },
        (Phase::Scanning, _) => {
            assert(m.scanner.changed.is_prefix_of(m.scanner.changed)) by {
                assert(m.scanner.changed =~= m.scanner.changed.subrange(
                    0,
                    m.scanner.changed.len() as int,
                ));
            }
        },
        (Phase::Polling, EventModel::Process(outcome)) => {
            lemma_supervisor_stays_well_formed(m.supervisor, Seq::empty(), false, false, outcome);
        },
        _ => {},
    }
}

} // verus!

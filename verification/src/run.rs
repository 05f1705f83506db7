//! The agent run loop as a state machine.
//!
//! The host drives a run: it performs each action the machine returns
//! (calling plugins, the model, the tools) and reports what happened as the
//! next event. The machine decides everything else: how many turns run,
//! when tools run, how a completion is settled, when the run stops.
use vstd::prelude::*;
use crate::agent::{correction_message, correction_text};
use crate::hooks::CompletionAction;
use crate::messages::{Message, MessageV, ToolCall, ToolCallV, calls_view, opt_view};
use crate::retry::RetryAction;

verus! {

/// What to do once the current iteration has ended.
pub enum AfterIteration {
    /// The completion was accepted: shut down.
    Stop,
    /// Tools ran: go on with the next iteration.
    Next,
    /// The completion was rejected: append the correction, then go on.
    Correct(String),
}

/// Where a run stands.
pub enum RunPhase {
    NotStarted,
    AwaitInit,
    AwaitTurn,
    AwaitTools,
    AwaitCompletion,
    AwaitIterationEnd(AfterIteration),
    AwaitAppend,
    /// Waiting for the shutdown hooks; `failed` when the run ends in failure.
    AwaitShutdown { failed: bool },
    Finished,
    Failed,
}

/// What the host reports.
pub enum RunEvent {
    /// The host starts the run.
    Start,
    /// Plugin initialization finished; `ok` is false when a plugin failed.
    InitDone { ok: bool },
    /// The model call failed; `decision` is what the plugins decided.
    ModelCallFailed { decision: RetryAction },
    /// The response stream broke off with an error.
    TurnFailed,
    /// The response stream ended; `message` is the last finished message.
    TurnFinished { message: Option<Message> },
    /// The requested tools ran and their messages are in the history.
    ToolsDone,
    /// The plugins settled the final text.
    CompletionDecided { action: CompletionAction },
    /// The iteration-end hooks ran.
    IterationEnded,
    /// The requested message is in the history.
    MessageAppended,
    /// The shutdown hooks ran.
    ShutdownDone,
}

/// What the host is to do next.
pub enum RunAction {
    /// Initialize every plugin.
    InitPlugins,
    /// Run the iteration-start hooks, prepare the prompt and call the model.
    BeginIteration { iteration: usize },
    /// Wait `delay`, then call the model again.
    RetryModelCall { delay: std::time::Duration },
    /// Execute these tool calls.
    ExecuteTools { calls: Vec<ToolCall> },
    /// Ask the plugins about this final text.
    CheckCompletion { text: String },
    /// Run the iteration-end hooks.
    EndIteration { iteration: usize, had_tool_calls: bool },
    /// Append this message to the history.
    AppendMessage { message: Message },
    /// Run the shutdown hooks.
    Shutdown,
    /// The run is over: return its output.
    Finish,
    /// The run failed: return the error.
    Fail,
}

/// View of what to do after an iteration.
pub enum AfterV {
    Stop,
    Next,
    Correct(Seq<char>),
}

/// View of a run's phase.
pub enum PhaseV {
    NotStarted,
    AwaitInit,
    AwaitTurn,
    AwaitTools,
    AwaitCompletion,
    AwaitIterationEnd(AfterV),
    AwaitAppend,
    AwaitShutdown(bool),
    Finished,
    Failed,
}

/// View of a run.
pub struct RunV {
    pub max_iterations: nat,
    pub iteration: nat,
    pub phase: PhaseV,
}

/// View of an event.
pub enum EventV {
    Start,
    InitOk,
    InitFailed,
    Retry,
    GiveUp,
    TurnFailed,
    TurnStop,
    TurnTools(Seq<ToolCallV>),
    TurnText(Seq<char>),
    ToolsDone,
    Accept,
    Reject(Seq<char>),
    IterationEnded,
    MessageAppended,
    ShutdownDone,
}

/// View of an action.
pub enum ActionV {
    InitPlugins,
    Begin(nat),
    Retry,
    ExecuteTools(Seq<ToolCallV>),
    CheckCompletion(Seq<char>),
    EndIteration(nat, bool),
    Append(MessageV),
    Shutdown,
    Finish,
    Fail,
}

pub open spec fn event_view(e: RunEvent) -> EventV {
    match e {
        RunEvent::Start => EventV::Start,
        RunEvent::InitDone { ok } => if ok {
            EventV::InitOk
        } else {
            EventV::InitFailed
        },
        RunEvent::ModelCallFailed { decision } => match decision {
            RetryAction::RetryAfter(_) => EventV::Retry,
            RetryAction::GiveUp => EventV::GiveUp,
        },
        RunEvent::TurnFailed => EventV::TurnFailed,
        RunEvent::TurnFinished { message } => match message {
            Some(Message::AssistantMessage(a)) => match a.tool_calls {
                Some(v) => EventV::TurnTools(calls_view(v@)),
                None => EventV::TurnText(
                    match opt_view(a.content) {
                        Some(t) => t,
                        None => Seq::empty(),
                    },
                ),
            },
            _ => EventV::TurnStop,
        },
        RunEvent::ToolsDone => EventV::ToolsDone,
        RunEvent::CompletionDecided { action } => match action {
            CompletionAction::Accept => EventV::Accept,
            CompletionAction::Reject { reason } => EventV::Reject(reason@),
        },
        RunEvent::IterationEnded => EventV::IterationEnded,
        RunEvent::MessageAppended => EventV::MessageAppended,
        RunEvent::ShutdownDone => EventV::ShutdownDone,
    }
}

pub open spec fn action_view(a: RunAction) -> ActionV {
    match a {
        RunAction::InitPlugins => ActionV::InitPlugins,
        RunAction::BeginIteration { iteration } => ActionV::Begin(iteration as nat),
        RunAction::RetryModelCall { .. } => ActionV::Retry,
        RunAction::ExecuteTools { calls } => ActionV::ExecuteTools(calls_view(calls@)),
        RunAction::CheckCompletion { text } => ActionV::CheckCompletion(text@),
        RunAction::EndIteration { iteration, had_tool_calls } => ActionV::EndIteration(
            iteration as nat,
            had_tool_calls,
        ),
        RunAction::AppendMessage { message } => ActionV::Append(message@),
        RunAction::Shutdown => ActionV::Shutdown,
        RunAction::Finish => ActionV::Finish,
        RunAction::Fail => ActionV::Fail,
    }
}

/// Whether `e` is an event the run can receive in its current phase.
pub open spec fn accepts_spec(p: PhaseV, e: EventV) -> bool {
    match p {
        PhaseV::NotStarted => e is Start,
        PhaseV::AwaitInit => e is InitOk || e is InitFailed,
        PhaseV::AwaitTurn => e is Retry || e is GiveUp || e is TurnFailed || e is TurnStop || e is TurnTools
            || e is TurnText,
        PhaseV::AwaitTools => e is ToolsDone,
        PhaseV::AwaitCompletion => e is Accept || e is Reject,
        PhaseV::AwaitIterationEnd(_) => e is IterationEnded,
        PhaseV::AwaitAppend => e is MessageAppended,
        PhaseV::AwaitShutdown(_) => e is ShutdownDone,
        PhaseV::Finished => false,
        PhaseV::Failed => false,
    }
}

/// Going on with iteration `k`: it runs when below the limit, otherwise the
/// run shuts down.
pub open spec fn advance(s: RunV, k: nat) -> (RunV, ActionV) {
    if k < s.max_iterations {
        (RunV { iteration: k, phase: PhaseV::AwaitTurn, ..s }, ActionV::Begin(k))
    } else {
        (RunV { phase: PhaseV::AwaitShutdown(false), ..s }, ActionV::Shutdown)
    }
}

/// One step of a run: the next state and action for an accepted event.
pub open spec fn next(s: RunV, e: EventV) -> (RunV, ActionV) {
    let i = s.iteration;
    match (s.phase, e) {
        (PhaseV::NotStarted, EventV::Start) => (RunV { phase: PhaseV::AwaitInit, ..s }, ActionV::InitPlugins),
        (PhaseV::AwaitInit, EventV::InitOk) => advance(s, 0),
        (PhaseV::AwaitInit, EventV::InitFailed) => (
            RunV { phase: PhaseV::AwaitShutdown(true), ..s },
            ActionV::Shutdown,
        ),
        (PhaseV::AwaitTurn, EventV::Retry) => (s, ActionV::Retry),
        (PhaseV::AwaitTurn, EventV::GiveUp) => (RunV { phase: PhaseV::AwaitShutdown(true), ..s }, ActionV::Shutdown),
        (PhaseV::AwaitTurn, EventV::TurnFailed) => (
            RunV { phase: PhaseV::AwaitShutdown(true), ..s },
            ActionV::Shutdown,
        ),
        (PhaseV::AwaitTurn, EventV::TurnStop) => (
            RunV { phase: PhaseV::AwaitShutdown(false), ..s },
            ActionV::Shutdown,
        ),
        (PhaseV::AwaitTurn, EventV::TurnTools(c)) => (
            RunV { phase: PhaseV::AwaitTools, ..s },
            ActionV::ExecuteTools(c),
        ),
        (PhaseV::AwaitTurn, EventV::TurnText(t)) => (
            RunV { phase: PhaseV::AwaitCompletion, ..s },
            ActionV::CheckCompletion(t),
        ),
        (PhaseV::AwaitTools, EventV::ToolsDone) => (
            RunV { phase: PhaseV::AwaitIterationEnd(AfterV::Next), ..s },
            ActionV::EndIteration(i, true),
        ),
        (PhaseV::AwaitCompletion, EventV::Accept) => (
            RunV { phase: PhaseV::AwaitIterationEnd(AfterV::Stop), ..s },
            ActionV::EndIteration(i, false),
        ),
        (PhaseV::AwaitCompletion, EventV::Reject(r)) => (
            RunV { phase: PhaseV::AwaitIterationEnd(AfterV::Correct(r)), ..s },
            ActionV::EndIteration(i, false),
        ),
        (PhaseV::AwaitIterationEnd(AfterV::Stop), EventV::IterationEnded) => (
            RunV { phase: PhaseV::AwaitShutdown(false), ..s },
            ActionV::Shutdown,
        ),
        (PhaseV::AwaitIterationEnd(AfterV::Next), EventV::IterationEnded) => advance(s, i + 1),
        (PhaseV::AwaitIterationEnd(AfterV::Correct(r)), EventV::IterationEnded) => (
            RunV { phase: PhaseV::AwaitAppend, ..s },
            ActionV::Append(MessageV::User { content: Some(correction_text(r)) }),
        ),
        (PhaseV::AwaitAppend, EventV::MessageAppended) => advance(s, i + 1),
        (PhaseV::AwaitShutdown(failed), EventV::ShutdownDone) => if failed {
            (RunV { phase: PhaseV::Failed, ..s }, ActionV::Fail)
        } else {
            (RunV { phase: PhaseV::Finished, ..s }, ActionV::Finish)
        },
        _ => (s, ActionV::Fail),
    }
}

/// An agent run in progress.
pub struct AgentRun {
    max_iterations: usize,
    iteration: usize,
    phase: RunPhase,
}

impl View for AgentRun {
    type V = RunV;

    closed spec fn view(&self) -> RunV {
        RunV {
            max_iterations: self.max_iterations as nat,
            iteration: self.iteration as nat,
            phase: match self.phase {
                RunPhase::NotStarted => PhaseV::NotStarted,
                RunPhase::AwaitInit => PhaseV::AwaitInit,
                RunPhase::AwaitTurn => PhaseV::AwaitTurn,
                RunPhase::AwaitTools => PhaseV::AwaitTools,
                RunPhase::AwaitCompletion => PhaseV::AwaitCompletion,
                RunPhase::AwaitIterationEnd(a) => PhaseV::AwaitIterationEnd(
                    match a {
                        AfterIteration::Stop => AfterV::Stop,
                        AfterIteration::Next => AfterV::Next,
                        AfterIteration::Correct(r) => AfterV::Correct(r@),
                    },
                ),
                RunPhase::AwaitAppend => PhaseV::AwaitAppend,
                RunPhase::AwaitShutdown { failed } => PhaseV::AwaitShutdown(failed),
                RunPhase::Finished => PhaseV::Finished,
                RunPhase::Failed => PhaseV::Failed,
            },
        }
    }
}

/// The phases in which an iteration is in progress.
pub open spec fn in_iteration(p: PhaseV) -> bool {
    p is AwaitTurn || p is AwaitTools || p is AwaitCompletion || p is AwaitIterationEnd || p is AwaitAppend
}

/// The iteration counter stays within the limit, and strictly below it
/// while an iteration is in progress.
pub open spec fn run_wf(s: RunV) -> bool {
    &&& s.iteration <= s.max_iterations
    &&& in_iteration(s.phase) ==> s.iteration < s.max_iterations
}

impl AgentRun {
    #[verifier::type_invariant]
    closed spec fn wf(&self) -> bool {
        run_wf(self@)
    }

    /// A run that has not started, allowed `max_iterations` iterations.
    pub fn new(max_iterations: usize) -> (r: AgentRun)
        ensures
            r@ == (RunV { max_iterations: max_iterations as nat, iteration: 0, phase: PhaseV::NotStarted }),
    {
        AgentRun { max_iterations, iteration: 0, phase: RunPhase::NotStarted }
    }

    /// The iteration in progress (or the last one).
    pub fn iteration(&self) -> (i: usize)
        ensures
            i == self@.iteration,
    {
        self.iteration
    }

    /// Whether the run is over (finished or failed).
    pub fn is_over(&self) -> (b: bool)
        ensures
            b == (self@.phase is Finished || self@.phase is Failed),
    {
        match self.phase {
            RunPhase::Finished | RunPhase::Failed => true,
            _ => false,
        }
    }

    /// Whether the run can receive `e` now.
    pub fn accepts(&self, e: &RunEvent) -> (b: bool)
        ensures
            b == accepts_spec(self@.phase, event_view(*e)),
    {
        match (&self.phase, e) {
            (RunPhase::NotStarted, RunEvent::Start) => true,
            (RunPhase::AwaitInit, RunEvent::InitDone { .. }) => true,
            (RunPhase::AwaitTurn, RunEvent::ModelCallFailed { .. }) => true,
            (RunPhase::AwaitTurn, RunEvent::TurnFailed) => true,
            (RunPhase::AwaitTurn, RunEvent::TurnFinished { .. }) => true,
            (RunPhase::AwaitTools, RunEvent::ToolsDone) => true,
            (RunPhase::AwaitCompletion, RunEvent::CompletionDecided { .. }) => true,
            (RunPhase::AwaitIterationEnd(_), RunEvent::IterationEnded) => true,
            (RunPhase::AwaitAppend, RunEvent::MessageAppended) => true,
            (RunPhase::AwaitShutdown { .. }, RunEvent::ShutdownDone) => true,
            _ => false,
        }
    }

    fn advance_to(&mut self, k: usize) -> (a: RunAction)
        requires
            k <= old(self)@.max_iterations,
        ensures
            (final(self)@, action_view(a)) == advance(old(self)@, k as nat),
    {
        proof {
            use_type_invariant(&*self);
        }
        if k < self.max_iterations {
            self.iteration = k;
            self.phase = RunPhase::AwaitTurn;
            RunAction::BeginIteration { iteration: k }
        } else {
            self.phase = RunPhase::AwaitShutdown { failed: false };
            RunAction::Shutdown
        }
    }

    /// Takes one event and returns the action the host is to perform.
    /// Payloads pass through unchanged: the calls to execute are the
    /// assistant's calls, the text to check is its text (empty when it has
    /// none), the retry waits the delay the plugins chose.
    pub fn step(&mut self, e: RunEvent) -> (a: RunAction)
        requires
            accepts_spec(old(self)@.phase, event_view(e)),
        ensures
            (final(self)@, action_view(a)) == next(old(self)@, event_view(e)),
            e matches RunEvent::ModelCallFailed { decision: RetryAction::RetryAfter(d) } ==> a
                == (RunAction::RetryModelCall { delay: d }),
            e matches RunEvent::TurnFinished { message: Some(Message::AssistantMessage(m)) } ==> (
            m.tool_calls matches Some(calls) ==> a == (RunAction::ExecuteTools { calls })),
    {
        proof {
            use_type_invariant(&*self);
        }
        let i = self.iteration;
        match e {
            RunEvent::Start => {
                self.phase = RunPhase::AwaitInit;
                RunAction::InitPlugins
            },
            RunEvent::InitDone { ok } => {
                if ok {
                    self.advance_to(0)
                } else {
                    self.phase = RunPhase::AwaitShutdown { failed: true };
                    RunAction::Shutdown
                }
            },
            RunEvent::ModelCallFailed { decision } => match decision {
                RetryAction::RetryAfter(d) => RunAction::RetryModelCall { delay: d },
                RetryAction::GiveUp => {
                    self.phase = RunPhase::AwaitShutdown { failed: true };
                    RunAction::Shutdown
                },
            },
            RunEvent::TurnFailed => {
                self.phase = RunPhase::AwaitShutdown { failed: true };
                RunAction::Shutdown
            },
            RunEvent::TurnFinished { message } => match message {
                Some(Message::AssistantMessage(m)) => match m.tool_calls {
                    Some(calls) => {
                        self.phase = RunPhase::AwaitTools;
                        RunAction::ExecuteTools { calls }
                    },
                    None => {
                        self.phase = RunPhase::AwaitCompletion;
                        let text = match m.content {
                            Some(t) => t,
                            None => String::new(),
                        };
                        RunAction::CheckCompletion { text }
                    },
                },
                _ => {
                    self.phase = RunPhase::AwaitShutdown { failed: false };
                    RunAction::Shutdown
                },
            },
            RunEvent::ToolsDone => {
                self.phase = RunPhase::AwaitIterationEnd(AfterIteration::Next);
                RunAction::EndIteration { iteration: i, had_tool_calls: true }
            },
            RunEvent::CompletionDecided { action } => {
                match action {
                    CompletionAction::Accept => {
                        self.phase = RunPhase::AwaitIterationEnd(AfterIteration::Stop);
                    },
                    CompletionAction::Reject { reason } => {
                        self.phase = RunPhase::AwaitIterationEnd(AfterIteration::Correct(reason));
                    },
                }
                RunAction::EndIteration { iteration: i, had_tool_calls: false }
            },
            RunEvent::IterationEnded => {
                let mut ph = RunPhase::AwaitShutdown { failed: false };
                std::mem::swap(&mut ph, &mut self.phase);
                match ph {
                    RunPhase::AwaitIterationEnd(AfterIteration::Stop) => RunAction::Shutdown,
                    RunPhase::AwaitIterationEnd(AfterIteration::Next) => self.advance_to(i + 1),
                    RunPhase::AwaitIterationEnd(AfterIteration::Correct(r)) => {
                        self.phase = RunPhase::AwaitAppend;
                        RunAction::AppendMessage { message: correction_message(r.as_str()) }
                    },
                    _ => RunAction::Fail,
                }
            },
            RunEvent::MessageAppended => self.advance_to(i + 1),
            RunEvent::ShutdownDone => {
                let failed = match self.phase {
                    RunPhase::AwaitShutdown { failed } => failed,
                    _ => false,
                };
                if failed {
                    self.phase = RunPhase::Failed;
                    RunAction::Fail
                } else {
                    self.phase = RunPhase::Finished;
                    RunAction::Finish
                }
            },
        }
    }
}

/// The state and the actions of a run after a sequence of events.
pub open spec fn run_trace(s: RunV, es: Seq<EventV>) -> (RunV, Seq<ActionV>)
    decreases es.len(),
{
    if es.len() == 0 {
        (s, Seq::empty())
    } else {
        let (s1, a) = next(s, es[0]);
        let (s2, acts) = run_trace(s1, es.drop_first());
        (s2, seq![a] + acts)
    }
}

/// Number of model turns begun in a list of actions.
pub open spec fn begins(acts: Seq<ActionV>) -> nat
    decreases acts.len(),
{
    if acts.len() == 0 {
        0
    } else {
        (if acts[0] is Begin {
            1nat
        } else {
            0nat
        }) + begins(acts.drop_first())
    }
}

/// Turns begun so far, as the phase tells them.
pub open spec fn begun_inv(s: RunV, b: nat) -> bool {
    &&& run_wf(s)
    &&& (s.phase is NotStarted || s.phase is AwaitInit) ==> b == 0 && s.iteration == 0
    &&& in_iteration(s.phase) ==> b == s.iteration + 1
    &&& b <= s.max_iterations
}

proof fn lemma_step_begins(s: RunV, e: EventV, b: nat)
    requires
        begun_inv(s, b),
    ensures
        begun_inv(next(s, e).0, b + if next(s, e).1 is Begin {
            1nat
        } else {
            0nat
        }),
        next(s, e).0.max_iterations == s.max_iterations,
{
}

proof fn lemma_trace_begins(s: RunV, es: Seq<EventV>, b: nat)
    requires
        begun_inv(s, b),
    ensures
        b + begins(run_trace(s, es).1) <= s.max_iterations,
    decreases es.len(),
{
    if es.len() > 0 {
        let (s1, a) = next(s, es[0]);
        lemma_step_begins(s, es[0], b);
        let b1 = b + if a is Begin {
            1nat
        } else {
            0nat
        };
        lemma_trace_begins(s1, es.drop_first(), b1);
        let acts = run_trace(s, es).1;
        assert(acts == seq![a] + run_trace(s1, es.drop_first()).1);
        assert(acts[0] == a);
        assert(acts.drop_first() =~= run_trace(s1, es.drop_first()).1);
    }
}

/// A run calls the model for at most `max_iterations` turns, whatever
/// happens during it.
pub proof fn lemma_turns_bounded(max_iterations: nat, es: Seq<EventV>)
    ensures
        begins(
            run_trace(RunV { max_iterations, iteration: 0, phase: PhaseV::NotStarted }, es).1,
        ) <= max_iterations,
{
    lemma_trace_begins(RunV { max_iterations, iteration: 0, phase: PhaseV::NotStarted }, es, 0);
}

/// The run ends only through its shutdown: it finishes or fails only
/// once the shutdown hooks ran, and a failure (of plugin initialization,
/// of the model call, of the stream) first asks for the shutdown hooks,
/// then ends the run as failed.
pub proof fn lemma_finish_follows_shutdown(s: RunV, e: EventV)
    requires
        accepts_spec(s.phase, e),
    ensures
        next(s, e).1 is Finish ==> s.phase == PhaseV::AwaitShutdown(false) && e is ShutdownDone,
        next(s, e).1 is Fail ==> s.phase == PhaseV::AwaitShutdown(true) && e is ShutdownDone && next(s, e).0.phase is Failed,
        next(s, e).0.phase is AwaitShutdown ==> next(s, e).1 is Shutdown,
        (e is InitFailed || e is GiveUp || e is TurnFailed) ==> next(s, e) == (
            RunV { phase: PhaseV::AwaitShutdown(true), ..s },
            ActionV::Shutdown,
        ),
        (e is InitFailed || e is GiveUp || e is TurnFailed) ==> next(next(s, e).0, EventV::ShutdownDone) == (
            RunV { phase: PhaseV::Failed, ..s },
            ActionV::Fail,
        ),
{
}

/// A rejected completion ends the iteration, appends the correction prompt
/// with the plugin's reason, and starts the next turn when one is left.
pub proof fn lemma_reject_continues(s: RunV, reason: Seq<char>)
    requires
        s.phase is AwaitCompletion,
        run_wf(s),
    ensures
        ({
            let (s1, a1) = next(s, EventV::Reject(reason));
            let (s2, a2) = next(s1, EventV::IterationEnded);
            let (s3, a3) = next(s2, EventV::MessageAppended);
            &&& a1 == ActionV::EndIteration(s.iteration, false)
            &&& a2 == ActionV::Append(MessageV::User { content: Some(correction_text(reason)) })
            &&& a3 == (if s.iteration + 1 < s.max_iterations {
                ActionV::Begin(s.iteration + 1)
            } else {
                ActionV::Shutdown
            })
        }),
{
}

/// Tool results always get another model turn while turns remain: a turn
/// that asks for tools has them executed, ends its iteration as one with
/// tool calls, and then the next iteration begins (the model is called
/// again with the results), or, at the iteration limit, the run shuts down
/// normally.
pub proof fn lemma_tool_results_continue(s: RunV, calls: Seq<ToolCallV>)
    requires
        s.phase is AwaitTurn,
    ensures
        ({
            let (s1, a1) = next(s, EventV::TurnTools(calls));
            let (s2, a2) = next(s1, EventV::ToolsDone);
            let (s3, a3) = next(s2, EventV::IterationEnded);
            &&& a1 == ActionV::ExecuteTools(calls)
            &&& a2 == ActionV::EndIteration(s.iteration, true)
            &&& s.iteration + 1 < s.max_iterations ==> {
                &&& a3 == ActionV::Begin(s.iteration + 1)
                &&& s3.phase is AwaitTurn
                &&& s3.iteration == s.iteration + 1
            }
            &&& s.iteration + 1 >= s.max_iterations ==> {
                &&& a3 == ActionV::Shutdown
                &&& s3.phase == PhaseV::AwaitShutdown(false)
            }
        }),
{
}

/// A run starts by initializing the plugins and, once they are ready,
/// calls the model for its first iteration (numbered 0) when it may run
/// any; a run allowed no iteration shuts down normally.
pub proof fn lemma_run_starts(max_iterations: nat)
    ensures
        ({
            let s0 = RunV { max_iterations, iteration: 0, phase: PhaseV::NotStarted };
            let (s1, a1) = next(s0, EventV::Start);
            let (s2, a2) = next(s1, EventV::InitOk);
            &&& a1 == ActionV::InitPlugins
            &&& s1.phase is AwaitInit
            &&& max_iterations > 0 ==> a2 == ActionV::Begin(0) && s2.phase is AwaitTurn && s2.iteration == 0
            &&& max_iterations == 0 ==> a2 == ActionV::Shutdown && s2.phase == PhaseV::AwaitShutdown(false)
        }),
{
}

/// What a model turn leads to: a retry calls the model again in the same
/// iteration; a turn that stopped without an assistant message ends the
/// run normally; tool calls are executed; final text is put to the
/// completion check.
pub proof fn lemma_turn_outcomes(s: RunV, calls: Seq<ToolCallV>, text: Seq<char>)
    requires
        s.phase is AwaitTurn,
    ensures
        next(s, EventV::Retry) == (s, ActionV::Retry),
        next(s, EventV::TurnStop).1 == ActionV::Shutdown && next(s, EventV::TurnStop).0.phase == PhaseV::AwaitShutdown(false),
        next(s, EventV::TurnTools(calls)).1 == ActionV::ExecuteTools(calls) && next(s, EventV::TurnTools(calls)).0.phase is AwaitTools,
        next(s, EventV::TurnText(text)).1 == ActionV::CheckCompletion(text) && next(s, EventV::TurnText(text)).0.phase is AwaitCompletion,
        next(s, EventV::TurnText(text)).0.iteration == s.iteration,
{
}

/// An accepted completion ends the run: the iteration ends, then shutdown.
pub proof fn lemma_accept_stops(s: RunV)
    requires
        s.phase is AwaitCompletion,
    ensures
        ({
            let (s1, a1) = next(s, EventV::Accept);
            let (s2, a2) = next(s1, EventV::IterationEnded);
            &&& a1 == ActionV::EndIteration(s.iteration, false)
            &&& a2 == ActionV::Shutdown
            &&& s2.phase == PhaseV::AwaitShutdown(false)
        }),
{
}

} // verus!

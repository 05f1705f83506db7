use agentsdk::hooks::CompletionAction;
use agentsdk::messages::{assistant, Message};
use agentsdk::retry::RetryAction;
use agentsdk::run::{AgentRun, RunAction, RunEvent};

fn text_turn(t: &str) -> RunEvent {
    RunEvent::TurnFinished { message: Some(assistant(t)) }
}

#[test]
fn a_run_that_is_accepted_at_once_shuts_down() {
    let mut run = AgentRun::new(3);
    assert!(matches!(run.step(RunEvent::Start), RunAction::InitPlugins));
    assert!(matches!(run.step(RunEvent::InitDone { ok: true }), RunAction::BeginIteration { iteration: 0 }));
    match run.step(text_turn("done")) {
        RunAction::CheckCompletion { text } => assert_eq!(text, "done"),
        _ => panic!("expected a completion check"),
    }
    let a = run.step(RunEvent::CompletionDecided { action: CompletionAction::Accept });
    assert!(matches!(a, RunAction::EndIteration { iteration: 0, had_tool_calls: false }));
    assert!(matches!(run.step(RunEvent::IterationEnded), RunAction::Shutdown));
    assert!(matches!(run.step(RunEvent::ShutdownDone), RunAction::Finish));
    assert!(run.is_over());
}

#[test]
fn a_rejection_appends_a_correction_and_continues() {
    let mut run = AgentRun::new(2);
    run.step(RunEvent::Start);
    run.step(RunEvent::InitDone { ok: true });
    run.step(text_turn("draft"));
    run.step(RunEvent::CompletionDecided { action: CompletionAction::Reject { reason: "no".into() } });
    match run.step(RunEvent::IterationEnded) {
        RunAction::AppendMessage { message: Message::UserMessage(u) } => {
            assert_eq!(u.content.as_deref(), Some("Your previous response was rejected:\nno\n\nPlease fix and retry."))
        }
        _ => panic!("expected a correction"),
    }
    assert!(matches!(run.step(RunEvent::MessageAppended), RunAction::BeginIteration { iteration: 1 }));
    assert_eq!(run.iteration(), 1);
}

#[test]
fn the_iteration_limit_ends_the_run() {
    let mut run = AgentRun::new(1);
    run.step(RunEvent::Start);
    run.step(RunEvent::InitDone { ok: true });
    run.step(text_turn("x"));
    run.step(RunEvent::CompletionDecided { action: CompletionAction::Reject { reason: "r".into() } });
    run.step(RunEvent::IterationEnded);
    assert!(matches!(run.step(RunEvent::MessageAppended), RunAction::Shutdown));
}

#[test]
fn model_errors_are_retried_or_fail_the_run() {
    let mut run = AgentRun::new(1);
    run.step(RunEvent::Start);
    run.step(RunEvent::InitDone { ok: true });
    let d = std::time::Duration::from_millis(5);
    match run.step(RunEvent::ModelCallFailed { decision: RetryAction::RetryAfter(d) }) {
        RunAction::RetryModelCall { delay } => assert_eq!(delay, d),
        _ => panic!("expected a retry"),
    }
    assert!(matches!(run.step(RunEvent::ModelCallFailed { decision: RetryAction::GiveUp }), RunAction::Shutdown));
    assert!(!run.is_over());
    assert!(matches!(run.step(RunEvent::ShutdownDone), RunAction::Fail));
    assert!(run.is_over());
}

#[test]
fn a_failed_initialization_fails_the_run() {
    let mut run = AgentRun::new(1);
    run.step(RunEvent::Start);
    assert!(matches!(run.step(RunEvent::InitDone { ok: false }), RunAction::Shutdown));
    assert!(matches!(run.step(RunEvent::ShutdownDone), RunAction::Fail));
}

#[test]
fn a_broken_stream_shuts_down_then_fails() {
    let mut run = AgentRun::new(2);
    run.step(RunEvent::Start);
    run.step(RunEvent::InitDone { ok: true });
    assert!(matches!(run.step(RunEvent::TurnFailed), RunAction::Shutdown));
    assert!(!run.accepts(&RunEvent::TurnFailed));
    assert!(matches!(run.step(RunEvent::ShutdownDone), RunAction::Fail));
}

use agentsdk::hil::{ask, hil_on_completion, hil_system_prompt, make_hil_id, uuid, uuid_of, AskInput, AskOptionInput, HilState};
use agentsdk::hooks::CompletionAction;
use agentsdk::json::Json;

fn input(q: &str, kind: &str) -> AskInput {
    AskInput { question: q.into(), interaction_type: kind.into(), options: vec![], placeholder: None, default: None }
}

#[test]
fn ids_are_twelve_hex_digits_of_the_time() {
    assert_eq!(uuid_of(0x1234_5678_9abc_def0), "56789abcdef0");
    assert_eq!(make_hil_id(255), "hil_0000000000ff");
    let u = uuid();
    assert_eq!(u.len(), 12);
    assert!(u.chars().all(|c| c.is_ascii_hexdigit() && !c.is_ascii_uppercase()));
}

#[test]
fn a_question_is_queued_then_answered_once() {
    let mut st = HilState::new();
    let r = ask(&mut st, input("Name?", "question"), 1).unwrap();
    assert_eq!(r.get("status"), Some(&Json::Str("pending".into())));
    assert_eq!(r.get("id"), Some(&Json::Str("hil_000000000001".into())));
    assert!(st.has_pending());
    assert_eq!(hil_system_prompt(Some(&st)).is_some(), true);
    match hil_on_completion(Some(&st)) {
        CompletionAction::Reject { reason } => assert!(reason.starts_with("Waiting for user input")),
        _ => panic!("expected a rejection"),
    }
    assert!(st.respond("hil_000000000001", Json::Str("Ada".into())));
    assert!(!st.has_pending());
    let r = ask(&mut st, input("Name?", "question"), 2).unwrap();
    assert_eq!(r.get("status"), Some(&Json::Str("ready".into())));
    assert_eq!(r.get("value"), Some(&Json::Str("Ada".into())));
    assert!(st.iter().is_empty());
    assert!(matches!(hil_on_completion(Some(&st)), CompletionAction::Accept));
    assert!(hil_system_prompt(None).is_none());
}

#[test]
fn unknown_interaction_types_are_refused() {
    let mut st = HilState::new();
    let e = ask(&mut st, input("?", "essay"), 1).unwrap_err();
    assert_eq!(e, "Unknown interaction_type: essay");
    assert!(st.iter().is_empty());
}

#[test]
fn select_options_carry_string_values() {
    let mut st = HilState::new();
    let mut i = input("Pick", "multi_select");
    i.options = vec![AskOptionInput { label: "A".into(), value: "a".into(), description: None }];
    ask(&mut st, i, 7).unwrap();
    assert_eq!(st.pending().len(), 1);
    assert!(!st.respond("nope", Json::Null));
}

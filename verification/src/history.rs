//! Conversation history kept on the agent.
use vstd::prelude::*;
use crate::messages::Message;

verus! {

/// The conversation so far, in order.
pub struct History(pub Vec<Message>);

/// The history an in-memory history plugin leaves at the start of a run:
/// its remembered messages first, then those already there (injected
/// earlier in the same run).
pub fn with_remembered(remembered: Vec<Message>, existing: Option<History>) -> (h: History)
    ensures
        h.0@ == remembered@ + match existing {
            Some(e) => e.0@,
            None => Seq::empty(),
        },
{
    let mut combined = remembered;
    match existing {
        Some(e) => {
            let mut rest = e.0;
            combined.append(&mut rest);
        },
        None => {},
    }
    History(combined)
}

} // verus!

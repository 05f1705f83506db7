//! Plugin answers and how the agent combines them.
//!
//! Control-flow hooks are asked plugin by plugin, in registration order;
//! the first decisive answer wins and the remaining plugins are not asked.
//! A hook that failed (panicked or timed out) counts as a pass.
use vstd::prelude::*;
use crate::json::{Json, JsonV, json_text, to_json_string};
use crate::retry::RetryAction;

verus! {

/// What the agent should do with a final text completion.
pub enum CompletionAction {
    /// Accept the completion as-is.
    Accept,
    /// Reject the completion and retry: the agent appends a correction
    /// prompt to the history and continues the loop.
    Reject { reason: String },
}

/// Action to take before executing a tool.
pub enum PreToolAction {
    /// Proceed with execution, optionally with transformed arguments.
    Proceed(Option<Json>),
    /// Skip execution and return this text to the model as the tool's result.
    Abort(String),
}

/// Action to take after a tool executes successfully.
pub enum PostToolAction {
    /// Use the result, optionally a transformed version of it.
    Proceed(Option<Json>),
    /// Send this string back to the model instead of the result.
    Override(String),
}

/// Action to take when a tool execution fails.
pub enum ToolErrorAction {
    /// Pass the error through to the model, optionally transformed.
    Proceed(Option<String>),
    /// Provide a fallback result instead of the error.
    Fallback(String),
}

/// An answer of a control-flow hook.
pub trait HookAnswer: Sized {
    /// Whether this answer ends the consultation.
    spec fn decisive(&self) -> bool;

    /// The answer that defers to the next plugin.
    spec fn pass_value() -> Self;

    /// Whether this answer ends the consultation.
    fn is_decisive(&self) -> (r: bool)
        ensures
            r == self.decisive();

    /// The answer that defers to the next plugin.
    fn pass() -> (r: Self)
        ensures
            r == Self::pass_value(),
            !r.decisive();
}

impl HookAnswer for CompletionAction {
    open spec fn decisive(&self) -> bool {
        *self is Reject
    }

    open spec fn pass_value() -> Self {
        CompletionAction::Accept
    }

    fn is_decisive(&self) -> (r: bool) {
        match self {
            CompletionAction::Reject { .. } => true,
            CompletionAction::Accept => false,
        }
    }

    fn pass() -> (r: Self) {
        CompletionAction::Accept
    }
}

impl HookAnswer for PreToolAction {
    open spec fn decisive(&self) -> bool {
        !(*self matches PreToolAction::Proceed(None))
    }

    open spec fn pass_value() -> Self {
        PreToolAction::Proceed(None)
    }

    fn is_decisive(&self) -> (r: bool) {
        match self {
            PreToolAction::Proceed(None) => false,
            _ => true,
        }
    }

    fn pass() -> (r: Self) {
        PreToolAction::Proceed(None)
    }
}

impl HookAnswer for PostToolAction {
    open spec fn decisive(&self) -> bool {
        !(*self matches PostToolAction::Proceed(None))
    }

    open spec fn pass_value() -> Self {
        PostToolAction::Proceed(None)
    }

    fn is_decisive(&self) -> (r: bool) {
        match self {
            PostToolAction::Proceed(None) => false,
            _ => true,
        }
    }

    fn pass() -> (r: Self) {
        PostToolAction::Proceed(None)
    }
}

impl HookAnswer for ToolErrorAction {
    open spec fn decisive(&self) -> bool {
        !(*self matches ToolErrorAction::Proceed(None))
    }

    open spec fn pass_value() -> Self {
        ToolErrorAction::Proceed(None)
    }

    fn is_decisive(&self) -> (r: bool) {
        match self {
            ToolErrorAction::Proceed(None) => false,
            _ => true,
        }
    }

    fn pass() -> (r: Self) {
        ToolErrorAction::Proceed(None)
    }
}

impl HookAnswer for RetryAction {
    open spec fn decisive(&self) -> bool {
        *self is RetryAfter
    }

    open spec fn pass_value() -> Self {
        RetryAction::GiveUp
    }

    fn is_decisive(&self) -> (r: bool) {
        self.is_retry()
    }

    fn pass() -> (r: Self) {
        RetryAction::GiveUp
    }
}

/// Whether a plugin's answer (absent when its hook failed) is decisive.
pub open spec fn decides<A: HookAnswer>(o: Option<A>) -> bool {
    match o {
        Some(a) => a.decisive(),
        None => false,
    }
}

/// The outcome of asking plugins in order: the first answer that exists
/// (the hook did not fail) and is decisive, or the pass answer when there is
/// none.
pub open spec fn first_decisive<A: HookAnswer>(s: Seq<Option<A>>) -> A
    decreases s.len(),
{
    if s.len() == 0 {
        A::pass_value()
    } else {
        match s[0] {
            Some(a) => if a.decisive() {
                a
            } else {
                first_decisive(s.drop_first())
            },
            None => first_decisive(s.drop_first()),
        }
    }
}

/// Combines the answers of the plugins, in registration order (`None` for
/// a hook that failed): the first decisive answer wins.
pub fn decide<A: HookAnswer>(answers: Vec<Option<A>>) -> (r: A)
    ensures
        r == first_decisive(answers@),
{
    let mut rest = answers;
    let ghost all = rest@;
    let n = rest.len();
    let mut k: usize = 0;
    while k < n
        invariant
            k <= n,
            rest@.len() == n - k,
            first_decisive(all) == first_decisive(rest@),
            all == answers@,
        decreases n - k,
    {
        let ghost cur = rest@;
        let a = rest.remove(0);
        proof {
            assert(rest@ =~= cur.drop_first());
        }
        match a {
            Some(x) => {
                if x.is_decisive() {
                    assert(cur[0] == Some(x));
                    assert(first_decisive(cur) == x);
                    return x;
                }
            },
            None => {},
        }
        k = k + 1;
    }
    A::pass()
}

/// The first decisive answer wins: once plugin `k` answers decisively,
/// no later plugin changes the outcome, and it is that answer.
pub proof fn lemma_first_decisive_wins<A: HookAnswer>(s: Seq<Option<A>>, k: int)
    requires
        0 <= k < s.len(),
        decides(s[k]),
        forall|j: int| 0 <= j < k ==> !decides(#[trigger] s[j]),
    ensures
        first_decisive(s) == s[k]->0,
        first_decisive(s) == first_decisive(s.take(k + 1)),
    decreases k,
{
    if k > 0 {
        assert(!decides(s[0]));
        assert forall|j: int| 0 <= j < k - 1 implies !decides(#[trigger] s.drop_first()[j]) by {
            assert(s.drop_first()[j] == s[j + 1]);
        }
        lemma_first_decisive_wins(s.drop_first(), k - 1);
        assert(s.take(k + 1).drop_first() =~= s.drop_first().take(k));
    }
}

/// Plugins that fail or pass change nothing: with no decisive answer the
/// outcome is the pass answer.
pub proof fn lemma_no_decisive_passes<A: HookAnswer>(s: Seq<Option<A>>)
    requires
        forall|j: int| 0 <= j < s.len() ==> !decides(#[trigger] s[j]),
    ensures
        first_decisive(s) == A::pass_value(),
    decreases s.len(),
{
    if s.len() > 0 {
        assert(!decides(s[0]));
        assert forall|j: int| 0 <= j < s.len() - 1 implies !decides(#[trigger] s.drop_first()[j]) by {
            assert(s.drop_first()[j] == s[j + 1]);
        }
        lemma_no_decisive_passes(s.drop_first());
    }
}

/// The arguments a tool runs with, or the text returned to the model in
/// place of running it.
pub open spec fn pre_resolve_spec(a: PreToolAction, original: Json) -> Result<Json, String> {
    match a {
        PreToolAction::Proceed(Some(t)) => Ok(t),
        PreToolAction::Proceed(None) => Ok(original),
        PreToolAction::Abort(reason) => Err(reason),
    }
}

impl PreToolAction {
    /// The arguments to run the tool with (`Ok`), or the text to answer the
    /// model with instead (`Err`).
    pub fn resolve(self, original: Json) -> (r: Result<Json, String>)
        ensures
            r == pre_resolve_spec(self, original),
    {
        match self {
            PreToolAction::Proceed(transformed) => match transformed {
                Some(t) => Ok(t),
                None => Ok(original),
            },
            PreToolAction::Abort(reason) => Err(reason),
        }
    }
}

/// The text of a tool result as the model sees it: a JSON string is sent
/// as its bare text, any other value as its JSON text.
pub open spec fn result_text(v: JsonV) -> Seq<char> {
    match v {
        JsonV::Str(s) => s,
        _ => json_text(v),
    }
}

/// The text sent to the model after a successful tool call.
pub open spec fn post_resolve_spec(a: PostToolAction, original: JsonV) -> Seq<char> {
    match a {
        PostToolAction::Proceed(Some(t)) => result_text(t@),
        PostToolAction::Proceed(None) => result_text(original),
        PostToolAction::Override(feedback) => feedback@,
    }
}

/// The text of a tool result value as sent to the model.
pub fn result_to_text(v: Json) -> (s: String)
    ensures
        s@ == result_text(v@),
{
    match v {
        Json::Str(s) => s,
        other => {
            let t = to_json_string(&other);
            proof {
                assert(!(other@ is Str));
            }
            t
        },
    }
}

impl PostToolAction {
    /// The text to send to the model for a successful result.
    pub fn resolve(self, original: Json) -> (r: String)
        ensures
            r@ == post_resolve_spec(self, original@),
    {
        match self {
            PostToolAction::Proceed(transformed) => match transformed {
                Some(t) => result_to_text(t),
                None => result_to_text(original),
            },
            PostToolAction::Override(feedback) => feedback,
        }
    }
}

/// The text sent to the model after a failed tool call.
pub open spec fn error_resolve_spec(a: ToolErrorAction, original: String) -> String {
    match a {
        ToolErrorAction::Proceed(Some(t)) => t,
        ToolErrorAction::Proceed(None) => original,
        ToolErrorAction::Fallback(f) => f,
    }
}

impl ToolErrorAction {
    /// The text to send to the model for a failed call.
    pub fn resolve(self, original: String) -> (r: String)
        ensures
            r == error_resolve_spec(self, original),
    {
        match self {
            ToolErrorAction::Proceed(transformed) => match transformed {
                Some(t) => t,
                None => original,
            },
            ToolErrorAction::Fallback(fallback) => fallback,
        }
    }
}

} // verus!

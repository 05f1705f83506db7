//! Streamed model responses and their accumulation into one assistant turn.
use vstd::prelude::*;
use crate::messages::{AssistantMessage, Message, MessageV, ToolCall, ToolCallV, ToolFunction, opt_view, calls_view};
use crate::text::push_str;
use crate::usage::StreamUsage;
use std::collections::BTreeMap;
use vstd::laws_cmp::obeys_cmp;
use vstd::std_specs::btree::{increasing_seq, key_obeys_cmp_spec};
use vstd::std_specs::cmp::OrdSpec;
use vstd::std_specs::iter::IteratorSpec;

verus! {

/// The function part of a streamed tool-call fragment.
pub struct ToolCallDeltaFunction {
    pub name: Option<String>,
    pub arguments: Option<String>,
}

/// A fragment of a tool call, addressed by its position `index`.
pub struct ToolCallDelta {
    pub index: i64,
    pub id: Option<String>,
    pub function: Option<ToolCallDeltaFunction>,
}

/// What one chunk adds to the assistant turn.
pub struct ChunkDelta {
    pub content: Option<String>,
    pub tool_calls: Option<Vec<ToolCallDelta>>,
}

/// Why the model stopped.
pub enum FinishReason {
    Stop,
    Length,
    ToolCalls,
    ContentFilter,
    FunctionCall,
}

/// One choice of a streamed chunk.
pub struct ChunkChoice {
    pub delta: ChunkDelta,
    pub finish_reason: Option<FinishReason>,
}

/// One streamed chunk of a chat completion.
pub struct StreamChunk {
    pub choices: Vec<ChunkChoice>,
    pub usage: Option<StreamUsage>,
}

/// View of a tool-call fragment.
pub struct DeltaV {
    pub index: i64,
    pub id: Option<Seq<char>>,
    pub name: Option<Seq<char>>,
    pub arguments: Option<Seq<char>>,
}

impl View for ToolCallDelta {
    type V = DeltaV;

    open spec fn view(&self) -> DeltaV {
        DeltaV {
            index: self.index,
            id: opt_view(self.id),
            name: match self.function {
                Some(f) => opt_view(f.name),
                None => None,
            },
            arguments: match self.function {
                Some(f) => opt_view(f.arguments),
                None => None,
            },
        }
    }
}

/// A tool call with no id, no name and no argument text yet.
pub open spec fn blank_call() -> ToolCallV {
    ToolCallV { id: Seq::empty(), name: Seq::empty(), arguments: Seq::empty() }
}

/// A fragment applied to a tool call: a given id or name replaces the old
/// one, given argument text is appended.
pub open spec fn merge_call(c: ToolCallV, d: DeltaV) -> ToolCallV {
    ToolCallV {
        id: match d.id {
            Some(i) => i,
            None => c.id,
        },
        name: match d.name {
            Some(n) => n,
            None => c.name,
        },
        arguments: match d.arguments {
            Some(a) => c.arguments + a,
            None => c.arguments,
        },
    }
}

/// Keys strictly increase along `s`.
pub open spec fn sorted_calls(s: Seq<(i64, ToolCallV)>) -> bool {
    forall|i: int, j: int| 0 <= i < j < s.len() ==> s[i].0 < s[j].0
}

/// The calls after one fragment: the call at the fragment's index (a blank
/// one where there is none yet) with the fragment merged into it.
pub open spec fn apply_delta(m: Map<i64, ToolCallV>, d: DeltaV) -> Map<i64, ToolCallV> {
    let before = if m.contains_key(d.index) {
        m[d.index]
    } else {
        blank_call()
    };
    m.insert(d.index, merge_call(before, d))
}

/// The calls after a list of fragments, applied in order.
pub open spec fn apply_deltas(m: Map<i64, ToolCallV>, ds: Seq<DeltaV>) -> Map<i64, ToolCallV>
    decreases ds.len(),
{
    if ds.len() == 0 {
        m
    } else {
        apply_deltas(apply_delta(m, ds[0]), ds.drop_first())
    }
}

/// `s` lists every call of `m` once, with its index, in increasing index
/// order.
pub open spec fn in_index_order(m: Map<i64, ToolCallV>, s: Seq<(i64, ToolCallV)>) -> bool {
    &&& sorted_calls(s)
    &&& forall|i: int| 0 <= i < s.len() ==> m.contains_key(#[trigger] s[i].0) && m[s[i].0] == s[i].1
    &&& forall|k: i64| #[trigger] m.contains_key(k) ==> exists|i: int| 0 <= i < s.len() && s[i].0 == k
}

/// The calls of `m` in increasing index order.
pub open spec fn index_order(m: Map<i64, ToolCallV>) -> Seq<(i64, ToolCallV)> {
    choose|s: Seq<(i64, ToolCallV)>| in_index_order(m, s)
}

/// The tool calls of an entry list, in list order.
pub open spec fn call_values(s: Seq<(i64, ToolCallV)>) -> Seq<ToolCallV> {
    s.map_values(|e: (i64, ToolCallV)| e.1)
}

/// The assistant turn that accumulated text and calls make: absent parts
/// are `None`.
pub open spec fn finished_message(content: Seq<char>, calls: Seq<(i64, ToolCallV)>) -> MessageV {
    MessageV::Assistant {
        content: if content.len() == 0 {
            None
        } else {
            Some(content)
        },
        tool_calls: if calls.len() == 0 {
            None
        } else {
            Some(call_values(calls))
        },
    }
}

/// Accumulates streamed chunks into one assistant message.
pub struct ModelResponseAccumulator {
    content: String,
    tool_calls: BTreeMap<i64, ToolCall>,
}

/// A call with the same id, name and argument text.
fn copy_call(c: &ToolCall) -> (r: ToolCall)
    ensures
        r@ == c@,
{
    ToolCall {
        id: c.id.clone(),
        function: ToolFunction { name: c.function.name.clone(), arguments: c.function.arguments.clone() },
    }
}

/// Call indices are integers, whose order the map follows.
proof fn lemma_index_keys_ordered()
    ensures
        obeys_cmp::<i64>(),
        key_obeys_cmp_spec::<i64>(),
        forall|s: Seq<i64>| #[trigger] increasing_seq(s) ==> (forall|i: int, j: int| 0 <= i < j < s.len() ==> s[i] < s[j]),
{
    broadcast use vstd::laws_cmp::group_laws_cmp;
    broadcast use vstd::std_specs::btree::group_btree_axioms;
    assert forall|s: Seq<i64>| #[trigger] increasing_seq(s) implies (forall|i: int, j: int| 0 <= i < j < s.len() ==> s[i] < s[j]) by {
        assert forall|i: int, j: int| 0 <= i < j < s.len() implies s[i] < s[j] by {
            assert(s[i].cmp_spec(&s[j]) is Less);
        }
    }
}

impl ModelResponseAccumulator {
    /// The text accumulated so far.
    pub closed spec fn content_v(&self) -> Seq<char> {
        self.content@
    }

    /// The tool calls accumulated so far, by index.
    pub closed spec fn calls_v(&self) -> Map<i64, ToolCallV> {
        self.tool_calls@.map_values(|c: ToolCall| c@)
    }

    /// Nothing accumulated.
    pub fn new() -> (a: Self)
        ensures
            a.content_v() == Seq::<char>::empty(),
            a.calls_v() == Map::<i64, ToolCallV>::empty(),
    {
        let a = ModelResponseAccumulator { content: String::new(), tool_calls: BTreeMap::new() };
        proof {
            assert(a.calls_v() =~= Map::<i64, ToolCallV>::empty());
        }
        a
    }

    fn apply_one(&mut self, d: &ToolCallDelta)
        ensures
            final(self).content_v() == old(self).content_v(),
            final(self).calls_v() == apply_delta(old(self).calls_v(), d@),
    {
        broadcast use vstd::std_specs::btree::group_btree_axioms;
        proof {
            lemma_index_keys_ordered();
        }
        let ghost m0 = self.calls_v();
        let removed = self.tool_calls.remove(&d.index);
        let mut entry = match removed {
            Some(e) => e,
            None => ToolCall {
                id: String::new(),
                function: ToolFunction { name: String::new(), arguments: String::new() },
            },
        };
        let ghost before = entry@;
        proof {
            if m0.contains_key(d.index) {
                assert(before == m0[d.index]);
            } else {
                assert(before == blank_call());
            }
        }
        if let Some(id) = &d.id {
            entry.id = id.clone();
        }
        if let Some(f) = &d.function {
            if let Some(name) = &f.name {
                entry.function.name = name.clone();
            }
            if let Some(args) = &f.arguments {
                push_str(&mut entry.function.arguments, args.as_str());
            }
        }
        assert(entry@ == merge_call(before, d@));
        self.tool_calls.insert(d.index, entry);
        proof {
            assert(self.calls_v() =~= apply_delta(m0, d@));
        }
    }
}

/// Text that the first choice of a chunk adds (empty when none).
pub open spec fn chunk_text(c: StreamChunk) -> Seq<char> {
    if c.choices@.len() > 0 {
        match c.choices@[0].delta.content {
            Some(t) => t@,
            None => Seq::empty(),
        }
    } else {
        Seq::empty()
    }
}

/// Tool-call fragments of the first choice of a chunk, in order.
pub open spec fn chunk_deltas(c: StreamChunk) -> Seq<DeltaV> {
    if c.choices@.len() > 0 {
        match c.choices@[0].delta.tool_calls {
            Some(v) => v@.map_values(|d: ToolCallDelta| d@),
            None => Seq::empty(),
        }
    } else {
        Seq::empty()
    }
}

/// Whether the first choice of a chunk carries a finish reason.
pub open spec fn chunk_finishes(c: StreamChunk) -> bool {
    c.choices@.len() > 0 && c.choices@[0].finish_reason is Some
}

impl ModelResponseAccumulator {
    fn apply_all(&mut self, ds: &Vec<ToolCallDelta>)
        ensures
            final(self).content_v() == old(self).content_v(),
            final(self).calls_v() == apply_deltas(
                old(self).calls_v(),
                ds@.map_values(|d: ToolCallDelta| d@),
            ),
    {
        let ghost dv = ds@.map_values(|d: ToolCallDelta| d@);
        let ghost start = self.calls_v();
        assert(dv.skip(0) =~= dv);
        for i in 0..ds.len()
            invariant
                dv == ds@.map_values(|d: ToolCallDelta| d@),
                self.content_v() == old(self).content_v(),
                apply_deltas(start, dv) == apply_deltas(self.calls_v(), dv.skip(i as int)),
        {
            let ghost cur = self.calls_v();
            self.apply_one(&ds[i]);
            proof {
                assert(dv.skip(i as int).drop_first() =~= dv.skip(i + 1));
                assert(dv.skip(i as int)[0] == ds@[i as int]@);
            }
        }
        proof {
            assert(dv.skip(ds@.len() as int) =~= Seq::<DeltaV>::empty());
        }
    }

    /// Adds one streamed chunk. Only the first choice counts: its text is
    /// appended, its tool-call fragments are merged by index, and when it
    /// carries a finish reason the finished assistant message is returned
    /// and the accumulator starts over empty.
    pub fn push(&mut self, chunk: &StreamChunk) -> (r: Option<Message>)
        ensures
            ({
                let text = old(self).content_v() + chunk_text(*chunk);
                let calls = apply_deltas(old(self).calls_v(), chunk_deltas(*chunk));
                if chunk_finishes(*chunk) {
                    &&& r matches Some(m) && m@ == finished_message(text, index_order(calls))
                    &&& final(self).content_v() == Seq::<char>::empty()
                    &&& final(self).calls_v() == Map::<i64, ToolCallV>::empty()
                } else {
                    &&& r is None
                    &&& final(self).content_v() == text
                    &&& final(self).calls_v() == calls
                }
            }),
    {
        if chunk.choices.len() == 0 {
            proof {
                assert(old(self).content_v() + chunk_text(*chunk) =~= old(self).content_v());
            }
            return None;
        }
        let choice = &chunk.choices[0];
        match &choice.delta.content {
            Some(t) => {
                let mut c = String::new();
                std::mem::swap(&mut c, &mut self.content);
                push_str(&mut c, t.as_str());
                self.content = c;
            },
            None => {
                assert(self.content_v() + chunk_text(*chunk) =~= self.content_v());
            },
        }
        match &choice.delta.tool_calls {
            Some(ds) => {
                self.apply_all(ds);
            },
            None => {},
        }
        if choice.finish_reason.is_some() {
            Some(self.finish())
        } else {
            None
        }
    }

    /// The assistant message accumulated so far; the accumulator starts over
    /// empty. Empty text and an empty call list are left out (`None`), and
    /// the calls come once each, in increasing index order.
    pub fn finish(&mut self) -> (m: Message)
        ensures
            m@ == finished_message(old(self).content_v(), index_order(old(self).calls_v())),
            in_index_order(old(self).calls_v(), index_order(old(self).calls_v())),
            final(self).content_v() == Seq::<char>::empty(),
            final(self).calls_v() == Map::<i64, ToolCallV>::empty(),
    {
        broadcast use vstd::std_specs::btree::group_btree_axioms;
        proof {
            lemma_index_keys_ordered();
        }
        let mut content = String::new();
        std::mem::swap(&mut content, &mut self.content);
        let mut entries: BTreeMap<i64, ToolCall> = BTreeMap::new();
        std::mem::swap(&mut entries, &mut self.tool_calls);
        proof {
            assert(self.calls_v() =~= Map::<i64, ToolCallV>::empty());
        }
        let ghost mv = entries@.map_values(|c: ToolCall| c@);
        let mut calls: Vec<ToolCall> = Vec::new();
        let listing = entries.iter();
        let ghost all = listing.remaining();
        for kv in it: listing
            invariant
                it.seq() == all,
                calls@.len() == it.index(),
                forall|i: int| 0 <= i < it.index() ==> (#[trigger] calls@[i])@ == (*all[i].1)@,
        {
            calls.push(copy_call(kv.1));
        }
        assert(calls@.len() == all.len());
        let ghost s = all.map_values(|kv: (&i64, &ToolCall)| (*kv.0, (*kv.1)@));
        proof {
            let keys = all.map_values(|kv: (&i64, &ToolCall)| *kv.0);
            assert(increasing_seq(keys));
            assert forall|i: int, j: int| 0 <= i < j < s.len() implies s[i].0 < s[j].0 by {
                assert(keys[i] == s[i].0 && keys[j] == s[j].0);
            }
            assert forall|i: int| 0 <= i < s.len() implies mv.contains_key(#[trigger] s[i].0) && mv[s[i].0] == s[i].1 by {
                assert(entries@.contains_key(*all[i].0));
                assert(entries@[*all[i].0] == *all[i].1);
            }
            assert forall|k: i64| #[trigger] mv.contains_key(k) implies exists|i: int| 0 <= i < s.len() && s[i].0 == k by {
                assert(entries@.contains_key(k));
                assert(all.contains((&k, &entries@[k])));
                let i = choose|i: int| 0 <= i < all.len() && all[i] == (&k, &entries@[k]);
                assert(s[i].0 == k);
            }
            assert(in_index_order(mv, s));
            lemma_index_order_unique(mv, s);
            assert(calls_view(calls@) =~= call_values(s));
        }
        let content_opt = if content.as_str().is_empty() {
            None
        } else {
            Some(content)
        };
        let calls_opt = if calls.len() == 0 {
            None
        } else {
            Some(calls)
        };
        Message::AssistantMessage(AssistantMessage { content: content_opt, tool_calls: calls_opt })
    }
}

/// How fragments are split into chunks does not matter: applying the
/// fragments of `a` and then those of `b` gives the same calls as applying
/// `a + b` at once.
pub proof fn lemma_deltas_split(m: Map<i64, ToolCallV>, a: Seq<DeltaV>, b: Seq<DeltaV>)
    ensures
        apply_deltas(m, a + b) == apply_deltas(apply_deltas(m, a), b),
    decreases a.len(),
{
    if a.len() == 0 {
        assert(a + b =~= b);
    } else {
        assert((a + b).drop_first() =~= a.drop_first() + b);
        assert((a + b)[0] == a[0]);
        lemma_deltas_split(apply_delta(m, a[0]), a.drop_first(), b);
    }
}

/// Argument text of one call streamed in pieces is the concatenation of the
/// pieces: two fragments for the same index append their texts in order,
/// and the calls at other indices stay as they were.
pub proof fn lemma_arguments_concatenate(m: Map<i64, ToolCallV>, d1: DeltaV, d2: DeltaV)
    requires
        d1.index == d2.index,
        d1.arguments is Some,
        d2.arguments is Some,
    ensures
        ({
            let r = apply_delta(apply_delta(m, d1), d2);
            let k = d1.index;
            &&& r.contains_key(k)
            &&& r[k].arguments == (if m.contains_key(k) {
                m[k].arguments
            } else {
                Seq::<char>::empty()
            }) + d1.arguments->0 + d2.arguments->0
            &&& r.remove(k) == m.remove(k)
        }),
{
    let k = d1.index;
    let m1 = apply_delta(m, d1);
    let r = apply_delta(m1, d2);
    if m.contains_key(k) {
        assert(m1[k].arguments == m[k].arguments + d1.arguments->0);
    } else {
        assert(m1[k].arguments == Seq::<char>::empty() + d1.arguments->0);
    }
    assert(r[k].arguments == m1[k].arguments + d2.arguments->0);
    assert(r.remove(k) =~= m.remove(k));
}

/// The index order of a call map is the only listing of its calls, once
/// each, in increasing index order.
pub proof fn lemma_index_order_unique(m: Map<i64, ToolCallV>, s: Seq<(i64, ToolCallV)>)
    requires
        in_index_order(m, s),
    ensures
        index_order(m) == s,
{
    let t = index_order(m);
    assert(in_index_order(m, t));
    lemma_same_listing(m, s, t);
}

proof fn lemma_same_listing(m: Map<i64, ToolCallV>, s: Seq<(i64, ToolCallV)>, t: Seq<(i64, ToolCallV)>)
    requires
        in_index_order(m, s),
        in_index_order(m, t),
    ensures
        s == t,
    decreases s.len(),
{
    if s.len() == 0 {
        if t.len() > 0 {
            assert(m.contains_key(t[0].0));
        }
        assert(s =~= t);
    } else {
        if t.len() == 0 {
            assert(m.contains_key(s[0].0));
        }
        let k = s[0].0;
        assert(m.contains_key(t[0].0));
        let i = choose|i: int| 0 <= i < s.len() && s[i].0 == t[0].0;
        assert(m.contains_key(s[0].0));
        let j = choose|j: int| 0 <= j < t.len() && t[j].0 == s[0].0;
        assert(s[0].0 <= s[i].0);
        assert(t[0].0 <= t[j].0);
        assert(s[0].0 == t[0].0);
        assert(s[0] == t[0]);
        let m2 = m.remove(k);
        let s2 = s.drop_first();
        let t2 = t.drop_first();
        assert forall|x: int| 0 <= x < s2.len() implies m2.contains_key(#[trigger] s2[x].0) && m2[s2[x].0] == s2[x].1 by {
            assert(s2[x] == s[x + 1]);
            assert(s[0].0 < s[x + 1].0);
        }
        assert forall|x: int| 0 <= x < t2.len() implies m2.contains_key(#[trigger] t2[x].0) && m2[t2[x].0] == t2[x].1 by {
            assert(t2[x] == t[x + 1]);
            assert(t[0].0 < t[x + 1].0);
        }
        assert forall|k2: i64| #[trigger] m2.contains_key(k2) implies exists|x: int| 0 <= x < s2.len() && s2[x].0 == k2 by {
            assert(m.contains_key(k2));
            let y = choose|y: int| 0 <= y < s.len() && s[y].0 == k2;
            assert(y != 0);
            assert(s2[y - 1].0 == k2);
        }
        assert forall|k2: i64| #[trigger] m2.contains_key(k2) implies exists|x: int| 0 <= x < t2.len() && t2[x].0 == k2 by {
            assert(m.contains_key(k2));
            let y = choose|y: int| 0 <= y < t.len() && t[y].0 == k2;
            assert(y != 0);
            assert(t2[y - 1].0 == k2);
        }
        lemma_same_listing(m2, s2, t2);
        assert forall|x: int| 0 <= x < s.len() implies s[x] == t[x] by {
            if x > 0 {
                assert(s[x] == s2[x - 1]);
                assert(t[x] == t2[x - 1]);
            }
        }
        assert(s =~= t);
    }
}

/// What one line of a server-sent event stream carries.
pub enum SseLine {
    /// A `data:` line with this payload.
    Data(String),
    /// The `data: [DONE]` line that ends the stream.
    Done,
    /// Any other line (blank lines, comments, other fields).
    Skip,
}

/// The payload of a `data:` line: the text after `data:`, trimmed; `None`
/// for any other line. The line is trimmed first.
pub open spec fn data_payload(line: Seq<char>) -> Option<Seq<char>> {
    let t = crate::text::trim_spec(line);
    if crate::text::has_prefix(t, "data:"@) {
        Some(crate::text::trim_spec(t.skip(5)))
    } else {
        None
    }
}

/// Reads one line of the event stream.
pub fn read_sse_line(line: &str) -> (r: SseLine)
    ensures
        match data_payload(line@) {
            None => r is Skip,
            Some(p) => if p == "[DONE]"@ {
                r is Done
            } else {
                r matches SseLine::Data(d) && d@ == p
            },
        },
{
    let cs = crate::text::chars_of(line);
    let t = crate::text::trim(cs.as_slice());
    let prefix = crate::text::chars_of("data:");
    proof {
        reveal_strlit("data:");
    }
    if !crate::text::starts_with(t.as_slice(), prefix.as_slice()) {
        return SseLine::Skip;
    }
    let rest = crate::text::slice_chars(t.as_slice(), 5, t.len());
    proof {
        assert(rest@ =~= t@.skip(5));
    }
    let p = crate::text::trim(rest.as_slice());
    let done = crate::text::chars_of("[DONE]");
    if crate::text::chars_eq(p.as_slice(), done.as_slice()) {
        SseLine::Done
    } else {
        SseLine::Data(crate::text::string_from_chars(p.as_slice()))
    }
}

} // verus!

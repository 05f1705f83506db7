//! The decisions of the agent loop: prompt preparation, tool-call
//! handling, plugin tool routing and the run state machine.
use vstd::prelude::*;
use vstd::hash_map::StringHashMap;
use crate::json::{Json, JsonV, json_parse, parse_json};
use crate::messages::{Message, MessageV, SystemMessage, ToolCall, history_view, system, tool, user};
use crate::text::{join, join_strings, owned, push_str, views};
use crate::tools::ToolDefinition;

verus! {

/// Iterations of the agent loop when the options set no limit.
pub const DEFAULT_MAX_ITERATIONS: usize = 25;

/// The iteration limit of a run: the configured one, or 25.
pub fn max_iterations(configured: Option<usize>) -> (n: usize)
    ensures
        n == match configured {
            Some(m) => m,
            None => 25,
        },
{
    match configured {
        Some(m) => m,
        None => DEFAULT_MAX_ITERATIONS,
    }
}

/// The texts of the answers that exist, in order.
pub open spec fn present(s: Seq<Option<String>>) -> Seq<Seq<char>>
    decreases s.len(),
{
    if s.len() == 0 {
        Seq::empty()
    } else {
        let p = present(s.drop_last());
        match s.last() {
            Some(t) => p.push(t@),
            None => p,
        }
    }
}

/// The system prompt the plugins agree on: every prompt a plugin returned,
/// in plugin order, separated by a blank line; `None` when no plugin
/// returned one.
pub open spec fn merged_prompt(s: Seq<Option<String>>) -> Option<Seq<char>> {
    if present(s).len() == 0 {
        None
    } else {
        Some(join(present(s), seq!['\n', '\n']))
    }
}

/// Merges the system prompts returned by the plugins (`None` where a plugin
/// returned none or its hook failed).
pub fn merge_system_prompts(answers: Vec<Option<String>>) -> (r: Option<String>)
    ensures
        match r {
            Some(t) => merged_prompt(answers@) == Some(t@),
            None => merged_prompt(answers@) is None,
        },
{
    let mut parts: Vec<String> = Vec::new();
    let mut rest = answers;
    let ghost all = rest@;
    let n = rest.len();
    let mut k: usize = 0;
    while k < n
        invariant
            k <= n,
            all.len() == n,
            rest@ == all.skip(k as int),
            views(parts@) == present(all.take(k as int)),
        decreases n - k,
    {
        let ghost cur = rest@;
        let a = rest.remove(0);
        proof {
            assert(rest@ =~= all.skip(k + 1));
            assert(all.take(k + 1).drop_last() =~= all.take(k as int));
            assert(all.take(k + 1).last() == a);
        }
        match a {
            Some(t) => {
                parts.push(t);
                proof {
                    assert(views(parts@) =~= views(parts@.drop_last()).push(parts@.last()@));
                }
            },
            None => {},
        }
        k = k + 1;
    }
    proof {
        assert(all.take(n as int) =~= all);
    }
    if parts.len() == 0 {
        None
    } else {
        let mut sep = String::new();
        push_str(&mut sep, "\n\n");
        let r = join_strings(&parts, sep.as_str());
        proof {
            reveal_strlit("\n\n");
            assert(sep@ =~= seq!['\n', '\n']);
        }
        Some(r)
    }
}

/// The history after placing a system prompt: the first message's text is
/// replaced when it is a system message, otherwise a system message is put
/// in front.
pub open spec fn with_system_prompt(h: Seq<MessageV>, p: Seq<char>) -> Seq<MessageV> {
    if h.len() > 0 && h[0] is System {
        h.update(0, MessageV::System { content: Some(p) })
    } else {
        seq![MessageV::System { content: Some(p) }] + h
    }
}

/// Places the merged system prompt at the head of the history; no prompt
/// leaves the history unchanged.
pub fn prepare_prompt(history: &mut Vec<Message>, prompt: Option<String>)
    ensures
        match prompt {
            Some(p) => history_view(final(history)@) == with_system_prompt(history_view(old(history)@), p@),
            None => final(history)@ == old(history)@,
        },
{
    match prompt {
        Some(content) => {
            let ghost h0 = history_view(history@);
            let ghost p = content@;
            let first_is_system = history.len() > 0 && match &history[0] {
                Message::SystemMessage(_) => true,
                _ => false,
            };
            if first_is_system {
                let _old = history.remove(0);
                history.insert(0, Message::SystemMessage(SystemMessage { content: Some(content) }));
                proof {
                    assert(history_view(history@) =~= h0.update(0, MessageV::System { content: Some(p) }));
                }
            } else {
                let m = system(content.as_str());
                history.insert(0, m);
                proof {
                    assert(history_view(history@) =~= seq![MessageV::System { content: Some(p) }] + h0);
                }
            }
        },
        None => {},
    }
}

/// The user message that answers a rejected completion.
pub open spec fn correction_text(reason: Seq<char>) -> Seq<char> {
    "Your previous response was rejected:\n"@ + reason + "\n\nPlease fix and retry."@
}

/// The correction prompt appended after a plugin rejects a completion.
pub fn correction_message(reason: &str) -> (m: Message)
    ensures
        m@ == (MessageV::User { content: Some(correction_text(reason@)) }),
{
    let mut t = String::new();
    push_str(&mut t, "Your previous response was rejected:\n");
    push_str(&mut t, reason);
    push_str(&mut t, "\n\nPlease fix and retry.");
    user(t.as_str())
}

/// The arguments of a tool call: its text read as JSON, or the raw text as
/// a JSON string when it is not JSON.
pub open spec fn call_arguments(text: Seq<char>) -> JsonV {
    match json_parse(text) {
        Some(v) => v,
        None => JsonV::Str(text),
    }
}

/// Reads the arguments of a tool call.
pub fn tool_arguments(text: &str) -> (j: Json)
    ensures
        j@ == call_arguments(text@),
{
    arguments_or_text(text, parse_json(text))
}

/// The arguments of a tool call given what reading its text as JSON gave:
/// the document, or the raw text as a JSON string when it was not JSON.
pub fn arguments_or_text(text: &str, parsed: Option<Json>) -> (j: Json)
    ensures
        j@ == match parsed {
            Some(v) => v@,
            None => JsonV::Str(text@),
        },
{
    match parsed {
        Some(v) => v,
        None => Json::Str(owned(text)),
    }
}

/// The error a call of an unknown static tool gets.
pub fn tool_not_found(name: &str) -> (s: String)
    ensures
        s@ == "Tool "@ + name@ + " not found"@,
{
    let mut s = String::new();
    push_str(&mut s, "Tool ");
    push_str(&mut s, name);
    push_str(&mut s, " not found");
    s
}

/// Number of `None` entries among the first `k` of `s`.
pub open spec fn nones_before(s: Seq<Option<MessageV>>, k: int) -> int
    decreases k,
{
    if k <= 0 {
        0
    } else {
        nones_before(s, k - 1) + if s[k - 1] is None {
            1int
        } else {
            0int
        }
    }
}

/// The tool messages of one turn, in call order: a call answered before
/// execution keeps that answer; the others take the static-tool results in
/// order, while results remain.
pub open spec fn merged_results(
    ids: Seq<Seq<char>>,
    pre: Seq<Option<MessageV>>,
    results: Seq<Seq<char>>,
) -> Seq<MessageV>
    decreases pre.len(),
{
    if pre.len() == 0 {
        Seq::empty()
    } else {
        let k = pre.len() - 1;
        let prev = merged_results(ids, pre.drop_last(), results);
        match pre[k] {
            Some(m) => prev.push(m),
            None => {
                let j = nones_before(pre, k);
                if j < results.len() {
                    prev.push(MessageV::Tool { content: Some(results[j]), tool_call_id: ids[k] })
                } else {
                    prev
                }
            },
        }
    }
}

pub open spec fn opt_msgs_view(s: Seq<Option<Message>>) -> Seq<Option<MessageV>> {
    s.map_values(
        |o: Option<Message>|
            match o {
                Some(m) => Some(m@),
                None => None,
            },
    )
}

pub open spec fn call_ids(calls: Seq<ToolCall>) -> Seq<Seq<char>> {
    calls.map_values(|c: ToolCall| c.id@)
}

proof fn lemma_nones_before_prefix(s: Seq<Option<MessageV>>, t: Seq<Option<MessageV>>, k: int)
    requires
        0 <= k <= s.len(),
        k <= t.len(),
        forall|i: int| 0 <= i < k ==> s[i] == t[i],
    ensures
        nones_before(s, k) == nones_before(t, k),
    decreases k,
{
    if k > 0 {
        lemma_nones_before_prefix(s, t, k - 1);
    }
}

proof fn lemma_merged_prefix(
    ids: Seq<Seq<char>>,
    pre: Seq<Option<MessageV>>,
    results: Seq<Seq<char>>,
    k: int,
)
    requires
        0 <= k < pre.len(),
    ensures
        merged_results(ids, pre.take(k + 1), results) == ({
            let prev = merged_results(ids, pre.take(k), results);
            match pre[k] {
                Some(m) => prev.push(m),
                None => {
                    let j = nones_before(pre, k);
                    if j < results.len() {
                        prev.push(MessageV::Tool { content: Some(results[j]), tool_call_id: ids[k] })
                    } else {
                        prev
                    }
                },
            }
        }),
{
    assert(pre.take(k + 1).drop_last() =~= pre.take(k));
    lemma_nones_before_prefix(pre.take(k + 1), pre, k);
}

/// Assembles the tool messages of one turn. `pre[k]` is the message for
/// call `k` when it was settled before static execution (aborted, or run
/// by its plugin); `results` are the texts of the static tools, in the
/// order they were queued.
pub fn merge_tool_results(
    calls: &Vec<ToolCall>,
    pre: Vec<Option<Message>>,
    results: Vec<String>,
) -> (out: Vec<Message>)
    requires
        pre@.len() == calls@.len(),
    ensures
        history_view(out@) == merged_results(
            call_ids(calls@),
            opt_msgs_view(pre@),
            views(results@),
        ),
{
    let ghost ids = call_ids(calls@);
    let ghost pv = opt_msgs_view(pre@);
    let ghost rv = views(results@);
    let ghost pre0 = pre@;
    let ghost res0 = results@;
    let mut out: Vec<Message> = Vec::new();
    let mut pre_rest = pre;
    let mut res_rest = results;
    let n = calls.len();
    let total = res_rest.len();
    let mut k: usize = 0;
    let mut used: usize = 0;
    while k < n
        invariant
            k <= n,
            n == calls@.len(),
            pre0.len() == n,
            pv == opt_msgs_view(pre0),
            rv == views(res0),
            ids == call_ids(calls@),
            pre_rest@ == pre0.skip(k as int),
            res_rest@ == res0.skip(used as int),
            used <= res0.len(),
            total == res0.len(),
            used == (if nones_before(pv, k as int) <= rv.len() {
                nones_before(pv, k as int)
            } else {
                rv.len() as int
            }),
            history_view(out@) == merged_results(ids, pv.take(k as int), rv),
        decreases n - k,
    {
        proof {
            lemma_merged_prefix(ids, pv, rv, k as int);
            assert(pre_rest@[0] == pre0[k as int]);
        }
        let p = pre_rest.remove(0);
        proof {
            assert(pre_rest@ =~= pre0.skip(k + 1));
        }
        let ghost before = out@;
        match p {
            Some(m) => {
                out.push(m);
                proof {
                    assert(history_view(out@) =~= history_view(before).push(m@));
                }
            },
            None => {
                if res_rest.len() > 0 {
                    let r = res_rest.remove(0);
                    proof {
                        assert(res_rest@ =~= res0.skip(used + 1));
                        assert(r == res0[used as int]);
                    }
                    let m = tool(r.as_str(), calls[k].id.as_str());
                    out.push(m);
                    proof {
                        assert(history_view(out@) =~= history_view(before).push(m@));
                    }
                    used = used + 1;
                }
            },
        }
        k = k + 1;
    }
    proof {
        assert(pv.take(n as int) =~= pv);
    }
    out
}

/// The sequences of `ps` one after the other.
pub open spec fn concat_all<A>(ps: Seq<Seq<A>>) -> Seq<A>
    decreases ps.len(),
{
    if ps.len() == 0 {
        Seq::empty()
    } else {
        concat_all(ps.drop_last()) + ps.last()
    }
}

/// `m` with every tool of `defs` routed to plugin `i` (a later binding
/// replaces an earlier one).
pub open spec fn add_routes(m: Map<Seq<char>, usize>, defs: Seq<ToolDefinition>, i: usize) -> Map<
    Seq<char>,
    usize,
>
    decreases defs.len(),
{
    if defs.len() == 0 {
        m
    } else {
        add_routes(m, defs.drop_last(), i).insert(defs.last().name@, i)
    }
}

/// Routing of plugin-owned tools: each tool name goes to the plugin that
/// declares it, the last such plugin when several do.
pub open spec fn routes(ps: Seq<Seq<ToolDefinition>>) -> Map<Seq<char>, usize>
    decreases ps.len(),
{
    if ps.len() == 0 {
        Map::empty()
    } else {
        add_routes(routes(ps.drop_last()), ps.last(), (ps.len() - 1) as usize)
    }
}

pub open spec fn defs_of(ps: Seq<Vec<ToolDefinition>>) -> Seq<Seq<ToolDefinition>> {
    ps.map_values(|v: Vec<ToolDefinition>| v@)
}

/// The tool list after registering plugin tools: unchanged when plugins
/// declare none, otherwise the configured tools followed by every plugin's
/// tools in plugin order.
pub open spec fn registered_defs(base: Option<Seq<ToolDefinition>>, ps: Seq<Seq<ToolDefinition>>) -> Option<
    Seq<ToolDefinition>,
> {
    if concat_all(ps).len() == 0 {
        base
    } else {
        Some(
            match base {
                Some(b) => b,
                None => Seq::empty(),
            } + concat_all(ps),
        )
    }
}

pub open spec fn opt_vec_view(o: Option<Vec<ToolDefinition>>) -> Option<Seq<ToolDefinition>> {
    match o {
        Some(v) => Some(v@),
        None => None,
    }
}

/// Registers the tools that plugins declare (`plugin_tools[i]` for plugin
/// `i`): their definitions are appended to the configured ones, and each
/// name is routed to its plugin.
pub fn register_plugin_tools(
    tool_definitions: Option<Vec<ToolDefinition>>,
    plugin_tools: Vec<Vec<ToolDefinition>>,
) -> (r: (Option<Vec<ToolDefinition>>, StringHashMap<usize>))
    ensures
        opt_vec_view(r.0) == registered_defs(opt_vec_view(tool_definitions), defs_of(plugin_tools@)),
        r.1@ == routes(defs_of(plugin_tools@)),
{
    let ghost ps = defs_of(plugin_tools@);
    let ghost base = opt_vec_view(tool_definitions);
    let mut defs = tool_definitions;
    let mut map: StringHashMap<usize> = StringHashMap::new();
    let mut rest = plugin_tools;
    let ghost all = rest@;
    let n = rest.len();
    let mut i: usize = 0;
    while i < n
        invariant
            i <= n,
            all.len() == n,
            ps == defs_of(all),
            rest@ == all.skip(i as int),
            map@ == routes(ps.take(i as int)),
            opt_vec_view(defs) == registered_defs(base, ps.take(i as int)),
        decreases n - i,
    {
        let ghost cur = rest@;
        let mut tools = rest.remove(0);
        proof {
            assert(rest@ =~= all.skip(i + 1));
            assert(tools == all[i as int]);
            assert(ps.take(i + 1).drop_last() =~= ps.take(i as int));
            assert(ps.take(i + 1).last() == tools@);
        }
        let ghost start_map = map@;
        let ghost start_defs = opt_vec_view(defs);
        let ghost ts = tools@;
        let m = tools.len();
        let mut j: usize = 0;
        while j < m
            invariant
                j <= m,
                ts.len() == m,
                tools@ == ts.skip(j as int),
                map@ == add_routes(start_map, ts.take(j as int), i),
                opt_vec_view(defs) == (if j == 0 {
                    start_defs
                } else {
                    Some(
                        match start_defs {
                            Some(b) => b,
                            None => Seq::empty(),
                        } + ts.take(j as int),
                    )
                }),
            decreases m - j,
        {
            let d = tools.remove(0);
            proof {
                assert(tools@ =~= ts.skip(j + 1));
                assert(d == ts[j as int]);
                assert(ts.take(j + 1).drop_last() =~= ts.take(j as int));
            }
            let name = d.name.clone();
            map.insert(name, i);
            let ghost before = opt_vec_view(defs);
            match defs {
                Some(ref mut v) => {
                    v.push(d);
                },
                None => {
                    let mut v: Vec<ToolDefinition> = Vec::new();
                    v.push(d);
                    defs = Some(v);
                },
            }
            proof {
                let b = match start_defs {
                    Some(b) => b,
                    None => Seq::<ToolDefinition>::empty(),
                };
                assert(b + ts.take(j + 1) =~= (b + ts.take(j as int)).push(d));
                if j == 0 {
                    assert(ts.take(1) =~= seq![d]);
                    assert(b + ts.take(1) =~= b.push(d));
                }
            }
            j = j + 1;
        }
        proof {
            assert(ts.take(m as int) =~= ts);
            let pi = ps.take(i as int);
            let pn = ps.take(i + 1);
            assert(concat_all(pn) =~= concat_all(pi) + ts);
            assert(routes(pn) == add_routes(routes(pi), ts, i));
        }
        i = i + 1;
    }
    proof {
        assert(ps.take(n as int) =~= ps);
    }
    (defs, map)
}

} // verus!

//! What a tool definition is made of, decided from the plain facts a code
//! generator reads off a function or an enum: names, doc lines, parameter
//! kinds. A function becomes a tool named after it (or after its `name`
//! argument) and described by its doc comment (or its `desc` argument); an
//! enum of tools names each variant after itself (or its `name` attribute),
//! describes it by its trimmed doc lines, and dispatches a call by name.
use vstd::prelude::*;
use crate::text::{join, join_strings, owned, push_str, str_eq, trim_spec, views};

verus! {

/// A doc line without one leading space.
pub open spec fn strip_one_space(l: Seq<char>) -> Seq<char> {
    if l.len() > 0 && l[0] == ' ' {
        l.drop_first()
    } else {
        l
    }
}

/// The description of a function tool from its doc lines: each line less
/// one leading space, joined by newlines.
pub open spec fn doc_description(lines: Seq<Seq<char>>) -> Seq<char> {
    join(lines.map_values(|l: Seq<char>| strip_one_space(l)), seq!['\n'])
}

/// The description of an enum tool from its doc lines: each line trimmed,
/// joined by newlines.
pub open spec fn variant_doc(lines: Seq<Seq<char>>) -> Seq<char> {
    join(lines.map_values(|l: Seq<char>| trim_spec(l)), seq!['\n'])
}

/// The paths under which a parameter's type is the tool context.
pub open spec fn context_path_spec(s: Seq<Seq<char>>) -> bool {
    ||| s == seq!["ToolContext"@]
    ||| s == seq!["tools"@, "ToolContext"@]
    ||| s == seq!["core"@, "tools"@, "ToolContext"@]
    ||| s == seq!["agentsdk"@, "core"@, "tools"@, "ToolContext"@]
}

/// The view of a parameter list: each name with whether it is the context.
pub open spec fn params_view(v: Seq<(String, bool)>) -> Seq<(Seq<char>, bool)> {
    v.map_values(|p: (String, bool)| (p.0@, p.1))
}

/// The names of the parameters that are not the context, in order.
pub open spec fn plain_names(ps: Seq<(Seq<char>, bool)>) -> Seq<Seq<char>>
    decreases ps.len(),
{
    if ps.len() == 0 {
        Seq::empty()
    } else {
        let r = plain_names(ps.drop_last());
        if ps.last().1 {
            r
        } else {
            r.push(ps.last().0)
        }
    }
}

/// How many parameters are the context.
pub open spec fn context_count(ps: Seq<(Seq<char>, bool)>) -> nat
    decreases ps.len(),
{
    if ps.len() == 0 {
        0
    } else {
        context_count(ps.drop_last()) + if ps.last().1 {
            1nat
        } else {
            0nat
        }
    }
}

/// The name of a function tool: the `name` argument when given, else the
/// function's identifier.
pub fn tool_name(ident: &str, name_arg: Option<&str>) -> (r: String)
    ensures
        r@ == match name_arg {
            Some(n) => n@,
            None => ident@,
        },
{
    match name_arg {
        Some(n) => owned(n),
        None => owned(ident),
    }
}

/// The description of a function tool: the `desc` argument when given,
/// else its doc lines, each less one leading space, joined by newlines.
pub fn tool_description(desc_arg: Option<&str>, doc_lines: &Vec<String>) -> (r: String)
    ensures
        r@ == match desc_arg {
            Some(d) => d@,
            None => doc_description(views(doc_lines@)),
        },
{
    match desc_arg {
        Some(d) => owned(d),
        None => {
            let ghost dv = views(doc_lines@);
            let mut parts: Vec<String> = Vec::new();
            for i in 0..doc_lines.len()
                invariant
                    dv == views(doc_lines@),
                    views(parts@) == dv.take(i as int).map_values(|l: Seq<char>| strip_one_space(l)),
            {
                let cs = crate::text::chars_of(doc_lines[i].as_str());
                let line = if cs.len() > 0 && cs[0] == ' ' {
                    crate::text::string_from_chars(crate::text::slice_chars(cs.as_slice(), 1, cs.len()).as_slice())
                } else {
                    owned(doc_lines[i].as_str())
                };
                proof {
                    assert(dv[i as int] == doc_lines@[i as int]@);
                    if cs@.len() > 0 && cs@[0] == ' ' {
                        assert(cs@.subrange(1, cs@.len() as int) =~= cs@.drop_first());
                    }
                }
                let ghost before = views(parts@);
                let ghost lv = line@;
                parts.push(line);
                proof {
                    assert(views(parts@) =~= before.push(lv));
                    assert(dv.take(i + 1).map_values(|l: Seq<char>| strip_one_space(l)) =~= dv.take(
                        i as int,
                    ).map_values(|l: Seq<char>| strip_one_space(l)).push(strip_one_space(dv[i as int])));
                }
            }
            proof {
                assert(dv.take(doc_lines@.len() as int) =~= dv);
                reveal_strlit("\n");
                assert("\n"@ =~= seq!['\n']);
            }
            join_strings(&parts, "\n")
        },
    }
}

/// Whether a path (its segments) names the tool context.
pub fn is_tool_context_path(segments: &Vec<String>) -> (b: bool)
    ensures
        b == context_path_spec(views(segments@)),
{
    let ghost sv = views(segments@);
    proof {
        reveal_strlit("ToolContext");
        reveal_strlit("tools");
        reveal_strlit("core");
        reveal_strlit("agentsdk");
    }
    let n = segments.len();
    let r = if n == 1 {
        str_eq(segments[0].as_str(), "ToolContext")
    } else if n == 2 {
        str_eq(segments[0].as_str(), "tools") && str_eq(segments[1].as_str(), "ToolContext")
    } else if n == 3 {
        str_eq(segments[0].as_str(), "core") && str_eq(segments[1].as_str(), "tools") && str_eq(
            segments[2].as_str(),
            "ToolContext",
        )
    } else if n == 4 {
        str_eq(segments[0].as_str(), "agentsdk") && str_eq(segments[1].as_str(), "core") && str_eq(
            segments[2].as_str(),
            "tools",
        ) && str_eq(segments[3].as_str(), "ToolContext")
    } else {
        false
    };
    proof {
        assert(sv.len() == n);
        assert forall|k: int| 0 <= k < n implies sv[k] == segments@[k]@ by {}
        let a1 = seq!["ToolContext"@];
        let a2 = seq!["tools"@, "ToolContext"@];
        let a3 = seq!["core"@, "tools"@, "ToolContext"@];
        let a4 = seq!["agentsdk"@, "core"@, "tools"@, "ToolContext"@];
        assert(a1.len() == 1 && a2.len() == 2 && a3.len() == 3 && a4.len() == 4);
        if n == 1 {
            assert(r == (sv[0] == a1[0]));
            if r { assert(sv =~= a1); }
            if sv == a1 { assert(sv[0] == a1[0]); }
        } else if n == 2 {
            assert(r == (sv[0] == a2[0] && sv[1] == a2[1]));
            if r { assert(sv =~= a2); }
            if sv == a2 { assert(sv[0] == a2[0] && sv[1] == a2[1]); }
        } else if n == 3 {
            assert(r == (sv[0] == a3[0] && sv[1] == a3[1] && sv[2] == a3[2]));
            if r { assert(sv =~= a3); }
            if sv == a3 { assert(sv[0] == a3[0] && sv[1] == a3[1] && sv[2] == a3[2]); }
        } else if n == 4 {
            assert(r == (sv[0] == a4[0] && sv[1] == a4[1] && sv[2] == a4[2] && sv[3] == a4[3]));
            if r { assert(sv =~= a4); }
            if sv == a4 { assert(sv[0] == a4[0] && sv[1] == a4[1] && sv[2] == a4[2] && sv[3] == a4[3]); }
        }
    }
    r
}

/// Whether a parameter's type is the tool context: a path named as
/// `is_tool_context_path` accepts, whose last segment has no generic
/// arguments.
pub fn is_tool_context_type(segments: &Vec<String>, last_has_arguments: bool) -> (b: bool)
    ensures
        b == (!last_has_arguments && context_path_spec(views(segments@))),
{
    !last_has_arguments && is_tool_context_path(segments)
}

/// The input fields of a function tool: the names of its parameters that
/// are not the context, in order; more than one context parameter is
/// refused.
pub fn tool_parameters(params: &Vec<(String, bool)>) -> (r: Result<Vec<String>, String>)
    ensures
        match r {
            Ok(names) => context_count(params_view(params@)) <= 1 && views(names@) == plain_names(
                params_view(params@),
            ),
            Err(e) => context_count(params_view(params@)) > 1 && e@
                == "only one ToolContext parameter is supported"@,
        },
{
    let ghost pv = params_view(params@);
    let mut names: Vec<String> = Vec::new();
    let mut contexts: usize = 0;
    for i in 0..params.len()
        invariant
            pv == params_view(params@),
            contexts <= 1,
            contexts == context_count(pv.take(i as int)),
            views(names@) == plain_names(pv.take(i as int)),
    {
        proof {
            assert(pv.take(i + 1).drop_last() =~= pv.take(i as int));
            assert(pv.take(i + 1).last() == (params@[i as int].0@, params@[i as int].1));
        }
        if params[i].1 {
            if contexts >= 1 {
                proof {
                    lemma_count_grows(pv, i as int + 1);
                }
                return Err(owned("only one ToolContext parameter is supported"));
            }
            contexts = contexts + 1;
        } else {
            let ghost before = views(names@);
            let nm = owned(params[i].0.as_str());
            let ghost nv = nm@;
            names.push(nm);
            proof {
                assert(views(names@) =~= before.push(nv));
            }
        }
    }
    proof {
        assert(pv.take(params@.len() as int) =~= pv);
    }
    Ok(names)
}

proof fn lemma_count_grows(ps: Seq<(Seq<char>, bool)>, k: int)
    requires
        0 <= k <= ps.len(),
    ensures
        context_count(ps.take(k)) <= context_count(ps),
    decreases ps.len(),
{
    if ps.len() > k {
        assert(ps.drop_last().take(k) =~= ps.take(k));
        lemma_count_grows(ps.drop_last(), k);
    } else {
        assert(ps.take(k) =~= ps);
    }
}

/// The name of an enum tool: the `name` attribute when given, else the
/// variant's name.
pub fn plugin_tool_name(variant: &str, name_attr: Option<&str>) -> (r: String)
    ensures
        r@ == match name_attr {
            Some(n) => n@,
            None => variant@,
        },
{
    tool_name(variant, name_attr)
}

/// The description of an enum tool: its doc lines, each trimmed, joined by
/// newlines.
pub fn variant_description(doc_lines: &Vec<String>) -> (r: String)
    ensures
        r@ == variant_doc(views(doc_lines@)),
{
    let ghost dv = views(doc_lines@);
    let mut parts: Vec<String> = Vec::new();
    for i in 0..doc_lines.len()
        invariant
            dv == views(doc_lines@),
            views(parts@) == dv.take(i as int).map_values(|l: Seq<char>| trim_spec(l)),
    {
        let cs = crate::text::chars_of(doc_lines[i].as_str());
        let t = crate::text::trim(cs.as_slice());
        let line = crate::text::string_from_chars(t.as_slice());
        proof {
            assert(dv[i as int] == doc_lines@[i as int]@);
        }
        let ghost before = views(parts@);
        let ghost lv = line@;
        parts.push(line);
        proof {
            assert(views(parts@) =~= before.push(lv));
            assert(dv.take(i + 1).map_values(|l: Seq<char>| trim_spec(l)) =~= dv.take(i as int).map_values(
                |l: Seq<char>| trim_spec(l),
            ).push(trim_spec(dv[i as int])));
        }
    }
    proof {
        assert(dv.take(doc_lines@.len() as int) =~= dv);
        reveal_strlit("\n");
        assert("\n"@ =~= seq!['\n']);
    }
    join_strings(&parts, "\n")
}

/// Which tool of an enum a call names: the first whose name is the call's;
/// an unknown name is refused.
pub fn variant_for_call(names: &Vec<String>, call: &str) -> (r: Result<usize, String>)
    ensures
        match r {
            Ok(i) => i < names@.len() && names@[i as int]@ == call@ && forall|j: int|
                0 <= j < i ==> (#[trigger] names@[j])@ != call@,
            Err(e) => e@ == "Unknown tool: "@ + call@ && forall|j: int|
                0 <= j < names@.len() ==> (#[trigger] names@[j])@ != call@,
        },
{
    for i in 0..names.len()
        invariant
            forall|j: int| 0 <= j < i ==> (#[trigger] names@[j])@ != call@,
    {
        if str_eq(names[i].as_str(), call) {
            return Ok(i);
        }
    }
    let mut e = owned("Unknown tool: ");
    push_str(&mut e, call);
    Err(e)
}

} // verus!

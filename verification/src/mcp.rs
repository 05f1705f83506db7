//! The tool registry of the MCP plugin: each server's tools advertised as
//! `server__tool`, in name order, and calls routed back to their server.
use vstd::prelude::*;
use crate::json::{Json, JsonV};
use crate::listing::{lex_less, lex_lt};
use crate::text::{chars_of, has_prefix, owned, push_str, str_eq, views};
use crate::tools::ToolDefinition;

verus! {

/// A registered tool: its server's index, name, description and schema.
pub type ToolEntryV = (usize, Seq<char>, Seq<char>, JsonV);

/// The view of a registered tool.
pub open spec fn entry_view(e: (usize, ToolDefinition)) -> ToolEntryV {
    (e.0, e.1.name@, e.1.description@, e.1.input_schema@)
}

/// The views of the registered tools.
pub open spec fn entries_view(v: Seq<(usize, ToolDefinition)>) -> Seq<ToolEntryV> {
    v.map_values(|e: (usize, ToolDefinition)| entry_view(e))
}

/// Where a tool goes into a list kept in name order: after every tool
/// whose name is not greater, so tools of equal names keep their order.
pub open spec fn insert_pos(s: Seq<ToolEntryV>, x: ToolEntryV) -> int
    decreases s.len(),
{
    if s.len() == 0 {
        0
    } else if lex_lt(x.1, s.last().1) {
        insert_pos(s.drop_last(), x)
    } else {
        s.len() as int
    }
}

/// `s` with the tools `xs` inserted in turn, each at its place by name.
pub open spec fn insert_all(s: Seq<ToolEntryV>, xs: Seq<ToolEntryV>) -> Seq<ToolEntryV>
    decreases xs.len(),
{
    if xs.len() == 0 {
        s
    } else {
        let t = insert_all(s, xs.drop_last());
        t.insert(insert_pos(t, xs.last()), xs.last())
    }
}

/// Whether the tools are in name order.
pub open spec fn names_sorted(s: Seq<ToolEntryV>) -> bool {
    forall|i: int, j: int| 0 <= i < j < s.len() ==> !lex_lt(s[j].1, s[i].1)
}

proof fn lemma_insert_pos(s: Seq<ToolEntryV>, x: ToolEntryV)
    requires
        names_sorted(s),
    ensures
        0 <= insert_pos(s, x) <= s.len(),
        forall|j: int| 0 <= j < insert_pos(s, x) ==> !lex_lt(x.1, #[trigger] s[j].1),
        forall|j: int| insert_pos(s, x) <= j < s.len() ==> lex_lt(x.1, #[trigger] s[j].1),
    decreases s.len(),
{
    if s.len() > 0 {
        let init = s.drop_last();
        assert forall|i: int, j: int| 0 <= i < j < init.len() implies !lex_lt(init[j].1, init[i].1) by {
            assert(init[i] == s[i] && init[j] == s[j]);
        }
        lemma_insert_pos(init, x);
        if lex_lt(x.1, s.last().1) {
            assert forall|j: int| 0 <= j < insert_pos(s, x) implies !lex_lt(x.1, #[trigger] s[j].1) by {
                assert(init[j] == s[j]);
            }
            assert forall|j: int| insert_pos(s, x) <= j < s.len() implies lex_lt(x.1, #[trigger] s[j].1) by {
                if j < s.len() - 1 {
                    assert(init[j] == s[j]);
                }
            }
        } else {
            assert forall|j: int| 0 <= j < s.len() implies !lex_lt(x.1, #[trigger] s[j].1) by {
                if j < s.len() - 1 {
                    assert(!lex_lt(s[s.len() - 1].1, s[j].1));
                    if lex_lt(x.1, s[j].1) {
                        crate::listing::lemma_lex_total(s[j].1, s.last().1);
                        if lex_lt(s[j].1, s.last().1) {
                            crate::listing::lemma_lex_trans(x.1, s[j].1, s.last().1);
                        }
                    }
                }
            }
        }
    }
}

proof fn lemma_insert_sorted(s: Seq<ToolEntryV>, x: ToolEntryV)
    requires
        names_sorted(s),
    ensures
        names_sorted(s.insert(insert_pos(s, x), x)),
{
    lemma_insert_pos(s, x);
    let p = insert_pos(s, x);
    let t = s.insert(p, x);
    assert forall|i: int, j: int| 0 <= i < j < t.len() implies !lex_lt(t[j].1, t[i].1) by {
        if i < p && j < p {
            assert(t[i] == s[i] && t[j] == s[j]);
        } else if i < p && j == p {
            assert(t[i] == s[i]);
            assert(!lex_lt(x.1, s[i].1));
        } else if i < p {
            assert(t[i] == s[i] && t[j] == s[j - 1]);
        } else if i == p {
            assert(t[j] == s[j - 1]);
            assert(lex_lt(x.1, s[j - 1].1));
            crate::listing::lemma_lex_asym(x.1, s[j - 1].1);
        } else {
            assert(t[i] == s[i - 1] && t[j] == s[j - 1]);
        }
    }
}

/// The name a server's tool is advertised under.
pub open spec fn scoped_name(server: Seq<char>, tool: Seq<char>) -> Seq<char> {
    server + "__"@ + tool
}

/// The tools a server lists, registered as server number `idx`: scoped
/// names, a missing description as empty.
pub open spec fn listed_entries(
    idx: usize,
    server: Seq<char>,
    listed: Seq<(Seq<char>, Option<Seq<char>>, JsonV)>,
) -> Seq<ToolEntryV> {
    listed.map_values(
        |t: (Seq<char>, Option<Seq<char>>, JsonV)|
            (
                idx,
                scoped_name(server, t.0),
                match t.1 {
                    Some(d) => d,
                    None => Seq::empty(),
                },
                t.2,
            ),
    )
}

/// The view of what a server lists.
pub open spec fn listed_view(v: Seq<(String, Option<String>, Json)>) -> Seq<(Seq<char>, Option<Seq<char>>, JsonV)> {
    v.map_values(
        |t: (String, Option<String>, Json)|
            (
                t.0@,
                match t.1 {
                    Some(d) => Some(d@),
                    None => None,
                },
                t.2@,
            ),
    )
}

/// The registry of the MCP plugin. The connections themselves are held by
/// the host, in the order of `servers`.
pub struct McpPlugin {
    servers: Vec<String>,
    tools: Vec<(usize, ToolDefinition)>,
}

impl McpPlugin {
    #[verifier::type_invariant]
    spec fn sorted(self) -> bool {
        names_sorted(entries_view(self.tools@))
    }

    /// The registered servers' names, in order.
    pub closed spec fn servers_spec(&self) -> Seq<Seq<char>> {
        views(self.servers@)
    }

    /// The registered tools, in name order.
    pub closed spec fn tools_spec(&self) -> Seq<ToolEntryV> {
        entries_view(self.tools@)
    }

    /// A registry with no servers.
    pub fn new() -> (p: McpPlugin)
        ensures
            p.servers_spec() == Seq::<Seq<char>>::empty(),
            p.tools_spec() == Seq::<ToolEntryV>::empty(),
    {
        assert(names_sorted(entries_view(Seq::<(usize, ToolDefinition)>::empty())));
        let p = McpPlugin { servers: Vec::new(), tools: Vec::new() };
        proof {
            assert(p.servers_spec() =~= Seq::<Seq<char>>::empty());
            assert(p.tools_spec() =~= Seq::<ToolEntryV>::empty());
        }
        p
    }

    /// The plugin's name, `mcp`.
    pub fn name(&self) -> (s: String)
        ensures
            s@ == "mcp"@,
    {
        owned("mcp")
    }
}

fn insert_by_name(tools: &mut Vec<(usize, ToolDefinition)>, x: (usize, ToolDefinition))
    ensures
        entries_view(final(tools)@) == entries_view(old(tools)@).insert(
            insert_pos(entries_view(old(tools)@), entry_view(x)),
            entry_view(x),
        ),
{
    let ghost s = entries_view(tools@);
    let ghost xv = entry_view(x);
    let xn = chars_of(x.1.name.as_str());
    let mut p = tools.len();
    let mut done = false;
    proof {
        assert(s.take(p as int) =~= s);
    }
    while p > 0 && !done
        invariant
            p <= tools@.len(),
            s == entries_view(tools@),
            xv == entry_view(x),
            xn@ == x.1.name@,
            done ==> insert_pos(s, xv) == p,
            !done ==> insert_pos(s, xv) == insert_pos(s.take(p as int), xv),
        decreases p + if done { 0int } else { 1int },
    {
        let yn = chars_of(tools[p - 1].1.name.as_str());
        proof {
            assert(s.take(p as int).drop_last() =~= s.take(p - 1));
            assert(s.take(p as int).last() == entry_view(tools@[p - 1]));
        }
        if lex_less(xn.as_slice(), yn.as_slice()) {
            p = p - 1;
        } else {
            done = true;
        }
    }
    proof {
        assert(s.take(0) =~= Seq::<ToolEntryV>::empty());
        assert(insert_pos(s, xv) == p);
    }
    tools.insert(p, x);
    proof {
        assert(entries_view(tools@) =~= s.insert(p as int, xv));
    }
}

impl McpPlugin {
    /// Registers a server and the tools it lists: each is advertised as
    /// `server__tool` (a missing description as empty) and takes its place
    /// by name, after the tools of equal name already there.
    pub fn register(&mut self, server: String, listed: Vec<(String, Option<String>, Json)>)
        ensures
            final(self).servers_spec() == old(self).servers_spec().push(server@),
            final(self).tools_spec() == insert_all(
                old(self).tools_spec(),
                listed_entries(old(self).servers_spec().len() as usize, server@, listed_view(listed@)),
            ),
            names_sorted(final(self).tools_spec()),
    {
        proof {
            use_type_invariant(&*self);
        }
        let idx = self.servers.len();
        let ghost lv = listed_view(listed@);
        let ghost added = listed_entries(idx, server@, lv);
        let ghost base = entries_view(self.tools@);
        let mut tools: Vec<(usize, ToolDefinition)> = Vec::new();
        std::mem::swap(&mut tools, &mut self.tools);
        let mut i: usize = 0;
        let n = listed.len();
        proof {
            assert(added.take(0) =~= Seq::<ToolEntryV>::empty());
        }
        while i < n
            invariant
                n == listed@.len(),
                i <= n,
                lv == listed_view(listed@),
                added == listed_entries(idx, server@, lv),
                entries_view(tools@) == insert_all(base, added.take(i as int)),
                names_sorted(entries_view(tools@)),
            decreases n - i,
        {
            let t = &listed[i];
            let mut nm = owned(server.as_str());
            push_str(&mut nm, "__");
            push_str(&mut nm, t.0.as_str());
            let desc = match &t.1 {
                Some(d) => owned(d.as_str()),
                None => String::new(),
            };
            let def = ToolDefinition { name: nm, description: desc, input_schema: crate::utils::clone_json(&t.2) };
            let ghost ev = entry_view((idx, def));
            proof {
                assert(ev == added[i as int]);
                assert(added.take(i + 1).drop_last() =~= added.take(i as int));
                assert(added.take(i + 1).last() == ev);
                lemma_insert_sorted(entries_view(tools@), ev);
            }
            insert_by_name(&mut tools, (idx, def));
            i = i + 1;
        }
        proof {
            assert(added.take(n as int) =~= added);
        }
        self.tools = tools;
        let ghost sv = views(self.servers@);
        let ghost svv = server@;
        let mut servers: Vec<String> = Vec::new();
        std::mem::swap(&mut servers, &mut self.servers);
        servers.push(server);
        self.servers = servers;
        proof {
            assert(views(self.servers@) =~= sv.push(svv));
        }
    }
}

/// Where a call named `name` goes: the first tool of that name, its
/// server, and the tool's name on that server (the server prefix removed);
/// an unknown tool, a server index out of range, or a name without the
/// server's prefix is refused.
pub open spec fn route_spec(servers: Seq<Seq<char>>, tools: Seq<ToolEntryV>, name: Seq<char>) -> Result<
    (usize, Seq<char>),
    Seq<char>,
> {
    if !(exists|i: int| 0 <= i < tools.len() && tools[i].1 == name) {
        Err("Tool "@ + name + " not found in McpPlugin"@)
    } else {
        let i = choose|i: int|
            0 <= i < tools.len() && tools[i].1 == name && forall|j: int| 0 <= j < i ==> tools[j].1 != name;
        let idx = tools[i].0;
        if idx >= servers.len() {
            Err("Internal error: Client index "@ + crate::text::dec_spec(idx as nat) + " not found"@)
        } else {
            let prefix = servers[idx as int] + "__"@;
            if has_prefix(name, prefix) {
                Ok((idx, name.skip(prefix.len() as int)))
            } else {
                Err("Internal error: Tool name "@ + name + " does not start with prefix "@ + prefix)
            }
        }
    }
}

impl McpPlugin {
    /// Routes a call to its server: the server's index and the tool's name
    /// there.
    pub fn route(&self, name: &str) -> (r: Result<(usize, String), String>)
        ensures
            match (r, route_spec(self.servers_spec(), self.tools_spec(), name@)) {
                (Ok(a), Ok(b)) => a.0 == b.0 && a.1@ == b.1,
                (Err(e), Err(m)) => e@ == m,
                _ => false,
            },
    {
        let ghost tv = entries_view(self.tools@);
        let mut found: Option<usize> = None;
        for i in 0..self.tools.len()
            invariant
                tv == entries_view(self.tools@),
                found is None ==> forall|j: int| 0 <= j < i ==> tv[j].1 != name@,
                found matches Some(k) ==> k < tv.len() && tv[k as int].1 == name@ && forall|j: int|
                    0 <= j < k ==> tv[j].1 != name@,
        {
            if found.is_none() && str_eq(self.tools[i].1.name.as_str(), name) {
                found = Some(i);
            }
        }
        let k = match found {
            None => {
                let mut e = owned("Tool ");
                push_str(&mut e, name);
                push_str(&mut e, " not found in McpPlugin");
                return Err(e);
            },
            Some(k) => k,
        };
        proof {
            let i = choose|i: int|
                0 <= i < tv.len() && tv[i].1 == name@ && forall|j: int| 0 <= j < i ==> tv[j].1 != name@;
            if i < k {
                assert(tv[i].1 != name@);
            } else if i > k {
                assert(tv[k as int].1 != name@);
            }
        }
        let idx = self.tools[k].0;
        if idx >= self.servers.len() {
            let mut e = owned("Internal error: Client index ");
            let d = crate::text::decimal(idx as u128);
            push_str(&mut e, d.as_str());
            push_str(&mut e, " not found");
            return Err(e);
        }
        let mut prefix = owned(self.servers[idx].as_str());
        push_str(&mut prefix, "__");
        proof {
            assert(views(self.servers@)[idx as int] == self.servers@[idx as int]@);
        }
        let nc = chars_of(name);
        let pc = chars_of(prefix.as_str());
        if crate::text::starts_with(nc.as_slice(), pc.as_slice()) {
            let rest = crate::text::slice_chars(nc.as_slice(), pc.len(), nc.len());
            proof {
                assert(rest@ =~= name@.skip(prefix@.len() as int));
            }
            Ok((idx, crate::text::string_from_chars(rest.as_slice())))
        } else {
            let mut e = owned("Internal error: Tool name ");
            push_str(&mut e, name);
            push_str(&mut e, " does not start with prefix ");
            push_str(&mut e, prefix.as_str());
            Err(e)
        }
    }

    /// The registered tools' definitions, in name order.
    pub fn tools(&self) -> (r: Vec<ToolDefinition>)
        ensures
            r@.len() == self.tools_spec().len(),
            forall|i: int|
                0 <= i < r@.len() ==> {
                    let e = self.tools_spec()[i];
                    &&& (#[trigger] r@[i]).name@ == e.1
                    &&& r@[i].description@ == e.2
                    &&& r@[i].input_schema@ == e.3
                },
    {
        let mut r: Vec<ToolDefinition> = Vec::new();
        for i in 0..self.tools.len()
            invariant
                r@.len() == i,
                forall|j: int|
                    0 <= j < i ==> {
                        let e = entries_view(self.tools@)[j];
                        &&& (#[trigger] r@[j]).name@ == e.1
                        &&& r@[j].description@ == e.2
                        &&& r@[j].input_schema@ == e.3
                    },
        {
            let d = &self.tools[i].1;
            r.push(
                ToolDefinition {
                    name: owned(d.name.as_str()),
                    description: owned(d.description.as_str()),
                    input_schema: crate::utils::clone_json(&d.input_schema),
                },
            );
        }
        r
    }
}


proof fn lemma_insert_pos_bounds(s: Seq<ToolEntryV>, x: ToolEntryV)
    ensures
        0 <= insert_pos(s, x) <= s.len(),
    decreases s.len(),
{
    if s.len() > 0 {
        lemma_insert_pos_bounds(s.drop_last(), x);
    }
}

/// Every tool of `insert_all(s, xs)` comes from `s` or from `xs`, and every
/// tool of `xs` is there.
proof fn lemma_insert_all_contents(s: Seq<ToolEntryV>, xs: Seq<ToolEntryV>)
    ensures
        forall|i: int|
            0 <= i < insert_all(s, xs).len() ==> s.contains(#[trigger] insert_all(s, xs)[i]) || xs.contains(
                insert_all(s, xs)[i],
            ),
        forall|j: int| 0 <= j < xs.len() ==> insert_all(s, xs).contains(#[trigger] xs[j]),
    decreases xs.len(),
{
    if xs.len() > 0 {
        let init = xs.drop_last();
        let x = xs.last();
        lemma_insert_all_contents(s, init);
        let t = insert_all(s, init);
        let p = insert_pos(t, x);
        lemma_insert_pos_bounds(t, x);
        t.insert_ensures(p, x);
        let r = insert_all(s, xs);
        assert(r == t.insert(p, x));
        assert forall|i: int| 0 <= i < r.len() implies s.contains(#[trigger] r[i]) || xs.contains(r[i]) by {
            if i == p {
                assert(xs[xs.len() - 1] == r[i]);
            } else {
                let k = if i < p { i } else { i - 1 };
                assert(r[i] == t[k]);
                if !s.contains(t[k]) {
                    let m = choose|m: int| 0 <= m < init.len() && init[m] == t[k];
                    assert(xs[m] == r[i]);
                }
            }
        }
        assert forall|j: int| 0 <= j < xs.len() implies r.contains(#[trigger] xs[j]) by {
            if j == xs.len() - 1 {
                assert(r[p] == xs[j]);
            } else {
                assert(init[j] == xs[j]);
                let m = choose|m: int| 0 <= m < t.len() && t[m] == init[j];
                if m < p {
                    assert(r[m] == xs[j]);
                } else {
                    assert(r[m + 1] == xs[j]);
                }
            }
        }
    }
}

/// A name that occurs has a first occurrence.
proof fn lemma_first_named(r: Seq<ToolEntryV>, name: Seq<char>, w: int)
    requires
        0 <= w < r.len(),
        r[w].1 == name,
    ensures
        exists|i: int| 0 <= i < r.len() && r[i].1 == name && forall|j: int| 0 <= j < i ==> r[j].1 != name,
    decreases w,
{
    if exists|j: int| 0 <= j < w && r[j].1 == name {
        let j = choose|j: int| 0 <= j < w && r[j].1 == name;
        lemma_first_named(r, name, j);
    } else {
        assert(forall|j: int| 0 <= j < w ==> r[j].1 != name);
    }
}

/// Registering a server makes each of its tools reachable under
/// `server__tool`: a call by that name goes to the new server (its index
/// is the number of servers registered before) and names the tool as the
/// server listed it, unless a tool registered earlier already has that
/// scoped name.
pub proof fn lemma_register_then_route(
    servers: Seq<Seq<char>>,
    tools: Seq<ToolEntryV>,
    server: Seq<char>,
    listed: Seq<(Seq<char>, Option<Seq<char>>, JsonV)>,
    k: int,
)
    requires
        servers.len() < usize::MAX,
        0 <= k < listed.len(),
        forall|i: int| 0 <= i < tools.len() ==> #[trigger] tools[i].1 != scoped_name(server, listed[k].0),
    ensures
        route_spec(
            servers.push(server),
            insert_all(tools, listed_entries(servers.len() as usize, server, listed)),
            scoped_name(server, listed[k].0),
        ) == Ok::<(usize, Seq<char>), Seq<char>>((servers.len() as usize, listed[k].0)),
{
    let n = servers.len() as usize;
    let xs = listed_entries(n, server, listed);
    let r = insert_all(tools, xs);
    let name = scoped_name(server, listed[k].0);
    lemma_insert_all_contents(tools, xs);
    assert(xs[k].1 == name);
    assert(r.contains(xs[k]));
    let w = choose|i: int| 0 <= i < r.len() && r[i] == xs[k];
    assert(r[w].1 == name);
    lemma_first_named(r, name, w);
    let i = choose|i: int| 0 <= i < r.len() && r[i].1 == name && forall|j: int| 0 <= j < i ==> r[j].1 != name;
    assert(r[i].1 == name);
    if tools.contains(r[i]) {
        let m = choose|m: int| 0 <= m < tools.len() && tools[m] == r[i];
        assert(tools[m].1 != name);
    }
    assert(xs.contains(r[i]));
    let m = choose|m: int| 0 <= m < xs.len() && xs[m] == r[i];
    assert(r[i].0 == n);
    let sv = servers.push(server);
    assert(sv[n as int] == server);
    let prefix = server + "__"@;
    assert(name =~= prefix + listed[k].0);
    assert(name.take(prefix.len() as int) =~= prefix);
    assert(name.skip(prefix.len() as int) =~= listed[k].0);
}

} // verus!

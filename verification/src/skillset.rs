//! The skills plugin: the skills found on disk, which of them and of their
//! reference files are loaded, and the tools that load them.
use vstd::prelude::*;
use crate::json::{Json, JsonV};
use crate::sandbox::Sandbox;
use crate::listing::{name_order, sort_names};
use crate::skills::{extract_references, refs_view, Reference};
use crate::text::{chars_of, owned, push_str, str_eq, string_from_chars, texts, views};

verus! {

/// A skill: a piece of extra knowledge or scripts, loaded on demand.
pub struct Skill {
    pub name: String,
    pub description: String,
    pub content: String,
    /// Names of the skills this one needs.
    pub needs: Vec<String>,
    pub references: Vec<Reference>,
    /// The skill's directory.
    pub path: String,
    /// Any other front-matter keys.
    pub extra: Vec<(String, Json)>,
}

/// The names of a list of skills.
pub open spec fn skill_names(av: Seq<Skill>) -> Seq<Seq<char>> {
    av.map_values(|s: Skill| s.name@)
}

/// Whether no two skills share a name.
pub open spec fn distinct_names(av: Seq<Skill>) -> bool {
    forall|i: int, j: int| 0 <= i < j < av.len() ==> av[i].name@ != av[j].name@
}

/// The index of the skill named `n`, if any.
pub open spec fn skill_index(av: Seq<Skill>, n: Seq<char>) -> Option<int> {
    if exists|i: int| 0 <= i < av.len() && av[i].name@ == n {
        Some(choose|i: int| 0 <= i < av.len() && av[i].name@ == n)
    } else {
        None
    }
}

/// The skills a skill named `n` needs (none when there is no such skill).
pub open spec fn needs_of(av: Seq<Skill>, n: Seq<char>) -> Seq<Seq<char>> {
    match skill_index(av, n) {
        Some(i) => views(av[i].needs@),
        None => Seq::empty(),
    }
}

/// `av` with `s` added, replacing the skill of the same name (a map
/// insertion keyed by name).
pub open spec fn insert_skill(av: Seq<Skill>, s: Skill) -> Seq<Skill> {
    match skill_index(av, s.name@) {
        Some(i) => av.update(i, s),
        None => av.push(s),
    }
}

/// The skills found, inserted in turn.
pub open spec fn collect_skills(found: Seq<Skill>) -> Seq<Skill>
    decreases found.len(),
{
    if found.len() == 0 {
        Seq::empty()
    } else {
        insert_skill(collect_skills(found.drop_last()), found.last())
    }
}

/// A skill read from its `SKILL.md`: the front matter as parsed, with the
/// body as content and the references the body lists.
pub fn finish_skill(parsed: Skill, body: String) -> (s: Skill)
    ensures
        s.name == parsed.name,
        s.description == parsed.description,
        s.needs == parsed.needs,
        s.path == parsed.path,
        s.extra == parsed.extra,
        s.content@ == body@,
        refs_view(s.references@) == crate::skills::refs_spec(crate::text::lines_spec(body@), false),
{
    let refs = extract_references(body.as_str());
    Skill { content: body, references: refs, ..parsed }
}

/// The skills plugin's state.
pub struct SkillsPlugin {
    available: Vec<Skill>,
    loaded_skills: Vec<String>,
    loaded_references: Vec<String>,
}

/// Whether a list of names has no repeats.
pub open spec fn no_repeats(s: Seq<Seq<char>>) -> bool {
    forall|i: int, j: int| 0 <= i < j < s.len() ==> s[i] != s[j]
}

impl SkillsPlugin {
    #[verifier::type_invariant]
    spec fn wf(self) -> bool {
        &&& distinct_names(self.available@)
        &&& no_repeats(views(self.loaded_skills@))
        &&& no_repeats(views(self.loaded_references@))
    }

    /// The skills found.
    pub closed spec fn avail(&self) -> Seq<Skill> {
        self.available@
    }

    /// The names of the loaded skills, in loading order.
    pub closed spec fn loaded(&self) -> Seq<Seq<char>> {
        views(self.loaded_skills@)
    }

    /// The keys (`skill/file`) of the loaded references, in loading order.
    pub closed spec fn loaded_refs(&self) -> Seq<Seq<char>> {
        views(self.loaded_references@)
    }
}

proof fn lemma_index_unique(av: Seq<Skill>, i: int)
    requires
        distinct_names(av),
        0 <= i < av.len(),
    ensures
        skill_index(av, av[i].name@) == Some(i),
{
    let k = choose|k: int| 0 <= k < av.len() && av[k].name@ == av[i].name@;
    if k != i {
        if k < i {
            assert(av[k].name@ != av[i].name@);
        } else {
            assert(av[i].name@ != av[k].name@);
        }
    }
}

proof fn lemma_insert_distinct(av: Seq<Skill>, s: Skill)
    requires
        distinct_names(av),
    ensures
        distinct_names(insert_skill(av, s)),
{
    match skill_index(av, s.name@) {
        Some(i) => {
            let r = av.update(i, s);
            assert forall|a: int, b: int| 0 <= a < b < r.len() implies r[a].name@ != r[b].name@ by {
                if a == i {
                    assert(av[b].name@ != av[i].name@);
                } else if b == i {
                    assert(av[a].name@ != av[i].name@);
                }
            }
        },
        None => {
            let r = av.push(s);
            assert forall|a: int, b: int| 0 <= a < b < r.len() implies r[a].name@ != r[b].name@ by {
                if b == av.len() {
                    assert(av[a].name@ != s.name@);
                }
            }
        },
    }
}

fn find_in(av: &Vec<Skill>, n: &str) -> (r: Option<usize>)
    requires
        distinct_names(av@),
    ensures
        match r {
            Some(i) => skill_index(av@, n@) == Some(i as int) && i < av@.len(),
            None => skill_index(av@, n@) is None,
        },
{
    for i in 0..av.len()
        invariant
            distinct_names(av@),
            forall|j: int| 0 <= j < i ==> av@[j].name@ != n@,
    {
        if str_eq(av[i].name.as_str(), n) {
            proof {
                lemma_index_unique(av@, i as int);
            }
            return Some(i);
        }
    }
    None
}

fn copy_string(s: &String) -> (r: String)
    ensures
        r@ == s@,
{
    owned(s.as_str())
}

fn copy_strings(v: &Vec<String>) -> (r: Vec<String>)
    ensures
        views(r@) == views(v@),
{
    let mut r: Vec<String> = Vec::new();
    for i in 0..v.len()
        invariant
            views(r@) == views(v@).take(i as int),
    {
        let ghost before = views(r@);
        let c = copy_string(&v[i]);
        let ghost cv = c@;
        r.push(c);
        proof {
            assert(views(r@) =~= before.push(cv));
            assert(views(v@).take(i + 1) =~= views(v@).take(i as int).push(v@[i as int]@));
        }
    }
    proof {
        assert(views(v@).take(v@.len() as int) =~= views(v@));
    }
    r
}

fn copy_references(v: &Vec<Reference>) -> (r: Vec<Reference>)
    ensures
        refs_view(r@) == refs_view(v@),
{
    let mut r: Vec<Reference> = Vec::new();
    for i in 0..v.len()
        invariant
            refs_view(r@) == refs_view(v@).take(i as int),
    {
        let ghost before = refs_view(r@);
        let x = Reference { title: copy_string(&v[i].title), path: copy_string(&v[i].path) };
        let ghost xv = (x.title@, x.path@);
        r.push(x);
        proof {
            assert(refs_view(r@) =~= before.push(xv));
            assert(refs_view(v@).take(i + 1) =~= refs_view(v@).take(i as int).push(
                (v@[i as int].title@, v@[i as int].path@),
            ));
        }
    }
    proof {
        assert(refs_view(v@).take(v@.len() as int) =~= refs_view(v@));
    }
    r
}

fn contains_name(v: &Vec<String>, n: &str) -> (b: bool)
    ensures
        b == views(v@).contains(n@),
{
    for i in 0..v.len()
        invariant
            forall|j: int| 0 <= j < i ==> views(v@)[j] != n@,
    {
        if str_eq(v[i].as_str(), n) {
            proof {
                assert(views(v@)[i as int] == n@);
            }
            return true;
        }
    }
    false
}

/// Whether `e` lists the skill named `n`: its name, description and
/// references.
pub open spec fn info_matches(av: Seq<Skill>, n: Seq<char>, e: (String, String, Vec<Reference>)) -> bool {
    &&& e.0@ == n
    &&& skill_index(av, n) is Some
    &&& e.1@ == av[skill_index(av, n).unwrap()].description@
    &&& refs_view(e.2@) == refs_view(av[skill_index(av, n).unwrap()].references@)
}

impl SkillsPlugin {
    /// The plugin over the skills found on disk, in the order found; a later
    /// skill replaces an earlier one of the same name. Nothing is loaded.
    pub fn from_skills(found: Vec<Skill>) -> (p: SkillsPlugin)
        ensures
            p.avail() == collect_skills(found@),
            p.loaded() == Seq::<Seq<char>>::empty(),
            p.loaded_refs() == Seq::<Seq<char>>::empty(),
    {
        let mut av: Vec<Skill> = Vec::new();
        let mut rest = found;
        let ghost all = rest@;
        let mut taken: Vec<Skill> = Vec::new();
        proof {
            assert(all.take(0) =~= Seq::<Skill>::empty());
        }
        let n = rest.len();
        let mut i: usize = 0;
        while i < n
            invariant
                n == all.len(),
                i <= n,
                rest@ == all.skip(i as int),
                av@ == collect_skills(all.take(i as int)),
                distinct_names(av@),
            decreases n - i,
        {
            let s = rest.remove(0);
            proof {
                assert(s == all[i as int]);
                assert(all.skip(i as int).drop_first() =~= all.skip(i + 1));
                assert(all.take(i + 1).drop_last() =~= all.take(i as int));
                assert(all.take(i + 1).last() == all[i as int]);
                lemma_insert_distinct(av@, s);
            }
            match find_in(&av, s.name.as_str()) {
                Some(k) => {
                    av.set(k, s);
                },
                None => {
                    av.push(s);
                },
            }
            i = i + 1;
        }
        proof {
            assert(all.take(n as int) =~= all);
            assert(views(Seq::<String>::empty()) =~= Seq::<Seq<char>>::empty());
        }
        let p = SkillsPlugin { available: av, loaded_skills: Vec::new(), loaded_references: Vec::new() };
        proof {
            assert(p.loaded() =~= Seq::<Seq<char>>::empty());
            assert(p.loaded_refs() =~= Seq::<Seq<char>>::empty());
        }
        p
    }

    /// The plugin's name, `skills`.
    pub fn name(&self) -> (s: String)
        ensures
            s@ == "skills"@,
    {
        owned("skills")
    }

    /// Every skill found, as `(name, description, references)`, in name
    /// order.
    pub fn available_skills(&self) -> (r: Vec<(String, String, Vec<Reference>)>)
        ensures
            r@.len() == self.avail().len(),
            forall|k: int|
                0 <= k < r@.len() ==> info_matches(
                    self.avail(),
                    skill_names(self.avail()).sort_by(name_order())[k],
                    #[trigger] r@[k],
                ),
    {
        proof {
            use_type_invariant(self);
        }
        let mut names: Vec<Vec<char>> = Vec::new();
        for i in 0..self.available.len()
            invariant
                texts(names@) == skill_names(self.available@).take(i as int),
        {
            let ghost before = texts(names@);
            let c = chars_of(self.available[i].name.as_str());
            let ghost cv = c@;
            names.push(c);
            proof {
                assert(texts(names@) =~= before.push(cv));
                assert(skill_names(self.available@).take(i + 1) =~= skill_names(self.available@).take(
                    i as int,
                ).push(self.available@[i as int].name@));
            }
        }
        proof {
            assert(skill_names(self.available@).take(self.available@.len() as int) =~= skill_names(
                self.available@,
            ));
        }
        let sorted = sort_names(names);
        let ghost sv = texts(sorted@);
        proof {
            crate::listing::lemma_name_order_total();
            skill_names(self.available@).lemma_sort_by_ensures(name_order());
        }
        let mut r: Vec<(String, String, Vec<Reference>)> = Vec::new();
        for k in 0..sorted.len()
            invariant
                distinct_names(self.available@),
                sv == texts(sorted@),
                sv == skill_names(self.available@).sort_by(name_order()),
                sv.to_multiset() == skill_names(self.available@).to_multiset(),
                r@.len() == k,
                forall|j: int| 0 <= j < k ==> info_matches(self.available@, sv[j], #[trigger] r@[j]),
        {
            let name = string_from_chars(sorted[k].as_slice());
            proof {
                assert(sv[k as int] == sorted@[k as int]@);
                sv.to_multiset_ensures();
                skill_names(self.available@).to_multiset_ensures();
                assert(sv.contains(sv[k as int]));
                assert(sv.to_multiset().count(sv[k as int]) > 0);
                assert(skill_names(self.available@).to_multiset().count(sv[k as int]) > 0);
                assert(skill_names(self.available@).contains(sv[k as int]));
            }
            match find_in(&self.available, name.as_str()) {
                Some(i) => {
                    let s = &self.available[i];
                    let e = (name, copy_string(&s.description), copy_references(&s.references));
                    assert(info_matches(self.available@, sv[k as int], e));
                    r.push(e);
                },
                None => {
                    proof {
                        let j = choose|j: int|
                            0 <= j < self.available@.len() && skill_names(self.available@)[j] == sv[k as int];
                        assert(self.available@[j].name@ == name@);
                        assert(false);
                    }
                },
            }
        }
        proof {
            sv.to_multiset_ensures();
            skill_names(self.available@).to_multiset_ensures();
            assert(sv.len() == skill_names(self.available@).len());
        }
        r
    }
}

/// Depth-first search from `stack` through the skills' needs: the name on
/// top is taken; a name seen before is skipped; an unseen name is marked
/// seen and, when a skill has it, recorded and its needs pushed in order.
/// `fuel` bounds the steps.
pub open spec fn dfs(
    av: Seq<Skill>,
    stack: Seq<Seq<char>>,
    seen: Seq<Seq<char>>,
    out: Seq<Seq<char>>,
    fuel: nat,
) -> Seq<Seq<char>>
    decreases fuel,
{
    if fuel == 0 || stack.len() == 0 {
        out
    } else {
        let n = stack.last();
        let rest = stack.drop_last();
        if seen.contains(n) {
            dfs(av, rest, seen, out, (fuel - 1) as nat)
        } else if skill_index(av, n) is Some {
            dfs(av, rest + needs_of(av, n), seen.push(n), out.push(n), (fuel - 1) as nat)
        } else {
            dfs(av, rest, seen.push(n), out, (fuel - 1) as nat)
        }
    }
}

/// Needs of the skills whose names are not yet seen, counted.
pub open spec fn pending(av: Seq<Skill>, seen: Seq<Seq<char>>) -> nat
    decreases av.len(),
{
    if av.len() == 0 {
        0
    } else {
        pending(av.drop_last(), seen) + if seen.contains(av.last().name@) {
            0
        } else {
            av.last().needs@.len()
        }
    }
}

/// Steps enough for the search from `names` to finish.
pub open spec fn dfs_fuel(av: Seq<Skill>, names: Seq<Seq<char>>) -> nat {
    names.len() + pending(av, Seq::empty())
}

/// The skills that `names` name or need, directly or through other skills,
/// each once: the names the depth-first search records, in reverse.
pub open spec fn resolve_spec(av: Seq<Skill>, names: Seq<Seq<char>>) -> Seq<Seq<char>> {
    dfs(av, names, Seq::empty(), Seq::empty(), dfs_fuel(av, names)).reverse()
}

proof fn lemma_push_contains(s: Seq<Seq<char>>, n: Seq<char>, x: Seq<char>)
    ensures
        s.push(n).contains(x) == (s.contains(x) || x == n),
{
    if s.contains(x) {
        let i = choose|i: int| 0 <= i < s.len() && s[i] == x;
        assert(s.push(n)[i] == x);
    }
    if x == n {
        assert(s.push(n)[s.len() as int] == x);
    }
    if s.push(n).contains(x) {
        let i = choose|i: int| 0 <= i < s.push(n).len() && s.push(n)[i] == x;
        if i < s.len() {
            assert(s[i] == x);
        }
    }
}

proof fn lemma_pending_mark(av: Seq<Skill>, seen: Seq<Seq<char>>, n: Seq<char>)
    requires
        distinct_names(av),
        !seen.contains(n),
    ensures
        skill_index(av, n) matches Some(k) ==> pending(av, seen.push(n)) + av[k].needs@.len() == pending(
            av,
            seen,
        ),
        skill_index(av, n) is None ==> pending(av, seen.push(n)) == pending(av, seen),
    decreases av.len(),
{
    if av.len() > 0 {
        let init = av.drop_last();
        assert forall|a: int, b: int| 0 <= a < b < init.len() implies init[a].name@ != init[b].name@ by {
            assert(av[a].name@ != av[b].name@);
        }
        lemma_pending_mark(init, seen, n);
        lemma_push_contains(seen, n, av.last().name@);
        if av.last().name@ == n {
            lemma_index_unique(av, av.len() - 1);
            assert(skill_index(init, n) is None) by {
                if exists|i: int| 0 <= i < init.len() && init[i].name@ == n {
                    let i = choose|i: int| 0 <= i < init.len() && init[i].name@ == n;
                    assert(av[i].name@ != av[av.len() - 1].name@);
                }
            }
        } else {
            match skill_index(av, n) {
                Some(k) => {
                    assert(av[k].name@ == n);
                    assert(k != av.len() - 1);
                    lemma_index_unique(av, k);
                    lemma_index_unique(init, k);
                    assert(init[k] == av[k]);
                },
                None => {
                    if exists|i: int| 0 <= i < init.len() && init[i].name@ == n {
                        let i = choose|i: int| 0 <= i < init.len() && init[i].name@ == n;
                        assert(av[i].name@ == n);
                    }
                },
            }
        }
    }
}

fn resolve_in(available: &Vec<Skill>, names: &Vec<String>) -> (r: Vec<String>)
    requires
        distinct_names(available@),
    ensures
        views(r@) == resolve_spec(available@, views(names@)),
{
    {
        let ghost av = available@;
        let ghost f0 = dfs_fuel(av, views(names@));
        let mut stack = copy_strings(names);
        let mut seen: Vec<String> = Vec::new();
        let mut out: Vec<String> = Vec::new();
        let ghost mut fuel: nat = f0;
        proof {
            assert(views(seen@) =~= Seq::<Seq<char>>::empty());
            assert(views(out@) =~= Seq::<Seq<char>>::empty());
        }
        while stack.len() > 0
            invariant
                av == available@,
                distinct_names(av),
                f0 == dfs_fuel(av, views(names@)),
                dfs(av, views(stack@), views(seen@), views(out@), fuel) == dfs(
                    av,
                    views(names@),
                    Seq::empty(),
                    Seq::empty(),
                    f0,
                ),
                stack@.len() + pending(av, views(seen@)) <= fuel,
            decreases fuel,
        {
            let ghost sv = views(stack@);
            let n = stack.pop().unwrap();
            proof {
                assert(views(stack@) =~= sv.drop_last());
                assert(n@ == sv.last());
            }
            let ghost old_seen = views(seen@);
            if contains_name(&seen, n.as_str()) {
            } else {
                proof {
                    lemma_pending_mark(av, old_seen, n@);
                }
                match find_in(available, n.as_str()) {
                    Some(i) => {
                        let ghost before = views(stack@);
                        let needs = &available[i].needs;
                        for k in 0..needs.len()
                            invariant
                                views(stack@) == before + views(needs@).take(k as int),
                        {
                            let c = copy_string(&needs[k]);
                            let ghost cv = c@;
                            let ghost pre = views(stack@);
                            stack.push(c);
                            proof {
                                assert(views(stack@) =~= pre.push(cv));
                                assert(views(needs@).take(k + 1) =~= views(needs@).take(k as int).push(
                                    needs@[k as int]@,
                                ));
                            }
                        }
                        proof {
                            assert(views(needs@).take(needs@.len() as int) =~= views(needs@));
                        }
                        let ghost ob = views(out@);
                        out.push(copy_string(&n));
                        proof {
                            assert(views(out@) =~= ob.push(n@));
                        }
                    },
                    None => {},
                }
                let ghost sb = views(seen@);
                seen.push(n);
                proof {
                    assert(views(seen@) =~= sb.push(sv.last()));
                }
            }
            proof {
                fuel = (fuel - 1) as nat;
            }
        }
        proof {
            assert(views(stack@) =~= Seq::<Seq<char>>::empty());
        }
        let ghost ov = views(out@);
        let mut r: Vec<String> = Vec::new();
        let mut k = out.len();
        while k > 0
            invariant
                k <= out@.len(),
                ov == views(out@),
                views(r@) == ov.skip(k as int).reverse(),
            decreases k,
        {
            k = k - 1;
            let ghost before = views(r@);
            r.push(copy_string(&out[k]));
            proof {
                assert(ov.skip(k as int).reverse() =~= ov.skip(k + 1).reverse().push(ov[k as int]));
                assert(views(r@) =~= before.push(ov[k as int]));
            }
        }
        proof {
            assert(ov.skip(0) =~= ov);
        }
        r
    }
}

impl SkillsPlugin {
    /// The skills `names` name or need, directly or through other skills,
    /// each once, in the reverse of the order the search reaches them.
    pub fn resolve_dependencies(&self, names: &Vec<String>) -> (r: Vec<String>)
        ensures
            views(r@) == resolve_spec(self.avail(), views(names@)),
    {
        proof {
            use_type_invariant(self);
        }
        resolve_in(&self.available, names)
    }
}

/// The text a loaded skill adds: its name as a heading, then its content.
pub open spec fn skill_text(av: Seq<Skill>, d: Seq<char>) -> Seq<char> {
    match skill_index(av, d) {
        Some(i) => "## Skill: "@ + av[i].name@ + "\n"@ + av[i].content@ + "\n---\n"@,
        None => Seq::empty(),
    }
}

/// Loading the first `k` of `deps` in turn: each not yet loaded is marked
/// loaded and adds its text.
pub open spec fn load_deps(av: Seq<Skill>, loaded: Seq<Seq<char>>, deps: Seq<Seq<char>>, k: int) -> (
    Seq<Seq<char>>,
    Seq<char>,
)
    decreases k,
{
    if k <= 0 {
        (loaded, Seq::empty())
    } else {
        let (l, t) = load_deps(av, loaded, deps, k - 1);
        let d = deps[k - 1];
        if l.contains(d) {
            (l, t)
        } else {
            (l.push(d), t + skill_text(av, d))
        }
    }
}

/// Loading the skill `name`: nothing if it is loaded already; else it and
/// the skills it needs, in the order `resolve_spec` gives.
pub open spec fn load_skill(av: Seq<Skill>, loaded: Seq<Seq<char>>, name: Seq<char>) -> (
    Seq<Seq<char>>,
    Seq<char>,
) {
    if loaded.contains(name) {
        (loaded, Seq::empty())
    } else {
        let deps = resolve_spec(av, seq![name]);
        load_deps(av, loaded, deps, deps.len() as int)
    }
}

/// Loading `names` in turn.
pub open spec fn load_skills(av: Seq<Skill>, loaded: Seq<Seq<char>>, names: Seq<Seq<char>>, k: int) -> (
    Seq<Seq<char>>,
    Seq<char>,
)
    decreases k,
{
    if k <= 0 {
        (loaded, Seq::empty())
    } else {
        let (l, t) = load_skills(av, loaded, names, k - 1);
        let (l2, t2) = load_skill(av, l, names[k - 1]);
        (l2, t + t2)
    }
}

proof fn lemma_no_repeats_push(s: Seq<Seq<char>>, x: Seq<char>)
    requires
        no_repeats(s),
        !s.contains(x),
    ensures
        no_repeats(s.push(x)),
{
    assert forall|i: int, j: int| 0 <= i < j < s.push(x).len() implies s.push(x)[i] != s.push(x)[j] by {
        if j == s.len() {
            assert(s[i] != x);
        }
    }
}

fn push_unique(v: &mut Vec<String>, x: String)
    requires
        no_repeats(views(old(v)@)),
        !views(old(v)@).contains(x@),
    ensures
        views(final(v)@) == views(old(v)@).push(x@),
        no_repeats(views(final(v)@)),
{
    let ghost before = views(v@);
    let ghost xv = x@;
    proof {
        lemma_no_repeats_push(before, xv);
    }
    v.push(x);
    proof {
        assert(views(v@) =~= before.push(xv));
    }
}

fn load_skill_into(av: &Vec<Skill>, loaded: &mut Vec<String>, name: &str, out: &mut String)
    requires
        distinct_names(av@),
        no_repeats(views(old(loaded)@)),
    ensures
        views(final(loaded)@) == load_skill(av@, views(old(loaded)@), name@).0,
        final(out)@ == old(out)@ + load_skill(av@, views(old(loaded)@), name@).1,
        no_repeats(views(final(loaded)@)),
{
    if contains_name(loaded, name) {
        proof {
            assert(old(out)@ + Seq::<char>::empty() =~= old(out)@);
        }
        return;
    }
    let mut one: Vec<String> = Vec::new();
    one.push(owned(name));
    proof {
        assert(views(one@) =~= seq![name@]);
    }
    let deps = resolve_in(av, &one);
    let ghost dv = views(deps@);
    let ghost l0 = views(loaded@);
    let ghost o0 = out@;
    proof {
        assert(o0 + Seq::<char>::empty() =~= o0);
    }
    for k in 0..deps.len()
        invariant
            distinct_names(av@),
            dv == views(deps@),
            dv == resolve_spec(av@, seq![name@]),
            no_repeats(views(loaded@)),
            views(loaded@) == load_deps(av@, l0, dv, k as int).0,
            out@ == o0 + load_deps(av@, l0, dv, k as int).1,
    {
        let d = &deps[k];
        proof {
            assert(dv[k as int] == d@);
        }
        if !contains_name(loaded, d.as_str()) {
            match find_in(av, d.as_str()) {
                Some(i) => {
                    let ghost before = out@;
                    push_str(out, "## Skill: ");
                    push_str(out, av[i].name.as_str());
                    push_str(out, "\n");
                    push_str(out, av[i].content.as_str());
                    push_str(out, "\n---\n");
                    proof {
                        assert(out@ =~= before + skill_text(av@, d@));
                    }
                },
                None => {
                    proof {
                        assert(skill_text(av@, d@) =~= Seq::<char>::empty());
                        assert(out@ =~= out@ + skill_text(av@, d@));
                    }
                },
            }
            push_unique(loaded, copy_string(d));
        }
    }
}

fn load_skills_into(av: &Vec<Skill>, loaded: &mut Vec<String>, names: &Vec<String>, out: &mut String)
    requires
        distinct_names(av@),
        no_repeats(views(old(loaded)@)),
    ensures
        views(final(loaded)@) == load_skills(av@, views(old(loaded)@), views(names@), names@.len() as int).0,
        final(out)@ == old(out)@ + load_skills(av@, views(old(loaded)@), views(names@), names@.len() as int).1,
        no_repeats(views(final(loaded)@)),
{
    let ghost l0 = views(loaded@);
    let ghost o0 = out@;
    proof {
        assert(o0 + Seq::<char>::empty() =~= o0);
    }
    for k in 0..names.len()
        invariant
            distinct_names(av@),
            no_repeats(views(loaded@)),
            views(loaded@) == load_skills(av@, l0, views(names@), k as int).0,
            out@ == o0 + load_skills(av@, l0, views(names@), k as int).1,
    {
        let ghost before = out@;
        load_skill_into(av, loaded, names[k].as_str(), out);
        proof {
            assert(views(names@)[k as int] == names@[k as int]@);
            assert(out@ =~= o0 + load_skills(av@, l0, views(names@), k + 1).1);
        }
    }
}

/// What loading one reference does: the loaded skills, the loaded
/// references, the text added, and the outcome.
pub struct RefStep {
    pub loaded: Seq<Seq<char>>,
    pub refs: Seq<Seq<char>>,
    pub text: Seq<char>,
    pub result: Result<(), Seq<char>>,
}

/// The key of a loaded reference: `skill/file`.
pub open spec fn ref_key(skill: Seq<char>, file: Seq<char>) -> Seq<char> {
    skill + "/"@ + file
}

/// Loading reference `file` of skill `skill`, given what reading the file
/// would give (`read`, the text or the read error's message): the skill is
/// loaded first; an unknown skill is an error; a reference loaded before
/// adds nothing; without a sandbox, or when the read fails, it is an error;
/// else the file's text is added under a heading and the reference is
/// marked loaded.
pub open spec fn load_ref(
    av: Seq<Skill>,
    loaded: Seq<Seq<char>>,
    refs: Seq<Seq<char>>,
    skill: Seq<char>,
    file: Seq<char>,
    has_sandbox: bool,
    read: Result<Seq<char>, Seq<char>>,
) -> RefStep {
    let (l1, t1) = load_skill(av, loaded, skill);
    match skill_index(av, skill) {
        None => RefStep {
            loaded: l1,
            refs,
            text: t1,
            result: Err("Skill '"@ + skill + "' not found for reference loading"@),
        },
        Some(i) => {
            let key = ref_key(av[i].name@, file);
            if refs.contains(key) {
                RefStep { loaded: l1, refs, text: t1, result: Ok(()) }
            } else if !has_sandbox {
                RefStep { loaded: l1, refs, text: t1, result: Err("No sandbox registered"@) }
            } else {
                match read {
                    Ok(c) => RefStep {
                        loaded: l1,
                        refs: refs.push(key),
                        text: t1 + "### Reference: "@ + key + "\n"@ + c + "\n---\n"@,
                        result: Ok(()),
                    },
                    Err(m) => RefStep {
                        loaded: l1,
                        refs,
                        text: t1,
                        result: Err("Failed to read reference file '"@ + file + "': "@ + m),
                    },
                }
            }
        },
    }
}

/// Loading the first `k` reference requests in turn, the `j`-th read giving
/// `reads[j]`, stopping at the first error.
pub open spec fn load_refs(
    av: Seq<Skill>,
    loaded: Seq<Seq<char>>,
    refs: Seq<Seq<char>>,
    reqs: Seq<(Seq<char>, Seq<char>)>,
    has_sandbox: bool,
    reads: Seq<Result<Seq<char>, Seq<char>>>,
    k: int,
) -> RefStep
    decreases k,
{
    if k <= 0 {
        RefStep { loaded, refs, text: Seq::empty(), result: Ok(()) }
    } else {
        let prev = load_refs(av, loaded, refs, reqs, has_sandbox, reads, k - 1);
        if prev.result is Err {
            prev
        } else {
            let o = load_ref(av, prev.loaded, prev.refs, reqs[k - 1].0, reqs[k - 1].1, has_sandbox, reads[k - 1]);
            RefStep { loaded: o.loaded, refs: o.refs, text: prev.text + o.text, result: o.result }
        }
    }
}

/// Whether `r` is what `RefStep` says of the call's result.
pub open spec fn result_matches(r: Result<(), String>, o: Result<(), Seq<char>>) -> bool {
    match (r, o) {
        (Ok(()), Ok(())) => true,
        (Err(e), Err(m)) => e@ == m,
        _ => false,
    }
}

/// Whether a call left the state and output `o` describes.
pub open spec fn ref_done(
    o: RefStep,
    loaded: Seq<Seq<char>>,
    refs: Seq<Seq<char>>,
    out0: Seq<char>,
    out: Seq<char>,
    r: Result<(), String>,
) -> bool {
    &&& loaded == o.loaded
    &&& refs == o.refs
    &&& out == out0 + o.text
    &&& result_matches(r, o.result)
}

/// Whether either of two sources is there.
pub open spec fn either(a: bool, b: bool) -> bool {
    a || b
}

/// The view of a read's outcome: the text, or the error's message.
pub open spec fn read_view(r: Result<String, String>) -> Result<Seq<char>, Seq<char>> {
    match r {
        Ok(c) => Ok(c@),
        Err(m) => Err(m@),
    }
}

/// The views of given read outcomes.
pub open spec fn reads_view(v: Seq<Result<String, String>>) -> Seq<Result<Seq<char>, Seq<char>>> {
    v.map_values(|r: Result<String, String>| read_view(r))
}

/// Reads reference `file` of the skill in directory `dir`: the `k`-th
/// given outcome when outcomes are given, else through the sandbox.
fn read_reference(
    sandbox: Option<&Sandbox>,
    given: Option<&Vec<Result<String, String>>>,
    k: usize,
    dir: &str,
    file: &str,
) -> (r: Result<String, String>)
    requires
        sandbox is Some || given is Some,
        given matches Some(v) ==> k < v@.len(),
    ensures
        given matches Some(v) ==> read_view(r) == read_view(v@[k as int]),
{
    match given {
        Some(v) => match &v[k] {
            Ok(c) => Ok(copy_string(c)),
            Err(m) => Err(copy_string(m)),
        },
        None => {
            let sb = sandbox.unwrap();
            let path = crate::paths::join_path(dir, file);
            match sb.read(path.as_str()) {
                Ok(c) => Ok(c),
                Err(e) => Err(e.message()),
            }
        },
    }
}

fn load_ref_into(
    av: &Vec<Skill>,
    loaded: &mut Vec<String>,
    refs: &mut Vec<String>,
    sandbox: Option<&Sandbox>,
    given: Option<&Vec<Result<String, String>>>,
    k: usize,
    skill: &str,
    file: &str,
    out: &mut String,
) -> (r: Result<(), String>)
    requires
        distinct_names(av@),
        no_repeats(views(old(loaded)@)),
        no_repeats(views(old(refs)@)),
        given matches Some(v) ==> k < v@.len(),
    ensures
        no_repeats(views(final(loaded)@)),
        no_repeats(views(final(refs)@)),
        exists|read: Result<Seq<char>, Seq<char>>|
            ref_done(
                #[trigger] load_ref(
                    av@,
                    views(old(loaded)@),
                    views(old(refs)@),
                    skill@,
                    file@,
                    either(sandbox is Some, given is Some),
                    read,
                ),
                views(final(loaded)@),
                views(final(refs)@),
                old(out)@,
                final(out)@,
                r,
            ),
        given matches Some(v) ==> ref_done(
            load_ref(av@, views(old(loaded)@), views(old(refs)@), skill@, file@, true, read_view(v@[k as int])),
            views(final(loaded)@),
            views(final(refs)@),
            old(out)@,
            final(out)@,
            r,
        ),
{
    let ghost l0 = views(loaded@);
    let ghost r0 = views(refs@);
    let ghost o0 = out@;
    let ghost has = either(sandbox is Some, given is Some);
    let ghost any: Result<Seq<char>, Seq<char>> = match given {
        Some(v) => read_view(v@[k as int]),
        None => Ok(Seq::empty()),
    };
    load_skill_into(av, loaded, skill, out);
    let ghost t1 = load_skill(av@, l0, skill@).1;
    let i = match find_in(av, skill) {
        Some(i) => i,
        None => {
            let mut e = owned("Skill '");
            push_str(&mut e, skill);
            push_str(&mut e, "' not found for reference loading");
            proof {
                let o = load_ref(av@, l0, r0, skill@, file@, has, any);
                assert(e@ == "Skill '"@ + skill@ + "' not found for reference loading"@);
                assert(result_matches(Err(e), o.result));
            }
            return Err(e);
        },
    };
    let mut key = owned(av[i].name.as_str());
    push_str(&mut key, "/");
    push_str(&mut key, file);
    if contains_name(refs, key.as_str()) {
        proof {
            let o = load_ref(av@, l0, r0, skill@, file@, has, any);
            assert(out@ =~= o0 + o.text);
        }
        return Ok(());
    }
    if sandbox.is_none() && given.is_none() {
        proof {
            let o = load_ref(av@, l0, r0, skill@, file@, has, any);
            assert(out@ =~= o0 + o.text);
        }
        return Err(owned("No sandbox registered"));
    }
    let read = read_reference(sandbox, given, k, av[i].path.as_str(), file);
    let ghost rv = read_view(read);
    match read {
        Ok(content) => {
            push_str(out, "### Reference: ");
            push_str(out, key.as_str());
            push_str(out, "\n");
            push_str(out, content.as_str());
            push_str(out, "\n---\n");
            let ghost kv = key@;
            push_unique(refs, key);
            proof {
                let o = load_ref(av@, l0, r0, skill@, file@, true, rv);
                assert(o.refs == r0.push(kv));
                assert(out@ =~= o0 + o.text);
                assert(load_ref(av@, l0, r0, skill@, file@, has, rv) == o);
            }
            Ok(())
        },
        Err(m) => {
            let mut msg = owned("Failed to read reference file '");
            push_str(&mut msg, file);
            push_str(&mut msg, "': ");
            push_str(&mut msg, m.as_str());
            proof {
                let o = load_ref(av@, l0, r0, skill@, file@, true, rv);
                assert(out@ =~= o0 + o.text);
                assert(result_matches(Err(msg), o.result));
                assert(load_ref(av@, l0, r0, skill@, file@, has, rv) == o);
            }
            Err(msg)
        },
    }
}


/// Reference files to load from one skill.
pub struct SkillReference {
    /// The name of the skill.
    pub skill: String,
    /// The file names, such as `extra.md`.
    pub files: Vec<String>,
}

/// Input of the `load` tool.
pub struct LoadSkillsInput {
    /// Names of the skills to load; `skill/file` (or `skill:file`) also
    /// loads that reference.
    pub skills: Vec<String>,
    /// Reference files to load from given skills.
    pub references: Option<Vec<SkillReference>>,
}

/// Input of the `reference` tool.
pub struct LoadReferenceInput {
    /// The reference in `skill/file` form.
    pub path: String,
}

/// `s` without one leading `/`.
pub open spec fn strip_slash(s: Seq<char>) -> Seq<char> {
    if s.len() > 0 && s[0] == '/' {
        s.drop_first()
    } else {
        s
    }
}

/// A requested skill split at its first `/` (else at its first `:`) into
/// the skill's name and a reference file.
pub open spec fn split_entry(s: Seq<char>) -> (Seq<char>, Option<Seq<char>>) {
    let t = strip_slash(s);
    match crate::text::first_index_of(t, '/') {
        Some(i) => (t.take(i), Some(t.skip(i + 1))),
        None => match crate::text::first_index_of(t, ':') {
            Some(i) => (t.take(i), Some(t.skip(i + 1))),
            None => (t, None),
        },
    }
}

/// A file name with `.md` appended unless it ends so.
pub open spec fn with_md(f: Seq<char>) -> Seq<char> {
    if crate::text::has_suffix(f, ".md"@) {
        f
    } else {
        f + ".md"@
    }
}

/// The skill names in the requested entries.
pub open spec fn entry_names(skills: Seq<Seq<char>>) -> Seq<Seq<char>> {
    skills.map_values(|s: Seq<char>| split_entry(s).0)
}

/// The reference requests written as `skill/file` entries, in order.
pub open spec fn shorthand_reqs(skills: Seq<Seq<char>>) -> Seq<(Seq<char>, Seq<char>)>
    decreases skills.len(),
{
    if skills.len() == 0 {
        Seq::empty()
    } else {
        let prev = shorthand_reqs(skills.drop_last());
        match split_entry(skills.last()) {
            (sk, Some(f)) => prev.push((sk, with_md(f))),
            (_, None) => prev,
        }
    }
}

/// The view of a list of explicit reference requests.
pub open spec fn sref_view(v: Seq<SkillReference>) -> Seq<(Seq<char>, Seq<Seq<char>>)> {
    v.map_values(|r: SkillReference| (r.skill@, views(r.files@)))
}

/// The explicit reference requests, one per file, in order.
pub open spec fn explicit_reqs(v: Seq<(Seq<char>, Seq<Seq<char>>)>) -> Seq<(Seq<char>, Seq<char>)>
    decreases v.len(),
{
    if v.len() == 0 {
        Seq::empty()
    } else {
        let sk = strip_slash(v.last().0);
        explicit_reqs(v.drop_last()) + v.last().1.map_values(|f: Seq<char>| (sk, f))
    }
}

/// All reference requests of a `load` call: the shorthand ones, then the
/// explicit ones.
pub open spec fn all_reqs(input: LoadSkillsInput) -> Seq<(Seq<char>, Seq<char>)> {
    shorthand_reqs(views(input.skills@)) + match input.references {
        Some(v) => explicit_reqs(sref_view(v@)),
        None => Seq::empty(),
    }
}

/// The skills a `load` call loads, in name order: those the entries name
/// and all they need.
pub open spec fn skills_to_load(av: Seq<Skill>, input: LoadSkillsInput) -> Seq<Seq<char>> {
    resolve_spec(av, entry_names(views(input.skills@))).sort_by(name_order())
}

/// What the `load` tool answers and leaves loaded, the `j`-th reference
/// read giving `reads[j]`: the skills are loaded, then the references in
/// turn; the first failed reference fails the call; nothing added is
/// `No skills requested` when no skill was asked for, else a note that all
/// was loaded already.
pub open spec fn load_outcome(
    av: Seq<Skill>,
    loaded: Seq<Seq<char>>,
    refs: Seq<Seq<char>>,
    input: LoadSkillsInput,
    has_sandbox: bool,
    reads: Seq<Result<Seq<char>, Seq<char>>>,
) -> (Seq<Seq<char>>, Seq<Seq<char>>, Result<JsonV, Seq<char>>) {
    let names = skills_to_load(av, input);
    let (l1, t1) = load_skills(av, loaded, names, names.len() as int);
    let reqs = all_reqs(input);
    let o = load_refs(av, l1, refs, reqs, has_sandbox, reads, reqs.len() as int);
    let text = t1 + o.text;
    (
        o.loaded,
        o.refs,
        match o.result {
            Err(e) => Err(e),
            Ok(()) => if text.len() == 0 {
                if input.skills@.len() == 0 {
                    Err("No skills requested"@)
                } else {
                    Ok(JsonV::Str("All requested items were already loaded."@))
                }
            } else {
                Ok(JsonV::Str(text))
            },
        },
    )
}

fn split_entry_exec(s: &str) -> (r: (String, Option<String>))
    ensures
        r.0@ == split_entry(s@).0,
        match (r.1, split_entry(s@).1) {
            (Some(a), Some(b)) => a@ == b,
            (None, None) => true,
            _ => false,
        },
{
    let cs = chars_of(s);
    let t = if cs.len() > 0 && cs[0] == '/' {
        crate::text::slice_chars(cs.as_slice(), 1, cs.len())
    } else {
        crate::text::slice_chars(cs.as_slice(), 0, cs.len())
    };
    proof {
        assert(t@ =~= strip_slash(s@));
    }
    let n = t.len();
    match crate::text::find_char(t.as_slice(), '/') {
        Some(i) => {
            let a = crate::text::slice_chars(t.as_slice(), 0, i);
            let b = crate::text::slice_chars(t.as_slice(), i + 1, n);
            proof {
                assert(a@ =~= t@.take(i as int));
                assert(b@ =~= t@.skip(i + 1));
            }
            (string_from_chars(a.as_slice()), Some(string_from_chars(b.as_slice())))
        },
        None => match crate::text::find_char(t.as_slice(), ':') {
            Some(i) => {
                let a = crate::text::slice_chars(t.as_slice(), 0, i);
                let b = crate::text::slice_chars(t.as_slice(), i + 1, n);
                proof {
                    assert(a@ =~= t@.take(i as int));
                    assert(b@ =~= t@.skip(i + 1));
                }
                (string_from_chars(a.as_slice()), Some(string_from_chars(b.as_slice())))
            },
            None => (string_from_chars(t.as_slice()), None),
        },
    }
}

fn with_md_exec(f: String) -> (r: String)
    ensures
        r@ == with_md(f@),
{
    let fc = chars_of(f.as_str());
    let md = chars_of(".md");
    if crate::text::ends_with(fc.as_slice(), md.as_slice()) {
        f
    } else {
        let mut g = f;
        push_str(&mut g, ".md");
        g
    }
}

fn plan_requests(input: &LoadSkillsInput) -> (r: (Vec<String>, Vec<(String, String)>))
    ensures
        views(r.0@) == entry_names(views(input.skills@)),
        req_views(r.1@) == all_reqs(*input),
{
    let ghost sv = views(input.skills@);
    let mut names: Vec<String> = Vec::new();
    let mut reqs: Vec<(String, String)> = Vec::new();
    proof {
        assert(sv.take(0) =~= Seq::<Seq<char>>::empty());
        assert(req_views(reqs@) =~= shorthand_reqs(sv.take(0)));
    }
    for i in 0..input.skills.len()
        invariant
            sv == views(input.skills@),
            views(names@) == entry_names(sv).take(i as int),
            req_views(reqs@) == shorthand_reqs(sv.take(i as int)),
    {
        let (sk, file) = split_entry_exec(input.skills[i].as_str());
        proof {
            assert(sv.take(i + 1).drop_last() =~= sv.take(i as int));
            assert(sv.take(i + 1).last() == input.skills@[i as int]@);
        }
        let ghost nb = views(names@);
        let ghost skv = sk@;
        names.push(copy_string(&sk));
        proof {
            assert(views(names@) =~= nb.push(skv));
            assert(entry_names(sv).take(i + 1) =~= entry_names(sv).take(i as int).push(skv));
        }
        match file {
            Some(f) => {
                let ghost rb = req_views(reqs@);
                let f2 = with_md_exec(f);
                let ghost pv = (sk@, f2@);
                reqs.push((sk, f2));
                proof {
                    assert(req_views(reqs@) =~= rb.push(pv));
                }
            },
            None => {},
        }
    }
    proof {
        assert(sv.take(input.skills@.len() as int) =~= sv);
        assert(entry_names(sv).take(input.skills@.len() as int) =~= entry_names(sv));
    }
    let ghost short = req_views(reqs@);
    match &input.references {
        Some(v) => {
            let ghost ev = sref_view(v@);
            proof {
                assert(ev.take(0) =~= Seq::<(Seq<char>, Seq<Seq<char>>)>::empty());
                assert(req_views(reqs@) =~= short + explicit_reqs(ev.take(0)));
            }
            for j in 0..v.len()
                invariant
                    ev == sref_view(v@),
                    req_views(reqs@) == short + explicit_reqs(ev.take(j as int)),
            {
                proof {
                    assert(ev.take(j + 1).drop_last() =~= ev.take(j as int));
                    assert(ev.take(j + 1).last() == (v@[j as int].skill@, views(v@[j as int].files@)));
                }
                let sr = &v[j];
                let sc = chars_of(sr.skill.as_str());
                let skc = if sc.len() > 0 && sc[0] == '/' {
                    crate::text::slice_chars(sc.as_slice(), 1, sc.len())
                } else {
                    crate::text::slice_chars(sc.as_slice(), 0, sc.len())
                };
                proof {
                    assert(skc@ =~= strip_slash(sr.skill@));
                }
                let ghost base = req_views(reqs@);
                let ghost fv = views(sr.files@);
                for k in 0..sr.files.len()
                    invariant
                        fv == views(sr.files@),
                        skc@ == strip_slash(sr.skill@),
                        req_views(reqs@) == base + fv.take(k as int).map_values(
                            |f: Seq<char>| (strip_slash(sr.skill@), f),
                        ),
                {
                    let ghost rb = req_views(reqs@);
                    let a = string_from_chars(skc.as_slice());
                    let b = copy_string(&sr.files[k]);
                    let ghost pv = (a@, b@);
                    reqs.push((a, b));
                    proof {
                        assert(req_views(reqs@) =~= rb.push(pv));
                        assert(fv.take(k + 1).map_values(|f: Seq<char>| (strip_slash(sr.skill@), f)) =~= fv.take(
                            k as int,
                        ).map_values(|f: Seq<char>| (strip_slash(sr.skill@), f)).push(pv));
                    }
                }
                proof {
                    assert(fv.take(sr.files@.len() as int) =~= fv);
                    assert(req_views(reqs@) =~= short + explicit_reqs(ev.take(j + 1)));
                }
            }
            proof {
                assert(ev.take(v@.len() as int) =~= ev);
            }
        },
        None => {
            proof {
                assert(req_views(reqs@) =~= short + Seq::<(Seq<char>, Seq<char>)>::empty());
            }
        },
    }
    (names, reqs)
}

/// The views of a list of reference requests.
pub open spec fn req_views(v: Seq<(String, String)>) -> Seq<(Seq<char>, Seq<char>)> {
    v.map_values(|p: (String, String)| (p.0@, p.1@))
}

proof fn lemma_refs_prefix(
    av: Seq<Skill>,
    loaded: Seq<Seq<char>>,
    refs: Seq<Seq<char>>,
    reqs: Seq<(Seq<char>, Seq<char>)>,
    has_sandbox: bool,
    a: Seq<Result<Seq<char>, Seq<char>>>,
    b: Seq<Result<Seq<char>, Seq<char>>>,
    k: int,
)
    requires
        forall|j: int| 0 <= j < k ==> a[j] == b[j],
    ensures
        load_refs(av, loaded, refs, reqs, has_sandbox, a, k) == load_refs(av, loaded, refs, reqs, has_sandbox, b, k),
    decreases k,
{
    if k > 0 {
        lemma_refs_prefix(av, loaded, refs, reqs, has_sandbox, a, b, k - 1);
    }
}

proof fn lemma_refs_stop(
    av: Seq<Skill>,
    loaded: Seq<Seq<char>>,
    refs: Seq<Seq<char>>,
    reqs: Seq<(Seq<char>, Seq<char>)>,
    has_sandbox: bool,
    reads: Seq<Result<Seq<char>, Seq<char>>>,
    k: int,
    m: int,
)
    requires
        0 <= k <= m,
        load_refs(av, loaded, refs, reqs, has_sandbox, reads, k).result is Err,
    ensures
        load_refs(av, loaded, refs, reqs, has_sandbox, reads, m) == load_refs(
            av,
            loaded,
            refs,
            reqs,
            has_sandbox,
            reads,
            k,
        ),
    decreases m - k,
{
    if m > k {
        lemma_refs_stop(av, loaded, refs, reqs, has_sandbox, reads, k, m - 1);
    }
}

/// Whether the call's answer is the outcome's.
pub open spec fn answer_matches(r: Result<Json, String>, o: Result<JsonV, Seq<char>>) -> bool {
    match (r, o) {
        (Ok(j), Ok(v)) => j@ == v,
        (Err(e), Err(m)) => e@ == m,
        _ => false,
    }
}

/// Whether a call left the loaded skills and references and answered as
/// the outcome `o` says.
pub open spec fn load_done(
    o: (Seq<Seq<char>>, Seq<Seq<char>>, Result<JsonV, Seq<char>>),
    loaded: Seq<Seq<char>>,
    refs: Seq<Seq<char>>,
    r: Result<Json, String>,
) -> bool {
    &&& loaded == o.0
    &&& refs == o.1
    &&& answer_matches(r, o.2)
}

impl SkillsPlugin {
    /// The `load` tool: loads the requested skills (with all they need) and
    /// reference files, and answers with their texts.
    pub fn do_load_skills(&mut self, sandbox: Option<&Sandbox>, input: &LoadSkillsInput) -> (r: Result<Json, String>)
        ensures
            final(self).avail() == old(self).avail(),
            exists|reads: Seq<Result<Seq<char>, Seq<char>>>|
                load_done(
                    #[trigger] load_outcome(
                        old(self).avail(),
                        old(self).loaded(),
                        old(self).loaded_refs(),
                        *input,
                        sandbox is Some,
                        reads,
                    ),
                    final(self).loaded(),
                    final(self).loaded_refs(),
                    r,
                ),
    {
        self.load_skills_from(sandbox, None, input)
    }

    /// The `load` tool with the reference files' read outcomes given, one
    /// per reference request in order (the `k`-th read is used only if the
    /// `k`-th request reads).
    pub fn load_skills_with(&mut self, input: &LoadSkillsInput, reads: &Vec<Result<String, String>>) -> (r: Result<
        Json,
        String,
    >)
        requires
            reads@.len() >= all_reqs(*input).len(),
        ensures
            final(self).avail() == old(self).avail(),
            load_done(
                load_outcome(old(self).avail(), old(self).loaded(), old(self).loaded_refs(), *input, true, reads_view(reads@)),
                final(self).loaded(),
                final(self).loaded_refs(),
                r,
            ),
    {
        self.load_skills_from(None, Some(reads), input)
    }

    fn load_skills_from(
        &mut self,
        sandbox: Option<&Sandbox>,
        given: Option<&Vec<Result<String, String>>>,
        input: &LoadSkillsInput,
    ) -> (r: Result<Json, String>)
        requires
            given matches Some(v) ==> v@.len() >= all_reqs(*input).len(),
        ensures
            final(self).avail() == old(self).avail(),
            exists|reads: Seq<Result<Seq<char>, Seq<char>>>|
                load_done(
                    #[trigger] load_outcome(
                        old(self).avail(),
                        old(self).loaded(),
                        old(self).loaded_refs(),
                        *input,
                        either(sandbox is Some, given is Some),
                        reads,
                    ),
                    final(self).loaded(),
                    final(self).loaded_refs(),
                    r,
                ),
            given matches Some(v) ==> load_done(
                load_outcome(old(self).avail(), old(self).loaded(), old(self).loaded_refs(), *input, true, reads_view(v@)),
                final(self).loaded(),
                final(self).loaded_refs(),
                r,
            ),
    {
        proof {
            use_type_invariant(&*self);
        }
        let ghost av = self.available@;
        let ghost l0 = views(self.loaded_skills@);
        let ghost r0 = views(self.loaded_references@);
        let ghost has = either(sandbox is Some, given is Some);
        let mut loaded: Vec<String> = Vec::new();
        let mut refs: Vec<String> = Vec::new();
        proof {
            assert(views(loaded@) =~= Seq::<Seq<char>>::empty());
            assert(views(refs@) =~= Seq::<Seq<char>>::empty());
        }
        std::mem::swap(&mut loaded, &mut self.loaded_skills);
        std::mem::swap(&mut refs, &mut self.loaded_references);
        let (names0, reqs) = plan_requests(input);
        let resolved = resolve_in(&self.available, &names0);
        let mut rv: Vec<Vec<char>> = Vec::new();
        for i in 0..resolved.len()
            invariant
                texts(rv@) == views(resolved@).take(i as int),
        {
            let ghost before = texts(rv@);
            let c = chars_of(resolved[i].as_str());
            let ghost cv = c@;
            rv.push(c);
            proof {
                assert(texts(rv@) =~= before.push(cv));
                assert(views(resolved@).take(i + 1) =~= views(resolved@).take(i as int).push(resolved@[i as int]@));
            }
        }
        proof {
            assert(views(resolved@).take(resolved@.len() as int) =~= views(resolved@));
        }
        let sorted = sort_names(rv);
        let mut names: Vec<String> = Vec::new();
        for i in 0..sorted.len()
            invariant
                views(names@) == texts(sorted@).take(i as int),
        {
            let ghost before = views(names@);
            let c = string_from_chars(sorted[i].as_slice());
            let ghost cv = c@;
            names.push(c);
            proof {
                assert(views(names@) =~= before.push(cv));
                assert(texts(sorted@).take(i + 1) =~= texts(sorted@).take(i as int).push(sorted@[i as int]@));
            }
        }
        proof {
            assert(texts(sorted@).take(sorted@.len() as int) =~= texts(sorted@));
            assert(views(names@) == skills_to_load(av, *input));
        }
        let mut out = String::new();
        proof {
            assert(views(loaded@) == l0);
        }
        load_skills_into(&self.available, &mut loaded, &names, &mut out);
        let ghost t1 = out@;
        let ghost l1 = views(loaded@);
        let ghost reqv = req_views(reqs@);
        let ghost mut reads: Seq<Result<Seq<char>, Seq<char>>> = Seq::empty();
        proof {
            assert(t1 =~= t1 + Seq::<char>::empty());
            assert(out@.skip(t1.len() as int) =~= Seq::<char>::empty());
            assert(out@.take(t1.len() as int) =~= t1);
            assert(views(refs@) == r0);
        }
        for k in 0..reqs.len()
            invariant
                av == self.available@,
                av == old(self).available@,
                l0 == views(old(self).loaded_skills@),
                r0 == views(old(self).loaded_references@),
                l1 == load_skills(av, l0, skills_to_load(av, *input), skills_to_load(av, *input).len() as int).0,
                t1 == load_skills(av, l0, skills_to_load(av, *input), skills_to_load(av, *input).len() as int).1,
                self.loaded_skills@.len() == 0,
                self.loaded_references@.len() == 0,
                distinct_names(av),
                reqv == req_views(reqs@),
                reqv == all_reqs(*input),
                no_repeats(views(loaded@)),
                no_repeats(views(refs@)),
                reads.len() == k,
                has == either(sandbox is Some, given is Some),
                given matches Some(v) ==> v@.len() >= reqv.len() && reads == reads_view(v@).take(k as int),
                load_refs(av, l1, r0, reqv, has, reads, k as int) == (RefStep {
                    loaded: views(loaded@),
                    refs: views(refs@),
                    text: out@.skip(t1.len() as int),
                    result: Ok(()),
                }),
                out@.len() >= t1.len(),
                out@.take(t1.len() as int) == t1,
        {
            let ghost lb = views(loaded@);
            let ghost rb = views(refs@);
            let ghost ob = out@;
            let res = load_ref_into(
                &self.available,
                &mut loaded,
                &mut refs,
                sandbox,
                given,
                k,
                reqs[k].0.as_str(),
                reqs[k].1.as_str(),
                &mut out,
            );
            let ghost read = match given {
                Some(v) => read_view(v@[k as int]),
                None => choose|read: Result<Seq<char>, Seq<char>>|
                    ref_done(
                        #[trigger] load_ref(av, lb, rb, reqs@[k as int].0@, reqs@[k as int].1@, has, read),
                        views(loaded@),
                        views(refs@),
                        ob,
                        out@,
                        res,
                    ),
            };
            proof {
                assert(ref_done(
                    load_ref(av, lb, rb, reqs@[k as int].0@, reqs@[k as int].1@, has, read),
                    views(loaded@),
                    views(refs@),
                    ob,
                    out@,
                    res,
                ));
                if given is Some {
                    assert(reads.push(read) =~= reads_view(given.unwrap()@).take(k + 1));
                }
                assert(reqv[k as int] == (reqs@[k as int].0@, reqs@[k as int].1@));
                let nr = reads.push(read);
                lemma_refs_prefix(av, l1, r0, reqv, has, reads, nr, k as int);
                reads = nr;
                assert(out@.skip(t1.len() as int) =~= ob.skip(t1.len() as int) + (out@.skip(ob.len() as int)));
                assert(out@.take(t1.len() as int) =~= ob.take(t1.len() as int));
                let st = load_refs(av, l1, r0, reqv, has, reads, k + 1);
                assert(st.loaded == views(loaded@));
                assert(st.refs == views(refs@));
                assert(st.text == out@.skip(t1.len() as int));
                assert(result_matches(res, st.result));
            }
            match res {
                Ok(()) => {},
                Err(e) => {
                    proof {
                        lemma_refs_stop(av, l1, r0, reqv, has, reads, k + 1, reqv.len() as int);
                        if given is Some {
                            let gv = reads_view(given.unwrap()@);
                            lemma_refs_prefix(av, l1, r0, reqv, has, reads, gv, k + 1);
                            lemma_refs_stop(av, l1, r0, reqv, has, gv, k + 1, reqv.len() as int);
                        }
                        let o = load_outcome(av, l0, r0, *input, has, reads);
                        assert(o.0 == views(loaded@));
                        assert(answer_matches(Err(e), o.2));
                    }
                    proof {
                        assert(views(self.loaded_references@) =~= Seq::<Seq<char>>::empty());
                    }
                    self.loaded_skills = loaded;
                    self.loaded_references = refs;
                    let r = Err(e);
                    proof {
                        let o = load_outcome(av, l0, r0, *input, has, reads);
                        assert(load_done(o, views(self.loaded_skills@), views(self.loaded_references@), r));
                        assert(av == old(self).avail());
                        assert(l0 == old(self).loaded());
                        assert(r0 == old(self).loaded_refs());
                        assert(views(self.loaded_skills@) == self.loaded());
                    }
                    return r;
                },
            }
        }
        proof {
            assert(views(self.loaded_references@) =~= Seq::<Seq<char>>::empty());
        }
        self.loaded_skills = loaded;
        self.loaded_references = refs;
        proof {
            assert(out@ =~= t1 + out@.skip(t1.len() as int));
            let o = load_outcome(av, l0, r0, *input, has, reads);
            assert(o.0 == views(self.loaded_skills@));
            assert(o.1 == views(self.loaded_references@));
        }
        let ghost o = load_outcome(av, l0, r0, *input, has, reads);
        proof {
            if given is Some {
                let gv = reads_view(given.unwrap()@);
                lemma_refs_prefix(av, l1, r0, reqv, has, reads, gv, reqv.len() as int);
                assert(load_outcome(av, l0, r0, *input, true, gv) == o);
            }
        }
        proof {
            let names_s = skills_to_load(av, *input);
            let reqs_s = all_reqs(*input);
            let st = load_refs(av, l1, r0, reqs_s, has, reads, reqs_s.len() as int);
            assert(st.result is Ok);
            assert(t1 + st.text == out@);
        }
        let r = if out.as_str().is_empty() {
            if input.skills.len() == 0 {
                Err(owned("No skills requested"))
            } else {
                Ok(Json::Str(owned("All requested items were already loaded.")))
            }
        } else {
            Ok(Json::Str(out))
        };
        assert(answer_matches(r, o.2));
        assert(load_done(o, views(self.loaded_skills@), views(self.loaded_references@), r));
        assert(av == old(self).avail());
        assert(l0 == old(self).loaded());
        assert(r0 == old(self).loaded_refs());
        assert(views(self.loaded_skills@) == self.loaded());
        r
    }
}

/// What the `reference` tool does with `skill/file` (a leading `/`
/// dropped, `.md` appended to the file unless it ends so), the read giving
/// `read`: a path without `/` is refused; else the reference is loaded and
/// its text returned, or a note that it was loaded before.
pub open spec fn reference_outcome(
    av: Seq<Skill>,
    loaded: Seq<Seq<char>>,
    refs: Seq<Seq<char>>,
    path: Seq<char>,
    has_sandbox: bool,
    read: Result<Seq<char>, Seq<char>>,
) -> (Seq<Seq<char>>, Seq<Seq<char>>, Result<JsonV, Seq<char>>) {
    let p = strip_slash(path);
    match crate::text::first_index_of(p, '/') {
        None => (
            loaded,
            refs,
            Err("Invalid reference path format '"@ + p + "'. Expected 'skill/file'."@),
        ),
        Some(i) => {
            let o = load_ref(av, loaded, refs, p.take(i), with_md(p.skip(i + 1)), has_sandbox, read);
            (
                o.loaded,
                o.refs,
                match o.result {
                    Err(e) => Err(e),
                    Ok(()) => if o.text.len() == 0 {
                        Ok(JsonV::Str("Reference '"@ + p + "' was already loaded."@))
                    } else {
                        Ok(JsonV::Str(o.text))
                    },
                },
            )
        },
    }
}

impl SkillsPlugin {
    /// The `reference` tool: loads one reference file (and its skill).
    pub fn do_load_reference(&mut self, sandbox: Option<&Sandbox>, input: &LoadReferenceInput) -> (r: Result<
        Json,
        String,
    >)
        ensures
            final(self).avail() == old(self).avail(),
            exists|read: Result<Seq<char>, Seq<char>>|
                load_done(
                    #[trigger] reference_outcome(
                        old(self).avail(),
                        old(self).loaded(),
                        old(self).loaded_refs(),
                        input.path@,
                        sandbox is Some,
                        read,
                    ),
                    final(self).loaded(),
                    final(self).loaded_refs(),
                    r,
                ),
    {
        self.load_reference_from(sandbox, None, input)
    }

    /// The `reference` tool with the file's read outcome given (used only
    /// if the file is read).
    pub fn load_reference_with(&mut self, input: &LoadReferenceInput, read: Result<String, String>) -> (r: Result<
        Json,
        String,
    >)
        ensures
            final(self).avail() == old(self).avail(),
            load_done(
                reference_outcome(
                    old(self).avail(),
                    old(self).loaded(),
                    old(self).loaded_refs(),
                    input.path@,
                    true,
                    read_view(read),
                ),
                final(self).loaded(),
                final(self).loaded_refs(),
                r,
            ),
    {
        let ghost rv = read_view(read);
        let mut v: Vec<Result<String, String>> = Vec::new();
        v.push(read);
        assert(read_view(v@[0]) == rv);
        self.load_reference_from(None, Some(&v), input)
    }

    fn load_reference_from(
        &mut self,
        sandbox: Option<&Sandbox>,
        given: Option<&Vec<Result<String, String>>>,
        input: &LoadReferenceInput,
    ) -> (r: Result<Json, String>)
        requires
            given matches Some(v) ==> v@.len() >= 1,
        ensures
            final(self).avail() == old(self).avail(),
            exists|read: Result<Seq<char>, Seq<char>>|
                load_done(
                    #[trigger] reference_outcome(
                        old(self).avail(),
                        old(self).loaded(),
                        old(self).loaded_refs(),
                        input.path@,
                        either(sandbox is Some, given is Some),
                        read,
                    ),
                    final(self).loaded(),
                    final(self).loaded_refs(),
                    r,
                ),
            given matches Some(v) ==> load_done(
                reference_outcome(
                    old(self).avail(),
                    old(self).loaded(),
                    old(self).loaded_refs(),
                    input.path@,
                    true,
                    read_view(v@[0]),
                ),
                final(self).loaded(),
                final(self).loaded_refs(),
                r,
            ),
    {
        proof {
            use_type_invariant(&*self);
        }
        let ghost av = self.available@;
        let ghost l0 = views(self.loaded_skills@);
        let ghost r0 = views(self.loaded_references@);
        let ghost has = either(sandbox is Some, given is Some);
        let cs = chars_of(input.path.as_str());
        let p = if cs.len() > 0 && cs[0] == '/' {
            crate::text::slice_chars(cs.as_slice(), 1, cs.len())
        } else {
            crate::text::slice_chars(cs.as_slice(), 0, cs.len())
        };
        proof {
            assert(p@ =~= strip_slash(input.path@));
        }
        let i = match crate::text::find_char(p.as_slice(), '/') {
            Some(i) => i,
            None => {
                let mut e = owned("Invalid reference path format '");
                crate::text::push_chars(&mut e, p.as_slice());
                push_str(&mut e, "'. Expected 'skill/file'.");
                let r = Err(e);
                proof {
                    let o = reference_outcome(av, l0, r0, input.path@, has, Ok(Seq::empty()));
                    assert(load_done(o, l0, r0, r));
                    assert(av == old(self).avail());
                    assert(l0 == old(self).loaded());
                    assert(r0 == old(self).loaded_refs());
                    assert(l0 == self.loaded());
                    assert(r0 == self.loaded_refs());
                }
                return r;
            },
        };
        let skill = string_from_chars(crate::text::slice_chars(p.as_slice(), 0, i).as_slice());
        let file0 = string_from_chars(crate::text::slice_chars(p.as_slice(), i + 1, p.len()).as_slice());
        proof {
            assert(skill@ =~= p@.take(i as int));
            assert(file0@ =~= p@.skip(i + 1));
        }
        let file = with_md_exec(file0);
        let mut loaded: Vec<String> = Vec::new();
        let mut refs: Vec<String> = Vec::new();
        std::mem::swap(&mut loaded, &mut self.loaded_skills);
        std::mem::swap(&mut refs, &mut self.loaded_references);
        let mut out = String::new();
        let res = load_ref_into(
            &self.available,
            &mut loaded,
            &mut refs,
            sandbox,
            given,
            0,
            skill.as_str(),
            file.as_str(),
            &mut out,
        );
        let ghost read = match given {
            Some(v) => read_view(v@[0]),
            None => choose|read: Result<Seq<char>, Seq<char>>|
                ref_done(
                    #[trigger] load_ref(av, l0, r0, skill@, file@, has, read),
                    views(loaded@),
                    views(refs@),
                    Seq::empty(),
                    out@,
                    res,
                ),
        };
        proof {
            assert(ref_done(
                load_ref(av, l0, r0, skill@, file@, has, read),
                views(loaded@),
                views(refs@),
                Seq::empty(),
                out@,
                res,
            ));
        }
        proof {
            assert(views(self.loaded_references@) =~= Seq::<Seq<char>>::empty());
            assert(out@ =~= Seq::<char>::empty() + out@);
        }
        self.loaded_skills = loaded;
        self.loaded_references = refs;
        let r = match res {
            Err(e) => Err(e),
            Ok(()) => {
                if out.as_str().is_empty() {
                    let mut m = owned("Reference '");
                    crate::text::push_chars(&mut m, p.as_slice());
                    push_str(&mut m, "' was already loaded.");
                    Ok(Json::Str(m))
                } else {
                    Ok(Json::Str(out))
                }
            },
        };
        proof {
            let o = reference_outcome(av, l0, r0, input.path@, has, read);
            assert(load_done(o, views(self.loaded_skills@), views(self.loaded_references@), r));
            assert(av == old(self).avail());
            assert(l0 == old(self).loaded());
            assert(r0 == old(self).loaded_refs());
        }
        r
    }

    /// Whether the skill named `name` is loaded.
    pub fn is_loaded(&self, name: &str) -> (b: bool)
        ensures
            b == self.loaded().contains(name@),
    {
        contains_name(&self.loaded_skills, name)
    }

    /// Whether reference `key` (`skill/file`) is loaded.
    pub fn is_reference_loaded(&self, key: &str) -> (b: bool)
        ensures
            b == self.loaded_refs().contains(key@),
    {
        contains_name(&self.loaded_references, key)
    }
}

/// The fixed head of the skills part of the system prompt.
pub open spec fn prompt_head() -> Seq<char> {
    "\n## Skills\nSkills are extra instruction that gives more knowledge about specific topic.\n\n### Loading Skills & References\n- Use the `load` tool to load broad topic instructions (e.g., `skills=['joke']`).\n- Use the `reference` tool to load deep-dive files for specific sub-topics.\n\n**CRITICAL:** Before responding to any user query, you MUST check the 'Available skills' and their 'References' below.\nIf a user's request matches a sub-topic listed under 'References', you MUST load that reference using `load_reference` BEFORE providing an answer.\nThis applies even if you have already loaded the main skill.\n\nExample:\n`reference(path=\"joke/CPP.md\")`\n\n### Available skills:\n"@
}

/// A loading status as shown in the prompt.
pub open spec fn status_text(loaded: bool) -> Seq<char> {
    if loaded {
        "[ALREADY LOADED]"@
    } else {
        "[NOT LOADED]"@
    }
}

/// The lines of the first `k` references of skill `name`.
pub open spec fn reference_lines(
    name: Seq<char>,
    refs: Seq<(Seq<char>, Seq<char>)>,
    lrefs: Seq<Seq<char>>,
    k: int,
) -> Seq<char>
    decreases k,
{
    if k <= 0 {
        Seq::empty()
    } else {
        reference_lines(name, refs, lrefs, k - 1) + "    - Reference: "@ + refs[k - 1].0 + " ("@ + refs[k - 1].1
            + ") "@ + status_text(lrefs.contains(ref_key(name, refs[k - 1].1))) + "\n"@
    }
}

/// The prompt lines of the skill named `n`: name, description and status,
/// then one line per reference.
pub open spec fn skill_lines(av: Seq<Skill>, n: Seq<char>, loaded: Seq<Seq<char>>, lrefs: Seq<Seq<char>>) -> Seq<
    char,
> {
    let s = av[skill_index(av, n).unwrap()];
    let rv = refs_view(s.references@);
    "- "@ + n + ": "@ + s.description@ + " "@ + status_text(loaded.contains(n)) + "\n"@ + reference_lines(
        n,
        rv,
        lrefs,
        rv.len() as int,
    )
}

/// The prompt lines of the first `k` skills of `names`.
pub open spec fn skills_lines(
    av: Seq<Skill>,
    names: Seq<Seq<char>>,
    loaded: Seq<Seq<char>>,
    lrefs: Seq<Seq<char>>,
    k: int,
) -> Seq<char>
    decreases k,
{
    if k <= 0 {
        Seq::empty()
    } else {
        skills_lines(av, names, loaded, lrefs, k - 1) + skill_lines(av, names[k - 1], loaded, lrefs)
    }
}

/// The skills part of the system prompt: nothing without skills; else the
/// fixed head and every skill in name order with its references, each
/// marked loaded or not.
pub open spec fn skills_prompt(av: Seq<Skill>, loaded: Seq<Seq<char>>, lrefs: Seq<Seq<char>>) -> Option<
    Seq<char>,
> {
    if av.len() == 0 {
        None
    } else {
        let names = skill_names(av).sort_by(name_order());
        Some(prompt_head() + skills_lines(av, names, loaded, lrefs, names.len() as int))
    }
}

fn status_exec(b: bool) -> (s: &'static str)
    ensures
        s@ == status_text(b),
{
    if b {
        "[ALREADY LOADED]"
    } else {
        "[NOT LOADED]"
    }
}

impl SkillsPlugin {
    /// The skills part of the system prompt.
    #[verifier::rlimit(40)]
    pub fn prepare_system_prompt(&self) -> (r: Option<String>)
        ensures
            match (r, skills_prompt(self.avail(), self.loaded(), self.loaded_refs())) {
                (Some(x), Some(y)) => x@ == y,
                (None, None) => true,
                _ => false,
            },
    {
        proof {
            use_type_invariant(self);
        }
        let available = self.available_skills();
        let ghost av = self.available@;
        let ghost names = skill_names(av).sort_by(name_order());
        proof {
            crate::listing::lemma_name_order_total();
            skill_names(av).lemma_sort_by_ensures(name_order());
            skill_names(av).to_multiset_ensures();
            names.to_multiset_ensures();
            assert(names.len() == av.len());
        }
        if available.len() == 0 {
            return None;
        }
        let mut prompt = owned("\n## Skills\nSkills are extra instruction that gives more knowledge about specific topic.\n\n### Loading Skills & References\n- Use the `load` tool to load broad topic instructions (e.g., `skills=['joke']`).\n- Use the `reference` tool to load deep-dive files for specific sub-topics.\n\n**CRITICAL:** Before responding to any user query, you MUST check the 'Available skills' and their 'References' below.\nIf a user's request matches a sub-topic listed under 'References', you MUST load that reference using `load_reference` BEFORE providing an answer.\nThis applies even if you have already loaded the main skill.\n\nExample:\n`reference(path=\"joke/CPP.md\")`\n\n### Available skills:\n");
        let ghost head = prompt@;
        proof {
            assert(prompt@ =~= prompt_head() + skills_lines(av, names, self.loaded(), self.loaded_refs(), 0));
        }
        for k in 0..available.len()
            invariant
                av == self.available@,
                names == skill_names(av).sort_by(name_order()),
                names.len() == av.len(),
                available@.len() == av.len(),
                forall|j: int| 0 <= j < available@.len() ==> info_matches(av, names[j], #[trigger] available@[j]),
                prompt@ == prompt_head() + skills_lines(av, names, self.loaded(), self.loaded_refs(), k as int),
        {
            let entry = &available[k];
            proof {
                assert(info_matches(av, names[k as int], available@[k as int]));
            }
            let ghost before = prompt@;
            push_str(&mut prompt, "- ");
            push_str(&mut prompt, entry.0.as_str());
            push_str(&mut prompt, ": ");
            push_str(&mut prompt, entry.1.as_str());
            push_str(&mut prompt, " ");
            push_str(&mut prompt, status_exec(contains_name(&self.loaded_skills, entry.0.as_str())));
            push_str(&mut prompt, "\n");
            let ghost mid = prompt@;
            let ghost rv = refs_view(entry.2@);
            for q in 0..entry.2.len()
                invariant
                    rv == refs_view(entry.2@),
                    prompt@ == mid + reference_lines(entry.0@, rv, self.loaded_refs(), q as int),
            {
                let rf = &entry.2[q];
                let mut key = owned(entry.0.as_str());
                push_str(&mut key, "/");
                push_str(&mut key, rf.path.as_str());
                let ghost pb = prompt@;
                push_str(&mut prompt, "    - Reference: ");
                push_str(&mut prompt, rf.title.as_str());
                push_str(&mut prompt, " (");
                push_str(&mut prompt, rf.path.as_str());
                push_str(&mut prompt, ") ");
                push_str(&mut prompt, status_exec(contains_name(&self.loaded_references, key.as_str())));
                push_str(&mut prompt, "\n");
                proof {
                    assert(rv[q as int] == (rf.title@, rf.path@));
                    assert(prompt@ =~= mid + reference_lines(entry.0@, rv, self.loaded_refs(), q + 1));
                }
            }
            proof {
                assert(prompt@ =~= before + skill_lines(av, names[k as int], self.loaded(), self.loaded_refs()));
            }
        }
        Some(prompt)
    }
}

/// Input of the `execute` tool.
pub struct ExecuteSkillScriptInput {
    /// The skill holding the script.
    pub from_skill: String,
    /// The script's file name.
    pub binary_name: String,
    /// Command-line arguments.
    pub args: Option<String>,
}

/// The decimal text of a signed number.
pub open spec fn signed_dec(i: int) -> Seq<char> {
    if i < 0 {
        "-"@ + crate::text::dec_spec((-i) as nat)
    } else {
        crate::text::dec_spec(i as nat)
    }
}

fn signed_decimal(i: i32) -> (s: String)
    ensures
        s@ == signed_dec(i as int),
{
    if i < 0 {
        let mut s = owned("-");
        let m: i64 = -(i as i64);
        let d = crate::text::decimal(m as u128);
        push_str(&mut s, d.as_str());
        s
    } else {
        crate::text::decimal(i as u128)
    }
}

/// The `execute` tool's answer for a finished command.
pub open spec fn script_json(exit_code: i32, stdout: Seq<char>, stderr: Seq<char>) -> JsonV {
    JsonV::Object(
        seq![
            ("exit_code"@, JsonV::Number(signed_dec(exit_code as int))),
            ("stdout"@, JsonV::Str(stdout)),
            ("stderr"@, JsonV::Str(stderr)),
        ],
    )
}

/// The answer for a finished command: exit code, output and errors.
pub fn script_result(out: &crate::sandbox::SandboxOutput) -> (j: Json)
    ensures
        j@ == script_json(out.exit_code, out.stdout@, out.stderr@),
{
    let mut m: Vec<(String, Json)> = Vec::new();
    m.push((owned("exit_code"), Json::Number(signed_decimal(out.exit_code))));
    m.push((owned("stdout"), Json::Str(owned(out.stdout.as_str()))));
    m.push((owned("stderr"), Json::Str(owned(out.stderr.as_str()))));
    let j = Json::Object(m);
    proof {
        crate::json::lemma_view_unfold(j);
        assert(crate::json::members_view(m@) =~= seq![
            ("exit_code"@, JsonV::Number(signed_dec(out.exit_code as int))),
            ("stdout"@, JsonV::Str(out.stdout@)),
            ("stderr"@, JsonV::Str(out.stderr@)),
        ]);
    }
    j
}

/// The command that runs a script at `path` with `args`.
pub fn script_command(path: &str, args: Option<&str>) -> (c: String)
    ensures
        c@ == match args {
            Some(a) => path@ + " "@ + a@,
            None => path@,
        },
{
    let mut c = owned(path);
    match args {
        Some(a) => {
            push_str(&mut c, " ");
            push_str(&mut c, a);
        },
        None => {},
    }
    c
}

/// The refusal when neither place holds the script.
pub fn script_not_found(input: &ExecuteSkillScriptInput) -> (e: String)
    ensures
        e@ == "Binary '"@ + input.binary_name@ + "' not found for skill '"@ + input.from_skill@ + "'"@,
{
    let mut e = owned("Binary '");
    push_str(&mut e, input.binary_name.as_str());
    push_str(&mut e, "' not found for skill '");
    push_str(&mut e, input.from_skill.as_str());
    push_str(&mut e, "'");
    e
}

impl SkillsPlugin {
    /// Where a script of the `execute` tool may be, first choice first: the
    /// skill's directory, then its `bin/`; an unknown skill is refused.
    pub fn script_candidates(&self, input: &ExecuteSkillScriptInput) -> (r: Result<(String, String), String>)
        ensures
            match skill_index(self.avail(), input.from_skill@) {
                None => r matches Err(e) && e@ == "Skill '"@ + input.from_skill@
                    + "' not found. Ensure it exists in search paths."@,
                Some(i) => r matches Ok(c) && c.0@ == crate::paths::join_spec(
                    self.avail()[i].path@,
                    input.binary_name@,
                ) && c.1@ == crate::paths::join_spec(
                    crate::paths::join_spec(self.avail()[i].path@, "bin"@),
                    input.binary_name@,
                ),
            },
    {
        proof {
            use_type_invariant(self);
        }
        match find_in(&self.available, input.from_skill.as_str()) {
            None => {
                let mut e = owned("Skill '");
                push_str(&mut e, input.from_skill.as_str());
                push_str(&mut e, "' not found. Ensure it exists in search paths.");
                Err(e)
            },
            Some(i) => {
                let dir = self.available[i].path.as_str();
                let first = crate::paths::join_path(dir, input.binary_name.as_str());
                let bin = crate::paths::join_path(dir, "bin");
                let second = crate::paths::join_path(bin.as_str(), input.binary_name.as_str());
                Ok((first, second))
            },
        }
    }
}

/// The tools of the skills plugin.
#[derive(PartialEq, Eq, Structural, Clone, Copy, Debug)]
pub enum SkillTool {
    Load,
    Reference,
    Execute,
}

/// The name a skills tool is advertised under.
pub open spec fn skill_tool_name(t: SkillTool) -> Seq<char> {
    match t {
        SkillTool::Load => "load"@,
        SkillTool::Reference => "reference"@,
        SkillTool::Execute => "execute"@,
    }
}

/// The description a skills tool is advertised with.
pub open spec fn skill_tool_description(t: SkillTool) -> Seq<char> {
    match t {
        SkillTool::Load => "Load instructions from skills and their references(optional)."@,
        SkillTool::Reference => "Load a specific reference file from a skill using 'skill/file' format."@,
        SkillTool::Execute => "execute a script from a skill, as instructed by the loaded script"@,
    }
}

impl SkillsPlugin {
    /// The tools, in order, with their names and descriptions.
    pub fn tool_specs(&self) -> (r: Vec<(SkillTool, String, String)>)
        ensures
            r@.len() == 3,
            r@[0].0 == SkillTool::Load,
            r@[1].0 == SkillTool::Reference,
            r@[2].0 == SkillTool::Execute,
            forall|i: int|
                0 <= i < 3 ==> (#[trigger] r@[i]).1@ == skill_tool_name(r@[i].0) && r@[i].2@ == skill_tool_description(
                    r@[i].0,
                ),
    {
        let mut r: Vec<(SkillTool, String, String)> = Vec::new();
        r.push((SkillTool::Load, owned("load"), owned("Load instructions from skills and their references(optional).")));
        r.push((
            SkillTool::Reference,
            owned("reference"),
            owned("Load a specific reference file from a skill using 'skill/file' format."),
        ));
        r.push((
            SkillTool::Execute,
            owned("execute"),
            owned("execute a script from a skill, as instructed by the loaded script"),
        ));
        r
    }

    /// The tool a call names; any other name is refused.
    pub fn tool_kind(&self, name: &str) -> (r: Result<SkillTool, String>)
        ensures
            name@ == "load"@ ==> r == Ok::<SkillTool, String>(SkillTool::Load),
            name@ == "reference"@ ==> r == Ok::<SkillTool, String>(SkillTool::Reference),
            name@ == "execute"@ ==> r == Ok::<SkillTool, String>(SkillTool::Execute),
            !(name@ == "load"@ || name@ == "reference"@ || name@ == "execute"@) ==> (r matches Err(e) && e@
                == "Unknown tool: "@ + name@),
    {
        proof {
            reveal_strlit("load");
            reveal_strlit("reference");
            reveal_strlit("execute");
            assert("reference"@.len() != "load"@.len());
            assert("execute"@.len() != "load"@.len());
            assert("execute"@[0] != "reference"@[0]);
        }
        if str_eq(name, "load") {
            Ok(SkillTool::Load)
        } else if str_eq(name, "reference") {
            Ok(SkillTool::Reference)
        } else if str_eq(name, "execute") {
            Ok(SkillTool::Execute)
        } else {
            let mut e = owned("Unknown tool: ");
            push_str(&mut e, name);
            Err(e)
        }
    }
}

/// What the builder was given.
pub struct SkillsConfig {
    pub search_paths: Vec<String>,
}

/// Builds a `SkillsPlugin`.
pub struct SkillsPluginBuilder {
    search_paths: Option<Vec<String>>,
}

impl SkillsPlugin {
    /// A builder with no search paths.
    pub fn builder() -> (b: SkillsPluginBuilder)
        ensures
            b.paths_spec() == Seq::<Seq<char>>::empty(),
    {
        SkillsPluginBuilder { search_paths: None }
    }
}

impl SkillsPluginBuilder {
    /// The search paths set so far.
    pub closed spec fn paths_spec(&self) -> Seq<Seq<char>> {
        match self.search_paths {
            Some(v) => views(v@),
            None => Seq::empty(),
        }
    }

    /// Sets the directories searched for skills.
    pub fn search_paths(self, paths: Vec<String>) -> (b: SkillsPluginBuilder)
        ensures
            b.paths_spec() == views(paths@),
    {
        SkillsPluginBuilder { search_paths: Some(paths) }
    }

    /// The directories to search, in order.
    pub fn paths(&self) -> (r: Vec<String>)
        ensures
            views(r@) == self.paths_spec(),
    {
        match &self.search_paths {
            Some(v) => copy_strings(v),
            None => {
                let r: Vec<String> = Vec::new();
                assert(views(r@) =~= Seq::<Seq<char>>::empty());
                r
            },
        }
    }
}

proof fn lemma_dfs_keeps_out(
    av: Seq<Skill>,
    stack: Seq<Seq<char>>,
    seen: Seq<Seq<char>>,
    out: Seq<Seq<char>>,
    fuel: nat,
)
    ensures
        dfs(av, stack, seen, out, fuel).len() >= out.len(),
        dfs(av, stack, seen, out, fuel).take(out.len() as int) == out,
    decreases fuel,
{
    if fuel > 0 && stack.len() > 0 {
        let n = stack.last();
        let rest = stack.drop_last();
        if seen.contains(n) {
            lemma_dfs_keeps_out(av, rest, seen, out, (fuel - 1) as nat);
        } else if skill_index(av, n) is Some {
            lemma_dfs_keeps_out(av, rest + needs_of(av, n), seen.push(n), out.push(n), (fuel - 1) as nat);
            let r = dfs(av, rest + needs_of(av, n), seen.push(n), out.push(n), (fuel - 1) as nat);
            assert(r.take(out.len() as int) =~= r.take(out.len() + 1int).take(out.len() as int));
            assert(out.push(n).take(out.len() as int) =~= out);
        } else {
            lemma_dfs_keeps_out(av, rest, seen.push(n), out, (fuel - 1) as nat);
        }
    } else {
        assert(out.take(out.len() as int) =~= out);
    }
}

proof fn lemma_resolve_has_self(av: Seq<Skill>, name: Seq<char>)
    requires
        skill_index(av, name) is Some,
    ensures
        resolve_spec(av, seq![name]).contains(name),
{
    let f = dfs_fuel(av, seq![name]);
    let stack = seq![name];
    assert(!Seq::<Seq<char>>::empty().contains(name));
    assert(stack.drop_last() =~= Seq::<Seq<char>>::empty());
    let rest = stack.drop_last() + needs_of(av, name);
    lemma_dfs_keeps_out(av, rest, seq![name], seq![name], (f - 1) as nat);
    let d = dfs(av, stack, Seq::empty(), Seq::empty(), f);
    assert(Seq::<Seq<char>>::empty().push(name) =~= seq![name]);
    assert(Seq::<Seq<char>>::empty().push(name) == seq![name]);
    assert(d == dfs(av, rest, seq![name], seq![name], (f - 1) as nat));
    assert(d.take(1) =~= seq![name]);
    assert(d[0] == name);
    let r = d.reverse();
    assert(r[d.len() - 1] == d[0]);
}

proof fn lemma_load_deps_grows(av: Seq<Skill>, loaded: Seq<Seq<char>>, deps: Seq<Seq<char>>, k: int)
    requires
        0 <= k <= deps.len(),
    ensures
        forall|j: int| 0 <= j < k ==> load_deps(av, loaded, deps, k).0.contains(#[trigger] deps[j]),
        forall|x: Seq<char>| loaded.contains(x) ==> load_deps(av, loaded, deps, k).0.contains(x),
    decreases k,
{
    if k > 0 {
        lemma_load_deps_grows(av, loaded, deps, k - 1);
        let (l, t) = load_deps(av, loaded, deps, k - 1);
        let d = deps[k - 1];
        if !l.contains(d) {
            assert forall|x: Seq<char>| l.contains(x) implies l.push(d).contains(x) by {
                let i = choose|i: int| 0 <= i < l.len() && l[i] == x;
                assert(l.push(d)[i] == x);
            }
            assert(l.push(d)[l.len() as int] == d);
        }
    }
}

/// Loading a skill twice adds nothing the second time: once loaded (or
/// when no such skill exists) a skill is not loaded again.
pub proof fn lemma_load_skill_idempotent(av: Seq<Skill>, loaded: Seq<Seq<char>>, name: Seq<char>)
    ensures
        load_skill(av, load_skill(av, loaded, name).0, name) == (load_skill(av, loaded, name).0, Seq::<char>::empty()),
{
    let l1 = load_skill(av, loaded, name).0;
    if loaded.contains(name) {
    } else if skill_index(av, name) is Some {
        let deps = resolve_spec(av, seq![name]);
        lemma_resolve_has_self(av, name);
        let j = choose|j: int| 0 <= j < deps.len() && deps[j] == name;
        lemma_load_deps_grows(av, loaded, deps, deps.len() as int);
        assert(l1.contains(deps[j]));
    } else {
        let f = dfs_fuel(av, seq![name]);
        let stack = seq![name];
        assert(stack.drop_last() =~= Seq::<Seq<char>>::empty());
        assert(!Seq::<Seq<char>>::empty().contains(name));
        let d = dfs(av, stack, Seq::empty(), Seq::empty(), f);
        assert(d == dfs(av, Seq::empty(), seq![name], Seq::empty(), (f - 1) as nat)) by {
            assert(Seq::<Seq<char>>::empty().push(name) =~= seq![name]);
        }
        assert(d.reverse() =~= Seq::<Seq<char>>::empty());
        assert(l1 == loaded);
    }
}


/// Whether some skill has the name `n`.
pub open spec fn is_skill(av: Seq<Skill>, n: Seq<char>) -> bool {
    skill_index(av, n) is Some
}

proof fn lemma_concat_contains(a: Seq<Seq<char>>, b: Seq<Seq<char>>, x: Seq<char>)
    ensures
        (a + b).contains(x) == (a.contains(x) || b.contains(x)),
{
    if a.contains(x) {
        let i = choose|i: int| 0 <= i < a.len() && a[i] == x;
        assert((a + b)[i] == x);
    }
    if b.contains(x) {
        let i = choose|i: int| 0 <= i < b.len() && b[i] == x;
        assert((a + b)[a.len() + i] == x);
    }
    if (a + b).contains(x) {
        let i = choose|i: int| 0 <= i < (a + b).len() && (a + b)[i] == x;
        if i < a.len() {
            assert(a[i] == x);
        } else {
            assert(b[i - a.len()] == x);
        }
    }
}

proof fn lemma_stack_split(stack: Seq<Seq<char>>, x: Seq<char>)
    requires
        stack.len() > 0,
    ensures
        stack.contains(x) == (stack.drop_last().contains(x) || x == stack.last()),
{
    assert(stack =~= stack.drop_last().push(stack.last()));
    lemma_push_contains(stack.drop_last(), stack.last(), x);
}

/// The search keeps its invariant: what it records are the seen skills,
/// and every need of a seen skill is seen or still on the stack. Then the
/// result holds what was recorded and every skill on the stack, holds
/// only skills, and holds the skills that each of its members needs.
proof fn lemma_dfs_closed(av: Seq<Skill>, stack: Seq<Seq<char>>, seen: Seq<Seq<char>>, out: Seq<Seq<char>>, fuel: nat)
    requires
        distinct_names(av),
        stack.len() + pending(av, seen) <= fuel,
        forall|x: Seq<char>| #[trigger] out.contains(x) ==> is_skill(av, x) && seen.contains(x),
        forall|x: Seq<char>| #[trigger] seen.contains(x) && is_skill(av, x) ==> out.contains(x),
        forall|x: Seq<char>, d: Seq<char>|
            seen.contains(x) && is_skill(av, x) && #[trigger] needs_of(av, x).contains(d) ==> seen.contains(d)
                || stack.contains(d),
    ensures
        forall|x: Seq<char>| #[trigger] out.contains(x) ==> dfs(av, stack, seen, out, fuel).contains(x),
        forall|x: Seq<char>| #[trigger] stack.contains(x) && is_skill(av, x) ==> dfs(av, stack, seen, out, fuel).contains(x),
        forall|x: Seq<char>| #[trigger] dfs(av, stack, seen, out, fuel).contains(x) ==> is_skill(av, x),
        forall|x: Seq<char>, d: Seq<char>|
            dfs(av, stack, seen, out, fuel).contains(x) && #[trigger] needs_of(av, x).contains(d) && is_skill(av, d)
                ==> dfs(av, stack, seen, out, fuel).contains(d),
    decreases fuel,
{
    let r = dfs(av, stack, seen, out, fuel);
    if fuel == 0 || stack.len() == 0 {
        assert(stack.len() == 0);
        assert(r == out);
        assert forall|x: Seq<char>, d: Seq<char>|
            r.contains(x) && #[trigger] needs_of(av, x).contains(d) && is_skill(av, d) implies r.contains(d) by {
            assert(seen.contains(x) && is_skill(av, x));
            assert(seen.contains(d));
        }
    } else {
        let n = stack.last();
        let rest = stack.drop_last();
        assert forall|x: Seq<char>| stack.contains(x) == (rest.contains(x) || x == n) by {
            lemma_stack_split(stack, x);
        }
        if seen.contains(n) {
            assert(r == dfs(av, rest, seen, out, (fuel - 1) as nat));
            assert forall|x: Seq<char>, d: Seq<char>|
                seen.contains(x) && is_skill(av, x) && #[trigger] needs_of(av, x).contains(d) implies seen.contains(d)
                    || rest.contains(d) by {
                assert(stack.contains(d) == (rest.contains(d) || d == n));
            }
            lemma_dfs_closed(av, rest, seen, out, (fuel - 1) as nat);
            assert forall|x: Seq<char>| #[trigger] stack.contains(x) && is_skill(av, x) implies r.contains(x) by {
                if x == n {
                    assert(out.contains(x));
                } else {
                    assert(rest.contains(x));
                }
            }
        } else if is_skill(av, n) {
            let k = skill_index(av, n)->0;
            let nd = needs_of(av, n);
            let st2 = rest + nd;
            let seen2 = seen.push(n);
            let out2 = out.push(n);
            assert(r == dfs(av, st2, seen2, out2, (fuel - 1) as nat));
            lemma_pending_mark(av, seen, n);
            assert(nd.len() == av[k].needs@.len());
            assert forall|x: Seq<char>| seen2.contains(x) == (seen.contains(x) || x == n) by {
                lemma_push_contains(seen, n, x);
            }
            assert forall|x: Seq<char>| out2.contains(x) == (out.contains(x) || x == n) by {
                lemma_push_contains(out, n, x);
            }
            assert forall|x: Seq<char>| st2.contains(x) == (rest.contains(x) || nd.contains(x)) by {
                lemma_concat_contains(rest, nd, x);
            }
            assert forall|x: Seq<char>| #[trigger] out2.contains(x) implies is_skill(av, x) && seen2.contains(x) by {}
            assert forall|x: Seq<char>| #[trigger] seen2.contains(x) && is_skill(av, x) implies out2.contains(x) by {}
            assert forall|x: Seq<char>, d: Seq<char>|
                seen2.contains(x) && is_skill(av, x) && #[trigger] needs_of(av, x).contains(d) implies seen2.contains(d)
                    || st2.contains(d) by {
                if x != n {
                    assert(seen.contains(d) || stack.contains(d));
                }
            }
            lemma_dfs_closed(av, st2, seen2, out2, (fuel - 1) as nat);
            assert forall|x: Seq<char>| #[trigger] stack.contains(x) && is_skill(av, x) implies r.contains(x) by {
                if x == n {
                    assert(out2.contains(x));
                } else {
                    assert(st2.contains(x));
                }
            }
            assert forall|x: Seq<char>| #[trigger] out.contains(x) implies r.contains(x) by {
                assert(out2.contains(x));
            }
        } else {
            let seen2 = seen.push(n);
            assert(r == dfs(av, rest, seen2, out, (fuel - 1) as nat));
            lemma_pending_mark(av, seen, n);
            assert forall|x: Seq<char>| seen2.contains(x) == (seen.contains(x) || x == n) by {
                lemma_push_contains(seen, n, x);
            }
            assert forall|x: Seq<char>| #[trigger] out.contains(x) implies is_skill(av, x) && seen2.contains(x) by {}
            assert forall|x: Seq<char>| #[trigger] seen2.contains(x) && is_skill(av, x) implies out.contains(x) by {}
            assert forall|x: Seq<char>, d: Seq<char>|
                seen2.contains(x) && is_skill(av, x) && #[trigger] needs_of(av, x).contains(d) implies seen2.contains(d)
                    || rest.contains(d) by {
                assert(seen.contains(d) || stack.contains(d));
            }
            lemma_dfs_closed(av, rest, seen2, out, (fuel - 1) as nat);
            assert forall|x: Seq<char>| #[trigger] stack.contains(x) && is_skill(av, x) implies r.contains(x) by {
                assert(rest.contains(x));
            }
        }
    }
}

/// Whether `path` is a chain of needs from a requested skill: it starts
/// with a name in `names`, and each name is needed by the one before it.
pub open spec fn need_chain(av: Seq<Skill>, names: Seq<Seq<char>>, path: Seq<Seq<char>>) -> bool {
    &&& path.len() > 0
    &&& names.contains(path[0])
    &&& forall|i: int| 0 <= i < path.len() - 1 ==> #[trigger] needs_of(av, path[i]).contains(path[i + 1])
}

/// Whether `x` is requested in `names` or needed, directly or through
/// other skills, by a requested skill.
pub open spec fn reachable(av: Seq<Skill>, names: Seq<Seq<char>>, x: Seq<char>) -> bool {
    exists|path: Seq<Seq<char>>| #[trigger] need_chain(av, names, path) && path.last() == x
}

proof fn lemma_reach_need(av: Seq<Skill>, names: Seq<Seq<char>>, y: Seq<char>, d: Seq<char>)
    requires
        reachable(av, names, y),
        needs_of(av, y).contains(d),
    ensures
        reachable(av, names, d),
{
    let p = choose|path: Seq<Seq<char>>| #[trigger] need_chain(av, names, path) && path.last() == y;
    let q = p.push(d);
    assert forall|i: int| 0 <= i < q.len() - 1 implies #[trigger] needs_of(av, q[i]).contains(q[i + 1]) by {
        if i < p.len() - 1 {
            assert(q[i] == p[i] && q[i + 1] == p[i + 1]);
        } else {
            assert(q[i] == y && q[i + 1] == d);
        }
    }
    assert(q[0] == p[0]);
    assert(need_chain(av, names, q) && q.last() == d);
}

proof fn lemma_requested_reachable(av: Seq<Skill>, names: Seq<Seq<char>>, x: Seq<char>)
    requires
        names.contains(x),
    ensures
        reachable(av, names, x),
{
    let p = seq![x];
    assert(need_chain(av, names, p) && p.last() == x);
}

/// What the search records is recorded once, and only when it was
/// requested or needed by something requested.
proof fn lemma_dfs_exact(
    av: Seq<Skill>,
    names: Seq<Seq<char>>,
    stack: Seq<Seq<char>>,
    seen: Seq<Seq<char>>,
    out: Seq<Seq<char>>,
    fuel: nat,
)
    requires
        no_repeats(out),
        forall|x: Seq<char>| #[trigger] out.contains(x) ==> seen.contains(x),
        forall|x: Seq<char>| #[trigger] stack.contains(x) ==> reachable(av, names, x),
        forall|x: Seq<char>| #[trigger] seen.contains(x) ==> reachable(av, names, x),
    ensures
        no_repeats(dfs(av, stack, seen, out, fuel)),
        forall|x: Seq<char>| #[trigger] dfs(av, stack, seen, out, fuel).contains(x) ==> reachable(av, names, x),
    decreases fuel,
{
    if fuel == 0 || stack.len() == 0 {
        assert forall|x: Seq<char>| #[trigger] out.contains(x) implies reachable(av, names, x) by {
            assert(seen.contains(x));
        }
    } else {
        let n = stack.last();
        let rest = stack.drop_last();
        assert forall|x: Seq<char>| stack.contains(x) == (rest.contains(x) || x == n) by {
            lemma_stack_split(stack, x);
        }
        assert(stack.contains(n));
        assert forall|x: Seq<char>| #[trigger] rest.contains(x) implies reachable(av, names, x) by {
            assert(stack.contains(x));
        }
        if seen.contains(n) {
            lemma_dfs_exact(av, names, rest, seen, out, (fuel - 1) as nat);
        } else {
            let seen2 = seen.push(n);
            assert forall|x: Seq<char>| seen2.contains(x) == (seen.contains(x) || x == n) by {
                lemma_push_contains(seen, n, x);
            }
            assert forall|x: Seq<char>| #[trigger] seen2.contains(x) implies reachable(av, names, x) by {}
            if is_skill(av, n) {
                let nd = needs_of(av, n);
                let st2 = rest + nd;
                let out2 = out.push(n);
                assert forall|x: Seq<char>| out2.contains(x) == (out.contains(x) || x == n) by {
                    lemma_push_contains(out, n, x);
                }
                assert forall|x: Seq<char>| st2.contains(x) == (rest.contains(x) || nd.contains(x)) by {
                    lemma_concat_contains(rest, nd, x);
                }
                assert forall|x: Seq<char>| #[trigger] st2.contains(x) implies reachable(av, names, x) by {
                    if nd.contains(x) {
                        lemma_reach_need(av, names, n, x);
                    }
                }
                assert forall|x: Seq<char>| #[trigger] out2.contains(x) implies seen2.contains(x) by {}
                assert(no_repeats(out2)) by {
                    assert forall|i: int, j: int| 0 <= i < j < out2.len() implies out2[i] != out2[j] by {
                        if j == out.len() {
                            assert(out.contains(out2[i]));
                        }
                    }
                }
                lemma_dfs_exact(av, names, st2, seen2, out2, (fuel - 1) as nat);
            } else {
                assert forall|x: Seq<char>| #[trigger] out.contains(x) implies seen2.contains(x) by {}
                lemma_dfs_exact(av, names, rest, seen2, out, (fuel - 1) as nat);
            }
        }
    }
}

/// Resolving a request gives each skill once, and only skills that were
/// requested or are needed, directly or through other skills, by a
/// requested one.
pub proof fn lemma_resolve_exact(av: Seq<Skill>, names: Seq<Seq<char>>)
    ensures
        no_repeats(resolve_spec(av, names)),
        forall|x: Seq<char>| #[trigger] resolve_spec(av, names).contains(x) ==> reachable(av, names, x),
{
    let e = Seq::<Seq<char>>::empty();
    let r = dfs(av, names, e, e, dfs_fuel(av, names));
    assert forall|x: Seq<char>| #[trigger] names.contains(x) implies reachable(av, names, x) by {
        lemma_requested_reachable(av, names, x);
    }
    lemma_dfs_exact(av, names, names, e, e, dfs_fuel(av, names));
    let rr = r.reverse();
    assert(resolve_spec(av, names) == rr);
    assert forall|i: int, j: int| 0 <= i < j < rr.len() implies rr[i] != rr[j] by {
        assert(rr[i] == r[r.len() - 1 - i] && rr[j] == r[r.len() - 1 - j]);
    }
    assert forall|x: Seq<char>| #[trigger] rr.contains(x) implies reachable(av, names, x) by {
        let i = choose|i: int| 0 <= i < rr.len() && rr[i] == x;
        assert(r[r.len() - 1 - i] == x);
        assert(r.contains(x));
    }
}

/// Resolving a request gives what loading it needs: every requested skill,
/// every skill that a resolved skill needs, and nothing but skills.
pub proof fn lemma_resolve_closed(av: Seq<Skill>, names: Seq<Seq<char>>)
    requires
        distinct_names(av),
    ensures
        forall|n: Seq<char>| #[trigger] names.contains(n) && is_skill(av, n) ==> resolve_spec(av, names).contains(n),
        forall|x: Seq<char>| #[trigger] resolve_spec(av, names).contains(x) ==> is_skill(av, x),
        forall|x: Seq<char>, d: Seq<char>|
            resolve_spec(av, names).contains(x) && #[trigger] needs_of(av, x).contains(d) && is_skill(av, d)
                ==> resolve_spec(av, names).contains(d),
{
    let e = Seq::<Seq<char>>::empty();
    let r = dfs(av, names, e, e, dfs_fuel(av, names));
    lemma_dfs_closed(av, names, e, e, dfs_fuel(av, names));
    assert forall|x: Seq<char>| r.reverse().contains(x) == r.contains(x) by {
        if r.contains(x) {
            let i = choose|i: int| 0 <= i < r.len() && r[i] == x;
            assert(r.reverse()[r.len() - 1 - i] == x);
        }
        if r.reverse().contains(x) {
            let i = choose|i: int| 0 <= i < r.len() && r.reverse()[i] == x;
            assert(r[r.len() - 1 - i] == x);
        }
    }
    assert(resolve_spec(av, names) == r.reverse());
    assert forall|n: Seq<char>| #[trigger] names.contains(n) && is_skill(av, n) implies resolve_spec(
        av,
        names,
    ).contains(n) by {
        assert(r.contains(n));
    }
    assert forall|x: Seq<char>| #[trigger] resolve_spec(av, names).contains(x) implies is_skill(av, x) by {
        assert(r.contains(x));
    }
    assert forall|x: Seq<char>, d: Seq<char>|
        resolve_spec(av, names).contains(x) && #[trigger] needs_of(av, x).contains(d) && is_skill(av, d) implies resolve_spec(
        av,
        names,
    ).contains(d) by {
        assert(r.contains(x));
        assert(r.contains(d));
    }
}

} // verus!

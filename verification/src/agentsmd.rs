//! A plugin that prepends prompt files (such as `AGENTS.md`) to the system
//! prompt: search paths with `${HOME}`, `${PWD}` and `${PROJECT_ROOT}`
//! placeholders, merged in order.
use vstd::prelude::*;
use crate::text::{chars_of, count_matches, count_occurrences, join, owned, replace_all, replace_occurrences, string_from_chars, trim, trim_spec, views};

verus! {

/// Why building the plugin failed.
pub enum SystemPromptError {
    /// The current working directory could not be determined.
    CurrentDirError(std::io::Error),
}

/// What the builder was given.
pub struct AgentsMdConfig {
    pub search_paths: Vec<String>,
    pub project_root: Option<String>,
    pub home: Option<String>,
    pub pwd: Option<String>,
}

/// Builds an `AgentsMdPlugin`.
pub struct AgentsMdPluginBuilder {
    search_paths: Option<Vec<String>>,
    project_root: Option<String>,
    home: Option<String>,
    pwd: Option<String>,
}

/// The plugin: the merged prompt, if any file had content.
pub struct AgentsMdPlugin {
    merged_prompt: Option<String>,
}

/// The separator between merged prompt files.
pub open spec fn prompt_separator() -> Seq<char> {
    "\n\n---\n\n"@
}

/// A search path with its placeholders filled in: `${HOME}` and `${PWD}`
/// always, `${PROJECT_ROOT}` when a root is known; a path that still names
/// `${PROJECT_ROOT}` without a root is skipped (`None`).
pub open spec fn resolve_placeholders(
    path: Seq<char>,
    home: Seq<char>,
    pwd: Seq<char>,
    root: Option<Seq<char>>,
) -> Option<Seq<char>> {
    let r = replace_all(replace_all(path, "${HOME}"@, home), "${PWD}"@, pwd);
    match root {
        Some(rt) => Some(replace_all(r, "${PROJECT_ROOT}"@, rt)),
        None => if count_matches(r, "${PROJECT_ROOT}"@) > 0 {
            None
        } else {
            Some(r)
        },
    }
}

/// Whether a file's content counts: it is not blank.
pub open spec fn counts(c: Option<Seq<char>>) -> bool {
    c matches Some(t) && trim_spec(t).len() > 0
}

/// The contents that count, in order.
pub open spec fn kept_contents(cs: Seq<Option<Seq<char>>>) -> Seq<Seq<char>> {
    cs.filter(|c: Option<Seq<char>>| counts(c)).map_values(|c: Option<Seq<char>>| c.unwrap())
}

/// The merged prompt of the files' contents (`None` for a file that could
/// not be read): the non-blank ones joined with the separator, or nothing.
pub open spec fn merged_prompt(cs: Seq<Option<Seq<char>>>) -> Option<Seq<char>> {
    let kept = kept_contents(cs);
    if kept.len() == 0 {
        None
    } else {
        Some(join(kept, prompt_separator()))
    }
}

/// The views of a list of optional texts.
pub open spec fn opt_views(v: Seq<Option<String>>) -> Seq<Option<Seq<char>>> {
    v.map_values(
        |c: Option<String>|
            match c {
                Some(s) => Some(s@),
                None => None,
            },
    )
}

fn replaced(s: &str, p: &str, q: &str) -> (r: String)
    ensures
        r@ == replace_all(s@, p@, q@),
{
    let a = chars_of(s);
    let b = chars_of(p);
    let c = chars_of(q);
    let out = replace_occurrences(a.as_slice(), b.as_slice(), c.as_slice());
    string_from_chars(out.as_slice())
}

/// Fills in the placeholders of one search path.
pub fn resolve_path(path: &str, home: &str, pwd: &str, root: Option<&str>) -> (r: Option<String>)
    ensures
        match (r, resolve_placeholders(path@, home@, pwd@, match root {
            Some(t) => Some(t@),
            None => None,
        })) {
            (Some(x), Some(y)) => x@ == y,
            (None, None) => true,
            _ => false,
        },
{
    let a = replaced(path, "${HOME}", home);
    let b = replaced(a.as_str(), "${PWD}", pwd);
    match root {
        Some(rt) => Some(replaced(b.as_str(), "${PROJECT_ROOT}", rt)),
        None => {
            let bc = chars_of(b.as_str());
            let pc = chars_of("${PROJECT_ROOT}");
            if count_occurrences(bc.as_slice(), pc.as_slice()) > 0 {
                None
            } else {
                Some(b)
            }
        },
    }
}

impl AgentsMdPlugin {
    /// A builder with no search paths and nothing set.
    pub fn builder() -> (b: AgentsMdPluginBuilder)
        ensures
            b.paths_spec() == Seq::<Seq<char>>::empty(),
            b.home_spec() is None,
            b.pwd_spec() is None,
            b.root_spec() is None,
    {
        AgentsMdPluginBuilder { search_paths: None, project_root: None, home: None, pwd: None }
    }

    /// The merged prompt.
    pub closed spec fn prompt_spec(&self) -> Option<Seq<char>> {
        match self.merged_prompt {
            Some(p) => Some(p@),
            None => None,
        }
    }

    /// The plugin for the given file contents, in search-path order.
    pub fn from_contents(contents: Vec<Option<String>>) -> (p: AgentsMdPlugin)
        ensures
            p.prompt_spec() == merged_prompt(opt_views(contents@)),
    {
        let ghost cv = opt_views(contents@);
        let mut kept: Vec<String> = Vec::new();
        proof {
            reveal(Seq::filter);
            assert(cv.take(0) =~= Seq::<Option<Seq<char>>>::empty());
            assert(views(kept@) =~= kept_contents(cv.take(0)));
        }
        for i in 0..contents.len()
            invariant
                cv == opt_views(contents@),
                views(kept@) == kept_contents(cv.take(i as int)),
        {
            let ghost pre = cv.take(i as int);
            proof {
                assert(cv.take(i + 1) =~= pre.push(cv[i as int]));
                pre.lemma_filter_push(cv[i as int], |c: Option<Seq<char>>| counts(c));
            }
            match &contents[i] {
                Some(c) => {
                    let cs = chars_of(c.as_str());
                    let t = trim(cs.as_slice());
                    if t.len() > 0 {
                        let ghost before = views(kept@);
                        kept.push(owned(c.as_str()));
                        proof {
                            assert(views(kept@) =~= before.push(c@));
                            assert(pre.filter(|c: Option<Seq<char>>| counts(c)).push(cv[i as int]).map_values(
                                |c: Option<Seq<char>>| c.unwrap(),
                            ) =~= pre.filter(|c: Option<Seq<char>>| counts(c)).map_values(
                                |c: Option<Seq<char>>| c.unwrap(),
                            ).push(c@));
                        }
                    }
                },
                None => {},
            }
        }
        proof {
            assert(cv.take(contents@.len() as int) =~= cv);
        }
        if kept.len() == 0 {
            AgentsMdPlugin { merged_prompt: None }
        } else {
            let sep = owned("\n\n---\n\n");
            let merged = crate::text::join_strings(&kept, sep.as_str());
            AgentsMdPlugin { merged_prompt: Some(merged) }
        }
    }

    /// The plugin's name, `agentsmd`.
    pub fn name(&self) -> (s: String)
        ensures
            s@ == "agentsmd"@,
    {
        owned("agentsmd")
    }

    /// The text this plugin adds to the system prompt: the merged prompt.
    pub fn prepare_system_prompt(&self) -> (r: Option<String>)
        ensures
            match (r, self.prompt_spec()) {
                (Some(x), Some(y)) => x@ == y,
                (None, None) => true,
                _ => false,
            },
    {
        match &self.merged_prompt {
            Some(p) => Some(owned(p.as_str())),
            None => None,
        }
    }
}

impl AgentsMdPluginBuilder {
    /// The search paths set so far.
    pub closed spec fn paths_spec(&self) -> Seq<Seq<char>> {
        match self.search_paths {
            Some(v) => views(v@),
            None => Seq::empty(),
        }
    }

    pub closed spec fn home_spec(&self) -> Option<Seq<char>> {
        match self.home {
            Some(h) => Some(h@),
            None => None,
        }
    }

    pub closed spec fn pwd_spec(&self) -> Option<Seq<char>> {
        match self.pwd {
            Some(h) => Some(h@),
            None => None,
        }
    }

    pub closed spec fn root_spec(&self) -> Option<Seq<char>> {
        match self.project_root {
            Some(h) => Some(h@),
            None => None,
        }
    }

    /// Sets the search paths, in order.
    pub fn search_paths(self, paths: Vec<String>) -> (b: AgentsMdPluginBuilder)
        ensures
            b.paths_spec() == views(paths@),
            b.home_spec() == self.home_spec(),
            b.pwd_spec() == self.pwd_spec(),
            b.root_spec() == self.root_spec(),
    {
        AgentsMdPluginBuilder { search_paths: Some(paths), ..self }
    }

    /// Sets the project root that `${PROJECT_ROOT}` stands for.
    pub fn project_root(self, root: String) -> (b: AgentsMdPluginBuilder)
        ensures
            b.paths_spec() == self.paths_spec(),
            b.home_spec() == self.home_spec(),
            b.pwd_spec() == self.pwd_spec(),
            b.root_spec() == Some(root@),
    {
        AgentsMdPluginBuilder { project_root: Some(root), ..self }
    }

    /// Sets the home directory that `${HOME}` stands for.
    pub fn home(self, home: String) -> (b: AgentsMdPluginBuilder)
        ensures
            b.paths_spec() == self.paths_spec(),
            b.home_spec() == Some(home@),
            b.pwd_spec() == self.pwd_spec(),
            b.root_spec() == self.root_spec(),
    {
        AgentsMdPluginBuilder { home: Some(home), ..self }
    }

    /// Sets the working directory that `${PWD}` stands for.
    pub fn pwd(self, pwd: String) -> (b: AgentsMdPluginBuilder)
        ensures
            b.paths_spec() == self.paths_spec(),
            b.home_spec() == self.home_spec(),
            b.pwd_spec() == Some(pwd@),
            b.root_spec() == self.root_spec(),
    {
        AgentsMdPluginBuilder { pwd: Some(pwd), ..self }
    }

    /// The home directory set, if any.
    pub fn home_setting(&self) -> (r: Option<&String>)
        ensures
            match r {
                Some(h) => self.home_spec() == Some(h@),
                None => self.home_spec() is None,
            },
    {
        match &self.home {
            Some(h) => Some(h),
            None => None,
        }
    }

    /// The working directory set, if any.
    pub fn pwd_setting(&self) -> (r: Option<&String>)
        ensures
            match r {
                Some(h) => self.pwd_spec() == Some(h@),
                None => self.pwd_spec() is None,
            },
    {
        match &self.pwd {
            Some(h) => Some(h),
            None => None,
        }
    }

    /// The files to read, in search-path order: each search path with its
    /// placeholders filled in, skipping those that need an unknown project
    /// root.
    pub fn resolved_paths(&self, home: &str, pwd: &str) -> (r: Vec<String>)
        ensures
            views(r@) == self.paths_spec().map_values(
                |p: Seq<char>| resolve_placeholders(p, home@, pwd@, self.root_spec()),
            ).filter(|o: Option<Seq<char>>| o is Some).map_values(|o: Option<Seq<char>>| o.unwrap()),
    {
        let empty: Vec<String> = Vec::new();
        let paths = match &self.search_paths {
            Some(v) => v,
            None => &empty,
        };
        let root: Option<&str> = match &self.project_root {
            Some(r) => Some(r.as_str()),
            None => None,
        };
        assert(match root {
            Some(r) => self.root_spec() == Some(r@),
            None => self.root_spec() is None,
        });
        let ghost rs = self.paths_spec().map_values(
            |p: Seq<char>| resolve_placeholders(p, home@, pwd@, self.root_spec()),
        );
        assert(self.paths_spec() == views(paths@));
        let mut out: Vec<String> = Vec::new();
        proof {
            reveal(Seq::filter);
            assert(rs.take(0) =~= Seq::<Option<Seq<char>>>::empty());
            assert(views(out@) =~= Seq::<Seq<char>>::empty());
        }
        for i in 0..paths.len()
            invariant
                rs == self.paths_spec().map_values(
                    |p: Seq<char>| resolve_placeholders(p, home@, pwd@, self.root_spec()),
                ),
                self.paths_spec() == views(paths@),
                match root {
                    Some(r) => self.root_spec() == Some(r@),
                    None => self.root_spec() is None,
                },
                views(out@) == rs.take(i as int).filter(|o: Option<Seq<char>>| o is Some).map_values(
                    |o: Option<Seq<char>>| o.unwrap(),
                ),
        {
            let ghost pre = rs.take(i as int);
            proof {
                assert(rs[i as int] == resolve_placeholders(paths@[i as int]@, home@, pwd@, self.root_spec()));
                assert(rs.take(i + 1) =~= pre.push(rs[i as int]));
                pre.lemma_filter_push(rs[i as int], |o: Option<Seq<char>>| o is Some);
            }
            match resolve_path(paths[i].as_str(), home, pwd, root) {
                Some(p) => {
                    let ghost before = views(out@);
                    let ghost pv = p@;
                    out.push(p);
                    proof {
                        assert(views(out@) =~= before.push(pv));
                        assert(pre.filter(|o: Option<Seq<char>>| o is Some).push(rs[i as int]).map_values(
                            |o: Option<Seq<char>>| o.unwrap(),
                        ) =~= pre.filter(|o: Option<Seq<char>>| o is Some).map_values(
                            |o: Option<Seq<char>>| o.unwrap(),
                        ).push(pv));
                    }
                },
                None => {},
            }
        }
        proof {
            assert(rs.take(paths@.len() as int) =~= rs);
        }
        out
    }
}

/// A file that could not be read, or whose content is blank, changes
/// nothing in the merged prompt.
pub proof fn lemma_blank_file_adds_nothing(cs: Seq<Option<Seq<char>>>, c: Option<Seq<char>>)
    requires
        !counts(c),
    ensures
        merged_prompt(cs.push(c)) == merged_prompt(cs),
{
    cs.lemma_filter_push(c, |x: Option<Seq<char>>| counts(x));
    assert(kept_contents(cs.push(c)) =~= kept_contents(cs));
}

/// A non-blank file is merged after all earlier ones, behind the separator.
pub proof fn lemma_file_appends(cs: Seq<Option<Seq<char>>>, t: Seq<char>)
    requires
        counts(Some(t)),
    ensures
        merged_prompt(cs.push(Some(t))) == Some(match merged_prompt(cs) {
            Some(p) => p + prompt_separator() + t,
            None => t,
        }),
{
    cs.lemma_filter_push(Some(t), |x: Option<Seq<char>>| counts(x));
    let k = kept_contents(cs);
    assert(kept_contents(cs.push(Some(t))) =~= k.push(t));
    let kk = k.push(t);
    assert(kk.drop_last() =~= k);
    if k.len() == 0 {
        assert(kk =~= seq![t]);
    }
}

} // verus!

//! Skills: extra instructions loaded on demand, read from `SKILL.md` files.
use vstd::prelude::*;
use crate::text::{
    chars_eq, chars_of, find_char, has_prefix, join, lines, lines_spec, texts, owned, push_chars, push_str,
    slice_chars, starts_with, string_from_chars, trim, trim_spec,
};

verus! {

/// A reference file of a skill: its title and its path in the skill's
/// directory.
#[derive(Debug, PartialEq)]
pub struct Reference {
    pub title: String,
    pub path: String,
}

/// Index of the first line after the opening one whose trimmed text is `---`.
pub open spec fn closing_fence(ls: Seq<Seq<char>>) -> Option<int> {
    if exists|i: int| 1 <= i < ls.len() && trim_spec(ls[i]) == "---"@ {
        Some(choose|i: int| 1 <= i < ls.len() && trim_spec(ls[i]) == "---"@ && forall|j: int| 1 <= j < i ==> trim_spec(ls[j]) != "---"@)
    } else {
        None
    }
}

/// The front matter and the body of a skill file. A file whose first line
/// is `---` and which has a later `---` line has its front matter between
/// them (lines joined by `\n`) and its body after (joined, then trimmed);
/// any other file has no front matter and is all body (trimmed).
pub open spec fn frontmatter_spec(raw: Seq<char>) -> (Seq<char>, Seq<char>) {
    let ls = lines_spec(raw);
    if ls.len() > 0 && trim_spec(ls[0]) == "---"@ && closing_fence(ls) is Some {
        let i = closing_fence(ls)->0;
        (join(ls.subrange(1, i), seq!['\n']), trim_spec(join(ls.skip(i + 1), seq!['\n'])))
    } else {
        (Seq::empty(), trim_spec(raw))
    }
}

/// Splits a skill file into its front matter and its body.
pub fn split_frontmatter(raw: &str) -> (r: (String, String))
    ensures
        (r.0@, r.1@) == frontmatter_spec(raw@),
{
    let cs = chars_of(raw);
    let ls = lines(cs.as_slice());
    let fence = chars_of("---");
    let ghost lv = texts(ls@);
    if ls.len() > 0 {
        let first = trim(ls[0].as_slice());
        proof {
            assert(lv[0] == ls@[0]@);
        }
        if chars_eq(first.as_slice(), fence.as_slice()) {
            let n = ls.len();
            let mut i: usize = 1;
            while i < n && !chars_eq(trim(ls[i].as_slice()).as_slice(), fence.as_slice())
                invariant
                    1 <= i <= n,
                    n == ls@.len(),
                    lv == texts(ls@),
                    fence@ == "---"@,
                    forall|j: int| 1 <= j < i ==> trim_spec(lv[j]) != "---"@,
                decreases n - i,
            {
                proof {
                    assert(lv[i as int] == ls@[i as int]@);
                }
                i = i + 1;
            }
            if i < n {
                proof {
                    assert(lv[i as int] == ls@[i as int]@);
                    let c = choose|k: int| 1 <= k < lv.len() && trim_spec(lv[k]) == "---"@ && forall|j: int| 1 <= j < k ==> trim_spec(lv[j]) != "---"@;
                    assert(1 <= i < lv.len() && trim_spec(lv[i as int]) == "---"@ && forall|j: int| 1 <= j < i ==> trim_spec(lv[j]) != "---"@);
                    if c < i {
                        assert(trim_spec(lv[c]) != "---"@);
                    } else if c > i {
                        assert(trim_spec(lv[i as int]) != "---"@);
                    }
                    assert(closing_fence(lv) == Some(i as int));
                }
                let sep = ['\n'];
                assert(sep@ =~= seq!['\n']);
                let yaml = crate::text::join_range(&ls, 1, i, &sep);
                let body = crate::text::join_range(&ls, i + 1, n, &sep);
                let body_t = trim(body.as_slice());
                proof {
                    assert(lv.subrange(i + 1, n as int) =~= lv.skip(i + 1));
                }
                return (string_from_chars(yaml.as_slice()), string_from_chars(body_t.as_slice()));
            } else {
                proof {
                    assert(!exists|k: int| 1 <= k < lv.len() && trim_spec(lv[k]) == "---"@);
                }
            }
        }
    }
    let all = trim(cs.as_slice());
    (String::new(), string_from_chars(all.as_slice()))
}

/// A path without a leading `./`.
pub open spec fn strip_dot_slash(p: Seq<char>) -> Seq<char> {
    if has_prefix(p, "./"@) {
        p.skip(2)
    } else {
        p
    }
}

/// The markdown link `[title](path)` of a line: the first `[`, `]`, `(`
/// and `)` of the line, in that order; the path without a leading `./`.
pub open spec fn link_of(l: Seq<char>) -> Option<(Seq<char>, Seq<char>)> {
    let a = crate::text::first_index_of(l, '[');
    let b = crate::text::first_index_of(l, ']');
    let c = crate::text::first_index_of(l, '(');
    let d = crate::text::first_index_of(l, ')');
    if a is Some && b is Some && c is Some && d is Some && a->0 < b->0 && b->0 < c->0 && c->0 < d->0 {
        Some((l.subrange(a->0 + 1, b->0), strip_dot_slash(l.subrange(c->0 + 1, d->0))))
    } else {
        None
    }
}

/// The references listed in the lines `ls`: links on the lines of a
/// `## References` section, which ends at the next line starting with `##`.
#[verifier::opaque]
pub open spec fn refs_spec(ls: Seq<Seq<char>>, inside: bool) -> Seq<(Seq<char>, Seq<char>)>
    decreases ls.len(),
{
    if ls.len() == 0 {
        Seq::empty()
    } else {
        let l = ls[0];
        if has_prefix(l, "## References"@) {
            refs_spec(ls.drop_first(), true)
        } else {
            let inside2 = inside && !has_prefix(l, "##"@);
            let here = if inside2 {
                match link_of(l) {
                    Some(p) => seq![p],
                    None => Seq::empty(),
                }
            } else {
                Seq::empty()
            };
            here + refs_spec(ls.drop_first(), inside2)
        }
    }
}

pub open spec fn refs_view(v: Seq<Reference>) -> Seq<(Seq<char>, Seq<char>)> {
    v.map_values(|r: Reference| (r.title@, r.path@))
}

proof fn lemma_refs_step(ls: Seq<Seq<char>>, inside: bool)
    requires
        ls.len() > 0,
    ensures
        refs_spec(ls, inside) == (if has_prefix(ls[0], "## References"@) {
            refs_spec(ls.drop_first(), true)
        } else {
            let inside2 = inside && !has_prefix(ls[0], "##"@);
            (if inside2 {
                match link_of(ls[0]) {
                    Some(p) => seq![p],
                    None => Seq::empty(),
                }
            } else {
                Seq::empty()
            }) + refs_spec(ls.drop_first(), inside2)
        }),
{
    reveal(refs_spec);
}

fn link_in_line(l: &[char]) -> (r: Option<Reference>)
    ensures
        match r {
            Some(x) => link_of(l@) == Some((x.title@, x.path@)),
            None => link_of(l@) is None,
        },
{
    let a = find_char(l, '[');
    let b = find_char(l, ']');
    let c = find_char(l, '(');
    let d = find_char(l, ')');
    match (a, b, c, d) {
        (Some(a), Some(b), Some(c), Some(d)) => {
            if a < b && b < c && c < d {
                let title = slice_chars(l, a + 1, b);
                let path = slice_chars(l, c + 1, d);
                let dot = chars_of("./");
                proof {
                    reveal_strlit("./");
                }
                let clean = if starts_with(path.as_slice(), dot.as_slice()) {
                    slice_chars(path.as_slice(), 2, path.len())
                } else {
                    path
                };
                proof {
                    assert(path@.skip(2) =~= path@.subrange(2, path@.len() as int));
                }
                Some(Reference { title: string_from_chars(title.as_slice()), path: string_from_chars(clean.as_slice()) })
            } else {
                None
            }
        },
        _ => None,
    }
}

/// The references a skill's body lists under `## References`.
pub fn extract_references(content: &str) -> (r: Vec<Reference>)
    ensures
        refs_view(r@) == refs_spec(lines_spec(content@), false),
{
    let cs = chars_of(content);
    let ls = lines(cs.as_slice());
    let ghost lv = texts(ls@);
    let heading = chars_of("## References");
    let hashes = chars_of("##");
    let mut refs: Vec<Reference> = Vec::new();
    let mut inside = false;
    let n = ls.len();
    proof {
        assert(lv.skip(0) =~= lv);
        assert(refs_view(refs@) + refs_spec(lv.skip(0), inside) =~= refs_spec(lv, false));
    }
    for i in 0..n
        invariant
            n == ls@.len(),
            lv == texts(ls@),
            heading@ == "## References"@,
            hashes@ == "##"@,
            refs_view(refs@) + refs_spec(lv.skip(i as int), inside) == refs_spec(lv, false),
    {
        let line = &ls[i];
        let ghost before = refs_view(refs@);
        proof {
            assert(lv.skip(i as int)[0] == line@);
            assert(lv.skip(i as int).drop_first() =~= lv.skip(i + 1));
            lemma_refs_step(lv.skip(i as int), inside);
        }
        if starts_with(line.as_slice(), heading.as_slice()) {
            inside = true;
        } else {
            if inside && starts_with(line.as_slice(), hashes.as_slice()) {
                inside = false;
            }
            if inside {
                match link_in_line(line.as_slice()) {
                    Some(x) => {
                        refs.push(x);
                        proof {
                            assert(refs_view(refs@) =~= before.push((x.title@, x.path@)));
                            assert(refs_view(refs@) + refs_spec(lv.skip(i + 1), inside) =~= before + (seq![(x.title@, x.path@)] + refs_spec(lv.skip(i + 1), inside)));
                        }
                    },
                    None => {
                        assert(refs_view(refs@) + refs_spec(lv.skip(i + 1), inside) =~= before + (Seq::empty() + refs_spec(lv.skip(i + 1), inside)));
                    },
                }
            } else {
                assert(refs_view(refs@) + refs_spec(lv.skip(i + 1), inside) =~= before + (Seq::empty() + refs_spec(lv.skip(i + 1), inside)));
            }
        }
    }
    proof {
        reveal(refs_spec);
        assert(lv.skip(n as int) =~= Seq::<Seq<char>>::empty());
        assert(refs_view(refs@) + refs_spec(lv.skip(n as int), inside) =~= refs_view(refs@));
    }
    refs
}

} // verus!

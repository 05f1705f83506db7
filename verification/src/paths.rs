//! Path text: joining, home-directory expansion, component prefixes.
//!
//! Paths are handled as text with `/` separators, as on Unix.
use vstd::prelude::*;
use crate::text::{chars_eq, chars_of, has_prefix, owned, push_chars, push_str, slice_chars, starts_with, string_from_chars};

verus! {

/// Whether a path is absolute (`Path::is_absolute` on Unix: it starts with
/// the root `/`).
pub open spec fn is_abs(p: Seq<char>) -> bool {
    p.len() > 0 && p[0] == '/'
}

/// `base` joined with `p` (`Path::join` on Unix): an absolute `p` replaces
/// the base; otherwise `p` is appended, after a `/` unless the base is empty
/// or already ends with one.
pub open spec fn join_spec(base: Seq<char>, p: Seq<char>) -> Seq<char> {
    if is_abs(p) {
        p
    } else if base.len() == 0 || base.last() == '/' {
        base + p
    } else {
        base + seq!['/'] + p
    }
}

/// Joins `p` onto `base`.
pub fn join_path(base: &str, p: &str) -> (r: String)
    ensures
        r@ == join_spec(base@, p@),
{
    let b = chars_of(base);
    let q = chars_of(p);
    if q.len() > 0 && q[0] == '/' {
        return string_from_chars(q.as_slice());
    }
    let mut r = string_from_chars(b.as_slice());
    if !(b.len() == 0 || b[b.len() - 1] == '/') {
        push_chars(&mut r, &['/']);
        assert(seq!['/'] =~= [ '/' ]@);
    }
    push_chars(&mut r, q.as_slice());
    r
}

/// `~` and `~/rest` expanded against the home directory `home`; any other
/// path, or any path when the home is unknown, is left as it is.
pub open spec fn expand_tilde_spec(p: Seq<char>, home: Option<Seq<char>>) -> Seq<char> {
    match home {
        Some(h) => if p == "~"@ {
            h
        } else if has_prefix(p, "~/"@) {
            join_spec(h, p.skip(2))
        } else {
            p
        },
        None => p,
    }
}

/// Expands a leading `~` of `p` against `home`.
pub fn expand_tilde_with(p: &str, home: Option<&str>) -> (r: String)
    ensures
        r@ == expand_tilde_spec(p@, match home {
            Some(h) => Some(h@),
            None => None,
        }),
{
    match home {
        Some(h) => {
            let cs = chars_of(p);
            let tilde = chars_of("~");
            let tilde_slash = chars_of("~/");
            proof {
                reveal_strlit("~/");
            }
            if chars_eq(cs.as_slice(), tilde.as_slice()) {
                owned(h)
            } else if starts_with(cs.as_slice(), tilde_slash.as_slice()) {
                let rest = slice_chars(cs.as_slice(), 2, cs.len());
                let rest_s = string_from_chars(rest.as_slice());
                proof {
                    assert(rest@ =~= p@.skip(2));
                }
                join_path(h, rest_s.as_str())
            } else {
                owned(p)
            }
        },
        None => owned(p),
    }
}

/// Calls `dirs::home_dir` and renders it with `to_string_lossy`. The home
/// directory comes from the environment, so nothing is promised of it.
#[verifier::external_body]
pub(crate) fn home_dir() -> Option<String> {
    match dirs::home_dir() {
        Some(h) => Some(h.to_string_lossy().into_owned()),
        None => None,
    }
}

/// Expands a leading `~` of `p` against the current home directory.
pub fn expand_tilde(p: &str) -> (r: String)
    ensures
        exists|home: Option<Seq<char>>| r@ == expand_tilde_spec(p@, home),
{
    let home = home_dir();
    match home {
        Some(h) => {
            let r = expand_tilde_with(p, Some(h.as_str()));
            assert(r@ == expand_tilde_spec(p@, Some(h@)));
            r
        },
        None => {
            let r = expand_tilde_with(p, None);
            assert(r@ == expand_tilde_spec(p@, None));
            r
        },
    }
}

/// Whether a piece of a path is a normal component (not empty, not `.`).
pub open spec fn keep(c: Seq<char>) -> bool {
    c.len() > 0 && c != seq!['.']
}

/// Components finished so far and the piece being read, scanning `p`.
pub open spec fn comps_acc(p: Seq<char>) -> (Seq<Seq<char>>, Seq<char>)
    decreases p.len(),
{
    if p.len() == 0 {
        (Seq::empty(), Seq::empty())
    } else {
        let (d, c) = comps_acc(p.drop_last());
        if p.last() == '/' {
            (
                if keep(c) {
                    d.push(c)
                } else {
                    d
                },
                Seq::empty(),
            )
        } else {
            (d, c.push(p.last()))
        }
    }
}

/// The normal components of a path: the pieces between `/` separators,
/// without empty ones and `.` (what `Path::components` yields, after the
/// root, for a path with no `..`).
pub open spec fn components(p: Seq<char>) -> Seq<Seq<char>> {
    let (d, c) = comps_acc(p);
    if keep(c) {
        d.push(c)
    } else {
        d
    }
}

/// Whether `p` lies at or under `root`, comparing whole components
/// (`Path::starts_with`).
pub open spec fn under_spec(p: Seq<char>, root: Seq<char>) -> bool {
    &&& is_abs(p) == is_abs(root)
    &&& components(root).len() <= components(p).len()
    &&& components(p).take(components(root).len() as int) == components(root)
}

pub open spec fn comps_view(v: Seq<Vec<char>>) -> Seq<Seq<char>> {
    v.map_values(|c: Vec<char>| c@)
}

fn keep_exec(c: &Vec<char>) -> (b: bool)
    ensures
        b == keep(c@),
{
    let b = c.len() > 0 && !(c.len() == 1 && c[0] == '.');
    proof {
        if c@.len() == 1 && c@[0] == '.' {
            assert(c@ =~= seq!['.']);
        }
    }
    b
}

/// The normal components of `p`.
pub fn components_of(p: &[char]) -> (r: Vec<Vec<char>>)
    ensures
        comps_view(r@) == components(p@),
{
    let mut done: Vec<Vec<char>> = Vec::new();
    let mut cur: Vec<char> = Vec::new();
    let n = p.len();
    proof {
        assert(p@.take(0) =~= Seq::<char>::empty());
        assert(comps_view(done@) =~= Seq::<Seq<char>>::empty());
    }
    for i in 0..n
        invariant
            n == p@.len(),
            (comps_view(done@), cur@) == comps_acc(p@.take(i as int)),
    {
        proof {
            assert(p@.take(i + 1).drop_last() =~= p@.take(i as int));
            assert(p@.take(i + 1).last() == p@[i as int]);
        }
        let ghost old_done = comps_view(done@);
        let ghost old_cur = cur@;
        if p[i] == '/' {
            if keep_exec(&cur) {
                let mut c: Vec<char> = Vec::new();
                std::mem::swap(&mut c, &mut cur);
                done.push(c);
                proof {
                    assert(comps_view(done@) =~= old_done.push(old_cur));
                }
            } else {
                cur = Vec::new();
            }
            proof {
                assert(cur@ =~= Seq::<char>::empty());
            }
        } else {
            cur.push(p[i]);
        }
    }
    proof {
        assert(p@.take(n as int) =~= p@);
    }
    let ghost d0 = comps_view(done@);
    if keep_exec(&cur) {
        done.push(cur);
        proof {
            assert(comps_view(done@) =~= d0.push(cur@));
        }
    }
    done
}

/// Whether `p` lies at or under `root`.
pub fn is_under(p: &str, root: &str) -> (b: bool)
    ensures
        b == under_spec(p@, root@),
{
    let pc = chars_of(p);
    let rc = chars_of(root);
    let pa = pc.len() > 0 && pc[0] == '/';
    let ra = rc.len() > 0 && rc[0] == '/';
    assert(pa == is_abs(p@) && ra == is_abs(root@));
    if pa != ra {
        return false;
    }
    let a = components_of(pc.as_slice());
    let r = components_of(rc.as_slice());
    if r.len() > a.len() {
        return false;
    }
    for i in 0..r.len()
        invariant
            r@.len() <= a@.len(),
            comps_view(a@) == components(p@),
            comps_view(r@) == components(root@),
            is_abs(p@) == is_abs(root@),
            forall|j: int| 0 <= j < i ==> comps_view(a@)[j] == comps_view(r@)[j],
    {
        proof {
            assert(comps_view(a@)[i as int] == a@[i as int]@);
            assert(comps_view(r@)[i as int] == r@[i as int]@);
        }
        if !chars_eq(a[i].as_slice(), r[i].as_slice()) {
            proof {
                assert(comps_view(a@).take(r@.len() as int)[i as int] != comps_view(r@)[i as int]);
            }
            return false;
        }
    }
    proof {
        assert(comps_view(a@).take(r@.len() as int) =~= comps_view(r@));
    }
    true
}

} // verus!

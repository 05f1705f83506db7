//! The path rules of a sandbox confined to one root directory: relative
//! paths are taken under the root, and a path whose canonical form leaves
//! the canonical root is refused.
use vstd::prelude::*;
use crate::paths::{components, components_of, join_path, join_spec, is_under, under_spec};
use crate::sandbox::SandboxError;
use crate::text::{owned, push_str};

verus! {

/// A sandbox that confines every path to `root`.
pub struct ChrootSandbox {
    root: String,
}

/// `p` relative to `root` (`Path::strip_prefix`, keeping `p` when it does
/// not lie under `root`): the components after the root's, joined by `/`.
pub open spec fn relative_spec(p: Seq<char>, root: Seq<char>) -> Seq<char> {
    if under_spec(p, root) {
        crate::text::join(components(p).skip(components(root).len() as int), "/"@)
    } else {
        p
    }
}

/// The message of a refused path.
pub open spec fn escape_text(path: Seq<char>) -> Seq<char> {
    "path escapes sandbox root: "@ + path
}

/// The canonical form of a missing path: the canonical form `base` of its
/// nearest existing ancestor, with the missing names `tail` (nearest
/// first, as they were collected walking up) joined back on in reverse.
pub open spec fn rejoin_spec(base: Seq<char>, tail: Seq<Seq<char>>) -> Seq<char>
    decreases tail.len(),
{
    if tail.len() == 0 {
        base
    } else {
        join_spec(rejoin_spec(base, tail.drop_first()), tail[0])
    }
}

impl ChrootSandbox {
    /// The root the sandbox is confined to.
    pub closed spec fn root_spec(&self) -> Seq<char> {
        self.root@
    }

    /// A sandbox confined to `root`.
    pub fn new(root: String) -> (s: ChrootSandbox)
        ensures
            s.root_spec() == root@,
    {
        ChrootSandbox { root }
    }

    /// The root directory.
    pub fn root(&self) -> (r: &String)
        ensures
            r@ == self.root_spec(),
    {
        &self.root
    }

    /// The path a request names: an absolute path as it is, any other
    /// under the root.
    pub fn target(&self, path: &str) -> (t: String)
        ensures
            t@ == join_spec(self.root_spec(), path@),
    {
        join_path(self.root.as_str(), path)
    }

    /// The full glob pattern: an absolute pattern as it is, any other
    /// under the root.
    pub fn full_pattern(&self, pattern: &str) -> (t: String)
        ensures
            t@ == join_spec(self.root_spec(), pattern@),
    {
        join_path(self.root.as_str(), pattern)
    }

    /// Accepts a request for `path` when the canonical form of its target
    /// lies at or under the canonical root (whole components compared);
    /// otherwise refuses it as a read denial naming `path`.
    pub fn confine(path: &str, canon_target: &str, canon_root: &str) -> (r: Result<(), SandboxError>)
        ensures
            under_spec(canon_target@, canon_root@) ==> r is Ok,
            !under_spec(canon_target@, canon_root@) ==> (r matches Err(SandboxError::ReadDenied(m)) && m@
                == escape_text(path@)),
    {
        if is_under(canon_target, canon_root) {
            Ok(())
        } else {
            let mut m = owned("path escapes sandbox root: ");
            push_str(&mut m, path);
            Err(SandboxError::ReadDenied(m))
        }
    }

    /// A path as the sandbox reports it: relative to the root when it lies
    /// under it, else as it is.
    pub fn relative(&self, path: &str) -> (r: String)
        ensures
            r@ == relative_spec(path@, self.root_spec()),
    {
        if !is_under(path, self.root.as_str()) {
            return owned(path);
        }
        let pc = crate::text::chars_of(path);
        let rc = crate::text::chars_of(self.root.as_str());
        let a = components_of(pc.as_slice());
        let b = components_of(rc.as_slice());
        let sep = crate::text::chars_of("/");
        proof {
            reveal_strlit("/");
            assert(crate::text::texts(a@) =~= crate::paths::comps_view(a@));
            assert(crate::text::texts(b@) =~= crate::paths::comps_view(b@));
            assert(crate::text::texts(a@).subrange(b@.len() as int, a@.len() as int) =~= components(path@).skip(
                components(self.root@).len() as int,
            ));
        }
        let j = crate::text::join_range(&a, b.len(), a.len(), sep.as_slice());
        crate::text::string_from_chars(j.as_slice())
    }

    /// Joins the missing names back onto the canonical ancestor.
    pub fn rejoin(base: &str, tail: &Vec<String>) -> (r: String)
        ensures
            r@ == rejoin_spec(base@, crate::text::views(tail@)),
    {
        let ghost tv = crate::text::views(tail@);
        let mut acc = owned(base);
        let mut i = tail.len();
        proof {
            assert(tv.skip(i as int) =~= Seq::<Seq<char>>::empty());
        }
        while i > 0
            invariant
                i <= tail@.len(),
                tv == crate::text::views(tail@),
                acc@ == rejoin_spec(base@, tv.skip(i as int)),
            decreases i,
        {
            i = i - 1;
            proof {
                assert(tv.skip(i as int).drop_first() =~= tv.skip(i + 1));
                assert(tv.skip(i as int)[0] == tail@[i as int]@);
            }
            acc = join_path(acc.as_str(), tail[i].as_str());
        }
        proof {
            assert(tv.skip(0) =~= tv);
        }
        acc
    }
}

} // verus!

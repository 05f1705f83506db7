//! The directory tree that the `Ls` tool prints: names in byte order,
//! files of one extension merged into one line, directories below their
//! parent, indented by depth.
use vstd::prelude::*;
use vstd::multiset::Multiset;
use vstd::relations::{sorted_by, total_ordering};
use crate::paths::{join_path, join_spec};
use crate::sandbox::SandboxError;
use crate::text::{chars_eq, join, join_range, slice_chars, texts};

verus! {

/// Lexicographic order of texts by code point, which is the byte order of
/// their UTF-8 encodings (the order of `str`): `a` comes strictly before `b`.
pub open spec fn lex_lt(a: Seq<char>, b: Seq<char>) -> bool
    decreases a.len(),
{
    if a.len() == 0 {
        b.len() > 0
    } else if b.len() == 0 {
        false
    } else if a[0] != b[0] {
        (a[0] as u32) < (b[0] as u32)
    } else {
        lex_lt(a.drop_first(), b.drop_first())
    }
}

/// `a` comes before `b` or equals it.
pub open spec fn lex_le(a: Seq<char>, b: Seq<char>) -> bool {
    a == b || lex_lt(a, b)
}

/// The order names are sorted by.
pub open spec fn name_order() -> spec_fn(Seq<char>, Seq<char>) -> bool {
    |a: Seq<char>, b: Seq<char>| lex_le(a, b)
}

pub proof fn lemma_lex_irrefl(a: Seq<char>)
    ensures
        !lex_lt(a, a),
    decreases a.len(),
{
    if a.len() > 0 {
        lemma_lex_irrefl(a.drop_first());
    }
}

pub proof fn lemma_lex_asym(a: Seq<char>, b: Seq<char>)
    requires
        lex_lt(a, b),
    ensures
        !lex_lt(b, a),
    decreases a.len(),
{
    if a.len() > 0 && b.len() > 0 && a[0] == b[0] {
        lemma_lex_asym(a.drop_first(), b.drop_first());
    }
}

pub proof fn lemma_lex_trans(a: Seq<char>, b: Seq<char>, c: Seq<char>)
    requires
        lex_lt(a, b),
        lex_lt(b, c),
    ensures
        lex_lt(a, c),
    decreases a.len(),
{
    if a.len() > 0 && b.len() > 0 && c.len() > 0 && a[0] == b[0] && b[0] == c[0] {
        lemma_lex_trans(a.drop_first(), b.drop_first(), c.drop_first());
    }
}

proof fn lemma_char_code(x: char, y: char)
    ensures
        x != y ==> (x as u32) != (y as u32),
{
}

pub proof fn lemma_lex_total(a: Seq<char>, b: Seq<char>)
    ensures
        a == b || lex_lt(a, b) || lex_lt(b, a),
    decreases a.len(),
{
    if a.len() > 0 && b.len() > 0 {
        if a[0] == b[0] {
            lemma_lex_total(a.drop_first(), b.drop_first());
            if a.drop_first() == b.drop_first() {
                assert(a =~= seq![a[0]] + a.drop_first());
                assert(b =~= seq![b[0]] + b.drop_first());
            }
        } else {
            lemma_char_code(a[0], b[0]);
            assert(lex_lt(a, b) == ((a[0] as u32) < (b[0] as u32)));
            assert(lex_lt(b, a) == ((b[0] as u32) < (a[0] as u32)));
        }
    } else if a.len() == 0 && b.len() == 0 {
        assert(a =~= b);
    } else if a.len() == 0 {
        assert(lex_lt(a, b));
    } else {
        assert(lex_lt(b, a));
    }
}

/// The name order is a total order.
pub proof fn lemma_name_order_total()
    ensures
        total_ordering(name_order()),
{
    assert forall|x: Seq<char>, y: Seq<char>|
        #[trigger] name_order()(x, y) && #[trigger] name_order()(y, x) implies x == y by {
        if x != y {
            lemma_lex_asym(x, y);
        }
    }
    assert forall|x: Seq<char>, y: Seq<char>, z: Seq<char>|
        #[trigger] name_order()(x, y) && #[trigger] name_order()(y, z) implies name_order()(x, z) by {
        if x != y && y != z {
            lemma_lex_trans(x, y, z);
        }
    }
    assert forall|x: Seq<char>, y: Seq<char>|
        #[trigger] name_order()(x, y) || #[trigger] name_order()(y, x) by {
        lemma_lex_total(x, y);
    }
}

/// Whether `a` comes strictly before `b`.
pub fn lex_less(a: &[char], b: &[char]) -> (r: bool)
    ensures
        r == lex_lt(a@, b@),
{
    let mut i: usize = 0;
    proof {
        assert(a@.skip(0) =~= a@);
        assert(b@.skip(0) =~= b@);
    }
    while i < a.len() && i < b.len() && a[i] == b[i]
        invariant
            i <= a@.len(),
            i <= b@.len(),
            lex_lt(a@, b@) == lex_lt(a@.skip(i as int), b@.skip(i as int)),
        decreases a@.len() - i,
    {
        proof {
            assert(a@.skip(i as int).drop_first() =~= a@.skip(i + 1));
            assert(b@.skip(i as int).drop_first() =~= b@.skip(i + 1));
        }
        i = i + 1;
    }
    if i == a.len() {
        i < b.len()
    } else if i == b.len() {
        false
    } else {
        (a[i] as u32) < (b[i] as u32)
    }
}

proof fn lemma_texts_insert(v: Seq<Vec<char>>, p: int, x: Vec<char>)
    requires
        0 <= p <= v.len(),
    ensures
        texts(v.insert(p, x)) == texts(v).insert(p, x@),
{
    assert(texts(v.insert(p, x)) =~= texts(v).insert(p, x@));
}

fn insert_sorted(v: &mut Vec<Vec<char>>, x: Vec<char>)
    requires
        sorted_by(texts(old(v)@), name_order()),
    ensures
        sorted_by(texts(final(v)@), name_order()),
        texts(final(v)@).to_multiset() == texts(old(v)@).to_multiset().insert(x@),
{
    let ghost old_t = texts(v@);
    let mut p: usize = 0;
    while p < v.len() && !lex_less(x.as_slice(), v[p].as_slice())
        invariant
            p <= v@.len(),
            old_t == texts(v@),
            sorted_by(old_t, name_order()),
            forall|j: int| 0 <= j < p ==> lex_le(#[trigger] old_t[j], x@),
        decreases v@.len() - p,
    {
        proof {
            lemma_lex_total(x@, v@[p as int]@);
            assert(old_t[p as int] == v@[p as int]@);
        }
        p = p + 1;
    }
    proof {
        lemma_name_order_total();
        lemma_texts_insert(v@, p as int, x);
    }
    v.insert(p, x);
    proof {
        let nt = texts(v@);
        assert(nt == old_t.insert(p as int, x@));
        assert forall|i: int, j: int| 0 <= i < j < nt.len() implies #[trigger] name_order()(nt[i], nt[j]) by {
            if j < p {
                assert(name_order()(old_t[i], old_t[j]));
            } else if j == p {
                assert(lex_le(old_t[i], x@));
            } else if i < p {
                assert(lex_le(old_t[i], x@));
                assert(lex_lt(x@, old_t[p as int]));
                assert(name_order()(old_t[p as int], old_t[j - 1]) || p == j - 1);
                if p < j - 1 {
                    assert(name_order()(old_t[i], x@));
                    assert(name_order()(x@, old_t[p as int]));
                    assert(name_order()(old_t[i], old_t[p as int]));
                }
            } else if i == p {
                assert(lex_lt(x@, old_t[p as int]));
                if p < j - 1 {
                    assert(name_order()(old_t[p as int], old_t[j - 1]));
                    assert(name_order()(x@, old_t[p as int]));
                }
            } else {
                assert(name_order()(old_t[i - 1], old_t[j - 1]));
            }
        }
        vstd::seq_lib::to_multiset_insert(old_t, p as int, x@);
    }
}

/// `names` sorted in name order.
pub fn sort_names(names: Vec<Vec<char>>) -> (r: Vec<Vec<char>>)
    ensures
        texts(r@) == texts(names@).sort_by(name_order()),
{
    broadcast use vstd::multiset::group_multiset_axioms;
    broadcast use vstd::seq_lib::group_to_multiset_ensures;

    let ghost t = texts(names@);
    let mut r: Vec<Vec<char>> = Vec::new();
    let mut rest = names;
    proof {
        assert(texts(r@) =~= Seq::<Seq<char>>::empty());
        assert(texts(r@).to_multiset() =~= Multiset::empty());
        assert(texts(r@).to_multiset().add(texts(rest@).to_multiset()) =~= t.to_multiset());
    }
    while rest.len() > 0
        invariant
            sorted_by(texts(r@), name_order()),
            texts(r@).to_multiset().add(texts(rest@).to_multiset()) == t.to_multiset(),
        decreases rest@.len(),
    {
        let ghost before = rest@;
        let x = rest.pop().unwrap();
        proof {
            assert(texts(before) =~= texts(rest@).push(x@));
            vstd::seq_lib::to_multiset_build(texts(rest@), x@);
        }
        let ghost rt = texts(r@);
        insert_sorted(&mut r, x);
        proof {
            assert(texts(r@).to_multiset().add(texts(rest@).to_multiset()) =~= rt.to_multiset().add(
                texts(before).to_multiset(),
            ));
        }
    }
    proof {
        assert(texts(rest@) =~= Seq::<Seq<char>>::empty());
        assert(texts(rest@).to_multiset() =~= Multiset::empty());
        assert(texts(r@).to_multiset() =~= t.to_multiset());
        lemma_name_order_total();
        t.lemma_sort_by_ensures(name_order());
        vstd::seq_lib::lemma_sorted_unique(texts(r@), t.sort_by(name_order()), name_order());
    }
    r
}

/// Index of the last `.` of a name, or -1.
pub open spec fn last_dot(n: Seq<char>) -> int
    decreases n.len(),
{
    if n.len() == 0 {
        -1
    } else if n.last() == '.' {
        n.len() - 1
    } else {
        last_dot(n.drop_last())
    }
}

/// The extension of a file name: from its last `.` on, unless that dot
/// starts the name (then there is none).
pub open spec fn ext_of(n: Seq<char>) -> Seq<char> {
    if last_dot(n) > 0 {
        n.skip(last_dot(n))
    } else {
        Seq::empty()
    }
}

/// A file name without its extension.
pub open spec fn stem_of(n: Seq<char>) -> Seq<char> {
    if last_dot(n) > 0 {
        n.take(last_dot(n))
    } else {
        n
    }
}

proof fn lemma_last_dot(n: Seq<char>, k: int)
    requires
        -1 <= k < n.len(),
        k >= 0 ==> n[k] == '.',
        forall|j: int| k < j < n.len() ==> n[j] != '.',
    ensures
        last_dot(n) == k,
    decreases n.len(),
{
    if n.len() > 0 && k < n.len() - 1 {
        lemma_last_dot(n.drop_last(), k);
    }
}

fn find_last_dot(n: &[char]) -> (r: Option<usize>)
    ensures
        match r {
            Some(d) => d == last_dot(n@) && d >= 0 && d < n@.len(),
            None => last_dot(n@) == -1,
        },
{
    let mut i: usize = n.len();
    while i > 0
        invariant
            i <= n@.len(),
            forall|j: int| i <= j < n@.len() ==> n@[j] != '.',
        decreases i,
    {
        if n[i - 1] == '.' {
            proof {
                lemma_last_dot(n@, i - 1);
            }
            return Some(i - 1);
        }
        i = i - 1;
    }
    proof {
        lemma_last_dot(n@, -1);
    }
    None
}

/// The extension of `n`.
pub fn extension(n: &[char]) -> (r: Vec<char>)
    ensures
        r@ == ext_of(n@),
{
    match find_last_dot(n) {
        Some(d) => {
            if d > 0 {
                crate::text::slice_chars(n, d, n.len())
            } else {
                Vec::new()
            }
        },
        None => Vec::new(),
    }
}

/// The stem of `n`.
pub fn stem(n: &[char]) -> (r: Vec<char>)
    ensures
        r@ == stem_of(n@),
{
    match find_last_dot(n) {
        Some(d) => {
            if d > 0 {
                crate::text::slice_chars(n, 0, d)
            } else {
                crate::text::slice_chars(n, 0, n.len())
            }
        },
        None => crate::text::slice_chars(n, 0, n.len()),
    }
}

/// `s` with each run of equal neighbours kept once.
pub open spec fn dedup(s: Seq<Seq<char>>) -> Seq<Seq<char>>
    decreases s.len(),
{
    if s.len() == 0 {
        s
    } else if s.len() > 1 && s[s.len() - 2] == s.last() {
        dedup(s.drop_last())
    } else {
        dedup(s.drop_last()).push(s.last())
    }
}

fn dedup_names(s: &Vec<Vec<char>>) -> (r: Vec<Vec<char>>)
    ensures
        texts(r@) == dedup(texts(s@)),
{
    let ghost t = texts(s@);
    let mut r: Vec<Vec<char>> = Vec::new();
    proof {
        assert(t.take(0) =~= Seq::<Seq<char>>::empty());
        assert(texts(r@) =~= Seq::<Seq<char>>::empty());
    }
    for i in 0..s.len()
        invariant
            t == texts(s@),
            texts(r@) == dedup(t.take(i as int)),
    {
        proof {
            assert(t.take(i + 1).drop_last() =~= t.take(i as int));
            assert(t.take(i + 1).last() == s@[i as int]@);
            if i > 0 {
                assert(t.take(i + 1)[i - 1] == s@[i - 1]@);
            }
        }
        if i == 0 || !crate::text::chars_eq(s[i - 1].as_slice(), s[i].as_slice()) {
            let c = crate::text::slice_chars(s[i].as_slice(), 0, s[i].len());
            let ghost before = texts(r@);
            r.push(c);
            proof {
                assert(s@[i as int]@.subrange(0, s@[i as int]@.len() as int) =~= s@[i as int]@);
                assert(texts(r@) =~= before.push(s@[i as int]@));
            }
        }
    }
    proof {
        assert(t.take(s@.len() as int) =~= t);
    }
    r
}

/// The extensions of `files`, each once, in name order.
pub open spec fn ext_order(files: Seq<Seq<char>>) -> Seq<Seq<char>> {
    dedup(files.map_values(|n: Seq<char>| ext_of(n)).sort_by(name_order()))
}

/// Whether a name has extension `e`.
pub open spec fn ext_is(e: Seq<char>) -> spec_fn(Seq<char>) -> bool {
    |n: Seq<char>| ext_of(n) == e
}

/// The files of `files` with extension `e`, in their order.
pub open spec fn group_of(files: Seq<Seq<char>>, e: Seq<char>) -> Seq<Seq<char>> {
    files.filter(ext_is(e))
}

/// The stems of a list of names.
pub open spec fn stems_of(g: Seq<Seq<char>>) -> Seq<Seq<char>> {
    g.map_values(|n: Seq<char>| stem_of(n))
}

/// The line text of one extension group: the name alone, or the stems in
/// braces followed by the extension (`{lib,main}.rs`).
pub open spec fn entry_text(g: Seq<Seq<char>>, e: Seq<char>) -> Seq<char> {
    if g.len() == 1 {
        g[0]
    } else {
        seq!['{'] + join(stems_of(g), seq![',']) + seq!['}'] + e
    }
}

/// The lines for the files of one directory (given in name order): one line
/// per extension, extensions in name order, each after `prefix`.
pub open spec fn file_lines(prefix: Seq<char>, files: Seq<Seq<char>>) -> Seq<char> {
    let es = ext_order(files);
    Seq::new(es.len(), |i: int| prefix + entry_text(group_of(files, es[i]), es[i]) + seq!['\n']).flatten()
}

/// The line of the `i`-th extension group.
pub open spec fn group_line(prefix: Seq<char>, files: Seq<Seq<char>>, es: Seq<Seq<char>>, i: int) -> Seq<char> {
    prefix + entry_text(group_of(files, es[i]), es[i]) + seq!['\n']
}

fn copy_chars(c: &Vec<char>) -> (r: Vec<char>)
    ensures
        r@ == c@,
{
    let r = slice_chars(c.as_slice(), 0, c.len());
    assert(c@.subrange(0, c@.len() as int) =~= c@);
    r
}

fn append(out: &mut Vec<char>, s: &[char])
    ensures
        final(out)@ == old(out)@ + s@,
{
    let ghost start = out@;
    for i in 0..s.len()
        invariant
            out@ == start + s@.take(i as int),
    {
        out.push(s[i]);
        proof {
            assert(s@.take(i + 1) =~= s@.take(i as int).push(s@[i as int]));
        }
    }
    proof {
        assert(s@.take(s@.len() as int) =~= s@);
    }
}

fn group(files: &Vec<Vec<char>>, e: &[char]) -> (g: Vec<Vec<char>>)
    ensures
        texts(g@) == group_of(texts(files@), e@),
{
    let ghost t = texts(files@);
    let mut g: Vec<Vec<char>> = Vec::new();
    proof {
        reveal(Seq::filter);
        assert(t.take(0) =~= Seq::<Seq<char>>::empty());
        assert(texts(g@) =~= Seq::<Seq<char>>::empty());
    }
    for i in 0..files.len()
        invariant
            t == texts(files@),
            texts(g@) == t.take(i as int).filter(ext_is(e@)),
    {
        proof {
            assert(t.take(i + 1) =~= t.take(i as int).push(files@[i as int]@));
            t.take(i as int).lemma_filter_push(files@[i as int]@, ext_is(e@));
        }
        let x = extension(files[i].as_slice());
        if chars_eq(x.as_slice(), e) {
            let ghost before = texts(g@);
            g.push(copy_chars(&files[i]));
            proof {
                assert(texts(g@) =~= before.push(files@[i as int]@));
            }
        }
    }
    proof {
        assert(t.take(files@.len() as int) =~= t);
    }
    g
}

fn entry(g: &Vec<Vec<char>>, e: &[char]) -> (r: Vec<char>)
    ensures
        r@ == entry_text(texts(g@), e@),
{
    if g.len() == 1 {
        return copy_chars(&g[0]);
    }
    let mut stems: Vec<Vec<char>> = Vec::new();
    for i in 0..g.len()
        invariant
            texts(stems@) == stems_of(texts(g@)).take(i as int),
    {
        let ghost before = texts(stems@);
        let st = stem(g[i].as_slice());
        stems.push(st);
        proof {
            assert(texts(stems@) =~= before.push(st@));
            assert(texts(g@)[i as int] == g@[i as int]@);
            assert(stems_of(texts(g@)).take(i + 1) =~= stems_of(texts(g@)).take(i as int).push(
                stem_of(g@[i as int]@),
            ));
        }
    }
    proof {
        assert(stems_of(texts(g@)).take(g@.len() as int) =~= stems_of(texts(g@)));
    }
    let sep = [','];
    assert(sep@ =~= seq![',']);
    let body = join_range(&stems, 0, stems.len(), &sep);
    proof {
        assert(texts(stems@).subrange(0, stems@.len() as int) =~= texts(stems@));
    }
    let mut r: Vec<char> = Vec::new();
    r.push('{');
    append(&mut r, body.as_slice());
    r.push('}');
    append(&mut r, e);
    proof {
        assert(r@ =~= seq!['{'] + join(stems_of(texts(g@)), seq![',']) + seq!['}'] + e@);
    }
    r
}

/// The lines for the files of one directory, `files` given in name order.
pub fn render_files(prefix: &[char], files: &Vec<Vec<char>>) -> (r: Vec<char>)
    ensures
        r@ == file_lines(prefix@, texts(files@)),
{
    let ghost t = texts(files@);
    let mut exts: Vec<Vec<char>> = Vec::new();
    for i in 0..files.len()
        invariant
            t == texts(files@),
            texts(exts@) == t.map_values(|n: Seq<char>| ext_of(n)).take(i as int),
    {
        let ghost before = texts(exts@);
        let x = extension(files[i].as_slice());
        exts.push(x);
        proof {
            assert(texts(exts@) =~= before.push(x@));
            assert(t[i as int] == files@[i as int]@);
            assert(t.map_values(|n: Seq<char>| ext_of(n)).take(i + 1) =~= t.map_values(
                |n: Seq<char>| ext_of(n),
            ).take(i as int).push(ext_of(files@[i as int]@)));
        }
    }
    proof {
        assert(t.map_values(|n: Seq<char>| ext_of(n)).take(files@.len() as int) =~= t.map_values(
            |n: Seq<char>| ext_of(n),
        ));
    }
    let sorted = sort_names(exts);
    let es = dedup_names(&sorted);
    let ghost esv = texts(es@);
    assert(esv == ext_order(t));
    let ghost lines = Seq::new(esv.len(), |i: int| group_line(prefix@, t, esv, i));
    let mut out: Vec<char> = Vec::new();
    proof {
        assert(lines.take(0) =~= Seq::<Seq<char>>::empty());
    }
    for i in 0..es.len()
        invariant
            t == texts(files@),
            esv == texts(es@),
            lines == Seq::new(esv.len(), |i: int| group_line(prefix@, t, esv, i)),
            out@ == lines.take(i as int).flatten(),
    {
        let g = group(files, es[i].as_slice());
        let en = entry(&g, es[i].as_slice());
        let ghost before = out@;
        append(&mut out, prefix);
        append(&mut out, en.as_slice());
        out.push('\n');
        proof {
            assert(esv[i as int] == es@[i as int]@);
            assert(out@ =~= before + group_line(prefix@, t, esv, i as int));
            assert(lines.take(i + 1) =~= lines.take(i as int).push(lines[i as int]));
            lines.take(i as int).lemma_flatten_push(lines[i as int]);
        }
    }
    proof {
        assert(lines.take(es@.len() as int) =~= lines);
        assert(lines =~= Seq::new(esv.len(), |i: int| prefix@ + entry_text(group_of(t, esv[i]), esv[i]) + seq!['\n']));
    }
    out
}

/// What the walk of one directory found: its path, the provider's entries
/// (`(name, is_dir)`), and the walks of its subdirectories in name order.
pub struct DirListing {
    pub path: String,
    pub entries: Vec<(String, bool)>,
    pub children: Vec<DirListing>,
}

/// Whether an entry is a directory (`true`) or a file (`false`).
pub open spec fn is_kind(dir: bool) -> spec_fn((String, bool)) -> bool {
    |e: (String, bool)| e.1 == dir
}

/// The names of the entries of one kind, in listing order.
pub open spec fn names_of_kind(es: Seq<(String, bool)>, dir: bool) -> Seq<Seq<char>> {
    es.filter(is_kind(dir)).map_values(|e: (String, bool)| e.0@)
}

/// The names of the entries of one kind, in name order.
pub open spec fn sorted_kind(es: Seq<(String, bool)>, dir: bool) -> Seq<Seq<char>> {
    names_of_kind(es, dir).sort_by(name_order())
}

fn kind_names(es: &Vec<(String, bool)>, dir: bool) -> (r: Vec<Vec<char>>)
    ensures
        texts(r@) == names_of_kind(es@, dir),
{
    let mut r: Vec<Vec<char>> = Vec::new();
    proof {
        reveal(Seq::filter);
        assert(es@.take(0) =~= Seq::<(String, bool)>::empty());
        assert(texts(r@) =~= Seq::<Seq<char>>::empty());
    }
    for i in 0..es.len()
        invariant
            texts(r@) == names_of_kind(es@.take(i as int), dir),
    {
        let ghost pre = es@.take(i as int);
        proof {
            assert(es@.take(i + 1) =~= pre.push(es@[i as int]));
            pre.lemma_filter_push(es@[i as int], is_kind(dir));
        }
        if es[i].1 == dir {
            let ghost before = texts(r@);
            let c = crate::text::chars_of(es[i].0.as_str());
            r.push(c);
            proof {
                assert(texts(r@) =~= before.push(es@[i as int].0@));
                assert(pre.filter(is_kind(dir)).push(es@[i as int]).map_values(|e: (String, bool)| e.0@)
                    =~= pre.filter(is_kind(dir)).map_values(|e: (String, bool)| e.0@).push(es@[i as int].0@));
            }
        }
    }
    proof {
        assert(es@.take(es@.len() as int) =~= es@);
    }
    r
}

/// The lines below a directory: its files' lines, then each subdirectory
/// (`name/`) followed by its own lines indented two more spaces; nothing
/// once `depth` reaches `max_depth`.
pub open spec fn subtree_text(l: DirListing, prefix: Seq<char>, depth: int, max_depth: int) -> Seq<char>
    decreases max_depth - depth, 2int, 0int,
{
    if depth >= max_depth {
        Seq::empty()
    } else {
        let ds = sorted_kind(l.entries@, true);
        file_lines(prefix, sorted_kind(l.entries@, false)) + dirs_text(l, prefix, depth, max_depth, ds, ds.len() as int)
    }
}

/// The lines of the first `k` subdirectories `ds` of `l`.
pub open spec fn dirs_text(
    l: DirListing,
    prefix: Seq<char>,
    depth: int,
    max_depth: int,
    ds: Seq<Seq<char>>,
    k: int,
) -> Seq<char>
    decreases max_depth - depth, 1int, k,
{
    if k <= 0 {
        Seq::empty()
    } else {
        dirs_text(l, prefix, depth, max_depth, ds, k - 1) + dir_part(l, prefix, depth, max_depth, ds, k - 1)
    }
}

/// The lines of the `i`-th subdirectory: `name/`, then its own lines.
pub open spec fn dir_part(
    l: DirListing,
    prefix: Seq<char>,
    depth: int,
    max_depth: int,
    ds: Seq<Seq<char>>,
    i: int,
) -> Seq<char>
    decreases max_depth - depth, 0int, 0int,
{
    prefix + ds[i] + seq!['/', '\n'] + if depth < max_depth && 0 <= i < l.children@.len() {
        subtree_text(l.children@[i], prefix + seq![' ', ' '], depth + 1, max_depth)
    } else {
        Seq::empty()
    }
}

/// The tree text of a walk: `(empty)` for an empty directory, else the
/// directory's path on the first line and the lines below it.
pub open spec fn listing_text(l: DirListing, max_depth: int) -> Seq<char> {
    if l.entries@.len() == 0 {
        "(empty)"@ + seq!['\n']
    } else {
        l.path@ + seq!['\n'] + subtree_text(l, Seq::empty(), 0, max_depth)
    }
}

/// Whether `l` is what a walk from depth `depth` produces: below
/// `max_depth`, each subdirectory (in name order) was walked at the path
/// joined from the parent's path and its name.
pub open spec fn walked(l: DirListing, depth: int, max_depth: int) -> bool
    decreases max_depth - depth,
{
    if depth >= max_depth {
        l.children@.len() == 0
    } else {
        let ds = sorted_kind(l.entries@, true);
        &&& l.children@.len() == ds.len()
        &&& forall|i: int|
            0 <= i < ds.len() ==> (#[trigger] l.children@[i]).path@ == crate::paths::join_spec(l.path@, ds[i])
                && walked(l.children@[i], depth + 1, max_depth)
    }
}

/// The lines below a walked directory.
pub fn render_subtree(l: &DirListing, prefix: &[char], depth: usize, max_depth: usize) -> (r: Vec<char>)
    ensures
        r@ == subtree_text(*l, prefix@, depth as int, max_depth as int),
    decreases max_depth - depth,
{
    if depth >= max_depth {
        return Vec::new();
    }
    let files = sort_names(kind_names(&l.entries, false));
    let ds = sort_names(kind_names(&l.entries, true));
    let ghost dsv = texts(ds@);
    let mut out = render_files(prefix, &files);
    let ghost head = out@;
    let mut deeper: Vec<char> = Vec::new();
    append(&mut deeper, prefix);
    deeper.push(' ');
    deeper.push(' ');
    assert(deeper@ =~= prefix@ + seq![' ', ' ']);
    assert(out@ =~= head + dirs_text(*l, prefix@, depth as int, max_depth as int, dsv, 0));
    for i in 0..ds.len()
        invariant
            depth < max_depth,
            dsv == texts(ds@),
            deeper@ == prefix@ + seq![' ', ' '],
            out@ == head + dirs_text(*l, prefix@, depth as int, max_depth as int, dsv, i as int),
    {
        let ghost before = out@;
        append(&mut out, prefix);
        append(&mut out, ds[i].as_slice());
        out.push('/');
        out.push('\n');
        if i < l.children.len() {
            let sub = render_subtree(&l.children[i], deeper.as_slice(), depth + 1, max_depth);
            append(&mut out, sub.as_slice());
        }
        proof {
            assert(dsv[i as int] == ds@[i as int]@);
            assert(out@ =~= before + dir_part(*l, prefix@, depth as int, max_depth as int, dsv, i as int));
        }
    }
    proof {
        assert(dsv == sorted_kind(l.entries@, true));
        assert(head == file_lines(prefix@, sorted_kind(l.entries@, false)));
    }
    out
}

/// The tree text of a walk.
pub fn render_listing(l: &DirListing, max_depth: usize) -> (r: Vec<char>)
    ensures
        r@ == listing_text(*l, max_depth as int),
{
    if l.entries.len() == 0 {
        let mut r = crate::text::chars_of("(empty)");
        r.push('\n');
        return r;
    }
    let mut r = crate::text::chars_of(l.path.as_str());
    r.push('\n');
    let empty: Vec<char> = Vec::new();
    let sub = render_subtree(l, empty.as_slice(), 0, max_depth);
    append(&mut r, sub.as_slice());
    r
}

/// Whether every listing in `l`, down to `max_depth`, is an answer that
/// `list` gave for that listing's path.
pub open spec fn listed_by<F: Fn(&String) -> Result<Vec<(String, bool)>, SandboxError>>(
    list: F,
    l: DirListing,
    depth: int,
    max_depth: int,
) -> bool
    decreases max_depth - depth,
{
    &&& call_ensures(list, (&l.path,), Ok(l.entries))
    &&& depth < max_depth ==> forall|i: int|
        0 <= i < l.children@.len() ==> listed_by(list, #[trigger] l.children@[i], depth + 1, max_depth)
}

/// Walks the directory at `path` with `list`: lists it and, below
/// `max_depth`, walks each subdirectory in name order. Every listing in the
/// tree is what `list` answered for its path; the first failed listing
/// ends the walk with the error `list` gave.
pub fn walk<F: Fn(&String) -> Result<Vec<(String, bool)>, SandboxError>>(
    list: &F,
    path: String,
    depth: usize,
    max_depth: usize,
) -> (r: Result<DirListing, SandboxError>)
    requires
        forall|p: &String| call_requires(*list, (p,)),
    ensures
        r matches Ok(l) ==> l.path@ == path@ && walked(l, depth as int, max_depth as int) && listed_by(
            *list,
            l,
            depth as int,
            max_depth as int,
        ),
        r matches Err(e) ==> exists|p: &String| call_ensures(*list, (p,), Err(e)),
    decreases max_depth - depth,
{
    let answer = list(&path);
    let entries = match answer {
        Ok(es) => es,
        Err(e) => {
            return Err(e);
        },
    };
    if depth >= max_depth {
        return Ok(DirListing { path, entries, children: Vec::new() });
    }
    let ds = sort_names(kind_names(&entries, true));
    let ghost dsv = texts(ds@);
    assert(dsv == sorted_kind(entries@, true));
    let mut children: Vec<DirListing> = Vec::new();
    for i in 0..ds.len()
        invariant
            depth < max_depth,
            forall|p: &String| call_requires(*list, (p,)),
            dsv == texts(ds@),
            children@.len() == i,
            forall|j: int|
                0 <= j < i ==> (#[trigger] children@[j]).path@ == join_spec(path@, dsv[j]) && walked(
                    children@[j],
                    depth + 1,
                    max_depth as int,
                ) && listed_by(*list, children@[j], depth + 1, max_depth as int),
    {
        let name = crate::text::string_from_chars(ds[i].as_slice());
        let child_path = join_path(path.as_str(), name.as_str());
        let child = match walk(list, child_path, depth + 1, max_depth) {
            Ok(c) => c,
            Err(e) => {
                return Err(e);
            },
        };
        proof {
            assert(dsv[i as int] == ds@[i as int]@);
        }
        children.push(child);
    }
    let l = DirListing { path, entries, children };
    assert(l.children@.len() == sorted_kind(l.entries@, true).len());
    Ok(l)
}

} // verus!

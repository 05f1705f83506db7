//! The filesystem tools: read a window of lines, write, replace a unique
//! string, list a directory tree, glob.
use vstd::prelude::*;
use crate::json::{Json, JsonV};
use crate::listing::{listing_text, render_listing, walk, walked, DirListing};
use crate::paths::{expand_tilde, expand_tilde_spec};
use crate::sandbox::{Sandbox, SandboxError};
use crate::text::{
    chars_eq, chars_of, dec_spec, decimal, join, lines, lines_spec, texts, owned, push_chars, push_str,
    slice_chars, string_from_chars, has_prefix, trim_end, trim_end_spec, count_matches, count_occurrences,
    replace_all, replace_occurrences,
};

verus! {

/// Input of the `Read` tool.
pub struct ReadInput {
    pub path: String,
    pub start_line: usize,
    /// Number of lines to read.
    pub lines: usize,
}

/// Input of the `Write` tool.
pub struct WriteInput {
    pub path: String,
    pub content: String,
}

/// Input of the `Edit` tool.
pub struct ReplaceInput {
    pub path: String,
    pub old_string: String,
    pub new_string: String,
}

/// Input of the `Ls` tool.
pub struct ListInput {
    /// Show tree up to this depth. Defaults to 2.
    pub depth: Option<usize>,
    pub path: String,
}

/// Input of the `Glob` tool.
pub struct GlobInput {
    pub pattern: String,
}

/// First line of the window: `start_line`, at least 1.
pub open spec fn window_start(start_line: usize) -> int {
    if start_line < 1 {
        1
    } else {
        start_line as int
    }
}

/// Lines in the window: `lines`, or 10 when it is 0.
pub open spec fn window_len(lines: usize) -> int {
    if lines == 0 {
        10
    } else {
        lines as int
    }
}

/// Whether computing the window end fits a `usize`.
pub open spec fn window_fits(start_line: usize, lines: usize) -> bool {
    window_start(start_line) + window_len(lines) - 1 <= usize::MAX
}

pub open spec fn num(n: int) -> JsonV {
    JsonV::Number(dec_spec(n as nat))
}

/// What the `Read` tool answers for a file's text: the requested lines
/// (1-based, `lines` of them from `start_line`, clipped to the file) with
/// their range and the file's line count; a start past the end is reported
/// as done.
pub open spec fn read_window_spec(path: Seq<char>, content: Seq<char>, start_line: usize, lines: usize) -> JsonV {
    let ls = lines_spec(content);
    let start = window_start(start_line);
    let want = start + window_len(lines) - 1;
    let end = if want < ls.len() {
        want
    } else {
        ls.len() as int
    };
    if start > ls.len() {
        JsonV::Str("You have already read the full lines"@)
    } else {
        JsonV::Object(
            seq![
                ("path"@, JsonV::Str(path)),
                ("content"@, JsonV::Str(join(ls.subrange(start - 1, end), seq!['\n']))),
                ("start_line"@, num(start)),
                ("end_line"@, num(end)),
                ("total_lines"@, num(ls.len() as int)),
            ],
        )
    }
}

fn num_json(n: usize) -> (j: Json)
    ensures
        j@ == num(n as int),
{
    Json::Number(decimal(n as u128))
}

fn object(m: Vec<(String, Json)>) -> (j: Json)
    ensures
        j@ == JsonV::Object(crate::json::members_view(m@)),
{
    let j = Json::Object(m);
    proof {
        crate::json::lemma_view_unfold(j);
    }
    j
}

/// The `Read` tool's answer for the text of the file.
pub fn read_window(path: &str, content: &str, start_line: usize, lines_wanted: usize) -> (j: Json)
    requires
        window_fits(start_line, lines_wanted),
    ensures
        j@ == read_window_spec(path@, content@, start_line, lines_wanted),
{
    let cs = chars_of(content);
    let ls = lines(cs.as_slice());
    let ghost lv = texts(ls@);
    let n = ls.len();
    let start: usize = if start_line < 1 {
        1
    } else {
        start_line
    };
    let requested: usize = if lines_wanted == 0 {
        10
    } else {
        lines_wanted
    };
    let want = start + (requested - 1);
    let end = if want < n {
        want
    } else {
        n
    };
    if start > n {
        return Json::Str(owned("You have already read the full lines"));
    }
    let body = {
        let sep = ['\n'];
        assert(sep@ =~= seq!['\n']);
        crate::text::join_range(&ls, start - 1, end, &sep)
    };
    let mut m: Vec<(String, Json)> = Vec::new();
    m.push((owned("path"), Json::Str(owned(path))));
    m.push((owned("content"), Json::Str(string_from_chars(body.as_slice()))));
    m.push((owned("start_line"), num_json(start)));
    m.push((owned("end_line"), num_json(end)));
    m.push((owned("total_lines"), num_json(n)));
    let j = object(m);
    proof {
        assert(crate::json::members_view(m@) =~= seq![
            ("path"@, JsonV::Str(path@)),
            ("content"@, JsonV::Str(join(lv.subrange(start - 1, end as int), seq!['\n']))),
            ("start_line"@, num(start as int)),
            ("end_line"@, num(end as int)),
            ("total_lines"@, num(n as int)),
        ]);
    }
    j
}

/// Whether `p` is `path` with a leading `~` expanded against some home
/// directory.
pub open spec fn tilde_expanded(path: Seq<char>, p: Seq<char>) -> bool {
    exists|home: Option<Seq<char>>| p == expand_tilde_spec(path, home)
}

/// `do_read` through `sb`: the window answered is the window of the
/// content the sandbox read for the (tilde-expanded) path, and a failure is
/// the sandbox's own error for that path.
pub open spec fn read_through(sb: Sandbox, input: ReadInput, r: Result<Json, String>) -> bool {
    exists|p: Seq<char>|
        #![trigger tilde_expanded(input.path@, p)]
        tilde_expanded(input.path@, p) && match r {
            Ok(j) => exists|c: String|
                sb.read_gave(p, Ok(c)) && j@ == read_window_spec(input.path@, c@, input.start_line, input.lines),
            Err(m) => exists|e: SandboxError|
                sb.read_gave(p, Err(e)) && failure_text("Failed to read "@ + input.path@ + ": "@, e, m@),
        }
}

/// What `do_read` answers, with or without a sandbox.
pub open spec fn read_answers(has_sandbox: bool, input: ReadInput, r: Result<Json, String>) -> bool {
    &&& !has_sandbox ==> (r matches Err(e) && e@ == "No sandbox registered"@)
    &&& has_sandbox ==> match r {
            Ok(j) => exists|c: Seq<char>| j@ == read_window_spec(input.path@, c, input.start_line, input.lines),
            Err(e) => failed_with("Failed to read "@ + input.path@ + ": "@, e@)
    }
}

/// Reads the file through the sandbox and answers with `read_window`.
/// Without a sandbox the call fails; a failed read fails with a message
/// that names the path.
pub fn do_read(sandbox: Option<&Sandbox>, input: &ReadInput) -> (r: Result<Json, String>)
    requires
        window_fits(input.start_line, input.lines),
    ensures
        read_answers(sandbox is Some, *input, r),
        sandbox matches Some(sb) ==> read_through(*sb, *input, r),
{
    match sandbox {
        None => Err(owned("No sandbox registered")),
        Some(sb) => {
            let p = expand_tilde(input.path.as_str());
            let answer = sb.read(p.as_str());
            match answer {
                Ok(content) => {
                    let j = read_window(input.path.as_str(), content.as_str(), input.start_line, input.lines);
                    assert(j@ == read_window_spec(input.path@, content@, input.start_line, input.lines));
                    assert(tilde_expanded(input.path@, p@));
                    Ok(j)
                },
                Err(e) => {
                    let mut head = owned("Failed to read ");
                    push_str(&mut head, input.path.as_str());
                    push_str(&mut head, ": ");
                    assert(head@ == "Failed to read "@ + input.path@ + ": "@);
                    let m = failure(head.as_str(), &e);
                    assert(tilde_expanded(input.path@, p@));
                    Err(m)
                },
            }
        },
    }
}

/// The depth the `Ls` tool shows: the one asked for, else 2.
pub open spec fn list_depth(input: ListInput) -> int {
    match input.depth {
        Some(d) => d as int,
        None => 2,
    }
}

/// Whether `m` is the message of a failed sandbox operation that failed
/// with `e`: `head`, then the error's message (a policy error's exact text;
/// for an I/O error, `I/O error: ` and the system's text).
pub open spec fn failure_text(head: Seq<char>, e: SandboxError, m: Seq<char>) -> bool {
    match crate::sandbox::denial_text(e) {
        Some(t) => m == head + t,
        None => has_prefix(m, head + "I/O error: "@),
    }
}

/// Whether `m` is the message of a sandbox operation that failed, after
/// `head`.
pub open spec fn failed_with(head: Seq<char>, m: Seq<char>) -> bool {
    exists|e: SandboxError| #[trigger] failure_text(head, e, m)
}

/// The message of a failed sandbox operation, after `head`.
fn failure(head: &str, e: &SandboxError) -> (msg: String)
    ensures
        failure_text(head@, *e, msg@),
        failed_with(head@, msg@),
{
    let mut msg = String::new();
    push_str(&mut msg, head);
    let ghost pre = msg@;
    let t = e.message();
    push_str(&mut msg, t.as_str());
    proof {
        assert(msg@.take(pre.len() as int) =~= pre);
        if crate::sandbox::denial_text(*e) is None {
            assert(msg@.take((head@.len() + "I/O error: "@.len()) as int) =~= head@ + "I/O error: "@);
        }
        assert(failure_text(head@, *e, msg@));
    }
    msg
}

/// Whether every listing in `l`, down to `max_depth`, is an answer the
/// sandbox gave for that listing's path.
pub open spec fn sandbox_listed(sb: Sandbox, l: DirListing, depth: int, max_depth: int) -> bool
    decreases max_depth - depth,
{
    &&& sb.list_gave(l.path@, Ok(l.entries))
    &&& depth < max_depth ==> forall|i: int|
        0 <= i < l.children@.len() ==> sandbox_listed(sb, #[trigger] l.children@[i], depth + 1, max_depth)
}

/// A tree listed with a lister that only forwards the sandbox's answers
/// is listed by the sandbox.
proof fn lemma_listed_by_sandbox<F: Fn(&String) -> Result<Vec<(String, bool)>, SandboxError>>(
    list: F,
    sb: Sandbox,
    l: DirListing,
    depth: int,
    max_depth: int,
)
    requires
        crate::listing::listed_by(list, l, depth, max_depth),
        forall|q: &String, a: Result<Vec<(String, bool)>, SandboxError>|
            call_ensures(list, (q,), a) ==> sb.list_gave(q@, a),
    ensures
        sandbox_listed(sb, l, depth, max_depth),
    decreases max_depth - depth,
{
    if depth < max_depth {
        assert forall|i: int| 0 <= i < l.children@.len() implies sandbox_listed(sb, #[trigger] l.children@[i], depth + 1, max_depth) by {
            lemma_listed_by_sandbox(list, sb, l.children@[i], depth + 1, max_depth);
        }
    }
}

/// `do_list` through `sb`: the tree rendered is one the sandbox listed,
/// from the (tilde-expanded) path down, and a failure is an error the
/// sandbox gave for a listing.
pub open spec fn list_through(sb: Sandbox, input: ListInput, r: Result<Json, String>) -> bool {
    match r {
        Ok(j) => exists|l: DirListing|
            {
                &&& tilde_expanded(input.path@, l.path@)
                &&& walked(l, 0, list_depth(input))
                &&& sandbox_listed(sb, l, 0, list_depth(input))
                &&& j@ == JsonV::Str(trim_end_spec(listing_text(l, list_depth(input))))
            },
        Err(m) => exists|q: Seq<char>, e: SandboxError|
            sb.list_gave(q, Err(e)) && failure_text("Failed to list directory: "@, e, m@),
    }
}

/// What `do_list` answers, with or without a sandbox.
pub open spec fn list_answers(has_sandbox: bool, input: ListInput, r: Result<Json, String>) -> bool {
    &&& !has_sandbox ==> (r matches Err(e) && e@ == "No sandbox registered"@)
    &&& has_sandbox ==> match r {
            Ok(j) => exists|l: DirListing|
                {
                    &&& walked(l, 0, list_depth(input))
                    &&& exists|home: Option<Seq<char>>| l.path@ == expand_tilde_spec(input.path@, home)
                    &&& j@ == JsonV::Str(trim_end_spec(listing_text(l, list_depth(input))))
                },
            Err(e) => failed_with("Failed to list directory: "@, e@)
    }
}

/// The `Ls` tool's answer for a walked tree: its text, trailing white
/// space removed.
pub fn listing_answer(l: &DirListing, max_depth: usize) -> (j: Json)
    ensures
        j@ == JsonV::Str(trim_end_spec(listing_text(*l, max_depth as int))),
{
    let t = render_listing(l, max_depth);
    let tt = trim_end(t.as_slice());
    Json::Str(string_from_chars(tt.as_slice()))
}

/// Walks the directory tree at the (tilde-expanded) path through the
/// sandbox and answers with its tree text, trailing white space removed.
/// Without a sandbox the call fails; a failed listing fails the call.
pub fn do_list(sandbox: Option<&Sandbox>, input: &ListInput) -> (r: Result<Json, String>)
    ensures
        list_answers(sandbox is Some, *input, r),
        sandbox matches Some(sb) ==> list_through(*sb, *input, r),
{
    let max_depth: usize = match input.depth {
        Some(d) => d,
        None => 2,
    };
    match sandbox {
        None => Err(owned("No sandbox registered")),
        Some(sb) => {
            let p = expand_tilde(input.path.as_str());
            assert(tilde_expanded(input.path@, p@));
            let ghost pv = p@;
            let list = |q: &String| -> (a: Result<Vec<(String, bool)>, SandboxError>)
                ensures
                    sb.list_gave(q@, a),
                { sb.list(q.as_str()) };
            match walk(&list, p, 0, max_depth) {
                Ok(l) => {
                    proof {
                        lemma_listed_by_sandbox(list, *sb, l, 0, max_depth as int);
                    }
                    let j = listing_answer(&l, max_depth);
                    assert(j@ == JsonV::Str(trim_end_spec(listing_text(l, list_depth(*input)))));
                    assert(l.path@ == pv);
                    Ok(j)
                },
                Err(e) => {
                    let m = failure("Failed to list directory: ", &e);
                    assert(exists|q: Seq<char>| sb.list_gave(q, Err(e)));
                    Err(m)
                },
            }
        },
    }
}

/// Bytes in the UTF-8 encoding of a text (what `str::len` returns).
pub open spec fn byte_count(s: Seq<char>) -> usize {
    vstd::utf8::encode_utf8(s).len() as usize
}

/// `{"status": "success", "path": path}`.
pub open spec fn success_json(path: Seq<char>) -> JsonV {
    JsonV::Object(seq![("status"@, JsonV::Str("success"@)), ("path"@, JsonV::Str(path))])
}

/// The `Write` tool's answer: success, the path, and the bytes written.
pub open spec fn write_json(path: Seq<char>, content: Seq<char>) -> JsonV {
    JsonV::Object(
        seq![
            ("status"@, JsonV::Str("success"@)),
            ("path"@, JsonV::Str(path)),
            ("bytes"@, num(byte_count(content) as int)),
        ],
    )
}

fn success_object(path: &str) -> (j: Json)
    ensures
        j@ == success_json(path@),
{
    let mut m: Vec<(String, Json)> = Vec::new();
    m.push((owned("status"), Json::Str(owned("success"))));
    m.push((owned("path"), Json::Str(owned(path))));
    let j = object(m);
    proof {
        assert(crate::json::members_view(m@) =~= seq![
            ("status"@, JsonV::Str("success"@)),
            ("path"@, JsonV::Str(path@)),
        ]);
    }
    j
}

/// `do_write` through `sb`: on success the sandbox was asked to write
/// exactly the input's content to the (tilde-expanded) path and reported
/// success; a failure is the sandbox's own error for that write.
pub open spec fn write_through(sb: Sandbox, input: WriteInput, r: Result<Json, String>) -> bool {
    exists|p: Seq<char>|
        #![trigger tilde_expanded(input.path@, p)]
        tilde_expanded(input.path@, p) && match r {
            Ok(_) => exists|w: Result<(), SandboxError>| w is Ok && sb.write_gave(p, input.content@, w),
            Err(m) => exists|e: SandboxError|
                #![trigger sb.write_gave(p, input.content@, Err(e))]
                sb.write_gave(p, input.content@, Err(e)) && failure_text("Failed to write: "@, e, m@),
        }
}

/// What `do_write` answers, with or without a sandbox.
pub open spec fn write_answers(has_sandbox: bool, input: WriteInput, r: Result<Json, String>) -> bool {
    &&& !has_sandbox ==> (r matches Err(e) && e@ == "No sandbox registered"@)
    &&& has_sandbox ==> match r {
            Ok(j) => j@ == write_json(input.path@, input.content@),
            Err(e) => failed_with("Failed to write: "@, e@)
    }
}

/// Writes the file through the sandbox (the path tilde-expanded) and
/// reports the bytes written. Without a sandbox the call fails; a failed
/// write fails with a message.
pub fn do_write(sandbox: Option<&Sandbox>, input: &WriteInput) -> (r: Result<Json, String>)
    ensures
        write_answers(sandbox is Some, *input, r),
        sandbox matches Some(sb) ==> write_through(*sb, *input, r),
{
    match sandbox {
        None => Err(owned("No sandbox registered")),
        Some(sb) => {
            let p = expand_tilde(input.path.as_str());
            let answer = sb.write(p.as_str(), input.content.as_str());
            assert(tilde_expanded(input.path@, p@));
            match answer {
                Ok(()) => {
                    let bytes = input.content.as_str().len();
                    let mut m: Vec<(String, Json)> = Vec::new();
                    m.push((owned("status"), Json::Str(owned("success"))));
                    m.push((owned("path"), Json::Str(owned(input.path.as_str()))));
                    m.push((owned("bytes"), num_json(bytes)));
                    let j = object(m);
                    proof {
                        assert(crate::json::members_view(m@) =~= seq![
                            ("status"@, JsonV::Str("success"@)),
                            ("path"@, JsonV::Str(input.path@)),
                            ("bytes"@, num(byte_count(input.content@) as int)),
                        ]);
                    }
                    assert(answer is Ok && sb.write_gave(p@, input.content@, answer));
                    Ok(j)
                },
                Err(e) => {
                    let m = failure("Failed to write: ", &e);
                    assert(sb.write_gave(p@, input.content@, Err(e)));
                    assert(failure_text("Failed to write: "@, e, m@));
                    Err(m)
                },
            }
        },
    }
}

/// What an edit of `content` does: the new content when `old` occurs
/// exactly once (that occurrence replaced by `new`), else the refusal.
pub open spec fn replace_outcome(path: Seq<char>, content: Seq<char>, old: Seq<char>, new: Seq<char>) -> Result<
    Seq<char>,
    Seq<char>,
> {
    let n = count_matches(content, old);
    if n == 0 {
        Err("String not found in "@ + path)
    } else if n > 1 {
        Err(
            "String found "@ + dec_spec(n) + " times in "@ + path
                + ". Please provide more context to make it unique."@,
        )
    } else {
        Ok(replace_all(content, old, new))
    }
}

/// Replaces the one occurrence of `old_string` in `content` by
/// `new_string`; refuses when it does not occur or occurs more than once.
pub fn replace_in(content: &str, input: &ReplaceInput) -> (r: Result<String, String>)
    ensures
        match (r, replace_outcome(input.path@, content@, input.old_string@, input.new_string@)) {
            (Ok(s), Ok(t)) => s@ == t,
            (Err(e), Err(t)) => e@ == t,
            _ => false,
        },
{
    let cs = chars_of(content);
    let old = chars_of(input.old_string.as_str());
    let new = chars_of(input.new_string.as_str());
    let n = count_occurrences(cs.as_slice(), old.as_slice());
    if n == 0 {
        let mut e = owned("String not found in ");
        push_str(&mut e, input.path.as_str());
        return Err(e);
    }
    if n > 1 {
        let mut e = owned("String found ");
        let d = decimal(n);
        push_str(&mut e, d.as_str());
        push_str(&mut e, " times in ");
        push_str(&mut e, input.path.as_str());
        push_str(&mut e, ". Please provide more context to make it unique.");
        return Err(e);
    }
    let out = replace_occurrences(cs.as_slice(), old.as_slice(), new.as_slice());
    Ok(string_from_chars(out.as_slice()))
}

/// `do_replace` through `sb`: on success the sandbox read some content
/// for the (tilde-expanded) path, the edit of that content succeeded, and
/// the sandbox was asked to write the edited content to the same path and
/// reported success. A failure is the sandbox's read error, the edit's
/// refusal of the content read, or the sandbox's write error for the
/// edited content.
pub open spec fn replace_through(sb: Sandbox, input: ReplaceInput, r: Result<Json, String>) -> bool {
    exists|p: Seq<char>|
        #![trigger tilde_expanded(input.path@, p)]
        tilde_expanded(input.path@, p) && match r {
            Ok(_) => exists|c: String, t: Seq<char>|
                {
                    &&& sb.read_gave(p, Ok(c))
                    &&& replace_outcome(input.path@, c@, input.old_string@, input.new_string@) == Ok::<Seq<char>, Seq<char>>(t)
                    &&& exists|w: Result<(), SandboxError>| w is Ok && sb.write_gave(p, t, w)
                },
            Err(m) => {
                ||| exists|e: SandboxError| sb.read_gave(p, Err(e)) && failure_text("Failed to read: "@, e, m@)
                ||| exists|c: String|
                    sb.read_gave(p, Ok(c)) && replace_outcome(input.path@, c@, input.old_string@, input.new_string@)
                        == Err::<Seq<char>, Seq<char>>(m@)
                ||| exists|c: String, t: Seq<char>, e: SandboxError|
                    {
                        &&& sb.read_gave(p, Ok(c))
                        &&& replace_outcome(input.path@, c@, input.old_string@, input.new_string@) == Ok::<Seq<char>, Seq<char>>(t)
                        &&& sb.write_gave(p, t, Err(e))
                        &&& failure_text("Failed to write: "@, e, m@)
                    }
            },
        }
}

/// A successful edit wrote back what it read with the edit applied: the
/// sandbox read some content `c` for the path, `old_string` occurs in `c`
/// exactly once, and the sandbox was asked to write `c` with that
/// occurrence replaced by `new_string` to the same path, and reported
/// success.
pub proof fn lemma_edit_writes_replacement(sb: Sandbox, input: ReplaceInput, j: Json)
    requires
        replace_through(sb, input, Ok(j)),
    ensures
        exists|p: Seq<char>, c: String|
            {
                &&& tilde_expanded(input.path@, p)
                &&& sb.read_gave(p, Ok(c))
                &&& count_matches(c@, input.old_string@) == 1
                &&& exists|w: Result<(), SandboxError>|
                    w is Ok && sb.write_gave(p, replace_all(c@, input.old_string@, input.new_string@), w)
            },
{
    let p = choose|p: Seq<char>| tilde_expanded(input.path@, p) && exists|c: String, t: Seq<char>|
        {
            &&& sb.read_gave(p, Ok(c))
            &&& replace_outcome(input.path@, c@, input.old_string@, input.new_string@) == Ok::<Seq<char>, Seq<char>>(t)
            &&& exists|w: Result<(), SandboxError>| w is Ok && sb.write_gave(p, t, w)
        };
    let (c, t) = choose|c: String, t: Seq<char>|
        {
            &&& sb.read_gave(p, Ok(c))
            &&& replace_outcome(input.path@, c@, input.old_string@, input.new_string@) == Ok::<Seq<char>, Seq<char>>(t)
            &&& exists|w: Result<(), SandboxError>| w is Ok && sb.write_gave(p, t, w)
        };
    assert(count_matches(c@, input.old_string@) == 1);
    assert(t == replace_all(c@, input.old_string@, input.new_string@));
}

/// What `do_replace` answers, with or without a sandbox.
pub open spec fn replace_answers(has_sandbox: bool, input: ReplaceInput, r: Result<Json, String>) -> bool {
    &&& !has_sandbox ==> (r matches Err(e) && e@ == "No sandbox registered"@)
    &&& has_sandbox ==> match r {
            Ok(j) => j@ == success_json(input.path@) && exists|c: Seq<char>|
                replace_outcome(input.path@, c, input.old_string@, input.new_string@) is Ok,
            Err(e) => failed_with("Failed to read: "@, e@) || failed_with("Failed to write: "@, e@) || exists|
                c: Seq<char>,
            | replace_outcome(input.path@, c, input.old_string@, input.new_string@) == Err::<Seq<char>, Seq<char>>(e@)
    }
}

/// Reads the file, replaces the one occurrence of `old_string`, and writes
/// the file back. Without a sandbox the call fails; failed reads and writes
/// fail with a message, and so does an edit that `replace_in` refuses.
pub fn do_replace(sandbox: Option<&Sandbox>, input: &ReplaceInput) -> (r: Result<Json, String>)
    ensures
        replace_answers(sandbox is Some, *input, r),
        sandbox matches Some(sb) ==> replace_through(*sb, *input, r),
{
    match sandbox {
        None => Err(owned("No sandbox registered")),
        Some(sb) => {
            let p = expand_tilde(input.path.as_str());
            assert(tilde_expanded(input.path@, p@));
            let read = sb.read(p.as_str());
            let content = match read {
                Ok(c) => c,
                Err(e) => {
                    let m = failure("Failed to read: ", &e);
                    assert(sb.read_gave(p@, Err(e)));
                    return Err(m);
                },
            };
            assert(sb.read_gave(p@, Ok(content)));
            let updated = match replace_in(content.as_str(), input) {
                Ok(u) => u,
                Err(e) => {
                    return Err(e);
                },
            };
            let ghost t = updated@;
            assert(replace_outcome(input.path@, content@, input.old_string@, input.new_string@) == Ok::<Seq<char>, Seq<char>>(t));
            let written = sb.write(p.as_str(), updated.as_str());
            match written {
                Ok(()) => {
                    assert(written is Ok && sb.write_gave(p@, t, written));
                    Ok(success_object(input.path.as_str()))
                },
                Err(e) => {
                    let m = failure("Failed to write: ", &e);
                    assert(sb.write_gave(p@, t, Err(e)));
                    Err(m)
                },
            }
        },
    }
}

/// The `Glob` tool's answer: the pattern and the matching paths.
pub open spec fn glob_json(pattern: Seq<char>, matches: Seq<Seq<char>>) -> JsonV {
    JsonV::Object(
        seq![
            ("pattern"@, JsonV::Str(pattern)),
            ("matches"@, JsonV::Array(matches.map_values(|m: Seq<char>| JsonV::Str(m)))),
        ],
    )
}

/// `do_glob` through `sb`: the matches answered are the ones the sandbox
/// gave for the (tilde-expanded) pattern, in its order, and a failure is
/// the sandbox's own error for that pattern.
pub open spec fn glob_through(sb: Sandbox, input: GlobInput, r: Result<Json, String>) -> bool {
    exists|p: Seq<char>|
        #![trigger tilde_expanded(input.pattern@, p)]
        tilde_expanded(input.pattern@, p) && match r {
            Ok(j) => exists|ms: Vec<String>|
                #![trigger sb.glob_gave(p, Ok(ms))]
                sb.glob_gave(p, Ok(ms)) && j@ == glob_json(input.pattern@, crate::text::views(ms@)),
            Err(m) => exists|e: SandboxError|
                #![trigger sb.glob_gave(p, Err(e))]
                sb.glob_gave(p, Err(e)) && failure_text("Glob error: "@, e, m@),
        }
}

/// What the tool call answers through `sb`.
pub open spec fn tool_through(sb: Sandbox, call: FsTools, r: Result<Json, String>) -> bool {
    match call {
        FsTools::Read(i) => read_through(sb, i, r),
        FsTools::Write(i) => write_through(sb, i, r),
        FsTools::Replace(i) => replace_through(sb, i, r),
        FsTools::Ls(i) => list_through(sb, i, r),
        FsTools::Glob(i) => glob_through(sb, i, r),
    }
}

/// What `do_glob` answers, with or without a sandbox.
pub open spec fn glob_answers(has_sandbox: bool, input: GlobInput, r: Result<Json, String>) -> bool {
    &&& !has_sandbox ==> (r matches Err(e) && e@ == "No sandbox registered"@)
    &&& has_sandbox ==> match r {
            Ok(j) => exists|ms: Seq<Seq<char>>| j@ == glob_json(input.pattern@, ms),
            Err(e) => failed_with("Glob error: "@, e@)
    }
}

/// The `Glob` tool's answer for the paths that matched.
pub fn glob_answer(pattern: &str, ms: &Vec<String>) -> (j: Json)
    ensures
        j@ == glob_json(pattern@, crate::text::views(ms@)),
{
    let mut arr: Vec<Json> = Vec::new();
    for i in 0..ms.len()
        invariant
            arr@.len() == i,
            forall|k: int| 0 <= k < i ==> (#[trigger] arr@[k])@ == JsonV::Str(ms@[k]@),
    {
        arr.push(Json::Str(owned(ms[i].as_str())));
    }
    let a = Json::Array(arr);
    proof {
        crate::json::lemma_view_unfold(a);
    }
    let ghost msv = crate::text::views(ms@);
    proof {
        assert(a@ == JsonV::Array(msv.map_values(|x: Seq<char>| JsonV::Str(x)))) by {
            assert(a@->Array_0 =~= msv.map_values(|x: Seq<char>| JsonV::Str(x)));
        }
    }
    let mut m: Vec<(String, Json)> = Vec::new();
    m.push((owned("pattern"), Json::Str(owned(pattern))));
    m.push((owned("matches"), a));
    let j = object(m);
    proof {
        assert(crate::json::members_view(m@) =~= seq![
            ("pattern"@, JsonV::Str(pattern@)),
            ("matches"@, JsonV::Array(msv.map_values(|x: Seq<char>| JsonV::Str(x)))),
        ]);
    }
    j
}

/// Expands the (tilde-expanded) pattern through the sandbox and reports the
/// matches. Without a sandbox the call fails; a failed expansion fails with
/// a message.
pub fn do_glob(sandbox: Option<&Sandbox>, input: &GlobInput) -> (r: Result<Json, String>)
    ensures
        glob_answers(sandbox is Some, *input, r),
        sandbox matches Some(sb) ==> glob_through(*sb, *input, r),
{
    match sandbox {
        None => Err(owned("No sandbox registered")),
        Some(sb) => {
            let p = expand_tilde(input.pattern.as_str());
            assert(tilde_expanded(input.pattern@, p@));
            let answer = sb.glob(p.as_str());
            match answer {
                Ok(ms) => Ok(glob_answer(input.pattern.as_str(), &ms)),
                Err(e) => {
                    let m = failure("Glob error: ", &e);
                    assert(sb.glob_gave(p@, Err(e)));
                    Err(m)
                },
            }
        },
    }
}

/// A call of one of the filesystem tools, with its parsed input.
pub enum FsTools {
    Read(ReadInput),
    Write(WriteInput),
    Replace(ReplaceInput),
    Ls(ListInput),
    Glob(GlobInput),
}

/// Which filesystem tool a call names.
#[derive(PartialEq, Eq, Structural, Clone, Copy, Debug)]
pub enum FsToolKind {
    Read,
    Write,
    Replace,
    Ls,
    Glob,
}

/// The name a tool is advertised under.
pub open spec fn kind_name(k: FsToolKind) -> Seq<char> {
    match k {
        FsToolKind::Read => "Read"@,
        FsToolKind::Write => "Write"@,
        FsToolKind::Replace => "Edit"@,
        FsToolKind::Ls => "Ls"@,
        FsToolKind::Glob => "Glob"@,
    }
}

/// The description a tool is advertised with.
pub open spec fn kind_description(k: FsToolKind) -> Seq<char> {
    match k {
        FsToolKind::Read => "Read a file. UTF-8. Prefer reading partial content instead of whole file"@,
        FsToolKind::Write => "Write a file. Overwrites if exists. Creates directories."@,
        FsToolKind::Replace => "Surgical search and replace. Fails if old_string is not found or is ambiguous."@,
        FsToolKind::Ls => "List directory entries."@,
        FsToolKind::Glob => "List paths matching a pattern."@,
    }
}

/// The kind of a call.
pub open spec fn call_kind(t: FsTools) -> FsToolKind {
    match t {
        FsTools::Read(_) => FsToolKind::Read,
        FsTools::Write(_) => FsToolKind::Write,
        FsTools::Replace(_) => FsToolKind::Replace,
        FsTools::Ls(_) => FsToolKind::Ls,
        FsTools::Glob(_) => FsToolKind::Glob,
    }
}

/// The tools of the full plugin, in the order they are advertised.
pub open spec fn full_kinds() -> Seq<FsToolKind> {
    seq![FsToolKind::Read, FsToolKind::Write, FsToolKind::Replace, FsToolKind::Ls, FsToolKind::Glob]
}

/// The tools of the read-only plugin, in the order they are advertised.
pub open spec fn readonly_kinds() -> Seq<FsToolKind> {
    seq![FsToolKind::Read, FsToolKind::Ls, FsToolKind::Glob]
}

/// The tool of `kinds` that `name` names, if any.
pub open spec fn find_kind(kinds: Seq<FsToolKind>, name: Seq<char>) -> Option<FsToolKind> {
    if exists|i: int| 0 <= i < kinds.len() && kind_name(kinds[i]) == name {
        Some(kinds[choose|i: int| 0 <= i < kinds.len() && kind_name(kinds[i]) == name])
    } else {
        None
    }
}

fn kind_name_exec(k: FsToolKind) -> (s: String)
    ensures
        s@ == kind_name(k),
{
    match k {
        FsToolKind::Read => owned("Read"),
        FsToolKind::Write => owned("Write"),
        FsToolKind::Replace => owned("Edit"),
        FsToolKind::Ls => owned("Ls"),
        FsToolKind::Glob => owned("Glob"),
    }
}

fn kind_description_exec(k: FsToolKind) -> (s: String)
    ensures
        s@ == kind_description(k),
{
    match k {
        FsToolKind::Read => owned("Read a file. UTF-8. Prefer reading partial content instead of whole file"),
        FsToolKind::Write => owned("Write a file. Overwrites if exists. Creates directories."),
        FsToolKind::Replace => owned("Surgical search and replace. Fails if old_string is not found or is ambiguous."),
        FsToolKind::Ls => owned("List directory entries."),
        FsToolKind::Glob => owned("List paths matching a pattern."),
    }
}

proof fn lemma_names_distinct()
    ensures
        forall|a: FsToolKind, b: FsToolKind| #[trigger] kind_name(a) == #[trigger] kind_name(b) ==> a == b,
{
    reveal_strlit("Read");
    reveal_strlit("Write");
    reveal_strlit("Edit");
    reveal_strlit("Ls");
    reveal_strlit("Glob");
    assert forall|a: FsToolKind, b: FsToolKind| #[trigger] kind_name(a) == #[trigger] kind_name(b) implies a == b by {
        if a != b {
            let x = kind_name(a);
            let y = kind_name(b);
            if x.len() == y.len() {
                assert(x[0] != y[0] || x[1] != y[1]);
            }
        }
    }
}

/// The advertised name and description of each tool in `kinds`.
fn specs_of(kinds: &Vec<FsToolKind>) -> (r: Vec<(String, String)>)
    ensures
        r@.len() == kinds@.len(),
        forall|i: int|
            0 <= i < kinds@.len() ==> (#[trigger] r@[i]).0@ == kind_name(kinds@[i]) && r@[i].1@
                == kind_description(kinds@[i]),
{
    let mut r: Vec<(String, String)> = Vec::new();
    for i in 0..kinds.len()
        invariant
            r@.len() == i,
            forall|j: int|
                0 <= j < i ==> (#[trigger] r@[j]).0@ == kind_name(kinds@[j]) && r@[j].1@ == kind_description(
                    kinds@[j],
                ),
    {
        r.push((kind_name_exec(kinds[i]), kind_description_exec(kinds[i])));
    }
    r
}

/// The tool of `kinds` named `name`; an unknown name is refused with
/// `Unknown tool: {name}`.
fn kind_in(kinds: &Vec<FsToolKind>, name: &str) -> (r: Result<FsToolKind, String>)
    ensures
        match find_kind(kinds@, name@) {
            Some(k) => r == Ok::<FsToolKind, String>(k),
            None => r matches Err(e) && e@ == "Unknown tool: "@ + name@,
        },
{
    for i in 0..kinds.len()
        invariant
            forall|j: int| 0 <= j < i ==> kind_name(kinds@[j]) != name@,
    {
        let n = kind_name_exec(kinds[i]);
        if crate::text::str_eq(n.as_str(), name) {
            proof {
                lemma_names_distinct();
                let c = choose|j: int| 0 <= j < kinds@.len() && kind_name(kinds@[j]) == name@;
                assert(kind_name(kinds@[c]) == kind_name(kinds@[i as int]));
            }
            return Ok(kinds[i]);
        }
    }
    let mut e = owned("Unknown tool: ");
    push_str(&mut e, name);
    Err(e)
}

/// What running a filesystem tool answers.
pub open spec fn tool_answers(has_sandbox: bool, call: FsTools, r: Result<Json, String>) -> bool {
    match call {
        FsTools::Read(i) => read_answers(has_sandbox, i, r),
        FsTools::Write(i) => write_answers(has_sandbox, i, r),
        FsTools::Replace(i) => replace_answers(has_sandbox, i, r),
        FsTools::Ls(i) => list_answers(has_sandbox, i, r),
        FsTools::Glob(i) => glob_answers(has_sandbox, i, r),
    }
}

/// Whether a call's input can be served (a `Read` window must fit a `usize`).
pub open spec fn call_fits(call: FsTools) -> bool {
    call matches FsTools::Read(i) ==> window_fits(i.start_line, i.lines)
}

/// Whether the tools can run the call: a `Read` window whose end line
/// fits a `usize`; any other call.
pub fn call_in_range(call: &FsTools) -> (b: bool)
    ensures
        b == call_fits(*call),
{
    match call {
        FsTools::Read(i) => {
            let start: usize = if i.start_line < 1 {
                1
            } else {
                i.start_line
            };
            let len: usize = if i.lines == 0 {
                10
            } else {
                i.lines
            };
            start - 1 <= usize::MAX - len
        },
        _ => true,
    }
}

fn run_any(sandbox: Option<&Sandbox>, call: FsTools) -> (r: Result<Json, String>)
    requires
        call_fits(call),
    ensures
        tool_answers(sandbox is Some, call, r),
        sandbox matches Some(sb) ==> tool_through(*sb, call, r),
{
    match call {
        FsTools::Read(i) => do_read(sandbox, &i),
        FsTools::Write(i) => do_write(sandbox, &i),
        FsTools::Replace(i) => do_replace(sandbox, &i),
        FsTools::Ls(i) => do_list(sandbox, &i),
        FsTools::Glob(i) => do_glob(sandbox, &i),
    }
}

/// The filesystem plugin: read, write, edit, list, glob.
#[derive(Debug, Default, Clone, Copy)]
pub struct FileSystemPlugin;

impl FileSystemPlugin {
    pub fn new() -> (p: FileSystemPlugin) {
        FileSystemPlugin
    }

    /// The plugin's name, `fs`.
    pub fn name(&self) -> (s: String)
        ensures
            s@ == "fs"@,
    {
        owned("fs")
    }

    /// The tools the plugin offers, in order.
    pub fn kinds(&self) -> (r: Vec<FsToolKind>)
        ensures
            r@ == full_kinds(),
    {
        let r = vec![FsToolKind::Read, FsToolKind::Write, FsToolKind::Replace, FsToolKind::Ls, FsToolKind::Glob];
        assert(r@ =~= full_kinds());
        r
    }

    /// Name and description of each tool, in the order they are advertised.
    pub fn tool_specs(&self) -> (r: Vec<(String, String)>)
        ensures
            r@.len() == full_kinds().len(),
            forall|i: int|
                0 <= i < r@.len() ==> (#[trigger] r@[i]).0@ == kind_name(full_kinds()[i]) && r@[i].1@
                    == kind_description(full_kinds()[i]),
    {
        let ks = self.kinds();
        specs_of(&ks)
    }

    /// The tool a call names; an unknown name is refused.
    pub fn tool_kind(&self, name: &str) -> (r: Result<FsToolKind, String>)
        ensures
            match find_kind(full_kinds(), name@) {
                Some(k) => r == Ok::<FsToolKind, String>(k),
                None => r matches Err(e) && e@ == "Unknown tool: "@ + name@,
            },
    {
        let ks = self.kinds();
        kind_in(&ks, name)
    }

    /// Runs a tool call against the sandbox.
    pub fn run_tool(&mut self, sandbox: Option<&Sandbox>, call: FsTools) -> (r: Result<Json, String>)
        requires
            call_fits(call),
        ensures
            tool_answers(sandbox is Some, call, r),
            sandbox matches Some(sb) ==> tool_through(*sb, call, r),
    {
        run_any(sandbox, call)
    }
}

/// The filesystem plugin restricted to reading: read, list, glob. Write
/// and edit are neither advertised nor run.
#[derive(Debug, Default, Clone, Copy)]
pub struct ReadOnlyFileSystemPlugin;

impl ReadOnlyFileSystemPlugin {
    pub fn new() -> (p: ReadOnlyFileSystemPlugin) {
        ReadOnlyFileSystemPlugin
    }

    /// The plugin's name, `fs-readonly`.
    pub fn name(&self) -> (s: String)
        ensures
            s@ == "fs-readonly"@,
    {
        owned("fs-readonly")
    }

    /// The tools the plugin offers, in order.
    pub fn kinds(&self) -> (r: Vec<FsToolKind>)
        ensures
            r@ == readonly_kinds(),
    {
        let r = vec![FsToolKind::Read, FsToolKind::Ls, FsToolKind::Glob];
        assert(r@ =~= readonly_kinds());
        r
    }

    /// Name and description of each tool, in the order they are advertised.
    pub fn tool_specs(&self) -> (r: Vec<(String, String)>)
        ensures
            r@.len() == readonly_kinds().len(),
            forall|i: int|
                0 <= i < r@.len() ==> (#[trigger] r@[i]).0@ == kind_name(readonly_kinds()[i]) && r@[i].1@
                    == kind_description(readonly_kinds()[i]),
    {
        let ks = self.kinds();
        specs_of(&ks)
    }

    /// The tool a call names; `Write`, `Edit` and unknown names are refused.
    pub fn tool_kind(&self, name: &str) -> (r: Result<FsToolKind, String>)
        ensures
            match find_kind(readonly_kinds(), name@) {
                Some(k) => r == Ok::<FsToolKind, String>(k),
                None => r matches Err(e) && e@ == "Unknown tool: "@ + name@,
            },
    {
        let ks = self.kinds();
        kind_in(&ks, name)
    }

    /// Runs a read, list or glob call against the sandbox; any other call
    /// is refused as an unknown tool.
    pub fn run_tool(&mut self, sandbox: Option<&Sandbox>, call: FsTools) -> (r: Result<Json, String>)
        requires
            call_fits(call),
        ensures
            readonly_kinds().contains(call_kind(call)) ==> tool_answers(sandbox is Some, call, r),
            readonly_kinds().contains(call_kind(call)) ==> (sandbox matches Some(sb) ==> tool_through(*sb, call, r)),
            !readonly_kinds().contains(call_kind(call)) ==> (r matches Err(e) && e@ == "Unknown tool: "@
                + kind_name(call_kind(call))),
    {
        match call {
            FsTools::Write(_) => {
                proof {
                    assert(!readonly_kinds().contains(FsToolKind::Write));
                }
                let mut e = owned("Unknown tool: ");
                push_str(&mut e, "Write");
                Err(e)
            },
            FsTools::Replace(_) => {
                proof {
                    assert(!readonly_kinds().contains(FsToolKind::Replace));
                }
                let mut e = owned("Unknown tool: ");
                push_str(&mut e, "Edit");
                Err(e)
            },
            _ => {
                proof {
                    assert(readonly_kinds()[0] == FsToolKind::Read);
                    assert(readonly_kinds()[1] == FsToolKind::Ls);
                    assert(readonly_kinds()[2] == FsToolKind::Glob);
                }
                run_any(sandbox, call)
            },
        }
    }
}

} // verus!

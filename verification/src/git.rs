//! Stash records and the rules by which the output of the version-control
//! tool is read. Running the tool is the caller's part; this module turns
//! what it printed, and how it ended, into records, texts and errors.

use crate::text::{
    chars_of, find, find_from, find_from_exec, lemma_find_from_is_first, lines_of, occurs_at_exec,
    part_of, split_lines, starts_with, string_of, trim, trim_chars, trimmed, views_of,
};
use vstd::prelude::*;
use vstd::string::StringExecFns;

verus! {

/// The format argument of the stash listing that `list_stashes` reads: the
/// handle, the message and the relative date, separated by `|`.
pub const LIST_FORMAT: &'static str = "--format=%gd|%gs|%cr";

/// One entry of the stash list.
#[derive(Debug, Clone, PartialEq, Eq)]
pub struct Stash {
    /// Ordinal shown to the user: the position in the stash list, from 0.
    pub index: usize,
    /// Handle by which the tool knows the stash.
    pub name: String,
    /// The message as the tool printed it.
    pub message: String,
    /// Branch read from the message.
    pub branch: String,
    /// The message without its leading `... : ` part.
    pub short_msg: String,
    /// Relative date, as printed.
    pub date: String,
}

/// The mathematical value of a `Stash`.
pub struct StashView {
    pub index: nat,
    pub name: Seq<char>,
    pub message: Seq<char>,
    pub branch: Seq<char>,
    pub short_msg: Seq<char>,
    pub date: Seq<char>,
}

impl View for Stash {
    type V = StashView;

    open spec fn view(&self) -> StashView {
        StashView {
            index: self.index as nat,
            name: self.name@,
            message: self.message@,
            branch: self.branch@,
            short_msg: self.short_msg@,
            date: self.date@,
        }
    }
}

/// The values of a sequence of stashes, one per stash.
pub open spec fn stash_views(v: Seq<Stash>) -> Seq<StashView> {
    v.map_values(|s: Stash| s@)
}

/// A failed call of the tool, with the text that describes the failure.
#[derive(Debug, Clone, PartialEq, Eq)]
pub struct GatewayError {
    pub description: String,
}

impl View for GatewayError {
    type V = Seq<char>;

    open spec fn view(&self) -> Seq<char> {
        self.description@
    }
}

/// The branch part of a message, once the first `skip` characters (the
/// prefix) are gone: what stands before the first colon, trimmed; all of it
/// where there is no colon.
pub open spec fn branch_after(message: Seq<char>, skip: int) -> Seq<char> {
    let rest = message.skip(skip);
    match find(rest, ":"@) {
        Some(i) => trimmed(rest.take(i)),
        None => trimmed(rest),
    }
}

/// The branch that a stash message names. A message that begins with
/// `WIP on ` or with `On ` names the branch between that prefix and the
/// first colon; any other message names none, which reads `unknown`.
pub open spec fn branch_of(message: Seq<char>) -> Seq<char> {
    if starts_with(message, "WIP on "@) {
        branch_after(message, "WIP on "@.len() as int)
    } else if starts_with(message, "On "@) {
        branch_after(message, "On "@.len() as int)
    } else {
        "unknown"@
    }
}

/// The short form of a stash message: what follows the first `: `, or the
/// whole message where that separator does not occur.
pub open spec fn short_msg_of(message: Seq<char>) -> Seq<char> {
    match find(message, ": "@) {
        Some(i) => message.skip(i + ": "@.len()),
        None => message,
    }
}

/// The three fields of a listing line: the text before the first `|`, the
/// text between the first and the second, and all that follows the second.
/// A line with fewer than two separators has no fields.
pub open spec fn fields_of(line: Seq<char>) -> Option<(Seq<char>, Seq<char>, Seq<char>)> {
    match find(line, "|"@) {
        None => None,
        Some(i) => match find_from(line, "|"@, i + "|"@.len()) {
            None => None,
            Some(j) => Some((line.take(i), line.subrange(i + "|"@.len(), j), line.skip(j + "|"@.len()))),
        },
    }
}

/// The record that a listing line stands for, if it has the three fields.
pub open spec fn record_of(index: nat, line: Seq<char>) -> Option<StashView> {
    match fields_of(line) {
        None => None,
        Some((name, message, date)) => Some(
            StashView {
                index,
                name,
                message,
                branch: branch_of(message),
                short_msg: short_msg_of(message),
                date,
            },
        ),
    }
}

/// The records of the first `n` lines, in order. A line without the three
/// fields gives none and is not counted: each record carries its position
/// among the records, from 0.
pub open spec fn records_upto(lines: Seq<Seq<char>>, n: int) -> Seq<StashView>
    decreases n,
{
    if n <= 0 {
        Seq::empty()
    } else {
        let before = records_upto(lines, n - 1);
        match record_of(before.len(), lines[n - 1]) {
            Some(r) => before.push(r),
            None => before,
        }
    }
}

/// The stash list that a listing stands for.
pub open spec fn stash_list_of(output: Seq<char>) -> Seq<StashView> {
    let lines = lines_of(output);
    records_upto(lines, lines.len() as int)
}

/// The description of a call that ended badly: what was attempted, a colon
/// and a space, and what the tool wrote to its error stream.
pub open spec fn failure_text(attempt: Seq<char>, stderr: Seq<char>) -> Seq<char> {
    attempt + ": "@ + stderr
}

/// The lines below `n` that have the three fields, in order.
pub open spec fn entries_upto(lines: Seq<Seq<char>>, n: int) -> Seq<Seq<char>>
    decreases n,
{
    if n <= 0 {
        Seq::empty()
    } else if fields_of(lines[n - 1]) is Some {
        entries_upto(lines, n - 1).push(lines[n - 1])
    } else {
        entries_upto(lines, n - 1)
    }
}

/// A listing gives one record for each line that has the three fields, in
/// the order of the lines, and numbers the records by their position in the
/// list, from 0, whatever lines lie between them.
pub proof fn lemma_listing_numbers_its_records(lines: Seq<Seq<char>>, n: int)
    requires
        0 <= n <= lines.len(),
    ensures
        records_upto(lines, n).len() == entries_upto(lines, n).len(),
        records_upto(lines, n).len() <= n,
        forall|k: int|
            0 <= k < records_upto(lines, n).len() ==> (#[trigger] records_upto(lines, n)[k]).index
                == k,
        forall|k: int|
            0 <= k < records_upto(lines, n).len() ==> record_of(
                k as nat,
                entries_upto(lines, n)[k],
            ) == Some(#[trigger] records_upto(lines, n)[k]),
        (forall|i: int| 0 <= i < n ==> fields_of(#[trigger] lines[i]) is Some) ==> entries_upto(
            lines,
            n,
        ) == lines.take(n),
    decreases n,
{
    if n > 0 {
        lemma_listing_numbers_its_records(lines, n - 1);
        let before = records_upto(lines, n - 1);
        let all = records_upto(lines, n);
        let entries = entries_upto(lines, n);
        match record_of(before.len(), lines[n - 1]) {
            Some(r) => {
                assert(all == before.push(r));
                assert(entries == entries_upto(lines, n - 1).push(lines[n - 1]));
                assert forall|k: int| 0 <= k < all.len() implies (#[trigger] all[k]).index == k
                    && record_of(k as nat, entries[k]) == Some(all[k]) by {
                    if k < before.len() {
                        assert(all[k] == before[k]);
                    }
                }
            },
            None => {
                assert(all == before);
            },
        }
        if forall|i: int| 0 <= i < n ==> fields_of(#[trigger] lines[i]) is Some {
            assert(lines.take(n) =~= lines.take(n - 1).push(lines[n - 1]));
        }
    } else {
        assert(lines.take(n) =~= Seq::<Seq<char>>::empty());
    }
}

fn branch_after_exec(message: &Vec<char>, skip: usize) -> (r: String)
    requires
        skip <= message.len(),
    ensures
        r@ == branch_after(message@, skip as int),
{
    let rest = part_of(message, skip, message.len());
    assert(rest@ =~= message@.skip(skip as int));
    let colon = chars_of(":");
    match find_from_exec(&rest, &colon, 0) {
        Some(i) => {
            proof {
                lemma_find_from_is_first(rest@, colon@, 0);
            }
            let head = part_of(&rest, 0, i);
            assert(head@ =~= rest@.take(i as int));
            trim_chars(&head)
        },
        None => trim_chars(&rest),
    }
}

/// The branch that a stash message names.
pub fn extract_branch(message: &str) -> (r: String)
    ensures
        r@ == branch_of(message@),
{
    let m = chars_of(message);
    let wip = chars_of("WIP on ");
    let on = chars_of("On ");
    if occurs_at_exec(&m, &wip, 0) {
        branch_after_exec(&m, wip.len())
    } else if occurs_at_exec(&m, &on, 0) {
        branch_after_exec(&m, on.len())
    } else {
        String::from_str("unknown")
    }
}

/// The short form of a stash message.
pub fn extract_short_msg(message: &str) -> (r: String)
    ensures
        r@ == short_msg_of(message@),
{
    let m = chars_of(message);
    let n = m.len();
    let sep = chars_of(": ");
    match find_from_exec(&m, &sep, 0) {
        Some(i) => {
            proof {
                lemma_find_from_is_first(m@, sep@, 0);
            }
            let r = string_of(&m, i + sep.len(), n);
            assert(m@.subrange(i + sep.len(), n as int) =~= m@.skip(i + sep@.len()));
            r
        },
        None => {
            let r = string_of(&m, 0, n);
            assert(m@.subrange(0, n as int) =~= m@);
            r
        },
    }
}

/// Reads one line of the listing as the record with the given ordinal.
pub fn parse_stash_line(index: usize, line: &str) -> (r: Option<Stash>)
    ensures
        match r {
            Some(s) => record_of(index as nat, line@) == Some(s@),
            None => record_of(index as nat, line@) is None,
        },
{
    let l = chars_of(line);
    let n = l.len();
    let bar = chars_of("|");
    let i = match find_from_exec(&l, &bar, 0) {
        Some(i) => i,
        None => {
            return None;
        },
    };
    proof {
        lemma_find_from_is_first(l@, bar@, 0);
    }
    let j = match find_from_exec(&l, &bar, i + bar.len()) {
        Some(j) => j,
        None => {
            return None;
        },
    };
    proof {
        lemma_find_from_is_first(l@, bar@, i + bar@.len());
    }
    let name = string_of(&l, 0, i);
    let message = string_of(&l, i + bar.len(), j);
    let date = string_of(&l, j + bar.len(), n);
    proof {
        assert(l@.subrange(0, i as int) =~= l@.take(i as int));
        assert(l@.subrange(j + bar.len(), n as int) =~= l@.skip(j + bar@.len()));
    }
    let branch = extract_branch(message.as_str());
    let short_msg = extract_short_msg(message.as_str());
    Some(Stash { index, name, message, branch, short_msg, date })
}

/// Reads the listing that the tool printed for `LIST_FORMAT`: one record per
/// line that has the three fields, in the order of the lines, each numbered
/// by its position in the result.
pub fn list_stashes(output: &str) -> (r: Vec<Stash>)
    ensures
        stash_views(r@) == stash_list_of(output@),
        forall|k: int| 0 <= k < r@.len() ==> (#[trigger] r@[k]).index == k,
{
    let lines = split_lines(output);
    let mut out: Vec<Stash> = Vec::new();
    let mut i: usize = 0;
    assert(stash_views(out@) =~= Seq::<StashView>::empty());
    while i < lines.len()
        invariant
            i <= lines.len(),
            views_of(lines@) == lines_of(output@),
            stash_views(out@) == records_upto(lines_of(output@), i as int),
            out@.len() <= i,
            forall|k: int| 0 <= k < out@.len() ==> (#[trigger] out@[k]).index == k,
        decreases lines.len() - i,
    {
        let ghost before = stash_views(out@);
        assert(views_of(lines@)[i as int] == lines@[i as int]@);
        match parse_stash_line(out.len(), lines[i].as_str()) {
            Some(s) => {
                out.push(s);
                assert(stash_views(out@) =~= before.push(s@));
            },
            None => {},
        }
        i += 1;
    }
    out
}

/// The name of the current branch as the tool printed it: the output
/// without the whitespace around it.
pub fn current_branch(output: &str) -> (r: String)
    ensures
        r@ == trimmed(output@),
{
    trim(output)
}

fn status_result(success: bool, attempt: &str, stderr: &str) -> (r: Result<(), GatewayError>)
    ensures
        success ==> r is Ok,
        !success ==> r is Err && r->Err_0@ == failure_text(attempt@, stderr@),
{
    if success {
        Ok(())
    } else {
        let mut description = String::from_str(attempt);
        description.append(": ");
        description.append(stderr);
        Err(GatewayError { description })
    }
}

/// Whether the working directory lies inside a repository, from how the
/// tool's check ended.
pub fn assert_git_repo(success: bool) -> (r: Result<(), GatewayError>)
    ensures
        success ==> r is Ok,
        !success ==> r is Err && r->Err_0@
            == "Not inside a git repository. Please run gsm from within a git repo."@,
{
    if success {
        Ok(())
    } else {
        Err(
            GatewayError {
                description: String::from_str(
                    "Not inside a git repository. Please run gsm from within a git repo.",
                ),
            },
        )
    }
}

/// The result of applying a stash: what the tool printed where it
/// succeeded, else the failure with what it wrote to its error stream.
pub fn apply_stash(success: bool, stdout: String, stderr: &str) -> (r: Result<
    String,
    GatewayError,
>)
    ensures
        success ==> r is Ok && r->Ok_0@ == stdout@,
        !success ==> r is Err && r->Err_0@ == failure_text("Failed to apply stash"@, stderr@),
{
    match status_result(success, "Failed to apply stash", stderr) {
        Ok(_) => Ok(stdout),
        Err(e) => Err(e),
    }
}

/// The result of popping a stash: what the tool printed where it succeeded,
/// else the failure with what it wrote to its error stream.
pub fn pop_stash(success: bool, stdout: String, stderr: &str) -> (r: Result<String, GatewayError>)
    ensures
        success ==> r is Ok && r->Ok_0@ == stdout@,
        !success ==> r is Err && r->Err_0@ == failure_text("Failed to pop stash"@, stderr@),
{
    match status_result(success, "Failed to pop stash", stderr) {
        Ok(_) => Ok(stdout),
        Err(e) => Err(e),
    }
}

/// The result of dropping a stash.
pub fn drop_stash(success: bool, stderr: &str) -> (r: Result<(), GatewayError>)
    ensures
        success ==> r is Ok,
        !success ==> r is Err && r->Err_0@ == failure_text("Failed to drop stash"@, stderr@),
{
    status_result(success, "Failed to drop stash", stderr)
}

/// The arguments with which the tool creates a stash with the given
/// message, with or without the untracked files.
pub fn push_stash_args(message: &str, include_untracked: bool) -> (r: Vec<String>)
    ensures
        r@.len() == if include_untracked {
            5int
        } else {
            4int
        },
        r@[0]@ == "stash"@,
        r@[1]@ == "push"@,
        r@[2]@ == "-m"@,
        r@[3]@ == message@,
        include_untracked ==> r@[4]@ == "--include-untracked"@,
{
    let mut args: Vec<String> = Vec::new();
    args.push(String::from_str("stash"));
    args.push(String::from_str("push"));
    args.push(String::from_str("-m"));
    args.push(String::from_str(message));
    if include_untracked {
        args.push(String::from_str("--include-untracked"));
    }
    args
}

/// The result of creating a stash.
pub fn push_stash(success: bool, stderr: &str) -> (r: Result<(), GatewayError>)
    ensures
        success ==> r is Ok,
        !success ==> r is Err && r->Err_0@ == failure_text("Failed to create stash"@, stderr@),
{
    status_result(success, "Failed to create stash", stderr)
}

} // verus!

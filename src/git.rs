//! What git reports about a repository's worktrees and branches.
use vstd::prelude::*;

use crate::cleanup::MergeStatus;
use crate::text::{
    chars_of, contains, has_prefix, index_of, lemma_index_of, lines, occurs_in,
    split_lines, starts_with, str_eq, substring, trim, trimmed, views,
};

verus! {

/// A repository, known by the directory of its primary worktree.
pub struct GitRepo {
    pub root_dir: String,
}

impl GitRepo {
    pub fn new(root_dir: String) -> (r: GitRepo)
        ensures
            r.root_dir@ == root_dir@,
    {
        GitRepo { root_dir }
    }
}

/// One working tree attached to a repository.
pub struct WorktreeInfo {
    pub path: String,
    pub branch: Option<String>,
    pub is_detached: bool,
}

impl WorktreeInfo {
    pub open spec fn branch_view(self) -> Option<Seq<char>> {
        match self.branch {
            Some(b) => Some(b@),
            None => None,
        }
    }
}

/// A worktree record as plain values: path, branch, detached.
pub type WorktreeRecord = (Seq<char>, Option<Seq<char>>, bool);

impl View for WorktreeInfo {
    type V = WorktreeRecord;

    open spec fn view(&self) -> WorktreeRecord {
        (self.path@, self.branch_view(), self.is_detached)
    }
}

pub open spec fn records(v: Seq<WorktreeInfo>) -> Seq<WorktreeRecord> {
    v.map_values(|w: WorktreeInfo| w@)
}

/// The rest of `s` after its first `n` characters.
pub open spec fn skip(s: Seq<char>, n: nat) -> Seq<char> {
    s.subrange(n as int, s.len() as int)
}

/// One line of `git worktree list --porcelain`: a `worktree <path>` line
/// starts a new record and closes the one before; `branch refs/heads/<name>`
/// and `detached` fill in the open record; any other line, and any line
/// before the first record, is ignored.
pub open spec fn porcelain_step(
    state: (Seq<WorktreeRecord>, Option<WorktreeRecord>),
    line: Seq<char>,
) -> (Seq<WorktreeRecord>, Option<WorktreeRecord>) {
    let (done, open) = state;
    if has_prefix(line, "worktree "@) {
        let closed = match open {
            Some(r) => done.push(r),
            None => done,
        };
        (closed, Some((skip(line, "worktree "@.len()), None, false)))
    } else if has_prefix(line, "branch refs/heads/"@) {
        match open {
            Some(r) => (done, Some((r.0, Some(skip(line, "branch refs/heads/"@.len())), r.2))),
            None => state,
        }
    } else if line == "detached"@ {
        match open {
            Some(r) => (done, Some((r.0, r.1, true))),
            None => state,
        }
    } else {
        state
    }
}

pub open spec fn porcelain_scan(ls: Seq<Seq<char>>) -> (Seq<WorktreeRecord>, Option<WorktreeRecord>)
    decreases ls.len(),
{
    if ls.len() == 0 {
        (seq![], None)
    } else {
        porcelain_step(porcelain_scan(ls.drop_last()), ls.last())
    }
}

/// The worktrees described by a porcelain listing, in order.
pub open spec fn porcelain_records(output: Seq<char>) -> Seq<WorktreeRecord> {
    let (done, open) = porcelain_scan(lines(output));
    match open {
        Some(r) => done.push(r),
        None => done,
    }
}

/// `s` with every leading copy of the non-empty `p` removed.
pub open spec fn strip_leading(s: Seq<char>, p: Seq<char>) -> Seq<char>
    decreases s.len(),
{
    if p.len() > 0 && has_prefix(s, p) {
        strip_leading(skip(s, p.len()), p)
    } else {
        s
    }
}

/// The branch named by one line of `git branch --merged main`, if any: blank
/// lines and the checked-out branch (marked `*`) name none; a `+ ` mark
/// (checked out in another worktree) is removed; the main branches
/// themselves, and a name left empty, are left out.
pub open spec fn merged_entry(line: Seq<char>) -> Option<Seq<char>> {
    let t = trimmed(line);
    let n = strip_leading(t, "+ "@);
    if t.len() == 0 || occurs_in("*"@, line) || n.len() == 0 || n == "main"@ || n == "master"@ {
        None
    } else {
        Some(n)
    }
}

pub open spec fn merged_names(ls: Seq<Seq<char>>) -> Seq<Seq<char>>
    decreases ls.len(),
{
    if ls.len() == 0 {
        seq![]
    } else {
        let rest = merged_names(ls.drop_last());
        match merged_entry(ls.last()) {
            Some(n) => rest.push(n),
            None => rest,
        }
    }
}

/// The primary worktree's directory: the path of the first record of
/// `git worktree list --porcelain` when that query answered and named one,
/// else the output of `git rev-parse --show-toplevel` without surrounding
/// whitespace, when that is not empty. None when neither resolves.
pub open spec fn resolved_root(listing: Option<Seq<char>>, toplevel: Seq<char>) -> Option<
    Seq<char>,
> {
    if listing is Some && porcelain_records(listing->0).len() > 0
        && porcelain_records(listing->0)[0].0.len() > 0 {
        Some(porcelain_records(listing->0)[0].0)
    } else if trimmed(toplevel).len() > 0 {
        Some(trimmed(toplevel))
    } else {
        None
    }
}

pub open spec fn opt_text(o: Option<&str>) -> Option<Seq<char>> {
    match o {
        Some(s) => Some(s@),
        None => None,
    }
}

pub open spec fn open_record(open: Option<WorktreeInfo>) -> Option<WorktreeRecord> {
    match open {
        Some(w) => Some(w@),
        None => None,
    }
}

/// Parses the output of `git worktree list --porcelain`.
pub fn parse_worktree_list(output: &str) -> (r: Vec<WorktreeInfo>)
    ensures
        records(r@) == porcelain_records(output@),
{
    let ls = split_lines(output);
    let wt_len = "worktree ".unicode_len();
    let br_len = "branch refs/heads/".unicode_len();
    let mut done: Vec<WorktreeInfo> = Vec::new();
    let mut open: Option<WorktreeInfo> = None;
    let mut i: usize = 0;
    while i < ls.len()
        invariant
            views(ls@) == lines(output@),
            wt_len == "worktree "@.len(),
            br_len == "branch refs/heads/"@.len(),
            i <= ls.len(),
            porcelain_scan(views(ls@).take(i as int)) == (records(done@), open_record(open)),
        decreases ls.len() - i,
    {
        let line = ls[i].as_str();
        proof {
            assert(views(ls@).take(i + 1).drop_last() =~= views(ls@).take(i as int));
            assert(views(ls@).take(i + 1).last() == line@);
        }
        if starts_with(line, "worktree ") {
            let ghost before = done@;
            if let Some(w) = open {
                done.push(w);
                assert(records(done@) =~= records(before).push(w@));
            }
            let path = substring(line, wt_len, line.unicode_len());
            open = Some(WorktreeInfo { path, branch: None, is_detached: false });
        } else if starts_with(line, "branch refs/heads/") {
            if let Some(w) = open {
                let name = substring(line, br_len, line.unicode_len());
                open = Some(WorktreeInfo { path: w.path, branch: Some(name), is_detached: w.is_detached });
            }
        } else if str_eq(line, "detached") {
            if let Some(w) = open {
                open = Some(WorktreeInfo { path: w.path, branch: w.branch, is_detached: true });
            }
        }
        i = i + 1;
    }
    assert(views(ls@).take(i as int) =~= views(ls@));
    if let Some(w) = open {
        let ghost before = done@;
        done.push(w);
        assert(records(done@) =~= records(before).push(w@));
    }
    done
}

fn strip_leading_exec(s: String, p: &str) -> (r: String)
    ensures
        r@ == strip_leading(s@, p@),
{
    let plen = p.unicode_len();
    let mut cur = s;
    while plen > 0 && starts_with(cur.as_str(), p)
        invariant
            plen == p@.len(),
            strip_leading(s@, p@) == strip_leading(cur@, p@),
        decreases cur@.len(),
    {
        cur = substring(cur.as_str(), plen, cur.as_str().unicode_len());
    }
    cur
}

/// Parses the output of `git branch --merged main`.
pub fn parse_merged_branches(output: &str) -> (r: Vec<String>)
    ensures
        views(r@) == merged_names(lines(output@)),
{
    let ls = split_lines(output);
    let mut r: Vec<String> = Vec::new();
    let mut i: usize = 0;
    while i < ls.len()
        invariant
            views(ls@) == lines(output@),
            i <= ls.len(),
            views(r@) == merged_names(views(ls@).take(i as int)),
        decreases ls.len() - i,
    {
        let line = ls[i].as_str();
        proof {
            assert(views(ls@).take(i + 1).drop_last() =~= views(ls@).take(i as int));
            assert(views(ls@).take(i + 1).last() == line@);
        }
        let t = trim(line);
        let t_len = t.as_str().unicode_len();
        let name = strip_leading_exec(t, "+ ");
        if t_len > 0 && !contains(line, "*") && name.as_str().unicode_len() > 0 && !str_eq(
            name.as_str(),
            "main",
        ) && !str_eq(name.as_str(), "master") {
            let ghost before = r@;
            let ghost name_view = name@;
            r.push(name);
            assert(views(r@) =~= views(before).push(name_view));
        }
        i = i + 1;
    }
    assert(views(ls@).take(i as int) =~= views(ls@));
    r
}

/// The primary worktree's directory from what the two queries printed;
/// `listing` is none when `git worktree list --porcelain` failed.
pub fn resolve_root(listing: Option<&str>, toplevel: &str) -> (r: Option<String>)
    ensures
        r matches Some(p) ==> resolved_root(opt_text(listing), toplevel@) == Some(p@),
        r is None ==> resolved_root(opt_text(listing), toplevel@) is None,
{
    if let Some(l) = listing {
        let ws = parse_worktree_list(l);
        if ws.len() > 0 {
            assert(records(ws@)[0] == ws@[0]@);
            if ws[0].path.as_str().unicode_len() > 0 {
                return Some(ws[0].path.clone());
            }
        }
    }
    let t = trim(toplevel);
    if t.as_str().unicode_len() > 0 {
        Some(t)
    } else {
        None
    }
}

pub open spec fn is_digit(c: char) -> bool {
    '0' <= c <= '9'
}

pub open spec fn all_digits(d: Seq<char>) -> bool {
    forall|i: int| 0 <= i < d.len() ==> is_digit(#[trigger] d[i])
}

/// The number written by the decimal digits `d`.
pub open spec fn digits_value(d: Seq<char>) -> nat
    decreases d.len(),
{
    if d.len() == 0 {
        0
    } else {
        digits_value(d.drop_last()) * 10 + (d.last() as nat - '0' as nat) as nat
    }
}

/// The count that `git rev-list --count` printed, read as an `i32` is read:
/// an optional `+`, then decimal digits. The count is positive when it
/// reads and is above zero; a count that does not read counts as zero.
pub open spec fn positive_count(output: Seq<char>) -> bool {
    let t = trimmed(output);
    let d = if t.len() > 0 && t[0] == '+' {
        t.drop_first()
    } else {
        t
    };
    d.len() > 0 && all_digits(d) && 0 < digits_value(d) <= i32::MAX
}

proof fn lemma_digits_value_grows(d: Seq<char>, k: int)
    requires
        0 <= k <= d.len(),
        all_digits(d),
    ensures
        digits_value(d.take(k)) <= digits_value(d),
    decreases d.len(),
{
    if k < d.len() {
        assert(d.drop_last().take(k) =~= d.take(k));
        assert(all_digits(d.drop_last())) by {
            assert forall|i: int| 0 <= i < d.drop_last().len() implies is_digit(
                #[trigger] d.drop_last()[i],
            ) by {
                assert(d.drop_last()[i] == d[i]);
            }
        }
        lemma_digits_value_grows(d.drop_last(), k);
    } else {
        assert(d.take(k) =~= d);
    }
}

/// Whether `git rev-list --count main..<branch>` reported commits that the
/// target branch lacks.
pub fn has_unmerged_commits(count_output: &str) -> (r: bool)
    ensures
        r == positive_count(count_output@),
{
    let t = trim(count_output);
    let v = chars_of(t.as_str());
    let ghost tv = t@;
    let start: usize = if v.len() > 0 && v[0] == '+' {
        1
    } else {
        0
    };
    let ghost d = tv.subrange(start as int, tv.len() as int);
    assert(d =~= (if tv.len() > 0 && tv[0] == '+' {
        tv.drop_first()
    } else {
        tv
    }));
    if start == v.len() {
        return false;
    }
    let mut value: u64 = 0;
    let mut i: usize = start;
    while i < v.len()
        invariant
            v@ == tv,
            tv == trimmed(count_output@),
            d == (if tv.len() > 0 && tv[0] == '+' {
                tv.drop_first()
            } else {
                tv
            }),
            d == tv.subrange(start as int, tv.len() as int),
            start <= i <= v.len(),
            all_digits(d.take(i - start)),
            value == digits_value(d.take(i - start)),
            value <= i32::MAX,
        decreases v.len() - i,
    {
        let c = v[i];
        if c < '0' || c > '9' {
            assert(!is_digit(d[i - start]));
            return false;
        }
        let digit = (c as u32 - '0' as u32) as u64;
        proof {
            assert(d.take(i - start + 1).drop_last() =~= d.take(i - start));
            assert(d.take(i - start + 1).last() == c);
            assert(all_digits(d.take(i - start + 1))) by {
                assert forall|m: int| 0 <= m < d.take(i - start + 1).len() implies is_digit(
                    #[trigger] d.take(i - start + 1)[m],
                ) by {
                    if m < i - start {
                        assert(d.take(i - start + 1)[m] == d.take(i - start)[m]);
                    }
                }
            }
        }
        value = value * 10 + digit;
        assert(value == digits_value(d.take(i - start + 1)));
        if value > 2147483647 {
            proof {
                if all_digits(d) {
                    lemma_digits_value_grows(d, i - start + 1);
                }
            }
            return false;
        }
        i = i + 1;
    }
    assert(d.take(i - start) =~= d);
    value > 0
}

/// What the exit code of `git merge-base --is-ancestor <branch> main`
/// says: 0 when merged, 1 when not; anything else, or no exit code, leaves
/// it unknown.
pub fn merge_status(exit_code: Option<i32>) -> (r: MergeStatus)
    ensures
        r == (match exit_code {
            Some(0) => MergeStatus::Merged,
            Some(1) => MergeStatus::NotMerged,
            _ => MergeStatus::Unknown,
        }),
{
    match exit_code {
        Some(0) => MergeStatus::Merged,
        Some(1) => MergeStatus::NotMerged,
        _ => MergeStatus::Unknown,
    }
}

/// The branch named by one line of `git ls-remote --heads <remote>`: the
/// text after the first tab, when it is a `refs/heads/` ref.
pub open spec fn remote_head(line: Seq<char>) -> Option<Seq<char>> {
    let k = index_of(line, '\t');
    let r = skip(line, (k + 1) as nat);
    if k < line.len() && has_prefix(r, "refs/heads/"@) {
        Some(skip(r, "refs/heads/"@.len()))
    } else {
        None
    }
}

pub open spec fn remote_heads(ls: Seq<Seq<char>>) -> Seq<Seq<char>>
    decreases ls.len(),
{
    if ls.len() == 0 {
        seq![]
    } else {
        let rest = remote_heads(ls.drop_last());
        match remote_head(ls.last()) {
            Some(n) => rest.push(n),
            None => rest,
        }
    }
}

/// The branch names on a remote, from the output of
/// `git ls-remote --heads <remote>`.
pub fn parse_remote_heads(output: &str) -> (r: Vec<String>)
    ensures
        views(r@) == remote_heads(lines(output@)),
{
    let ls = split_lines(output);
    let heads_len = "refs/heads/".unicode_len();
    let mut r: Vec<String> = Vec::new();
    let mut i: usize = 0;
    while i < ls.len()
        invariant
            views(ls@) == lines(output@),
            heads_len == "refs/heads/"@.len(),
            i <= ls.len(),
            views(r@) == remote_heads(views(ls@).take(i as int)),
        decreases ls.len() - i,
    {
        let line = ls[i].as_str();
        proof {
            assert(views(ls@).take(i + 1).drop_last() =~= views(ls@).take(i as int));
            assert(views(ls@).take(i + 1).last() == line@);
        }
        let v = chars_of(line);
        let mut k: usize = 0;
        while k < v.len() && v[k] != '\t'
            invariant
                v@ == line@,
                k <= v.len(),
                forall|m: int| 0 <= m < k ==> line@[m] != '\t',
            decreases v.len() - k,
        {
            k = k + 1;
        }
        proof {
            lemma_index_of(line@, '\t', k as int);
        }
        if k < v.len() {
            let rest = substring(line, k + 1, v.len());
            assert(rest@ == skip(line@, (k + 1) as nat));
            if starts_with(rest.as_str(), "refs/heads/") {
                let name = substring(rest.as_str(), heads_len, rest.as_str().unicode_len());
                let ghost before = r@;
                r.push(name);
                assert(views(r@) =~= views(before).push(name@));
            }
        }
        i = i + 1;
    }
    assert(views(ls@).take(i as int) =~= views(ls@));
    r
}

/// A number of seconds as git prints it (`%ct`): decimal digits with
/// surrounding whitespace, small enough for a `u64`.
pub open spec fn timestamp_of(output: Seq<char>) -> Option<u64> {
    let t = trimmed(output);
    if t.len() > 0 && all_digits(t) && digits_value(t) <= u64::MAX {
        Some(digits_value(t) as u64)
    } else {
        None
    }
}

/// Reads the commit time that `git log -1 --format=%ct <branch>` printed.
pub fn parse_timestamp(output: &str) -> (r: Option<u64>)
    ensures
        r == timestamp_of(output@),
{
    let t = trim(output);
    let v = chars_of(t.as_str());
    let ghost tv = t@;
    if v.len() == 0 {
        return None;
    }
    let mut value: u64 = 0;
    let mut i: usize = 0;
    while i < v.len()
        invariant
            v@ == tv,
            tv == trimmed(output@),
            tv.len() > 0,
            i <= v.len(),
            all_digits(tv.take(i as int)),
            value == digits_value(tv.take(i as int)),
        decreases v.len() - i,
    {
        let c = v[i];
        if c < '0' || c > '9' {
            assert(!is_digit(tv[i as int]));
            return None;
        }
        let digit = (c as u32 - '0' as u32) as u64;
        proof {
            assert(tv.take(i + 1).drop_last() =~= tv.take(i as int));
            assert(tv.take(i + 1).last() == c);
            assert(all_digits(tv.take(i + 1))) by {
                assert forall|m: int| 0 <= m < tv.take(i + 1).len() implies is_digit(
                    #[trigger] tv.take(i + 1)[m],
                ) by {
                    if m < i {
                        assert(tv.take(i + 1)[m] == tv.take(i as int)[m]);
                    }
                }
            }
        }
        if value > (u64::MAX - digit) / 10 {
            proof {
                assert(digits_value(tv.take(i + 1)) > u64::MAX) by (nonlinear_arith)
                    requires
                        value > (u64::MAX - digit) / 10,
                        digits_value(tv.take(i + 1)) == value * 10 + digit,
                ;
                if all_digits(tv) {
                    lemma_digits_value_grows(tv, i + 1);
                }
            }
            return None;
        }
        proof {
            assert(value * 10 + digit <= u64::MAX) by (nonlinear_arith)
                requires
                    value <= (u64::MAX - digit) / 10,
                    digit <= 9,
            ;
        }
        value = value * 10 + digit;
        i = i + 1;
    }
    assert(tv.take(i as int) =~= tv);
    Some(value)
}

/// Seconds from `then` to `now`; unknown when `then` is unknown or later
/// than `now`.
pub fn elapsed_since(now: u64, then: Option<u64>) -> (r: Option<u64>)
    ensures
        r == (match then {
            Some(t) => if t <= now {
                Some((now - t) as u64)
            } else {
                None::<u64>
            },
            None => None::<u64>,
        }),
{
    match then {
        Some(t) => if t <= now {
            Some(now - t)
        } else {
            None
        },
        None => None,
    }
}

} // verus!

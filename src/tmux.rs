//! Naming the terminal sessions that belong to worktrees.
use vstd::prelude::*;

use crate::text::{chars_of, strip_char, substring, trim_char};


verus! {

/// Characters that a tmux session name keeps as they are.
pub open spec fn is_session_char(c: char) -> bool {
    ||| 'a' <= c <= 'z'
    ||| 'A' <= c <= 'Z'
    ||| '0' <= c <= '9'
    ||| c == '-'
    ||| c == '_'
    ||| c == '.'
}

pub open spec fn session_char(c: char) -> char {
    if is_session_char(c) {
        c
    } else {
        '-'
    }
}

/// Every other character becomes `-`, dashes at either end are dropped,
/// and a name left empty becomes `worktree`.
pub open spec fn sanitized(name: Seq<char>) -> Seq<char> {
    let t = strip_char(name.map_values(|c: char| session_char(c)), '-', true);
    if t.len() == 0 {
        "worktree"@
    } else {
        t
    }
}

fn is_session_char_exec(c: char) -> (r: bool)
    ensures
        r == is_session_char(c),
{
    ('a' <= c && c <= 'z') || ('A' <= c && c <= 'Z') || ('0' <= c && c <= '9') || c == '-' || c
        == '_' || c == '.'
}

/// A session name that tmux accepts, made from `name`.
pub fn sanitize_session_name(name: &str) -> (r: String)
    ensures
        r@ == sanitized(name@),
{
    let v = chars_of(name);
    let mut mapped = String::new();
    let mut i: usize = 0;
    while i < v.len()
        invariant
            v@ == name@,
            i <= v.len(),
            mapped@ == name@.take(i as int).map_values(|c: char| session_char(c)),
        decreases v.len() - i,
    {
        let ghost before = mapped@;
        if is_session_char_exec(v[i]) {
            let one = substring(name, i, i + 1);
            assert(one@ =~= seq![v@[i as int]]);
            mapped.append(one.as_str());
        } else {
            proof {
                reveal_strlit("-");
            }
            assert("-"@ =~= seq!['-']);
            mapped.append("-");
        }
        assert(mapped@ =~= before.push(session_char(v@[i as int])));
        assert(name@.take(i + 1).map_values(|c: char| session_char(c)) =~= before.push(
            session_char(v@[i as int]),
        ));
        i = i + 1;
    }
    assert(name@.take(i as int) =~= name@);
    let t = trim_char(mapped.as_str(), '-', true);
    if t.as_str().unicode_len() == 0 {
        "worktree".to_owned()
    } else {
        t
    }
}

/// What the exit code of `tmux has-session` says: 0 when the session
/// exists, 1 when it does not; anything else answers nothing.
pub fn session_exists(exit_code: Option<i32>) -> (r: Option<bool>)
    ensures
        r == (match exit_code {
            Some(0) => Some(true),
            Some(1) => Some(false),
            _ => None::<bool>,
        }),
{
    match exit_code {
        Some(0) => Some(true),
        Some(1) => Some(false),
        _ => None,
    }
}

/// The last component of a path: what follows its last `/`.
pub open spec fn base_name(p: Seq<char>) -> Seq<char>
    decreases p.len(),
{
    if p.len() == 0 || p.last() == '/' {
        seq![]
    } else {
        base_name(p.drop_last()).push(p.last())
    }
}

/// The tmux session of a worktree: the repository directory's name and the
/// worktree directory's name, joined by `-` and sanitized.
pub open spec fn session_name_of(repo_root: Seq<char>, worktree_path: Seq<char>) -> Seq<char> {
    sanitized(base_name(repo_root) + "-"@ + base_name(worktree_path))
}

fn last_component(p: &str) -> (r: String)
    ensures
        r@ == base_name(p@),
{
    let v = chars_of(p);
    let n = v.len();
    let mut j: usize = n;
    assert(p@.subrange(n as int, n as int) =~= Seq::<char>::empty());
    assert(p@.subrange(0, n as int) =~= p@);
    while j > 0 && v[j - 1] != '/'
        invariant
            v@ == p@,
            n == p@.len(),
            j <= n,
            base_name(p@) == base_name(p@.subrange(0, j as int)) + p@.subrange(j as int, n as int),
        decreases j,
    {
        let ghost pre = p@.subrange(0, j as int);
        assert(pre.drop_last() =~= p@.subrange(0, j - 1));
        assert(p@.subrange(j - 1, n as int) =~= seq![pre.last()] + p@.subrange(j as int, n as int));
        assert(base_name(pre) == base_name(pre.drop_last()).push(pre.last()));
        assert(base_name(pre.drop_last()).push(pre.last()) + p@.subrange(j as int, n as int)
            =~= base_name(pre.drop_last()) + p@.subrange(j - 1, n as int));
        j = j - 1;
    }
    assert(base_name(p@.subrange(0, j as int)) =~= Seq::<char>::empty());
    assert(base_name(p@) =~= p@.subrange(j as int, n as int));
    substring(p, j, n)
}

/// The name of the tmux session that belongs to a worktree.
pub fn session_name(repo_root: &str, worktree_path: &str) -> (r: String)
    ensures
        r@ == session_name_of(repo_root@, worktree_path@),
{
    let mut joined = last_component(repo_root);
    joined.append("-");
    let wt = last_component(worktree_path);
    joined.append(wt.as_str());
    sanitize_session_name(joined.as_str())
}

} // verus!

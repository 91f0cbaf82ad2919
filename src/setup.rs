//! Naming a new worktree.
use vstd::prelude::*;

use crate::text::chars_of;

verus! {

pub open spec fn dir_char(c: char) -> char {
    if c == '/' {
        '-'
    } else {
        c
    }
}

/// `worktree-` followed by the branch name with each `/` made `-`.
pub open spec fn worktree_dir(branch: Seq<char>) -> Seq<char> {
    "worktree-"@ + branch.map_values(|c: char| dir_char(c))
}

/// The directory name, beside the primary worktree, of the worktree for
/// `branch_name`.
pub fn worktree_dir_name(branch_name: &str) -> (r: String)
    ensures
        r@ == worktree_dir(branch_name@),
{
    let v = chars_of(branch_name);
    let mut r = "worktree-".to_owned();
    let mut i: usize = 0;
    while i < v.len()
        invariant
            v@ == branch_name@,
            i <= v.len(),
            r@ == "worktree-"@ + branch_name@.take(i as int).map_values(|c: char| dir_char(c)),
        decreases v.len() - i,
    {
        let ghost before = r@;
        if v[i] == '/' {
            proof {
                reveal_strlit("-");
            }
            assert("-"@ =~= seq!['-']);
            r.append("-");
        } else {
            let one = crate::text::substring(branch_name, i, i + 1);
            assert(one@ =~= seq![v@[i as int]]);
            r.append(one.as_str());
        }
        assert(r@ =~= before.push(dir_char(v@[i as int])));
        assert(branch_name@.take(i + 1).map_values(|c: char| dir_char(c)) =~= branch_name@.take(
            i as int,
        ).map_values(|c: char| dir_char(c)).push(dir_char(v@[i as int])));
        i = i + 1;
    }
    assert(branch_name@.take(i as int) =~= branch_name@);
    r
}

/// A shell starts in the new worktree unless it was declined or only the
/// path is to be printed.
pub fn should_start_shell(no_shell: bool, print_path: bool) -> (r: bool)
    ensures
        r == (!no_shell && !print_path),
{
    !no_shell && !print_path
}

} // verus!

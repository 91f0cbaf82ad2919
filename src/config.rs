//! Which files a new worktree receives from the main checkout.
use vstd::prelude::*;

use crate::text::{lines, split_lines, strip_char, trim, trim_char, trimmed, views};

verus! {

pub struct Config {
    pub files_to_copy: Vec<String>,
    pub directories_to_copy: Vec<String>,
    pub claude_files: Vec<String>,
}

pub open spec fn default_files() -> Seq<Seq<char>> {
    seq![".envrc"@, ".env"@]
}

pub open spec fn default_claude_files() -> Seq<Seq<char>> {
    seq!["settings.json"@, "settings.local.json"@]
}

/// One line of a `.workbloom` file: blank lines and `#` comments name
/// nothing; a line ending in `/` names a directory (without its slashes),
/// any other a file.
pub open spec fn config_entry(line: Seq<char>) -> Option<(bool, Seq<char>)> {
    let t = trimmed(line);
    if t.len() == 0 || t[0] == '#' {
        None
    } else if t.last() == '/' {
        Some((true, strip_char(t, '/', false)))
    } else {
        Some((false, t))
    }
}

/// The entries of the given kind (directories or files), in order.
pub open spec fn entries(ls: Seq<Seq<char>>, dirs: bool) -> Seq<Seq<char>>
    decreases ls.len(),
{
    if ls.len() == 0 {
        seq![]
    } else {
        let rest = entries(ls.drop_last(), dirs);
        match config_entry(ls.last()) {
            Some((d, item)) => if d == dirs {
                rest.push(item)
            } else {
                rest
            },
            None => rest,
        }
    }
}

impl Default for Config {
    fn default() -> (r: Config)
        ensures
            views(r.files_to_copy@) == default_files(),
            r.directories_to_copy@.len() == 0,
            views(r.claude_files@) == default_claude_files(),
    {
        let files_to_copy = vec![".envrc".to_owned(), ".env".to_owned()];
        let claude_files = vec!["settings.json".to_owned(), "settings.local.json".to_owned()];
        assert(views(files_to_copy@) =~= default_files());
        assert(views(claude_files@) =~= default_claude_files());
        Config { files_to_copy, directories_to_copy: Vec::new(), claude_files }
    }
}

impl Config {
    /// The defaults, with the files and directories that the contents of a
    /// `.workbloom` file name added after them.
    pub fn from_file_contents(contents: &str) -> (r: Config)
        ensures
            views(r.files_to_copy@) == default_files() + entries(lines(contents@), false),
            views(r.directories_to_copy@) == entries(lines(contents@), true),
            views(r.claude_files@) == default_claude_files(),
    {
        let mut config = Config::default();
        let ls = split_lines(contents);
        let mut i: usize = 0;
        while i < ls.len()
            invariant
                views(ls@) == lines(contents@),
                i <= ls.len(),
                views(config.files_to_copy@) == default_files() + entries(
                    views(ls@).take(i as int),
                    false,
                ),
                views(config.directories_to_copy@) == entries(views(ls@).take(i as int), true),
                views(config.claude_files@) == default_claude_files(),
            decreases ls.len() - i,
        {
            let line = ls[i].as_str();
            proof {
                assert(views(ls@).take(i + 1).drop_last() =~= views(ls@).take(i as int));
                assert(views(ls@).take(i + 1).last() == line@);
            }
            let t = trim(line);
            let tv = crate::text::chars_of(t.as_str());
            if tv.len() > 0 && tv[0] != '#' {
                if tv[tv.len() - 1] == '/' {
                    let item = trim_char(t.as_str(), '/', false);
                    let ghost before = config.directories_to_copy@;
                    config.directories_to_copy.push(item);
                    assert(views(config.directories_to_copy@) =~= views(before).push(item@));
                } else {
                    let ghost before = config.files_to_copy@;
                    let ghost t_view = t@;
                    config.files_to_copy.push(t);
                    assert(views(config.files_to_copy@) =~= views(before).push(t_view));
                }
            }
            i = i + 1;
        }
        assert(views(ls@).take(i as int) =~= views(ls@));
        config
    }
}

} // verus!

//! The git helper's argument building and output parsing.
//!
//! The surrounding process runs git itself; this module resolves the
//! repository path, builds argument lists, reads the porcelain status
//! output apart, and extracts the branch name.

use vstd::prelude::*;
use crate::gateway::BridgeError;
use crate::text::SepClass;
use crate::text::strings_view;

verus! {

broadcast use vstd::std_specs::vec::group_vec_axioms;

/// One file of a porcelain status listing.
#[derive(Debug)]
pub struct GitStatusEntry {
    pub path: String,
    pub original_path: Option<String>,
    pub index_status: String,
    pub worktree_status: String,
    pub staged: bool,
    pub unstaged: bool,
    pub untracked: bool,
}

/// Mathematical model of a status entry.
pub struct SpecGitEntry {
    pub path: Seq<char>,
    pub original_path: Option<Seq<char>>,
    pub index_status: char,
    pub worktree_status: char,
    pub staged: bool,
    pub unstaged: bool,
    pub untracked: bool,
}

impl View for GitStatusEntry {
    type V = SpecGitEntry;

    open spec fn view(&self) -> SpecGitEntry {
        SpecGitEntry {
            path: self.path@,
            original_path: crate::approval::opt_str_view(self.original_path),
            index_status: if self.index_status@.len() == 1 {
                self.index_status@[0]
            } else {
                ' '
            },
            worktree_status: if self.worktree_status@.len() == 1 {
                self.worktree_status@[0]
            } else {
                ' '
            },
            staged: self.staged,
            unstaged: self.unstaged,
            untracked: self.untracked,
        }
    }
}

pub open spec fn entries_view(s: Seq<GitStatusEntry>) -> Seq<SpecGitEntry> {
    Seq::new(s.len(), |i: int| s[i]@)
}

/// The entry one porcelain token (and possibly its follower, for renames
/// and copies) stands for.
pub open spec fn spec_entry_of_token(token: Seq<char>, follower: Option<Seq<char>>)
    -> SpecGitEntry {
    let index_status = if token.len() >= 1 {
        token[0]
    } else {
        ' '
    };
    let worktree_status = if token.len() >= 2 {
        token[1]
    } else {
        ' '
    };
    let untracked = index_status == '?' && worktree_status == '?';
    SpecGitEntry {
        path: token.skip(3),
        original_path: follower,
        index_status,
        worktree_status,
        staged: !(index_status == ' ' || index_status == '?'),
        unstaged: untracked || worktree_status != ' ',
        untracked,
    }
}

/// Whether a token's entry consumes the following token as the original
/// path of a rename or copy.
pub open spec fn spec_consumes_follower(token: Seq<char>) -> bool {
    token.len() >= 1 && (token[0] == 'R' || token[0] == 'C')
}

/// The entries of a porcelain token stream: header tokens (`## ...`) and
/// tokens without a path are skipped; a rename or copy takes the next
/// token as its original path (empty becoming none).
pub open spec fn spec_porcelain_entries(tokens: Seq<Seq<char>>) -> Seq<SpecGitEntry>
    decreases tokens.len(),
{
    if tokens.len() == 0 {
        Seq::empty()
    } else {
        let token = tokens[0];
        if crate::text::spec_starts_with(token, "## "@) {
            spec_porcelain_entries(tokens.drop_first())
        } else if token.len() <= 3 {
            spec_porcelain_entries(tokens.drop_first())
        } else if spec_consumes_follower(token) && tokens.len() >= 2 {
            let follower = if tokens[1].len() > 0 {
                Some(tokens[1])
            } else {
                None
            };
            seq![spec_entry_of_token(token, follower)] + spec_porcelain_entries(
                tokens.skip(2),
            )
        } else {
            seq![spec_entry_of_token(token, None)] + spec_porcelain_entries(tokens.drop_first())
        }
    }
}

/// Reads the NUL-separated porcelain v1 status output apart.
#[verifier::loop_isolation(false)]
pub fn parse_porcelain_status_entries(raw: &str) -> (r: Result<Vec<GitStatusEntry>, BridgeError>)
    ensures
        r matches Ok(entries) && entries_view(entries@) == spec_porcelain_entries(
            crate::text::spec_nonempty_pieces(
                crate::text::spec_split_sep(SepClass::Nul, raw@),
            ),
        ),
{
    let tokens = crate::text::filter_nonempty(crate::text::split_str(raw, &SepClass::Nul));
    let ghost all = strings_view(tokens@);
    let mut entries: Vec<GitStatusEntry> = Vec::new();
    let mut i: usize = 0;
    proof {
        assert(all.skip(0) =~= all);
        assert(entries_view(entries@) =~= Seq::<SpecGitEntry>::empty());
    }
    while i < tokens.len()
        invariant
            0 <= i <= tokens@.len(),
            all == strings_view(tokens@),
            all.len() == tokens@.len(),
            forall|j: int| 0 <= j < tokens@.len() ==> all[j] == tokens@[j]@,
            spec_porcelain_entries(all) == entries_view(entries@) + spec_porcelain_entries(
                all.skip(i as int),
            ),
        decreases tokens@.len() - i,
    {
        let token = &tokens[i];
        let ghost rest = all.skip(i as int);
        proof {
            assert(rest[0] == all[i as int]);
            assert(rest.drop_first() =~= all.skip(i + 1));
        }
        let chars = crate::text::str_to_chars(token.as_str());
        if crate::text::starts_with(token.as_str(), "## ") {
            i += 1;
            continue ;
        }
        let index_status: char = if chars.len() >= 1 {
            chars[0]
        } else {
            ' '
        };
        let worktree_status: char = if chars.len() >= 2 {
            chars[1]
        } else {
            ' '
        };
        if chars.len() <= 3 {
            i += 1;
            continue ;
        }
        let path = crate::text::skip_chars(token.as_str(), 3);
        let consumes = (index_status == 'R' || index_status == 'C') && i + 1 < tokens.len();
        let mut original_path: Option<String> = None;
        if consumes {
            if !tokens[i + 1].as_str().is_empty() {
                original_path = Some(tokens[i + 1].clone());
            }
        }
        let untracked = index_status == '?' && worktree_status == '?';
        let staged = !(index_status == ' ' || index_status == '?');
        let unstaged = untracked || worktree_status != ' ';
        let mut ix: Vec<char> = Vec::new();
        ix.push(index_status);
        let mut wx: Vec<char> = Vec::new();
        wx.push(worktree_status);
        let entry = GitStatusEntry {
            path,
            original_path,
            index_status: crate::text::string_from_chars(&ix),
            worktree_status: crate::text::string_from_chars(&wx),
            staged,
            unstaged,
            untracked,
        };
        let ghost before = entries_view(entries@);
        proof {
            assert(entry@ == spec_entry_of_token(
                all[i as int],
                if spec_consumes_follower(all[i as int]) && rest.len() >= 2 {
                    if all[i as int + 1].len() > 0 {
                        Some(all[i as int + 1])
                    } else {
                        None
                    }
                } else {
                    None
                },
            ));
        }
        entries.push(entry);
        proof {
            assert(entries_view(entries@) =~= before.push(entry@));
        }
        if consumes {
            proof {
                assert(rest[1] == all[i as int + 1]);
                assert(rest.skip(2) =~= all.skip(i as int + 2));
                assert(spec_porcelain_entries(rest) =~= seq![entry@] + spec_porcelain_entries(
                    all.skip(i as int + 2),
                ));
                assert(entries_view(entries@) + spec_porcelain_entries(all.skip(i as int + 2))
                    =~= before + spec_porcelain_entries(rest));
            }
            i += 2;
        } else {
            proof {
                assert(spec_porcelain_entries(rest) =~= seq![entry@] + spec_porcelain_entries(
                    all.skip(i as int + 1),
                ));
                assert(entries_view(entries@) + spec_porcelain_entries(all.skip(i as int + 1))
                    =~= before + spec_porcelain_entries(rest));
            }
            i += 1;
        }
    }
    proof {
        assert(all.skip(tokens@.len() as int).len() == 0);
        assert(entries_view(entries@) + spec_porcelain_entries(all.skip(tokens@.len() as int))
            =~= entries_view(entries@));
    }
    Ok(entries)
}

/// The branch of a short status listing: the text of the first `## `
/// line up to any `...`, or a placeholder.
pub open spec fn spec_git_branch(raw: Seq<char>) -> Seq<char> {
    let lines = crate::text::spec_nonempty_pieces(
        crate::text::spec_split_sep(SepClass::Newline, raw).map_values(
            |t: Seq<char>| crate::text::spec_trim(t),
        ),
    );
    match spec_first_branch_line(lines) {
        Some(line) => {
            let rest = line.skip(3);
            match crate::text::spec_find_sub(rest, "..."@) {
                Some(k) => rest.take(k),
                None => rest,
            }
        },
        None => "unknown"@,
    }
}

pub open spec fn spec_first_branch_line(lines: Seq<Seq<char>>) -> Option<Seq<char>>
    decreases lines.len(),
{
    if lines.len() == 0 {
        None
    } else if crate::text::spec_starts_with(lines[0], "## "@) {
        Some(lines[0])
    } else {
        spec_first_branch_line(lines.drop_first())
    }
}

/// Extracts the branch name from a short status listing.
#[verifier::loop_isolation(false)]
pub fn extract_git_branch(raw: &str) -> (r: String)
    ensures
        r@ == spec_git_branch(raw@),
{
    let pieces = crate::text::split_str(raw, &SepClass::Newline);
    let mut trimmed: Vec<String> = Vec::new();
    let ghost allp = strings_view(pieces@);
    proof {
        assert(allp.take(0).map_values(|t: Seq<char>| crate::text::spec_trim(t)) =~= Seq::<
            Seq<char>,
        >::empty());
        assert(strings_view(trimmed@) =~= Seq::<Seq<char>>::empty());
    }
    let mut i: usize = 0;
    while i < pieces.len()
        invariant
            0 <= i <= pieces@.len(),
            allp == strings_view(pieces@),
            allp.len() == pieces@.len(),
            forall|j: int| 0 <= j < pieces@.len() ==> allp[j] == pieces@[j]@,
            strings_view(trimmed@) == allp.take(i as int).map_values(
                |t: Seq<char>| crate::text::spec_trim(t),
            ),
        decreases pieces@.len() - i,
    {
        let ghost before = strings_view(trimmed@);
        let piece = crate::text::trim_str(pieces[i].as_str());
        trimmed.push(piece);
        proof {
            assert(allp.take(i + 1).map_values(|t: Seq<char>| crate::text::spec_trim(t))
                =~= allp.take(i as int).map_values(|t: Seq<char>| crate::text::spec_trim(t)).push(
                crate::text::spec_trim(allp[i as int]),
            ));
            assert(strings_view(trimmed@) =~= before.push(crate::text::spec_trim(allp[i as int])));
        }
        i += 1;
    }
    proof {
        assert(allp.take(pieces@.len() as int) =~= allp);
        assert(allp.map_values(|t: Seq<char>| crate::text::spec_trim(t)) =~= allp.take(
            pieces@.len() as int,
        ).map_values(|t: Seq<char>| crate::text::spec_trim(t)));
    }
    let lines = crate::text::filter_nonempty(trimmed);
    let ghost lv = strings_view(lines@);
    let mut k: usize = 0;
    proof {
        assert(lv.skip(0) =~= lv);
    }
    while k < lines.len()
        invariant
            0 <= k <= lines@.len(),
            lv == strings_view(lines@),
            lv.len() == lines@.len(),
            forall|j: int| 0 <= j < lines@.len() ==> lv[j] == lines@[j]@,
            spec_first_branch_line(lv) == spec_first_branch_line(lv.skip(k as int)),
        decreases lines@.len() - k,
    {
        let ghost rest = lv.skip(k as int);
        proof {
            assert(rest[0] == lv[k as int]);
            assert(rest.drop_first() =~= lv.skip(k + 1));
        }
        if crate::text::starts_with(lines[k].as_str(), "## ") {
            let line = lines[k].as_str();
            proof {
                reveal_strlit("## ");
                assert("## "@.len() == 3);
            }
            let after = crate::text::skip_chars(line, 3);
            match crate::text::find_sub(after.as_str(), "...") {
                Some(p) => {
                    proof {
                        crate::text::lemma_find_sub(after@, "..."@);
                    }
                    return crate::text::take_chars(after.as_str(), p);
                },
                None => {
                    return after;
                },
            }
        }
        k += 1;
    }
    proof {
        assert(lv.skip(lines@.len() as int).len() == 0);
    }
    "unknown".to_owned()
}

/// The git repository policy.
pub struct GitService {
    pub root: String,
    pub allow_outside_root: bool,
}

impl GitService {
    pub fn new(root: String, allow_outside_root: bool) -> (r: GitService)
        ensures
            r.root == root,
            r.allow_outside_root == allow_outside_root,
    {
        GitService { root, allow_outside_root }
    }

    /// Resolves a requested repository path against the configured root.
    pub fn resolve_repo_path(&self, raw_cwd: Option<&str>) -> (r: Result<String, BridgeError>)
        ensures
            ({
                let spec = crate::paths::spec_resolve_cwd(
                    match raw_cwd {
                        Some(s) => Some(s@),
                        None => None,
                    },
                    self.root@,
                    self.allow_outside_root,
                );
                match r {
                    Ok(path) => spec == Ok::<Seq<char>, int>(path@),
                    Err(e) => spec == Err::<Seq<char>, int>(e.code as int) && e.code
                        == -32602i64,
                }
            }),
    {
        crate::paths::resolve_git_cwd(raw_cwd, self.root.as_str(), self.allow_outside_root)
    }
}

} // verus!

//! Path normalization and containment.
//!
//! Paths here are plain slash-separated strings. Normalization collapses
//! `.` and empty segments and resolves `..` against the stack (dropping
//! it at the root); containment compares whole segments, so `/a/bc` does
//! not sit under `/a/b`.

use vstd::prelude::*;
use crate::gateway::BridgeError;
use crate::text::SepClass;
use crate::text::spec_split_sep;
use crate::text::strings_view;

verus! {

broadcast use vstd::std_specs::vec::group_vec_axioms;

/// One normalization step: empty and `.` segments vanish, `..` pops.
pub open spec fn spec_norm_step(acc: Seq<Seq<char>>, seg: Seq<char>) -> Seq<Seq<char>> {
    if seg.len() == 0 || seg == "."@ {
        acc
    } else if seg == ".."@ {
        if acc.len() > 0 {
            acc.drop_last()
        } else {
            acc
        }
    } else {
        acc.push(seg)
    }
}

/// The normalized segment stack.
pub open spec fn spec_norm_segments(segs: Seq<Seq<char>>) -> Seq<Seq<char>>
    decreases segs.len(),
{
    if segs.len() == 0 {
        Seq::empty()
    } else {
        spec_norm_step(spec_norm_segments(segs.drop_last()), segs.last())
    }
}

/// The segments joined with slashes.
pub open spec fn spec_join_slash(parts: Seq<Seq<char>>) -> Seq<char>
    decreases parts.len(),
{
    if parts.len() == 0 {
        Seq::empty()
    } else if parts.len() == 1 {
        parts[0]
    } else {
        spec_join_slash(parts.drop_last()) + seq!['/'] + parts.last()
    }
}

pub open spec fn spec_is_absolute(s: Seq<char>) -> bool {
    s.len() > 0 && s[0] == '/'
}

/// A path with `.`, `..` and empty segments resolved; an absolute path
/// keeps its leading slash.
pub open spec fn spec_normalize_path(s: Seq<char>) -> Seq<char> {
    let rendered = spec_join_slash(spec_norm_segments(spec_split_sep(SepClass::Slash, s)));
    if spec_is_absolute(s) {
        seq!['/'] + rendered
    } else {
        rendered
    }
}

/// Whether a path is absolute.
pub fn is_absolute_path(s: &str) -> (r: bool)
    ensures
        r == spec_is_absolute(s@),
{
    let chars = crate::text::str_to_chars(s);
    chars.len() > 0 && chars[0] == '/'
}

/// Normalizes a slash-separated path.
#[verifier::loop_isolation(false)]
pub fn normalize_path(s: &str) -> (r: String)
    ensures
        r@ == spec_normalize_path(s@),
{
    let absolute = is_absolute_path(s);
    let pieces = crate::text::split_str(s, &SepClass::Slash);
    let ghost all = strings_view(pieces@);
    let mut stack: Vec<String> = Vec::new();
    proof {
        assert(all.take(0) =~= Seq::<Seq<char>>::empty());
        assert(strings_view(stack@) =~= Seq::<Seq<char>>::empty());
        reveal_strlit(".");
        reveal_strlit("..");
    }
    let mut i: usize = 0;
    while i < pieces.len()
        invariant
            0 <= i <= pieces@.len(),
            all == strings_view(pieces@),
            all.len() == pieces@.len(),
            forall|j: int| 0 <= j < pieces@.len() ==> all[j] == pieces@[j]@,
            strings_view(stack@) == spec_norm_segments(all.take(i as int)),
        decreases pieces@.len() - i,
    {
        let ghost prefix = all.take(i as int);
        proof {
            assert(all.take(i + 1).drop_last() =~= prefix);
            assert(all.take(i + 1).last() == all[i as int]);
        }
        let seg = &pieces[i];
        if seg.as_str().is_empty() || crate::json::str_eq(seg.as_str(), ".") {
        } else if crate::json::str_eq(seg.as_str(), "..") {
            if stack.len() > 0 {
                let ghost before = strings_view(stack@);
                stack.pop();
                proof {
                    assert(strings_view(stack@) =~= before.drop_last());
                }
            }
        } else {
            let ghost before = strings_view(stack@);
            let piece = seg.clone();
            stack.push(piece);
            proof {
                assert(strings_view(stack@) =~= before.push(all[i as int]));
            }
        }
        i += 1;
    }
    proof {
        assert(all.take(pieces@.len() as int) =~= all);
    }
    let rendered = join_slash(&stack);
    if absolute {
        let r = crate::text::concat_str("/", rendered.as_str());
        proof {
            reveal_strlit("/");
            assert("/"@ =~= seq!['/']);
        }
        r
    } else {
        rendered
    }
}

/// Joins segments with slashes.
#[verifier::loop_isolation(false)]
fn join_slash(parts: &Vec<String>) -> (r: String)
    ensures
        r@ == spec_join_slash(strings_view(parts@)),
{
    let ghost view = strings_view(parts@);
    if parts.len() == 0 {
        let r = String::new();
        return r;
    }
    let mut acc = parts[0].clone();
    proof {
        assert(view.take(1).len() == 1);
        assert(view.take(1)[0] == view[0]);
        assert(acc@ == spec_join_slash(view.take(1)));
    }
    let mut i: usize = 1;
    while i < parts.len()
        invariant
            1 <= i <= parts@.len(),
            view == strings_view(parts@),
            view.len() == parts@.len(),
            acc@ == spec_join_slash(view.take(i as int)),
        decreases parts@.len() - i,
    {
        proof {
            assert(view.take(i + 1).drop_last() =~= view.take(i as int));
            assert(view.take(i + 1).last() == view[i as int]);
        }
        acc.append("/");
        acc.append(parts[i].as_str());
        proof {
            reveal_strlit("/");
            assert("/"@ =~= seq!['/']);
            assert(acc@ =~= spec_join_slash(view.take(i as int)) + seq!['/'] + view[i as int]);
        }
        i += 1;
    }
    proof {
        assert(view.take(parts@.len() as int) =~= view);
    }
    acc
}

/// The non-empty segments of a path.
pub open spec fn spec_path_segments(s: Seq<char>) -> Seq<Seq<char>> {
    crate::text::spec_nonempty_pieces(spec_split_sep(SepClass::Slash, s))
}

/// Segment-wise containment: both sides agree on absoluteness and the
/// root's segments lead the path's.
pub open spec fn spec_path_within(path: Seq<char>, root: Seq<char>) -> bool {
    let ps = spec_path_segments(path);
    let rs = spec_path_segments(root);
    &&& spec_is_absolute(path) == spec_is_absolute(root)
    &&& rs.len() <= ps.len()
    &&& ps.take(rs.len() as int) == rs
}

/// Checks segment-wise containment.
#[verifier::loop_isolation(false)]
pub fn path_within(path: &str, root: &str) -> (r: bool)
    ensures
        r == spec_path_within(path@, root@),
{
    if is_absolute_path(path) != is_absolute_path(root) {
        return false;
    }
    let ps = crate::text::filter_nonempty(crate::text::split_str(path, &SepClass::Slash));
    let rs = crate::text::filter_nonempty(crate::text::split_str(root, &SepClass::Slash));
    if rs.len() > ps.len() {
        return false;
    }
    let mut i: usize = 0;
    while i < rs.len()
        invariant
            0 <= i <= rs@.len() <= ps@.len(),
            strings_view(ps@) == spec_path_segments(path@),
            strings_view(rs@) == spec_path_segments(root@),
            forall|j: int| 0 <= j < i ==> strings_view(ps@)[j] == strings_view(rs@)[j],
        decreases rs@.len() - i,
    {
        if !crate::json::str_eq(ps[i].as_str(), rs[i].as_str()) {
            proof {
                assert(spec_path_segments(path@).take(
                    spec_path_segments(root@).len() as int,
                )[i as int] != spec_path_segments(root@)[i as int]);
            }
            return false;
        }
        i += 1;
    }
    proof {
        assert(spec_path_segments(path@).take(spec_path_segments(root@).len() as int)
            =~= spec_path_segments(root@));
    }
    true
}

/// The requested working directory of a git or terminal call: a blank or
/// absent request means the root; a relative one is joined under the
/// root; the result is normalized and — unless escapes are allowed —
/// must stay within the normalized root.
pub open spec fn spec_resolve_cwd(raw: Option<Seq<char>>, root: Seq<char>, allow_outside: bool)
    -> Result<Seq<char>, int> {
    let requested = match raw {
        Some(r) => if crate::text::spec_is_blank(r) {
            root
        } else if spec_is_absolute(r) {
            r
        } else {
            root + seq!['/'] + r
        },
        None => root,
    };
    let normalized = spec_normalize_path(requested);
    if !allow_outside && !spec_path_within(normalized, spec_normalize_path(root)) {
        Err(-32602)
    } else {
        Ok(normalized)
    }
}

/// Resolves a requested git working directory against the root.
pub fn resolve_git_cwd(raw_cwd: Option<&str>, root: &str, allow_outside_root: bool) -> (r: Result<
    String,
    BridgeError,
>)
    ensures
        ({
            let spec = spec_resolve_cwd(
                match raw_cwd {
                    Some(s) => Some(s@),
                    None => None,
                },
                root@,
                allow_outside_root,
            );
            match r {
                Ok(path) => spec == Ok::<Seq<char>, int>(path@),
                Err(e) => spec == Err::<Seq<char>, int>(e.code as int) && e.code == -32602i64,
            }
        }),
{
    let requested: String = match raw_cwd {
        Some(raw) => {
            if crate::text::is_blank_str(raw) {
                root.to_owned()
            } else if is_absolute_path(raw) {
                raw.to_owned()
            } else {
                let joined = crate::text::concat_str(root, "/");
                proof {
                    reveal_strlit("/");
                    assert("/"@ =~= seq!['/']);
                }
                crate::text::concat_str(joined.as_str(), raw)
            }
        },
        None => root.to_owned(),
    };
    let normalized = normalize_path(requested.as_str());
    if !allow_outside_root {
        let normalized_root = normalize_path(root);
        if !path_within(normalized.as_str(), normalized_root.as_str()) {
            return Err(BridgeError::invalid_params("cwd must stay within BRIDGE_WORKDIR"));
        }
    }
    Ok(normalized)
}

/// Resolves a requested terminal working directory; the policy is the
/// same as for git.
pub fn resolve_exec_cwd(raw_cwd: Option<&str>, root: &str, allow_outside_root: bool) -> (r: Result<
    String,
    BridgeError,
>)
    ensures
        ({
            let spec = spec_resolve_cwd(
                match raw_cwd {
                    Some(s) => Some(s@),
                    None => None,
                },
                root@,
                allow_outside_root,
            );
            match r {
                Ok(path) => spec == Ok::<Seq<char>, int>(path@),
                Err(e) => spec == Err::<Seq<char>, int>(e.code as int) && e.code == -32602i64,
            }
        }),
{
    resolve_git_cwd(raw_cwd, root, allow_outside_root)
}

/// A file path a client may stage or unstage: non-blank, relative, and
/// still inside the repository after normalization; the result is the
/// repository-relative remainder.
pub open spec fn spec_resolve_repo_relative(raw: Seq<char>, repo: Seq<char>) -> Result<
    Seq<char>,
    int,
> {
    let trimmed = crate::text::spec_trim(raw);
    if trimmed.len() == 0 {
        Err(-32602)
    } else if spec_is_absolute(trimmed) {
        Err(-32602)
    } else {
        let target = spec_normalize_path(repo + seq!['/'] + trimmed);
        let repo_n = spec_normalize_path(repo);
        if !spec_path_within(target, repo_n) {
            Err(-32602)
        } else {
            let rel = spec_path_segments(target).skip(
                spec_path_segments(repo_n).len() as int,
            );
            if rel.len() == 0 {
                Err(-32602)
            } else {
                Ok(spec_join_slash(rel))
            }
        }
    }
}

/// Resolves a repository-relative path.
#[verifier::loop_isolation(false)]
pub fn resolve_repo_relative_path(raw_path: &str, repo_path: &str) -> (r: Result<
    String,
    BridgeError,
>)
    ensures
        match r {
            Ok(path) => spec_resolve_repo_relative(raw_path@, repo_path@) == Ok::<Seq<char>, int>(path@),
            Err(e) => spec_resolve_repo_relative(raw_path@, repo_path@) == Err::<Seq<char>, int>(
                e.code as int,
            ) && e.code == -32602i64,
        },
{
    let trimmed = crate::text::trim_str(raw_path);
    if trimmed.as_str().is_empty() {
        return Err(BridgeError::invalid_params("path must not be empty"));
    }
    if is_absolute_path(trimmed.as_str()) {
        return Err(BridgeError::invalid_params("path must be relative to repository"));
    }
    let joined = crate::text::concat_str(repo_path, "/");
    proof {
        reveal_strlit("/");
        assert("/"@ =~= seq!['/']);
    }
    let combined = crate::text::concat_str(joined.as_str(), trimmed.as_str());
    let target = normalize_path(combined.as_str());
    let repo_n = normalize_path(repo_path);
    if !path_within(target.as_str(), repo_n.as_str()) {
        return Err(BridgeError::invalid_params("path must stay within repository root"));
    }
    let target_segs = crate::text::filter_nonempty(
        crate::text::split_str(target.as_str(), &SepClass::Slash),
    );
    let repo_segs = crate::text::filter_nonempty(
        crate::text::split_str(repo_n.as_str(), &SepClass::Slash),
    );
    let mut rel: Vec<String> = Vec::new();
    let mut i: usize = repo_segs.len();
    proof {
        assert(strings_view(target_segs@).skip(repo_segs@.len() as int).take(0) =~= Seq::<
            Seq<char>,
        >::empty());
        assert(strings_view(rel@) =~= Seq::<Seq<char>>::empty());
    }
    while i < target_segs.len()
        invariant
            repo_segs@.len() <= i <= target_segs@.len(),
            strings_view(target_segs@) == spec_path_segments(target@),
            strings_view(rel@) =~= strings_view(target_segs@).subrange(
                repo_segs@.len() as int,
                i as int,
            ),
        decreases target_segs@.len() - i,
    {
        let piece = target_segs[i].clone();
        rel.push(piece);
        i += 1;
    }
    proof {
        assert(strings_view(rel@) =~= spec_path_segments(target@).skip(
            spec_path_segments(spec_normalize_path(repo_path@)).len() as int,
        ));
    }
    if rel.len() == 0 {
        return Err(BridgeError::invalid_params("path must point to a file"));
    }
    Ok(join_slash(&rel))
}

} // verus!

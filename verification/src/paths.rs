//! Filesystem paths as text: joining, the workspace directory, and the walk
//! up to a repository root.

use vstd::prelude::*;

use crate::text::{chars_of, extend_chars, push_str, string_of};

verus! {

/// `base` joined with `p` as `Path::join` does on Unix: an absolute `p`
/// replaces `base`; otherwise a `/` goes between them unless `base` is empty
/// or already ends in one.
pub open spec fn joined(base: Seq<char>, p: Seq<char>) -> Seq<char> {
    if p.len() > 0 && p[0] == '/' {
        p
    } else if base.len() == 0 || base.last() == '/' {
        base + p
    } else {
        base + seq!['/'] + p
    }
}

/// `base.join(p)` for Unix paths held as text.
pub fn path_join(base: &str, p: &str) -> (r: String)
    ensures
        r@ == joined(base@, p@),
{
    let b = chars_of(base);
    let q = chars_of(p);
    if q.len() > 0 && q[0] == '/' {
        return string_of(&q);
    }
    let mut v = b;
    if v.len() > 0 && v[v.len() - 1] != '/' {
        v.push('/');
    }
    extend_chars(&mut v, &q);
    proof {
        if base@.len() > 0 && base@.last() != '/' {
            assert(v@ =~= base@ + seq!['/'] + p@);
        } else {
            assert(v@ =~= base@ + p@);
        }
    }
    string_of(&v)
}

/// The workspace directory of a repository: `<repo>/.glide`.
pub fn workspace_dir(repo_root: &str) -> (r: String)
    ensures
        r@ == joined(repo_root@, ".glide"@),
{
    path_join(repo_root, ".glide")
}

/// The parent of a path, as `std::path::Path::parent` computes it.
pub uninterp spec fn path_parent(p: Seq<char>) -> Option<Seq<char>>;

/// Calls `std::path::Path::parent`.
///
/// Trusted: the result is `path_parent` of the argument, and a parent is
/// shorter than its path, since the documentation defines it as the path
/// without its final component.
#[verifier::external_body]
fn parent_of(p: &str) -> (r: Option<String>)
    ensures
        r matches Some(q) ==> path_parent(p@) == Some(q@) && q@.len() < p@.len(),
        r is None ==> path_parent(p@) is None,
{
    std::path::Path::new(p).parent().map(|q| q.to_string_lossy().into_owned())
}

/// The `k`-th step up from `start` (`start` itself at zero), if the walk
/// goes that far.
pub open spec fn ancestor_at(start: Seq<char>, k: nat) -> Option<Seq<char>>
    decreases k,
{
    if k == 0 {
        Some(start)
    } else {
        match ancestor_at(start, (k - 1) as nat) {
            Some(a) => path_parent(a),
            None => None,
        }
    }
}

/// Every directory from `start` up to the root, nearest first: the places
/// where a `.git` marker is looked for.
pub fn ancestors(start: &str) -> (r: Vec<String>)
    ensures
        forall|k: int| 0 <= k < r.len() ==> ancestor_at(start@, k as nat) == Some(
            #[trigger] r@[k]@,
        ),
        ancestor_at(start@, r.len() as nat) is None,
{
    let mut r: Vec<String> = Vec::new();
    let mut cur = string_of(&chars_of(start));
    let mut done = false;
    while !done
        invariant
            !done ==> ancestor_at(start@, r.len() as nat) == Some(cur@),
            done ==> ancestor_at(start@, r.len() as nat) is None,
            forall|k: int| 0 <= k < r.len() ==> ancestor_at(start@, k as nat) == Some(
                #[trigger] r@[k]@,
            ),
        decreases (if done { 0 } else { cur@.len() + 1 }),
    {
        let next = parent_of(cur.as_str());
        let ghost old_len = r.len();
        let ghost c = cur@;
        r.push(cur);
        assert(ancestor_at(start@, (old_len + 1) as nat) == path_parent(c));
        match next {
            Some(p) => {
                cur = p;
            },
            None => {
                cur = String::new();
                done = true;
            },
        }
    }
    r
}

/// The nearest directory at or above `start` that holds a `.git` marker.
/// `has_git[k]` says whether the `k`-th entry of `ancestors(start)` has one;
/// the walk stops where that list ends.
pub open spec fn repo_root_at(start: Seq<char>, has_git: Seq<bool>, k: int) -> bool {
    &&& 0 <= k < has_git.len()
    &&& has_git[k]
    &&& ancestor_at(start, k as nat) is Some
    &&& forall|j: int| 0 <= j < k ==> !(#[trigger] has_git[j] && ancestor_at(start, j as nat) is Some)
}

/// Walks up from `start` looking for a repository root, given which of the
/// directories on the way hold a `.git` marker.
pub fn find_repo_root(start: &str, has_git: &Vec<bool>) -> (r: Option<String>)
    ensures
        r matches Some(p) ==> exists|k: int| #[trigger] repo_root_at(start@, has_git@, k)
            && ancestor_at(start@, k as nat) == Some(p@),
        r is None ==> forall|k: int| !#[trigger] repo_root_at(start@, has_git@, k),
{
    let mut cur = string_of(&chars_of(start));
    let mut k: usize = 0;
    while k < has_git.len()
        invariant
            k <= has_git.len(),
            ancestor_at(start@, k as nat) == Some(cur@),
            forall|j: int| 0 <= j < k ==> !(#[trigger] has_git@[j] && ancestor_at(start@, j as nat) is Some),
        decreases has_git.len() - k,
    {
        if has_git[k] {
            assert(repo_root_at(start@, has_git@, k as int));
            return Some(cur);
        }
        let ghost c = cur@;
        match parent_of(cur.as_str()) {
            Some(p) => {
                assert(ancestor_at(start@, (k + 1) as nat) == path_parent(c));
                cur = p;
            },
            None => {
                assert(ancestor_at(start@, (k + 1) as nat) is None);
                assert forall|j: int| k < j implies #[trigger] ancestor_at(start@, j as nat) is None by {
                    lemma_walk_ends(start@, (k + 1) as nat, j as nat);
                }
                assert forall|m: int| !#[trigger] repo_root_at(start@, has_git@, m) by {
                    if 0 <= m && m > k {
                        assert(ancestor_at(start@, m as nat) is None);
                    }
                }
                return None;
            },
        }
        k = k + 1;
    }
    assert forall|m: int| !#[trigger] repo_root_at(start@, has_git@, m) by {}
    None
}

/// Once the walk has stopped it stays stopped.
proof fn lemma_walk_ends(start: Seq<char>, k: nat, m: nat)
    requires
        ancestor_at(start, k) is None,
        k <= m,
    ensures
        ancestor_at(start, m) is None,
    decreases m - k,
{
    if k < m {
        lemma_walk_ends(start, k, (m - 1) as nat);
    }
}

} // verus!

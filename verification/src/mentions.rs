//! The ownership a team document states in prose: `@org/team owns
//! src/billing/**`, `Owner: @glide/api -> src/api/`. A mention is an
//! `@org/team` handle, then (within forty characters on the same line) one
//! of `owns`, `->`, `owns:` or `:`, optional whitespace, and a path-like
//! token. Mentions are read left to right and do not overlap.
//!
//! When a handle could be cut in several places, or a marker found at
//! several distances, the first way in this order wins: the longest team
//! name first, then the nearest marker, then the markers in the order
//! above.

use vstd::prelude::*;

use crate::text::{chars_of, is_space, is_ws, occurs_at, string_of};

verus! {

/// A character of an org or team name: ASCII letters and digits, `.`,
/// `_`, `-`.
pub open spec fn name_char(c: char) -> bool {
    ('a' <= c && c <= 'z') || ('A' <= c && c <= 'Z') || ('0' <= c && c <= '9') || c == '.' || c
        == '_' || c == '-'
}

/// A character of a path token: ASCII letters and digits, `_`, `.`, `/`,
/// `*`, `-`.
pub open spec fn path_char(c: char) -> bool {
    ('a' <= c && c <= 'z') || ('A' <= c && c <= 'Z') || ('0' <= c && c <= '9') || c == '_' || c
        == '.' || c == '/' || c == '*' || c == '-'
}

/// How many name characters (or, with `path`, path characters) run from
/// `i` on.
pub open spec fn run(t: Seq<char>, i: int, path: bool) -> nat
    decreases t.len() - i,
{
    if 0 <= i < t.len() && (if path {
        path_char(t[i])
    } else {
        name_char(t[i])
    }) {
        1 + run(t, i + 1, path)
    } else {
        0
    }
}

/// How many whitespace characters run from `i` on.
pub open spec fn space_run(t: Seq<char>, i: int) -> nat
    decreases t.len() - i,
{
    if 0 <= i < t.len() && is_ws(t[i]) {
        1 + space_run(t, i + 1)
    } else {
        0
    }
}

/// After a marker ending at `r`: whitespace, then a path token of at least
/// one character; its bounds.
pub open spec fn token_after(t: Seq<char>, r: int) -> Option<(int, int)> {
    let a = r + space_run(t, r);
    let g = run(t, a, true);
    if g > 0 {
        Some((a, a + g))
    } else {
        None
    }
}

/// A marker at `q` followed by a path token: the markers are tried in the
/// order `owns`, `->`, `owns:`, `:`.
pub open spec fn marked_token(t: Seq<char>, q: int) -> Option<(int, int)> {
    if occurs_at(t, "owns"@, q) && token_after(t, q + 4) is Some {
        token_after(t, q + 4)
    } else if occurs_at(t, "->"@, q) && token_after(t, q + 2) is Some {
        token_after(t, q + 2)
    } else if occurs_at(t, "owns:"@, q) && token_after(t, q + 5) is Some {
        token_after(t, q + 5)
    } else if occurs_at(t, ":"@, q) && token_after(t, q + 1) is Some {
        token_after(t, q + 1)
    } else {
        None
    }
}

/// The nearest marker with its token, skipping `j` up to forty characters
/// after the name that ends at `e`, none of them a line break.
pub open spec fn near_token(t: Seq<char>, e: int, j: int) -> Option<(int, int)>
    decreases 41 - j,
{
    if j < 0 || j > 40 {
        None
    } else if marked_token(t, e + j) is Some {
        marked_token(t, e + j)
    } else if j < 40 && 0 <= e + j < t.len() && t[e + j] != '\n' {
        near_token(t, e, j + 1)
    } else {
        None
    }
}

/// The team name's last part begins at `p`; it is tried `m` characters
/// long, then shorter: the end of the name and the token's bounds.
pub open spec fn cut_name(t: Seq<char>, p: int, m: nat) -> Option<(int, (int, int))>
    decreases m,
{
    if m == 0 {
        None
    } else {
        match near_token(t, p + m, 0) {
            Some(r) => Some((p + m, r)),
            None => cut_name(t, p, (m - 1) as nat),
        }
    }
}

/// The mention that starts at `s`, if one does: the team (`org/team`), the
/// path, and where the mention ends.
pub open spec fn mention_at(t: Seq<char>, s: int) -> Option<(Seq<char>, Seq<char>, int)> {
    if 0 <= s < t.len() && t[s] == '@' {
        let l = run(t, s + 1, false);
        let slash = s + 1 + l;
        if l > 0 && slash < t.len() && t[slash] == '/' {
            match cut_name(t, slash + 1, run(t, slash + 1, false)) {
                Some((e, (a, b))) => Some((t.subrange(s + 1, e), t.subrange(a, b), b)),
                None => None,
            }
        } else {
            None
        }
    } else {
        None
    }
}

pub proof fn lemma_run_bound(t: Seq<char>, i: int, path: bool)
    requires
        0 <= i <= t.len(),
    ensures
        i + run(t, i, path) <= t.len(),
    decreases t.len() - i,
{
    if i < t.len() {
        lemma_run_bound(t, i + 1, path);
    }
}

pub proof fn lemma_space_bound(t: Seq<char>, i: int)
    requires
        0 <= i <= t.len(),
    ensures
        i + space_run(t, i) <= t.len(),
    decreases t.len() - i,
{
    if i < t.len() {
        lemma_space_bound(t, i + 1);
    }
}

pub proof fn lemma_marked_token(t: Seq<char>, q: int)
    ensures
        marked_token(t, q) matches Some((a, b)) ==> q <= a < b <= t.len(),
{
    reveal_strlit("owns");
    reveal_strlit("->");
    reveal_strlit("owns:");
    reveal_strlit(":");
    if 0 <= q {
        if q + 4 <= t.len() {
            lemma_space_bound(t, q + 4);
            lemma_run_bound(t, q + 4 + space_run(t, q + 4), true);
        }
        if q + 2 <= t.len() {
            lemma_space_bound(t, q + 2);
            lemma_run_bound(t, q + 2 + space_run(t, q + 2), true);
        }
        if q + 5 <= t.len() {
            lemma_space_bound(t, q + 5);
            lemma_run_bound(t, q + 5 + space_run(t, q + 5), true);
        }
        if q + 1 <= t.len() {
            lemma_space_bound(t, q + 1);
            lemma_run_bound(t, q + 1 + space_run(t, q + 1), true);
        }
    }
}

pub proof fn lemma_near_token(t: Seq<char>, e: int, j: int)
    ensures
        near_token(t, e, j) matches Some((a, b)) ==> e <= a < b <= t.len(),
    decreases 41 - j,
{
    if 0 <= j <= 40 {
        lemma_marked_token(t, e + j);
        if marked_token(t, e + j) is None && j < 40 && 0 <= e + j < t.len() && t[e + j] != '\n' {
            lemma_near_token(t, e, j + 1);
        }
    }
}

pub proof fn lemma_cut_name(t: Seq<char>, p: int, m: nat)
    ensures
        cut_name(t, p, m) matches Some((e, (a, b))) ==> p < e <= a < b <= t.len(),
    decreases m,
{
    if m > 0 {
        lemma_near_token(t, p + m, 0);
        lemma_cut_name(t, p, (m - 1) as nat);
    }
}

pub proof fn lemma_mention_end(t: Seq<char>, s: int)
    ensures
        mention_at(t, s) is Some ==> s < (mention_at(t, s)->0).2 <= t.len(),
{
    if 0 <= s < t.len() && t[s] == '@' {
        let l = run(t, s + 1, false);
        let slash = s + 1 + l;
        lemma_cut_name(t, slash + 1, run(t, slash + 1, false));
    }
}

/// The `(team, path)` pairs a text states from `i` on: the leftmost
/// mention, then the mentions after its end.
pub open spec fn mentions_from(t: Seq<char>, i: int) -> Seq<(Seq<char>, Seq<char>)>
    decreases t.len() - i,
{
    if i < 0 || i >= t.len() {
        Seq::empty()
    } else {
        let m = mention_at(t, i);
        if m is Some {
            proof {
                lemma_mention_end(t, i);
            }
            let x = m->0;
            proof {
                assert(i < x.2 <= t.len());
            }
            seq![(x.0, x.1)] + mentions_from(t, x.2)
        } else {
            mentions_from(t, i + 1)
        }
    }
}

fn is_name_char(c: char, path: bool) -> (b: bool)
    ensures
        b == (if path {
            path_char(c)
        } else {
            name_char(c)
        }),
{
    let alnum = ('a' <= c && c <= 'z') || ('A' <= c && c <= 'Z') || ('0' <= c && c <= '9');
    if path {
        alnum || c == '_' || c == '.' || c == '/' || c == '*' || c == '-'
    } else {
        alnum || c == '.' || c == '_' || c == '-'
    }
}

fn run_exec(t: &Vec<char>, i: usize, path: bool) -> (n: usize)
    requires
        i <= t.len(),
    ensures
        n == run(t@, i as int, path),
        i + n <= t.len(),
{
    let mut k: usize = i;
    while k < t.len() && is_name_char(t[k], path)
        invariant
            i <= k <= t.len(),
            run(t@, i as int, path) == (k - i) + run(t@, k as int, path),
        decreases t.len() - k,
    {
        k = k + 1;
    }
    k - i
}

fn space_exec(t: &Vec<char>, i: usize) -> (n: usize)
    requires
        i <= t.len(),
    ensures
        n == space_run(t@, i as int),
        i + n <= t.len(),
{
    let mut k: usize = i;
    while k < t.len() && is_space(t[k])
        invariant
            i <= k <= t.len(),
            space_run(t@, i as int) == (k - i) + space_run(t@, k as int),
        decreases t.len() - k,
    {
        k = k + 1;
    }
    k - i
}

fn lit_at(t: &Vec<char>, q: usize, lit: &str) -> (b: bool)
    requires
        q <= t.len(),
    ensures
        b == occurs_at(t@, lit@, q as int),
{
    let l = chars_of(lit);
    if l.len() > t.len() - q {
        return false;
    }
    let mut k: usize = 0;
    while k < l.len()
        invariant
            k <= l.len(),
            l@ == lit@,
            q + l.len() <= t.len(),
            forall|m: int| 0 <= m < k ==> t@[q + m] == l@[m],
        decreases l.len() - k,
    {
        let idx: usize = q + k;
        if t[idx] != l[k] {
            assert(t@.subrange(q as int, q + l@.len())[k as int] != l@[k as int]);
            return false;
        }
        k = k + 1;
    }
    assert(t@.subrange(q as int, q + l@.len()) =~= l@);
    true
}

fn token_after_exec(t: &Vec<char>, r: usize) -> (o: Option<(usize, usize)>)
    requires
        r <= t.len(),
    ensures
        match o {
            Some((a, b)) => token_after(t@, r as int) == Some((a as int, b as int)) && b <= t.len(),
            None => token_after(t@, r as int) is None,
        },
{
    let a = r + space_exec(t, r);
    let g = run_exec(t, a, true);
    if g > 0 {
        Some((a, a + g))
    } else {
        None
    }
}

fn marked_exec(t: &Vec<char>, q: usize) -> (o: Option<(usize, usize)>)
    requires
        q <= t.len(),
    ensures
        match o {
            Some((a, b)) => marked_token(t@, q as int) == Some((a as int, b as int)) && b <= t.len(),
            None => marked_token(t@, q as int) is None,
        },
{
    proof {
        reveal_strlit("owns");
        reveal_strlit("->");
        reveal_strlit("owns:");
        reveal_strlit(":");
    }
    if lit_at(t, q, "owns") {
        if let Some(x) = token_after_exec(t, q + 4) {
            return Some(x);
        }
    }
    if lit_at(t, q, "->") {
        if let Some(x) = token_after_exec(t, q + 2) {
            return Some(x);
        }
    }
    if lit_at(t, q, "owns:") {
        if let Some(x) = token_after_exec(t, q + 5) {
            return Some(x);
        }
    }
    if lit_at(t, q, ":") {
        if let Some(x) = token_after_exec(t, q + 1) {
            return Some(x);
        }
    }
    None
}

fn near_exec(t: &Vec<char>, e: usize) -> (o: Option<(usize, usize)>)
    requires
        e <= t.len(),
    ensures
        match o {
            Some((a, b)) => near_token(t@, e as int, 0) == Some((a as int, b as int)) && b <= t.len(),
            None => near_token(t@, e as int, 0) is None,
        },
{
    let mut j: usize = 0;
    while j <= 40
        invariant
            j <= 40,
            e + j <= t.len(),
            near_token(t@, e as int, 0) == near_token(t@, e as int, j as int),
        decreases 41 - j,
    {
        match marked_exec(t, e + j) {
            Some(x) => {
                return Some(x);
            },
            None => {},
        }
        if j < 40 && j < t.len() - e && t[e + j] != '\n' {
            j = j + 1;
        } else {
            return None;
        }
    }
    None
}

fn cut_exec(t: &Vec<char>, p: usize, m0: usize) -> (o: Option<(usize, usize, usize)>)
    requires
        p + m0 <= t.len(),
    ensures
        match o {
            Some((e, a, b)) => cut_name(t@, p as int, m0 as nat) == Some((e as int, (a as int, b as int)))
                && b <= t.len() && p < e <= a,
            None => cut_name(t@, p as int, m0 as nat) is None,
        },
{
    let mut m: usize = m0;
    while m > 0
        invariant
            m <= m0,
            p + m0 <= t.len(),
            cut_name(t@, p as int, m0 as nat) == cut_name(t@, p as int, m as nat),
        decreases m,
    {
        match near_exec(t, p + m) {
            Some((a, b)) => {
                proof {
                    lemma_near_token(t@, p + m, 0);
                }
                return Some((p + m, a, b));
            },
            None => {},
        }
        m = m - 1;
    }
    None
}

fn mention_exec(t: &Vec<char>, s: usize) -> (o: Option<(usize, usize, usize)>)
    requires
        s < t.len(),
    ensures
        match o {
            Some((e, a, b)) => mention_at(t@, s as int) == Some(
                (t@.subrange(s + 1, e as int), t@.subrange(a as int, b as int), b as int),
            ) && s + 1 < e <= a < b <= t.len(),
            None => mention_at(t@, s as int) is None,
        },
{
    if t[s] != '@' {
        return None;
    }
    let l = run_exec(t, s + 1, false);
    let slash = s + 1 + l;
    if l > 0 && slash < t.len() && t[slash] == '/' {
        let p = slash + 1;
        let m = run_exec(t, p, false);
        assert(run(t@, s + 1, false) == l);
        assert(run(t@, p as int, false) == m);
        match cut_exec(t, p, m) {
            Some((e, a, b)) => {
                proof {
                    lemma_cut_name(t@, p as int, m as nat);
                }
                assert(mention_at(t@, s as int) == Some(
                    (t@.subrange(s + 1, e as int), t@.subrange(a as int, b as int), b as int),
                ));
                Some((e, a, b))
            },
            None => None,
        }
    } else {
        None
    }
}

fn slice_string(t: &Vec<char>, a: usize, b: usize) -> (s: String)
    requires
        a <= b <= t.len(),
    ensures
        s@ == t@.subrange(a as int, b as int),
{
    let mut v: Vec<char> = Vec::new();
    let mut k: usize = a;
    while k < b
        invariant
            a <= k <= b <= t.len(),
            v@ == t@.subrange(a as int, k as int),
        decreases b - k,
    {
        v.push(t[k]);
        assert(t@.subrange(a as int, k + 1) =~= t@.subrange(a as int, k as int).push(t@[k as int]));
        k = k + 1;
    }
    string_of(&v)
}

/// The `(team, path)` pairs a team document states, in the order they
/// appear.
pub fn team_mentions(body: &str) -> (r: Vec<(String, String)>)
    ensures
        r@.map_values(|p: (String, String)| (p.0@, p.1@)) == mentions_from(body@, 0),
{
    let t = chars_of(body);
    let mut out: Vec<(String, String)> = Vec::new();
    let mut i: usize = 0;
    while i < t.len()
        invariant
            t@ == body@,
            i <= t.len(),
            out@.map_values(|p: (String, String)| (p.0@, p.1@)) + mentions_from(t@, i as int)
                == mentions_from(t@, 0),
        decreases t.len() - i,
    {
        match mention_exec(&t, i) {
            Some((e, a, b)) => {
                let ghost before = out@.map_values(|p: (String, String)| (p.0@, p.1@));
                let team = slice_string(&t, i + 1, e);
                let path = slice_string(&t, a, b);
                out.push((team, path));
                assert(out@.map_values(|p: (String, String)| (p.0@, p.1@)) =~= before.push(
                    (t@.subrange(i + 1, e as int), t@.subrange(a as int, b as int)),
                ));
                assert(before + mentions_from(t@, i as int) =~= out@.map_values(
                    |p: (String, String)| (p.0@, p.1@),
                ) + mentions_from(t@, b as int));
                i = b;
            },
            None => {
                i = i + 1;
            },
        }
    }
    assert(mentions_from(t@, i as int) =~= Seq::<(Seq<char>, Seq<char>)>::empty());
    assert(out@.map_values(|p: (String, String)| (p.0@, p.1@)) =~= out@.map_values(
        |p: (String, String)| (p.0@, p.1@),
    ) + mentions_from(t@, i as int));
    out
}

} // verus!

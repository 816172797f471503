//! The ownership graph as the verbs read it: owner kinds, the counts the
//! header shows, and how matching ownership rows become a ranked answer.

use vstd::prelude::*;

use crate::text::{chars_of, same};

verus! {

/// Whether an owner is a person or a team.
#[derive(Debug, Clone, Copy, PartialEq, Eq)]
pub enum OwnerKind {
    Person,
    Team,
}

/// The name an owner kind is stored under.
pub open spec fn kind_name(k: OwnerKind) -> Seq<char> {
    match k {
        OwnerKind::Person => "person"@,
        OwnerKind::Team => "team"@,
    }
}

impl OwnerKind {
    /// The stored name: `person` or `team`.
    pub fn as_str(self) -> (s: &'static str)
        ensures
            s@ == kind_name(self),
    {
        match self {
            OwnerKind::Person => "person",
            OwnerKind::Team => "team",
        }
    }

    /// Reads a stored name: `team` is a team, anything else a person.
    #[allow(clippy::should_implement_trait)]
    pub fn from_str(s: &str) -> (k: OwnerKind)
        ensures
            k == (if s@ == "team"@ {
                OwnerKind::Team
            } else {
                OwnerKind::Person
            }),
    {
        if same(&chars_of(s), &chars_of("team")) {
            OwnerKind::Team
        } else {
            OwnerKind::Person
        }
    }
}

/// Reading back the name an owner kind is stored under gives the kind.
pub proof fn law_owner_kind_round_trip(k: OwnerKind)
    ensures
        (if kind_name(k) == "team"@ {
            OwnerKind::Team
        } else {
            OwnerKind::Person
        }) == k,
{
    reveal_strlit("team");
    reveal_strlit("person");
    if k == OwnerKind::Person {
        assert(kind_name(k)[0] != "team"@[0]);
    }
}

/// The counts of the graph, and how the last index run ended.
#[derive(Debug, Clone)]
pub struct GraphStats {
    pub people: i64,
    pub teams: i64,
    pub paths: i64,
    pub ownership_rows: i64,
    pub friction_events: i64,
    pub last_index_at: Option<String>,
    pub last_index_ok: Option<bool>,
}

/// One owner of a matching path.
///
/// The weight is a share in `[0, 1]`; it is held as `weight_rank`, which
/// orders owners as the weight does (the IEEE-754 bits of a non-negative
/// number), and `weight_text`, the weight written to two decimals.
#[derive(Debug, Clone)]
pub struct OwnerHit {
    pub owner_handle: String,
    pub owner_kind: OwnerKind,
    pub weight_rank: u64,
    pub weight_text: String,
    pub source: String,
    pub evidence: Option<String>,
    pub matched_pattern: String,
}

/// A row of the `paths` table: its id, its pattern, and whether the pattern
/// is an exact path or a glob.
#[derive(Debug, Clone)]
pub struct PathRow {
    pub id: i64,
    pub pattern: String,
    pub kind: String,
}

/// Whether `path` matches the glob `pattern`, as a `globset::GlobSet` of
/// that one glob decides it (a pattern that does not compile, or whose
/// automaton would pass globset's size limit, matches nothing).
pub uninterp spec fn glob_matches(pattern: Seq<char>, path: Seq<char>) -> bool;

/// The longest glob pattern, in characters, that is matched at all.
///
/// Past it a pattern matches nothing: such a pattern is far beyond what
/// globset compiles to a regex, and its literal strategies would build an
/// automaton nearing the limit on their state count.
pub const GLOB_MAX_CHARS: usize = 16_777_216;

/// Calls `globset::Glob::new(pattern)`, puts the glob in a
/// `GlobSetBuilder`, builds the set and asks `is_match(path)`.
///
/// Trusted: the answer is `glob_matches` of the two texts. `Glob::new` and
/// `build` report a pattern they cannot compile (the regex size limit
/// included) as an error, which answers false. Building a set of a literal
/// pattern makes an Aho-Corasick automaton and unwraps its construction,
/// which fails only past about 2^31 states; `requires` keeps the pattern
/// far below that.
#[verifier::external_body]
pub(crate) fn glob_is_match(pattern: &str, path: &str) -> (b: bool)
    requires
        pattern@.len() <= GLOB_MAX_CHARS,
    ensures
        b == glob_matches(pattern@, path@),
{
    match globset::Glob::new(pattern) {
        Ok(g) => match globset::GlobSetBuilder::new().add(g).build() {
            Ok(set) => set.is_match(path),
            Err(_) => false,
        },
        Err(_) => false,
    }
}

/// Whether the glob `pattern` covers `path`: a pattern longer than
/// `GLOB_MAX_CHARS` covers nothing; any other as globset decides.
pub open spec fn glob_covers(pattern: Seq<char>, path: Seq<char>) -> bool {
    pattern.len() <= GLOB_MAX_CHARS && glob_matches(pattern, path)
}

/// Whether the glob `pattern` covers `path`.
pub fn glob_hit(pattern: &str, path: &str) -> (b: bool)
    ensures
        b == glob_covers(pattern@, path@),
{
    if chars_of(pattern).len() <= GLOB_MAX_CHARS {
        glob_is_match(pattern, path)
    } else {
        false
    }
}

/// Whether a `paths` row covers `path`: an `exact` row by equality, any
/// other by its glob.
pub open spec fn row_covers(pattern: Seq<char>, kind: Seq<char>, path: Seq<char>) -> bool {
    if kind == "exact"@ {
        pattern == path
    } else {
        glob_covers(pattern, path)
    }
}

/// Whether a `paths` row covers `path`.
pub fn pattern_matches(pattern: &str, kind: &str, path: &str) -> (b: bool)
    ensures
        b == row_covers(pattern@, kind@, path@),
{
    if same(&chars_of(kind), &chars_of("exact")) {
        same(&chars_of(pattern), &chars_of(path))
    } else {
        glob_hit(pattern, path)
    }
}

/// The rows that cover `path`, in table order, as `(id, pattern)`.
pub open spec fn covering(rows: Seq<PathRow>, path: Seq<char>) -> Seq<(i64, Seq<char>)>
    decreases rows.len(),
{
    if rows.len() == 0 {
        Seq::empty()
    } else {
        let rest = covering(rows.drop_last(), path);
        let r = rows.last();
        if row_covers(r.pattern@, r.kind@, path) {
            rest.push((r.id, r.pattern@))
        } else {
            rest
        }
    }
}

/// The rows of the `paths` table that cover `path`, in table order.
pub fn matching_paths(rows: &Vec<PathRow>, path: &str) -> (r: Vec<(i64, String)>)
    ensures
        r@.map_values(|p: (i64, String)| (p.0, p.1@)) == covering(rows@, path@),
{
    let mut r: Vec<(i64, String)> = Vec::new();
    let mut i: usize = 0;
    while i < rows.len()
        invariant
            i <= rows@.len(),
            r@.map_values(|p: (i64, String)| (p.0, p.1@)) == covering(rows@.take(i as int), path@),
        decreases rows.len() - i,
    {
        let row = &rows[i];
        assert(rows@.take(i + 1).drop_last() =~= rows@.take(i as int));
        if pattern_matches(row.pattern.as_str(), row.kind.as_str(), path) {
            r.push((row.id, row.pattern.clone()));
            assert(r@.map_values(|p: (i64, String)| (p.0, p.1@)) =~= covering(
                rows@.take(i as int),
                path@,
            ).push((row.id, row.pattern@)));
        }
        i = i + 1;
    }
    assert(rows@.take(rows.len() as int) =~= rows@);
    r
}

/// How many hits at the front of `s` weigh at least `w`.
pub open spec fn heavier_prefix(s: Seq<OwnerHit>, w: u64) -> nat
    decreases s.len(),
{
    if s.len() == 0 || s[0].weight_rank < w {
        0
    } else {
        1 + heavier_prefix(s.drop_first(), w)
    }
}

/// `s` with `h` placed after every hit at the front that weighs at least as
/// much, so that among equal weights the earlier hit stays first.
pub open spec fn place(s: Seq<OwnerHit>, h: OwnerHit) -> Seq<OwnerHit> {
    let j = heavier_prefix(s, h.weight_rank) as int;
    s.take(j).push(h) + s.skip(j)
}

/// The hits ordered by weight, heaviest first; equal weights keep their
/// order (a stable sort).
pub open spec fn by_weight(s: Seq<OwnerHit>) -> Seq<OwnerHit>
    decreases s.len(),
{
    if s.len() == 0 {
        s
    } else {
        place(by_weight(s.drop_last()), s.last())
    }
}

/// Two hits name the same owner through the same source.
pub open spec fn same_owner(a: OwnerHit, b: OwnerHit) -> bool {
    a.owner_handle@ == b.owner_handle@ && a.source@ == b.source@
}

/// The first hit of each (owner, source) pair, in order.
pub open spec fn first_of_each(s: Seq<OwnerHit>) -> Seq<OwnerHit>
    decreases s.len(),
{
    if s.len() == 0 {
        s
    } else {
        let d = first_of_each(s.drop_last());
        if exists|i: int| 0 <= i < s.len() - 1 && same_owner(#[trigger] s[i], s.last()) {
            d
        } else {
            d.push(s.last())
        }
    }
}

/// The answer to "who owns": heaviest first, one hit per (owner, source),
/// at most `top` of them.
pub open spec fn ranked(s: Seq<OwnerHit>, top: nat) -> Seq<OwnerHit> {
    let d = first_of_each(by_weight(s));
    if d.len() <= top {
        d
    } else {
        d.take(top as int)
    }
}

proof fn lemma_heavier_prefix_is(s: Seq<OwnerHit>, w: u64, j: int)
    requires
        0 <= j <= s.len(),
        forall|k: int| 0 <= k < j ==> (#[trigger] s[k]).weight_rank >= w,
        j == s.len() || s[j].weight_rank < w,
    ensures
        heavier_prefix(s, w) == j,
    decreases s.len(),
{
    if s.len() > 0 && j > 0 {
        assert forall|k: int| 0 <= k < j - 1 implies (#[trigger] s.drop_first()[k]).weight_rank
            >= w by {
            assert(s.drop_first()[k] == s[k + 1]);
        }
        lemma_heavier_prefix_is(s.drop_first(), w, j - 1);
    }
}

/// Places one hit into a list already ordered by weight.
fn place_hit(r: &mut Vec<OwnerHit>, h: OwnerHit)
    ensures
        final(r)@ == place(old(r)@, h),
{
    let w = h.weight_rank;
    let mut j: usize = 0;
    while j < r.len() && r[j].weight_rank >= w
        invariant
            j <= r@.len(),
            forall|k: int| 0 <= k < j ==> (#[trigger] r@[k]).weight_rank >= w,
        decreases r.len() - j,
    {
        j = j + 1;
    }
    proof {
        lemma_heavier_prefix_is(r@, w, j as int);
    }
    let ghost before = r@;
    r.insert(j, h);
    assert(r@ =~= before.take(j as int).push(h) + before.skip(j as int));
}

/// Orders hits by weight, heaviest first, keeping equal weights in order.
fn sort_by_weight(hits: Vec<OwnerHit>) -> (r: Vec<OwnerHit>)
    ensures
        r@ == by_weight(hits@),
{
    let ghost all = hits@;
    let mut pending = hits;
    let mut r: Vec<OwnerHit> = Vec::new();
    let n = pending.len();
    let mut i: usize = 0;
    while i < n
        invariant
            n == all.len(),
            i <= n,
            pending@ == all.skip(i as int),
            r@ == by_weight(all.take(i as int)),
        decreases n - i,
    {
        let h = pending.remove(0);
        assert(h == all[i as int]);
        assert(pending@ =~= all.skip(i + 1));
        assert(all.take(i + 1).drop_last() =~= all.take(i as int));
        assert(all.take(i + 1).last() == all[i as int]);
        place_hit(&mut r, h);
        i = i + 1;
    }
    assert(all.take(n as int) =~= all);
    r
}

/// Whether some hit in `kept` names the same owner as `h`.
fn owner_seen(kept: &Vec<OwnerHit>, h: &OwnerHit) -> (b: bool)
    ensures
        b == exists|i: int| 0 <= i < kept@.len() && same_owner(#[trigger] kept@[i], *h),
{
    let mut i: usize = 0;
    while i < kept.len()
        invariant
            i <= kept@.len(),
            forall|k: int| 0 <= k < i ==> !same_owner(#[trigger] kept@[k], *h),
        decreases kept.len() - i,
    {
        if kept[i].owner_handle == h.owner_handle && kept[i].source == h.source {
            assert(same_owner(kept@[i as int], *h));
            return true;
        }
        i = i + 1;
    }
    false
}

/// Some hit of `d` names the same owner as `h`.
pub open spec fn owner_in(d: Seq<OwnerHit>, h: OwnerHit) -> bool {
    exists|i: int| 0 <= i < d.len() && same_owner(#[trigger] d[i], h)
}

/// Every hit of `first_of_each(s)` is a hit of `s`, and every hit of `s`
/// has one of the same owner in it.
proof fn lemma_first_of_each(s: Seq<OwnerHit>)
    ensures
        forall|i: int| 0 <= i < first_of_each(s).len() ==> exists|k: int| 0 <= k < s.len()
            && (#[trigger] first_of_each(s)[i]) == s[k],
        forall|k: int| 0 <= k < s.len() ==> #[trigger] owner_in(first_of_each(s), s[k]),
    decreases s.len(),
{
    if s.len() > 0 {
        let p = s.drop_last();
        lemma_first_of_each(p);
        let d = first_of_each(p);
        assert forall|i: int| 0 <= i < first_of_each(s).len() implies exists|k: int|
            0 <= k < s.len() && (#[trigger] first_of_each(s)[i]) == s[k] by {
            if i < d.len() {
                let k = choose|k: int| 0 <= k < p.len() && d[i] == p[k];
                assert(s[k] == p[k]);
            } else {
                assert(first_of_each(s)[i] == s[s.len() - 1]);
            }
        }
        assert forall|k: int| 0 <= k < s.len() implies #[trigger] owner_in(first_of_each(s), s[k]) by {
            if k < s.len() - 1 {
                assert(p[k] == s[k]);
                assert(owner_in(d, p[k]));
                let i = choose|i: int| 0 <= i < d.len() && same_owner(d[i], p[k]);
                assert(first_of_each(s)[i] == d[i]);
            } else {
                if exists|j: int| 0 <= j < s.len() - 1 && same_owner(#[trigger] s[j], s.last()) {
                    let j = choose|j: int| 0 <= j < s.len() - 1 && same_owner(#[trigger] s[j], s.last());
                    assert(p[j] == s[j]);
                    assert(owner_in(d, p[j]));
                    let i = choose|i: int| 0 <= i < d.len() && same_owner(d[i], p[j]);
                    assert(first_of_each(s)[i] == d[i]);
                } else {
                    assert(first_of_each(s)[d.len() as int] == s[k]);
                }
            }
        }
    }
}

/// Keeps the first hit of each (owner, source) pair.
fn keep_first_of_each(hits: Vec<OwnerHit>) -> (r: Vec<OwnerHit>)
    ensures
        r@ == first_of_each(hits@),
{
    let ghost all = hits@;
    let mut pending = hits;
    let mut r: Vec<OwnerHit> = Vec::new();
    let n = pending.len();
    let mut i: usize = 0;
    while i < n
        invariant
            n == all.len(),
            i <= n,
            pending@ == all.skip(i as int),
            r@ == first_of_each(all.take(i as int)),
        decreases n - i,
    {
        let h = pending.remove(0);
        assert(h == all[i as int]);
        assert(pending@ =~= all.skip(i + 1));
        let ghost p = all.take(i as int);
        let ghost q = all.take(i + 1);
        assert(q.drop_last() =~= p);
        assert(q.last() == h);
        proof {
            lemma_first_of_each(p);
        }
        let seen = owner_seen(&r, &h);
        proof {
            if seen {
                let m = choose|m: int| 0 <= m < r@.len() && same_owner(#[trigger] r@[m], h);
                let k = choose|k: int| 0 <= k < p.len() && r@[m] == p[k];
                assert(q[k] == p[k]);
                assert(same_owner(q[k], q.last()));
            } else {
                assert forall|j: int| 0 <= j < q.len() - 1 implies !same_owner(#[trigger] q[j], q.last()) by {
                    assert(q[j] == p[j]);
                    if same_owner(q[j], q.last()) {
                        assert(owner_in(r@, p[j]));
                        let m = choose|m: int| 0 <= m < r@.len() && same_owner(#[trigger] r@[m], p[j]);
                        assert(same_owner(r@[m], h));
                    }
                }
            }
        }
        if !seen {
            r.push(h);
        }
        i = i + 1;
    }
    assert(all.take(n as int) =~= all);
    r
}

/// Heaviest first: no hit weighs more than one before it.
pub open spec fn heaviest_first(s: Seq<OwnerHit>) -> bool {
    forall|a: int, b: int| 0 <= a < b < s.len() ==> (#[trigger] s[a]).weight_rank >= (
    #[trigger] s[b]).weight_rank
}

/// No two hits name the same owner through the same source.
pub open spec fn one_per_owner(s: Seq<OwnerHit>) -> bool {
    forall|a: int, b: int| 0 <= a < b < s.len() ==> !same_owner(#[trigger] s[a], #[trigger] s[b])
}

proof fn lemma_heavier_prefix(s: Seq<OwnerHit>, w: u64)
    ensures
        heavier_prefix(s, w) <= s.len(),
        forall|k: int| 0 <= k < heavier_prefix(s, w) ==> (#[trigger] s[k]).weight_rank >= w,
        heavier_prefix(s, w) < s.len() ==> s[heavier_prefix(s, w) as int].weight_rank < w,
    decreases s.len(),
{
    if s.len() > 0 && s[0].weight_rank >= w {
        let t = s.drop_first();
        lemma_heavier_prefix(t, w);
        assert forall|k: int| 0 <= k < heavier_prefix(s, w) implies (#[trigger] s[k]).weight_rank
            >= w by {
            if k > 0 {
                assert(s[k] == t[k - 1]);
            }
        }
        if heavier_prefix(s, w) < s.len() {
            assert(s[heavier_prefix(s, w) as int] == t[heavier_prefix(t, w) as int]);
        }
    }
}

proof fn lemma_place(s: Seq<OwnerHit>, h: OwnerHit)
    requires
        heaviest_first(s),
    ensures
        heaviest_first(place(s, h)),
        place(s, h).len() == s.len() + 1,
        forall|i: int| 0 <= i < place(s, h).len() ==> (#[trigger] place(s, h)[i]) == h
            || s.contains(place(s, h)[i]),
{
    lemma_heavier_prefix(s, h.weight_rank);
    let j = heavier_prefix(s, h.weight_rank) as int;
    let r = place(s, h);
    assert forall|i: int| 0 <= i < r.len() implies #[trigger] r[i] == (if i < j {
        s[i]
    } else if i == j {
        h
    } else {
        s[i - 1]
    }) by {}
    assert forall|a: int, b: int| 0 <= a < b < r.len() implies (#[trigger] r[a]).weight_rank >= (
    #[trigger] r[b]).weight_rank by {
        if b > j && a <= j {
            assert(s[j].weight_rank >= s[b - 1].weight_rank || j == b - 1);
        }
    }
    assert forall|i: int| 0 <= i < r.len() implies (#[trigger] r[i]) == h || s.contains(r[i]) by {
        if i < j {
            assert(s[i] == r[i]);
        } else if i > j {
            assert(s[i - 1] == r[i]);
        }
    }
}

proof fn lemma_by_weight(s: Seq<OwnerHit>)
    ensures
        heaviest_first(by_weight(s)),
        by_weight(s).len() == s.len(),
        forall|i: int| 0 <= i < by_weight(s).len() ==> s.contains(#[trigger] by_weight(s)[i]),
    decreases s.len(),
{
    if s.len() > 0 {
        let p = s.drop_last();
        lemma_by_weight(p);
        lemma_place(by_weight(p), s.last());
        let r = by_weight(s);
        assert forall|i: int| 0 <= i < r.len() implies s.contains(#[trigger] r[i]) by {
            if r[i] != s.last() {
                let k = choose|k: int| 0 <= k < by_weight(p).len() && by_weight(p)[k] == r[i];
                assert(p.contains(by_weight(p)[k]));
                let m = choose|m: int| 0 <= m < p.len() && p[m] == r[i];
                assert(s[m] == p[m]);
            } else {
                assert(s[s.len() - 1] == r[i]);
            }
        }
    }
}

proof fn lemma_first_of_each_keeps_order(s: Seq<OwnerHit>)
    ensures
        heaviest_first(s) ==> heaviest_first(first_of_each(s)),
        one_per_owner(first_of_each(s)),
    decreases s.len(),
{
    if s.len() > 0 {
        let p = s.drop_last();
        lemma_first_of_each_keeps_order(p);
        lemma_first_of_each(p);
        let d = first_of_each(p);
        if !exists|i: int| 0 <= i < s.len() - 1 && same_owner(#[trigger] s[i], s.last()) {
            let r = first_of_each(s);
            assert(r == d.push(s.last()));
            assert forall|a: int| 0 <= a < d.len() implies !same_owner(#[trigger] d[a], s.last())
                && (heaviest_first(s) ==> d[a].weight_rank >= s.last().weight_rank) by {
                let k = choose|k: int| 0 <= k < p.len() && d[a] == p[k];
                assert(s[k] == p[k]);
                if heaviest_first(s) {
                    assert(s[k].weight_rank >= s[s.len() - 1].weight_rank);
                }
            }
            if heaviest_first(s) {
                assert(heaviest_first(p)) by {
                    assert forall|a: int, b: int| 0 <= a < b < p.len() implies (
                    #[trigger] p[a]).weight_rank >= (#[trigger] p[b]).weight_rank by {
                        assert(p[a] == s[a] && p[b] == s[b]);
                    }
                }
                assert forall|a: int, b: int| 0 <= a < b < r.len() implies (
                #[trigger] r[a]).weight_rank >= (#[trigger] r[b]).weight_rank by {
                    if b == d.len() {
                        assert(r[a] == d[a]);
                    } else {
                        assert(r[a] == d[a] && r[b] == d[b]);
                    }
                }
            }
            assert forall|a: int, b: int| 0 <= a < b < r.len() implies !same_owner(
                #[trigger] r[a],
                #[trigger] r[b],
            ) by {
                if b == d.len() {
                    assert(r[a] == d[a]);
                } else {
                    assert(r[a] == d[a] && r[b] == d[b]);
                }
            }
        } else {
            if heaviest_first(s) {
                assert forall|a: int, b: int| 0 <= a < b < p.len() implies (
                #[trigger] p[a]).weight_rank >= (#[trigger] p[b]).weight_rank by {
                    assert(p[a] == s[a] && p[b] == s[b]);
                }
            }
        }
    }
}

/// The ranked owners come heaviest first, name each (owner, source) pair
/// once, number at most `top`, and are each one of the given hits.
pub proof fn law_ranked_owners(hits: Seq<OwnerHit>, top: nat)
    ensures
        heaviest_first(ranked(hits, top)),
        one_per_owner(ranked(hits, top)),
        ranked(hits, top).len() <= top,
        forall|i: int| 0 <= i < ranked(hits, top).len() ==> hits.contains(
            #[trigger] ranked(hits, top)[i],
        ),
{
    let b = by_weight(hits);
    lemma_by_weight(hits);
    lemma_first_of_each_keeps_order(b);
    lemma_first_of_each(b);
    let d = first_of_each(b);
    let r = ranked(hits, top);
    assert forall|i: int| 0 <= i < r.len() implies hits.contains(#[trigger] r[i]) by {
        assert(r[i] == d[i]);
        let k = choose|k: int| 0 <= k < b.len() && d[i] == b[k];
        assert(hits.contains(b[k]));
    }
    assert forall|a: int, x: int| 0 <= a < x < r.len() implies (#[trigger] r[a]).weight_rank >= (
    #[trigger] r[x]).weight_rank && !same_owner(r[a], r[x]) by {
        assert(r[a] == d[a] && r[x] == d[x]);
    }
}

/// Ranks the hits of every matching path: heaviest first (stable), the
/// first hit of each (owner, source) pair, at most `top`.
pub fn rank_hits(hits: Vec<OwnerHit>, top: usize) -> (r: Vec<OwnerHit>)
    ensures
        r@ == ranked(hits@, top as nat),
{
    let sorted = sort_by_weight(hits);
    let mut d = keep_first_of_each(sorted);
    if d.len() > top {
        d.truncate(top);
    }
    d
}

} // verus!

//! `glide friction`: logged friction events and their digest.

use vstd::prelude::*;

verus! {

/// A friction event as it was logged.
#[derive(Debug, Clone)]
pub struct FrictionLogResponse {
    pub id: i64,
    pub occurred_at: String,
    pub category: String,
    pub severity: u8,
    pub subject: String,
}

/// One event of a digest.
#[derive(Debug, Clone)]
pub struct FrictionEvent {
    pub id: i64,
    pub occurred_at: String,
    pub category: String,
    pub severity: u8,
    pub person_handle: Option<String>,
    pub subject: String,
    pub notes: Option<String>,
}

/// The events since a cutoff, newest first, with a count per category in
/// category order.
#[derive(Debug, Clone)]
pub struct FrictionDigestResponse {
    pub since: String,
    pub events: Vec<FrictionEvent>,
    pub by_category: Vec<(String, usize)>,
}

/// `a` sorts before `b` as strings compare: character by character, a
/// proper prefix first.
pub open spec fn text_lt(a: Seq<char>, b: Seq<char>) -> bool
    decreases a.len(),
{
    if a.len() == 0 {
        b.len() > 0
    } else if b.len() == 0 {
        false
    } else if a[0] != b[0] {
        a[0] < b[0]
    } else {
        text_lt(a.drop_first(), b.drop_first())
    }
}

proof fn lemma_text_lt_irreflexive(a: Seq<char>)
    ensures
        !text_lt(a, a),
    decreases a.len(),
{
    if a.len() > 0 {
        lemma_text_lt_irreflexive(a.drop_first());
    }
}

proof fn lemma_text_lt_total(a: Seq<char>, b: Seq<char>)
    ensures
        a == b || text_lt(a, b) || text_lt(b, a),
    decreases a.len(),
{
    if a.len() > 0 && b.len() > 0 && a[0] == b[0] {
        lemma_text_lt_total(a.drop_first(), b.drop_first());
        if a.drop_first() == b.drop_first() {
            assert(a =~= seq![a[0]] + a.drop_first());
            assert(b =~= seq![b[0]] + b.drop_first());
        }
    } else if a.len() > 0 && b.len() > 0 {
    } else if a.len() == 0 && b.len() == 0 {
        assert(a =~= b);
    }
}

proof fn lemma_text_lt_transitive(a: Seq<char>, b: Seq<char>, c: Seq<char>)
    requires
        text_lt(a, b),
        text_lt(b, c),
    ensures
        text_lt(a, c),
    decreases a.len(),
{
    if a.len() > 0 && b.len() > 0 && c.len() > 0 && a[0] == b[0] && b[0] == c[0] {
        lemma_text_lt_transitive(a.drop_first(), b.drop_first(), c.drop_first());
    }
}

/// Compares two texts as strings do.
fn text_less(a: &Vec<char>, b: &Vec<char>) -> (r: bool)
    ensures
        r == text_lt(a@, b@),
{
    let mut i: usize = 0;
    assert(a@.skip(0) =~= a@ && b@.skip(0) =~= b@);
    while i < a.len() && i < b.len() && a[i] == b[i]
        invariant
            i <= a@.len(),
            i <= b@.len(),
            text_lt(a@, b@) == text_lt(a@.skip(i as int), b@.skip(i as int)),
        decreases a.len() - i,
    {
        assert(a@.skip(i as int).drop_first() =~= a@.skip(i + 1));
        assert(b@.skip(i as int).drop_first() =~= b@.skip(i + 1));
        i = i + 1;
    }
    let ghost sa = a@.skip(i as int);
    let ghost sb = b@.skip(i as int);
    if i == a.len() {
        assert(sa.len() == 0);
        i < b.len()
    } else if i == b.len() {
        assert(sb.len() == 0 && sa.len() > 0);
        false
    } else {
        assert(sa[0] == a@[i as int] && sb[0] == b@[i as int]);
        a[i] < b[i]
    }
}

/// How many of `cats` are `c`.
pub open spec fn cat_count(cats: Seq<Seq<char>>, c: Seq<char>) -> nat
    decreases cats.len(),
{
    if cats.len() == 0 {
        0
    } else {
        cat_count(cats.drop_last(), c) + if cats.last() == c {
            1nat
        } else {
            0nat
        }
    }
}

/// The categories of the events.
pub open spec fn categories(events: Seq<FrictionEvent>) -> Seq<Seq<char>> {
    events.map_values(|e: FrictionEvent| e.category@)
}

/// `counts` is the per-category tally of `cats`: one entry per category
/// that occurs, in string order, each with how often it occurs.
pub open spec fn is_tally(counts: Seq<(Seq<char>, usize)>, cats: Seq<Seq<char>>) -> bool {
    &&& forall|i: int, j: int|
        0 <= i < j < counts.len() ==> text_lt(#[trigger] counts[i].0, #[trigger] counts[j].0)
    &&& forall|i: int| 0 <= i < counts.len() ==> (#[trigger] counts[i]).1 == cat_count(cats, counts[i].0)
        && counts[i].1 >= 1
    &&& forall|k: int| 0 <= k < cats.len() ==> #[trigger] has_key(counts, cats[k])
}

/// Some entry of the tally is for category `c`.
pub open spec fn has_key(counts: Seq<(Seq<char>, usize)>, c: Seq<char>) -> bool {
    exists|i: int| 0 <= i < counts.len() && (#[trigger] counts[i]).0 == c
}

proof fn lemma_cat_count_absent(s: Seq<Seq<char>>, c: Seq<char>)
    requires
        forall|k: int| 0 <= k < s.len() ==> s[k] != c,
    ensures
        cat_count(s, c) == 0,
    decreases s.len(),
{
    if s.len() > 0 {
        lemma_cat_count_absent(s.drop_last(), c);
    }
}

/// The tally of the events as text.
pub open spec fn tally_view(r: Seq<(String, usize)>) -> Seq<(Seq<char>, usize)> {
    r.map_values(|p: (String, usize)| (p.0@, p.1))
}

/// Adds one occurrence of `c` to a tally of `pre`, keeping it a tally.
#[verifier::spinoff_prover]
#[verifier::rlimit(40)]
fn tally_add(
    r: &mut Vec<(String, usize)>,
    keys: &mut Vec<Vec<char>>,
    c: Vec<char>,
    Ghost(pre): Ghost<Seq<Seq<char>>>,
)
    requires
        old(keys)@.len() == old(r)@.len(),
        forall|m: int| 0 <= m < old(r)@.len() ==> (#[trigger] old(keys)@[m])@ == old(r)@[m].0@,
        is_tally(tally_view(old(r)@), pre),
        forall|m: int| 0 <= m < old(r)@.len() ==> old(r)@[m].1 <= pre.len(),
        pre.len() < usize::MAX,
    ensures
        final(keys)@.len() == final(r)@.len(),
        forall|m: int| 0 <= m < final(r)@.len() ==> (#[trigger] final(keys)@[m])@ == final(r)@[m].0@,
        is_tally(tally_view(final(r)@), pre.push(c@)),
        forall|m: int| 0 <= m < final(r)@.len() ==> final(r)@[m].1 <= pre.len() + 1,
{
    let ghost post = pre.push(c@);
    let ghost t0 = tally_view(r@);
    assert(post.drop_last() =~= pre);
    let mut j: usize = 0;
    while j < keys.len() && text_less(&keys[j], &c)
        invariant
            j <= keys@.len(),
            keys@.len() == r@.len(),
            *keys == *old(keys),
            *r == *old(r),
            forall|m: int| 0 <= m < j ==> text_lt((#[trigger] keys@[m])@, c@),
        decreases keys.len() - j,
    {
        j = j + 1;
    }
    assert forall|m: int| 0 <= m < t0.len() implies (#[trigger] t0[m]).0 == keys@[m]@ by {}
    if j < keys.len() && crate::text::same(&keys[j], &c) {
        let (name, n) = r.remove(j);
        r.insert(j, (name, n + 1));
        let ghost t1 = tally_view(r@);
        assert(t1 =~= t0.update(j as int, (c@, (n + 1) as usize)));
        assert forall|m: int| 0 <= m < t1.len() implies (#[trigger] t1[m]).1 == cat_count(post, t1[m].0)
            && t1[m].1 >= 1 by {
            assert(t1[m].0 == t0[m].0);
            if m != j {
                assert(t0[m].0 != c@) by {
                    if m < j {
                        lemma_text_lt_irreflexive(c@);
                    } else {
                        assert(text_lt(t0[j as int].0, t0[m].0));
                        lemma_text_lt_irreflexive(c@);
                    }
                }
            }
        }
        assert forall|k: int| 0 <= k < post.len() implies #[trigger] has_key(t1, post[k]) by {
            if k < pre.len() {
                assert(post[k] == pre[k]);
                assert(has_key(t0, pre[k]));
                let i = choose|i: int| 0 <= i < t0.len() && (#[trigger] t0[i]).0 == pre[k];
                assert(t1[i].0 == t0[i].0);
            } else {
                assert(t1[j as int].0 == post[k]);
            }
        }
        assert forall|a: int, b: int| 0 <= a < b < t1.len() implies text_lt(
            #[trigger] t1[a].0,
            #[trigger] t1[b].0,
        ) by {
            assert(t1[a].0 == t0[a].0 && t1[b].0 == t0[b].0);
        }
    } else {
        proof {
            if j < keys.len() {
                lemma_text_lt_total(keys@[j as int]@, c@);
            }
            assert forall|k: int| 0 <= k < pre.len() implies pre[k] != c@ by {
                assert(has_key(t0, pre[k]));
                let i = choose|i: int| 0 <= i < t0.len() && (#[trigger] t0[i]).0 == pre[k];
                if pre[k] == c@ {
                    if i < j {
                        lemma_text_lt_irreflexive(c@);
                    } else if i > j {
                        assert(text_lt(t0[j as int].0, t0[i].0));
                        lemma_text_lt_transitive(c@, t0[j as int].0, c@);
                        lemma_text_lt_irreflexive(c@);
                    }
                }
            }
            lemma_cat_count_absent(pre, c@);
        }
        let name = crate::text::string_of(&c);
        r.insert(j, (name, 1));
        keys.insert(j, c);
        let ghost t1 = tally_view(r@);
        assert(t1 =~= t0.insert(j as int, (c@, 1usize)));
        assert forall|m: int| 0 <= m < t1.len() implies (#[trigger] t1[m]).1 == cat_count(post, t1[m].0)
            && t1[m].1 >= 1 by {
            if m < j {
                assert(t1[m] == t0[m]);
                assert(t0[m].0 != c@) by {
                    lemma_text_lt_irreflexive(c@);
                }
            } else if m > j {
                assert(t1[m] == t0[m - 1]);
                assert(t0[m - 1].0 != c@) by {
                    if m - 1 > j {
                        assert(text_lt(t0[j as int].0, t0[m - 1].0));
                    }
                    lemma_text_lt_irreflexive(c@);
                    lemma_text_lt_irreflexive(t0[j as int].0);
                }
            }
        }
        assert forall|k: int| 0 <= k < post.len() implies #[trigger] has_key(t1, post[k]) by {
            if k < pre.len() {
                assert(post[k] == pre[k]);
                assert(has_key(t0, pre[k]));
                let i = choose|i: int| 0 <= i < t0.len() && (#[trigger] t0[i]).0 == pre[k];
                if i < j {
                    assert(t1[i].0 == t0[i].0);
                } else {
                    assert(t1[i + 1].0 == t0[i].0);
                }
            } else {
                assert(t1[j as int].0 == post[k]);
            }
        }
        assert forall|a: int, b: int| 0 <= a < b < t1.len() implies text_lt(
            #[trigger] t1[a].0,
            #[trigger] t1[b].0,
        ) by {
            if b < j {
                assert(t1[a] == t0[a] && t1[b] == t0[b]);
            } else if b == j {
                assert(t1[a] == t0[a]);
            } else if a == j {
                assert(t1[b] == t0[b - 1]);
                if b - 1 > j {
                    assert(text_lt(t0[j as int].0, t0[b - 1].0));
                    lemma_text_lt_transitive(c@, t0[j as int].0, t0[b - 1].0);
                }
            } else if a < j {
                assert(t1[a] == t0[a] && t1[b] == t0[b - 1]);
            } else {
                assert(t1[a] == t0[a - 1] && t1[b] == t0[b - 1]);
            }
        }
    }
}

/// Counts the events of each category, in category order.
pub fn category_counts(events: &Vec<FrictionEvent>) -> (r: Vec<(String, usize)>)
    ensures
        is_tally(tally_view(r@), categories(events@)),
{
    let ghost cats = categories(events@);
    let mut keys: Vec<Vec<char>> = Vec::new();
    let mut r: Vec<(String, usize)> = Vec::new();
    let mut i: usize = 0;
    while i < events.len()
        invariant
            i <= events@.len(),
            cats == categories(events@),
            keys@.len() == r@.len(),
            forall|m: int| 0 <= m < r@.len() ==> (#[trigger] keys@[m])@ == r@[m].0@,
            is_tally(tally_view(r@), cats.take(i as int)),
            forall|m: int| 0 <= m < r@.len() ==> r@[m].1 <= i,
        decreases events.len() - i,
    {
        let c = crate::text::chars_of(events[i].category.as_str());
        assert(cats.take(i + 1) =~= cats.take(i as int).push(c@));
        tally_add(&mut r, &mut keys, c, Ghost(cats.take(i as int)));
        i = i + 1;
    }
    assert(cats.take(events.len() as int) =~= cats);
    r
}

/// Rolls the events newer than the cutoff into a digest.
pub fn digest(since: String, events: Vec<FrictionEvent>) -> (r: FrictionDigestResponse)
    ensures
        r.since == since,
        r.events@ == events@,
        is_tally(tally_view(r.by_category@), categories(events@)),
{
    let by_category = category_counts(&events);
    FrictionDigestResponse { since, events, by_category }
}

} // verus!

//! `glide prime`: which settled decisions ride along with the day's focus
//! into an agent's session. The decisions themselves are read by the
//! daily-note vault; this is the choice of which to tell.

use vstd::prelude::*;

use crate::text::{chars_of, same};

verus! {

/// How many settled things an agent is told about: short on purpose, since
/// a fact in a short list is read and one in a long list skimmed.
pub const DECISIONS_IN_PRIME: usize = 8;

/// The room the team's recent decisions leave.
pub open spec fn room_left(team_len: nat) -> nat {
    if team_len >= DECISIONS_IN_PRIME {
        0
    } else {
        (DECISIONS_IN_PRIME - team_len) as nat
    }
}

/// The key is among `said`.
pub open spec fn said_already(said: Seq<Seq<char>>, key: Seq<char>) -> bool {
    exists|j: int| 0 <= j < said.len() && said[j] == key
}

/// The positions, in order, of the personal decisions the team has not
/// already said (a fact settled personally and again for the team is one
/// fact).
pub open spec fn unsaid(said: Seq<Seq<char>>, personal: Seq<Seq<char>>) -> Seq<int>
    decreases personal.len(),
{
    if personal.len() == 0 {
        Seq::empty()
    } else {
        let rest = unsaid(said, personal.drop_last());
        if said_already(said, personal.last()) {
            rest
        } else {
            rest.push(personal.len() - 1)
        }
    }
}

/// The personal decisions that ride along: the last of the unsaid ones,
/// as many as the room allows, in their order.
pub open spec fn personal_picks(said: Seq<Seq<char>>, personal: Seq<Seq<char>>) -> Seq<int> {
    let u = unsaid(said, personal);
    let room = room_left(said.len());
    if u.len() <= room {
        u
    } else {
        u.skip(u.len() - room)
    }
}

fn key_said(said: &Vec<String>, key: &String) -> (b: bool)
    ensures
        b == said_already(said@.map_values(|s: String| s@), key@),
{
    let ghost sv = said@.map_values(|s: String| s@);
    let k = chars_of(key.as_str());
    let mut j: usize = 0;
    while j < said.len()
        invariant
            j <= said@.len(),
            sv == said@.map_values(|s: String| s@),
            k@ == key@,
            forall|m: int| 0 <= m < j ==> sv[m] != key@,
        decreases said.len() - j,
    {
        if same(&chars_of(said[j].as_str()), &k) {
            assert(sv[j as int] == key@);
            return true;
        }
        j = j + 1;
    }
    false
}

/// Team first, personal filling whatever room is left. `team` holds the
/// keys of the team's recent decisions (those the agent is told first);
/// `personal` the keys of the person's own, oldest first. Answers the
/// positions in `personal` of those told after the team's.
pub fn personal_for_prime(team: &Vec<String>, personal: &Vec<String>) -> (r: Vec<usize>)
    ensures
        r@.map_values(|i: usize| i as int) == personal_picks(
            team@.map_values(|s: String| s@),
            personal@.map_values(|s: String| s@),
        ),
{
    let ghost said = team@.map_values(|s: String| s@);
    let ghost pv = personal@.map_values(|s: String| s@);
    let mut u: Vec<usize> = Vec::new();
    let mut i: usize = 0;
    while i < personal.len()
        invariant
            i <= personal@.len(),
            said == team@.map_values(|s: String| s@),
            pv == personal@.map_values(|s: String| s@),
            u@.map_values(|x: usize| x as int) == unsaid(said, pv.take(i as int)),
        decreases personal.len() - i,
    {
        let ghost before = u@.map_values(|x: usize| x as int);
        assert(pv.take(i + 1).drop_last() =~= pv.take(i as int));
        assert(pv.take(i + 1).last() == personal@[i as int]@);
        if !key_said(team, &personal[i]) {
            u.push(i);
            assert(u@.map_values(|x: usize| x as int) =~= before.push(i as int));
        }
        i = i + 1;
    }
    assert(pv.take(personal.len() as int) =~= pv);
    let room: usize = if team.len() >= DECISIONS_IN_PRIME {
        0
    } else {
        DECISIONS_IN_PRIME - team.len()
    };
    if u.len() <= room {
        u
    } else {
        let from = u.len() - room;
        let mut r: Vec<usize> = Vec::new();
        let mut k: usize = from;
        let ghost uv = u@.map_values(|x: usize| x as int);
        while k < u.len()
            invariant
                from <= k <= u@.len(),
                uv == u@.map_values(|x: usize| x as int),
                r@.map_values(|x: usize| x as int) == uv.subrange(from as int, k as int),
            decreases u.len() - k,
        {
            let ghost before = r@.map_values(|x: usize| x as int);
            r.push(u[k]);
            assert(r@.map_values(|x: usize| x as int) =~= before.push(uv[k as int]));
            assert(uv.subrange(from as int, k + 1) =~= uv.subrange(from as int, k as int).push(
                uv[k as int],
            ));
            k = k + 1;
        }
        assert(uv.subrange(from as int, u.len() as int) =~= uv.skip(from as int));
        r
    }
}

proof fn lemma_unsaid(said: Seq<Seq<char>>, personal: Seq<Seq<char>>)
    ensures
        forall|a: int| 0 <= a < unsaid(said, personal).len() ==> 0 <= #[trigger] unsaid(said, personal)[a]
            < personal.len() && !said_already(said, personal[unsaid(said, personal)[a]]),
        forall|a: int, b: int|
            0 <= a < b < unsaid(said, personal).len() ==> #[trigger] unsaid(said, personal)[a]
                < #[trigger] unsaid(said, personal)[b],
    decreases personal.len(),
{
    if personal.len() > 0 {
        let p = personal.drop_last();
        lemma_unsaid(said, p);
        let u = unsaid(said, personal);
        let rest = unsaid(said, p);
        assert forall|a: int| 0 <= a < u.len() implies 0 <= #[trigger] u[a] < personal.len()
            && !said_already(said, personal[u[a]]) by {
            if a < rest.len() {
                assert(u[a] == rest[a]);
                assert(personal[rest[a]] == p[rest[a]]);
            }
        }
        assert forall|a: int, b: int| 0 <= a < b < u.len() implies #[trigger] u[a] < #[trigger] u[b] by {
            if b < rest.len() {
                assert(u[a] == rest[a] && u[b] == rest[b]);
            } else {
                assert(u[a] == rest[a]);
            }
        }
    }
}

/// The team's decisions win the room: together with the team's (when they
/// fit the cap) the picks never exceed it, none repeats a key the team
/// already said, and they keep the person's order.
pub proof fn law_team_first_within_the_cap(said: Seq<Seq<char>>, personal: Seq<Seq<char>>)
    ensures
        said.len() <= DECISIONS_IN_PRIME ==> said.len() + personal_picks(said, personal).len()
            <= DECISIONS_IN_PRIME,
        said.len() >= DECISIONS_IN_PRIME ==> personal_picks(said, personal).len() == 0,
        forall|a: int|
            0 <= a < personal_picks(said, personal).len() ==> 0 <= #[trigger] personal_picks(
                said,
                personal,
            )[a] < personal.len() && !said_already(said, personal[personal_picks(said, personal)[a]]),
        forall|a: int, b: int|
            0 <= a < b < personal_picks(said, personal).len() ==> #[trigger] personal_picks(
                said,
                personal,
            )[a] < #[trigger] personal_picks(said, personal)[b],
{
    lemma_unsaid(said, personal);
    let u = unsaid(said, personal);
    let r = personal_picks(said, personal);
    let room = room_left(said.len());
    if u.len() > room {
        let off = u.len() - room;
        assert forall|a: int| 0 <= a < r.len() implies 0 <= #[trigger] r[a] < personal.len()
            && !said_already(said, personal[r[a]]) by {
            assert(r[a] == u[a + off]);
        }
        assert forall|a: int, b: int| 0 <= a < b < r.len() implies #[trigger] r[a] < #[trigger] r[b] by {
            assert(r[a] == u[a + off] && r[b] == u[b + off]);
        }
    }
}

} // verus!

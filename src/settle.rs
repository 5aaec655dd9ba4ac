use vstd::prelude::*;

use crate::bracket::{fresh_spot, spot_view, view_of, EntrantSpot, Match, Side};
use crate::topology::{
    bracket_size, compute_feeder, compute_seed, feeder, lemma_bracket_size_even,
    lemma_feeder_before, match_count, seed, FeedKind, TournamentKind, MAX_ENTRANTS,
};

verus! {

/// What spot `s` of match `j` must hold, given the matches before it: the
/// seeded entrant or bye in the first round, and otherwise what its feeding
/// match hands on (its winner, its loser, or, for the second grand final, the
/// same side of the first one once the losers' finalist has won it).
pub open spec fn expected_spot(
    kind: TournamentKind,
    third_place: bool,
    n: nat,
    ms: Seq<Match>,
    j: int,
    s: Side,
) -> EntrantSpot<usize> {
    let p = bracket_size(n) as int;
    if p >= 2 && j < p / 2 {
        seed(n as int, p, j, s)
    } else {
        match feeder(kind, third_place, p, j, s) {
            Some((FeedKind::Winner, f)) => ms[f].advancing(),
            Some((FeedKind::Loser, f)) => ms[f].losing(),
            Some((FeedKind::Reset, f)) => if ms[f].winner_side() == Some(Side::Right) {
                spot_view(ms[f].side(s))
            } else {
                EntrantSpot::TBD
            },
            None => EntrantSpot::TBD,
        }
    }
}

/// Match `j` holds on both sides what the matches before it give it.
pub open spec fn consistent_at(kind: TournamentKind, third_place: bool, n: nat, ms: Seq<Match>, j: int) -> bool {
    &&& spot_view(ms[j].left) == expected_spot(kind, third_place, n, ms, j, Side::Left)
    &&& spot_view(ms[j].right) == expected_spot(kind, third_place, n, ms, j, Side::Right)
}

/// Every match holds what seeding and the results of earlier matches give it:
/// no spot holds a stale entrant.
pub open spec fn is_settled(kind: TournamentKind, third_place: bool, n: nat, ms: Seq<Match>) -> bool {
    forall|j: int| 0 <= j < ms.len() ==> #[trigger] consistent_at(kind, third_place, n, ms, j)
}

/// Match `j` brought up to date with the matches before it.
pub open spec fn settled_match(kind: TournamentKind, third_place: bool, n: nat, ms: Seq<Match>, j: int) -> Match {
    ms[j].refreshed(
        expected_spot(kind, third_place, n, ms, j, Side::Left),
        expected_spot(kind, third_place, n, ms, j, Side::Right),
    )
}

/// Brings the matches from `j` on up to date, one after the other.
pub open spec fn settle_from(kind: TournamentKind, third_place: bool, n: nat, ms: Seq<Match>, j: nat) -> Seq<Match>
    decreases ms.len() - j,
{
    if j >= ms.len() {
        ms
    } else {
        settle_from(kind, third_place, n, ms.update(j as int, settled_match(kind, third_place, n, ms, j as int)), j + 1)
    }
}

/// The state of a tournament and its matches: the number of matches is the
/// one the format gives, and every match is settled.
pub open spec fn valid_state(kind: TournamentKind, third_place: bool, n: nat, ms: Seq<Match>) -> bool {
    &&& n <= MAX_ENTRANTS
    &&& ms.len() == match_count(kind, third_place, bracket_size(n) as int)
    &&& is_settled(kind, third_place, n, ms)
}

/// A match fresh from a change of its entrants: no score and no winner on
/// either side.
pub open spec fn is_fresh(m: Match) -> bool {
    &&& m.left == fresh_spot(spot_view(m.left))
    &&& m.right == fresh_spot(spot_view(m.right))
}

pub proof fn lemma_fresh_view(s: EntrantSpot<usize>)
    ensures
        spot_view(fresh_spot(s)) == s,
{
}

/// What a spot must hold depends on the matches before it alone.
pub proof fn lemma_expected_frame(
    kind: TournamentKind,
    third_place: bool,
    n: nat,
    ms1: Seq<Match>,
    ms2: Seq<Match>,
    j: int,
    s: Side,
)
    requires
        0 <= j,
        j <= ms1.len(),
        j <= ms2.len(),
        forall|i: int| 0 <= i < j ==> ms1[i] == ms2[i],
    ensures
        expected_spot(kind, third_place, n, ms1, j, s) == expected_spot(kind, third_place, n, ms2, j, s),
{
    let p = bracket_size(n) as int;
    lemma_bracket_size_even(n);
    if p >= 2 {
        lemma_feeder_before(kind, third_place, p, j, s);
    }
}

/// Settling keeps the matches before `j`, and leaves each later match either
/// as it was or fresh.
pub proof fn lemma_settle_from(kind: TournamentKind, third_place: bool, n: nat, ms: Seq<Match>, j: nat)
    requires
        j <= ms.len(),
        forall|i: int| 0 <= i < j ==> #[trigger] consistent_at(kind, third_place, n, ms, i),
    ensures
        settle_from(kind, third_place, n, ms, j).len() == ms.len(),
        is_settled(kind, third_place, n, settle_from(kind, third_place, n, ms, j)),
        forall|i: int| 0 <= i < j ==> #[trigger] settle_from(kind, third_place, n, ms, j)[i] == ms[i],
        forall|i: int|
            0 <= i < ms.len() ==> #[trigger] settle_from(kind, third_place, n, ms, j)[i] == ms[i]
                || is_fresh(settle_from(kind, third_place, n, ms, j)[i]),
    decreases ms.len() - j,
{
    if j < ms.len() {
        let m = settled_match(kind, third_place, n, ms, j as int);
        let ms2 = ms.update(j as int, m);
        let l = expected_spot(kind, third_place, n, ms, j as int, Side::Left);
        let r = expected_spot(kind, third_place, n, ms, j as int, Side::Right);
        lemma_fresh_view(l);
        lemma_fresh_view(r);
        assert forall|i: int| 0 <= i < j + 1 implies #[trigger] consistent_at(kind, third_place, n, ms2, i) by {
            lemma_expected_frame(kind, third_place, n, ms, ms2, i, Side::Left);
            lemma_expected_frame(kind, third_place, n, ms, ms2, i, Side::Right);
            if i < j {
                assert(consistent_at(kind, third_place, n, ms, i));
                assert(ms2[i] == ms[i]);
            } else {
                assert(ms2[i] == m);
            }
        }
        lemma_settle_from(kind, third_place, n, ms2, j + 1);
        let res = settle_from(kind, third_place, n, ms, j);
        assert forall|i: int| 0 <= i < ms.len() implies #[trigger] res[i] == ms[i] || is_fresh(res[i]) by {
            if i == j {
                assert(res[i] == m);
            }
        }
    }
}

/// Brings every match up to date, in index order and in place.
pub fn settle(kind: TournamentKind, third_place: bool, n: usize, p: usize, ms: &mut Vec<Match>)
    requires
        n <= MAX_ENTRANTS,
        p == bracket_size(n as nat),
        old(ms).len() == match_count(kind, third_place, p as int),
    ensures
        final(ms)@ == settle_from(kind, third_place, n as nat, old(ms)@, 0),
{
    let ghost goal = settle_from(kind, third_place, n as nat, ms@, 0);
    let len = ms.len();
    let mut j: usize = 0;
    while j < len
        invariant
            n <= MAX_ENTRANTS,
            p == bracket_size(n as nat),
            len == ms.len() == match_count(kind, third_place, p as int),
            j <= len,
            settle_from(kind, third_place, n as nat, ms@, j as nat) == goal,
        decreases len - j,
    {
        let l = compute_expected(kind, third_place, n, p, ms, j, Side::Left);
        let r = compute_expected(kind, third_place, n, p, ms, j, Side::Right);
        let m = ms[j].refresh(l, r);
        ms.set(j, m);
        j = j + 1;
    }
}

/// What spot `s` of match `j` must hold; see `expected_spot`.
pub fn compute_expected(
    kind: TournamentKind,
    third_place: bool,
    n: usize,
    p: usize,
    ms: &Vec<Match>,
    j: usize,
    s: Side,
) -> (r: EntrantSpot<usize>)
    requires
        n <= MAX_ENTRANTS,
        p == bracket_size(n as nat),
        ms.len() == match_count(kind, third_place, p as int),
        j < ms.len(),
    ensures
        r == expected_spot(kind, third_place, n as nat, ms@, j as int, s),
{
    proof {
        lemma_bracket_size_even(n as nat);
    }
    if p < 2 {
        return EntrantSpot::TBD;
    }
    if j < p / 2 {
        return compute_seed(n, p, j, s);
    }
    proof {
        lemma_feeder_before(kind, third_place, p as int, j as int, s);
    }
    match compute_feeder(kind, third_place, p, j, s) {
        Some(f) => match f.kind {
            FeedKind::Winner => ms[f.from].get_advancing(),
            FeedKind::Loser => ms[f.from].get_losing(),
            FeedKind::Reset => {
                let first = &ms[f.from];
                match first.get_winner_side() {
                    Some(Side::Right) => view_of(first.get_side(s)),
                    _ => EntrantSpot::TBD,
                }
            },
        },
        None => EntrantSpot::TBD,
    }
}

} // verus!

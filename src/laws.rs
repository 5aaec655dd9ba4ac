use vstd::prelude::*;

use crate::bracket::{spot_view, EntrantSpot, Match, MatchResult, Side};
use crate::rounds::{halvings, lemma_total_append, round_sizes, total};
use crate::settle::{
    consistent_at, is_fresh, lemma_expected_frame, lemma_settle_from,
    settle_from, valid_state,
};
use crate::topology::{
    bracket_size, ceil_log2, feeder, lemma_bracket_size_even, lemma_feeder_before, losers_feed, lemma_ceil_log2, lemma_pow2_positive, match_count, pow2,
    FeedKind, TournamentKind, MAX_ENTRANTS,
};
use crate::tournament::{built, lemma_built_valid, updated};

verus! {

/// Settling from `j` on changes nothing where the matches from `j` up to `k`
/// are already settled.
pub proof fn lemma_settle_skip(kind: TournamentKind, third_place: bool, n: nat, ms: Seq<Match>, j: nat, k: nat)
    requires
        j <= k <= ms.len(),
        forall|i: int| j <= i < k ==> #[trigger] consistent_at(kind, third_place, n, ms, i),
    ensures
        settle_from(kind, third_place, n, ms, j) == settle_from(kind, third_place, n, ms, k),
    decreases k - j,
{
    if j < k {
        assert(consistent_at(kind, third_place, n, ms, j as int));
        assert(ms.update(j as int, ms[j as int]) =~= ms);
        lemma_settle_skip(kind, third_place, n, ms, j + 1, k);
    }
}

/// Reporting a result on a settled tournament: every spot is then what its
/// feeding match now hands on, so no stale entrant is left anywhere; the
/// matches before the reported one are untouched, the reported one holds the
/// result, and every later match is either as it was or replayed afresh, with
/// no score and no winner.
pub proof fn lemma_update_cascade(
    kind: TournamentKind,
    third_place: bool,
    n: nat,
    ms: Seq<Match>,
    index: int,
    result: MatchResult,
)
    requires
        valid_state(kind, third_place, n, ms),
        0 <= index < ms.len(),
        result.fits(ms[index]),
    ensures
        valid_state(kind, third_place, n, updated(kind, third_place, n, ms, index, result)),
        updated(kind, third_place, n, ms, index, result)[index] == result.applied(ms[index]),
        forall|j: int| 0 <= j < index ==> #[trigger] updated(kind, third_place, n, ms, index, result)[j] == ms[j],
        forall|j: int|
            index < j < ms.len() ==> #[trigger] updated(kind, third_place, n, ms, index, result)[j] == ms[j]
                || is_fresh(updated(kind, third_place, n, ms, index, result)[j]),
{
    let ms2 = ms.update(index, result.applied(ms[index]));
    assert forall|i: int| 0 <= i < index + 1 implies #[trigger] consistent_at(kind, third_place, n, ms2, i) by {
        assert(consistent_at(kind, third_place, n, ms, i));
        lemma_expected_frame(kind, third_place, n, ms, ms2, i, Side::Left);
        lemma_expected_frame(kind, third_place, n, ms, ms2, i, Side::Right);
    }
    lemma_settle_skip(kind, third_place, n, ms2, 0, (index + 1) as nat);
    lemma_settle_from(kind, third_place, n, ms2, (index + 1) as nat);
}

/// Applies reported results one after the other; a result that the
/// tournament refuses leaves the matches as they are.
pub open spec fn replay(kind: TournamentKind, third_place: bool, n: nat, ms: Seq<Match>, results: Seq<(int, MatchResult)>) -> Seq<Match>
    decreases results.len(),
{
    if results.len() == 0 {
        ms
    } else {
        let (index, result) = results[0];
        let next = if 0 <= index < ms.len() && result.fits(ms[index]) {
            updated(kind, third_place, n, ms, index, result)
        } else {
            ms
        };
        replay(kind, third_place, n, next, results.drop_first())
    }
}

/// The same results reported on two tournaments built alike leave them with
/// the same matches, and each of them valid.
pub proof fn lemma_replay_deterministic(
    kind: TournamentKind,
    third_place: bool,
    n: nat,
    ms1: Seq<Match>,
    ms2: Seq<Match>,
    results: Seq<(int, MatchResult)>,
)
    requires
        n <= MAX_ENTRANTS,
        ms1 == built(kind, third_place, n),
        ms2 == built(kind, third_place, n),
    ensures
        replay(kind, third_place, n, ms1, results) == replay(kind, third_place, n, ms2, results),
        valid_state(kind, third_place, n, replay(kind, third_place, n, ms1, results)),
{
    lemma_built_valid(kind, third_place, n);
    lemma_replay_valid(kind, third_place, n, ms1, results);
}

pub proof fn lemma_replay_valid(kind: TournamentKind, third_place: bool, n: nat, ms: Seq<Match>, results: Seq<(int, MatchResult)>)
    requires
        valid_state(kind, third_place, n, ms),
    ensures
        valid_state(kind, third_place, n, replay(kind, third_place, n, ms, results)),
    decreases results.len(),
{
    if results.len() > 0 {
        let (index, result) = results[0];
        if 0 <= index < ms.len() && result.fits(ms[index]) {
            lemma_update_cascade(kind, third_place, n, ms, index, result);
            lemma_replay_valid(kind, third_place, n, updated(kind, third_place, n, ms, index, result), results.drop_first());
        } else {
            lemma_replay_valid(kind, third_place, n, ms, results.drop_first());
        }
    }
}

/// The entrants and matches of a fresh build are a valid state: resuming from
/// them gives back the same tournament.
pub proof fn lemma_resume_fresh_build(kind: TournamentKind, third_place: bool, n: nat)
    requires
        n <= MAX_ENTRANTS,
    ensures
        valid_state(kind, third_place, n, built(kind, third_place, n)),
{
    lemma_built_valid(kind, third_place, n);
}

/// In a settled tournament, a match with a bye hands no entrant down to the
/// spot that takes its loser: that spot holds a bye too.
pub proof fn lemma_bye_drops_no_entrant(kind: TournamentKind, third_place: bool, n: nat, ms: Seq<Match>, j: int, s: Side)
    requires
        valid_state(kind, third_place, n, ms),
        0 <= j < ms.len(),
        feeder(kind, third_place, bracket_size(n) as int, j, s) matches Some((FeedKind::Loser, f)) && (ms[f].left is Empty
            || ms[f].right is Empty),
        j >= bracket_size(n) as int / 2,
    ensures
        spot_view(ms[j].side(s)) == EntrantSpot::<usize>::Empty,
{
    assert(consistent_at(kind, third_place, n, ms, j));
}

pub proof fn lemma_pow2_increasing(a: nat, b: nat)
    requires
        a < b,
    ensures
        pow2(a) < pow2(b),
    decreases b,
{
    lemma_pow2_positive(a);
    if b > a + 1 {
        lemma_pow2_increasing(a, (b - 1) as nat);
    }
    lemma_pow2_positive((b - 1) as nat);
}

pub proof fn lemma_halvings_of_pow2(e: nat)
    ensures
        halvings(pow2(e) as int).len() == e + 1,
        total(halvings(pow2(e) as int)) == 2 * pow2(e) - 1,
        forall|k: int| 0 <= k < halvings(pow2(e) as int).len() ==> #[trigger] halvings(pow2(e) as int)[k] >= 1,
    decreases e,
{
    lemma_pow2_positive(e);
    let h = halvings(pow2(e) as int);
    if e == 0 {
        assert(halvings(0) =~= Seq::<int>::empty());
        assert(h =~= seq![1int]);
        assert(h.drop_first() =~= Seq::<int>::empty());
        assert(total(h) == h[0] + total(h.drop_first()));
    } else {
        let e1 = (e - 1) as nat;
        lemma_halvings_of_pow2(e1);
        assert(pow2(e) as int / 2 == pow2(e1) as int);
        assert(h.drop_first() =~= halvings(pow2(e1) as int));
        assert(total(h) == h[0] + total(h.drop_first()));
        assert forall|k: int| 0 <= k < h.len() implies #[trigger] h[k] >= 1 by {
            if k > 0 {
                assert(h[k] == halvings(pow2(e1) as int)[k - 1]);
            }
        }
    }
}

/// Where round `k` starts: the sum of the sizes before it.
pub open spec fn round_start(sizes: Seq<int>, k: int) -> int {
    total(sizes.take(k))
}

pub proof fn lemma_round_start_step(sizes: Seq<int>, k: int)
    requires
        0 <= k < sizes.len(),
    ensures
        round_start(sizes, k + 1) == round_start(sizes, k) + sizes[k],
{
    assert(sizes.take(k + 1) =~= sizes.take(k) + seq![sizes[k]]);
    lemma_total_append(sizes.take(k), seq![sizes[k]]);
    assert(seq![sizes[k]].drop_first() =~= Seq::<int>::empty());
    assert(total(seq![sizes[k]]) == sizes[k] + total(seq![sizes[k]].drop_first()));
}

pub proof fn lemma_round_start_monotone(sizes: Seq<int>, k1: int, k2: int)
    requires
        0 <= k1 <= k2 <= sizes.len(),
        forall|k: int| 0 <= k < sizes.len() ==> #[trigger] sizes[k] >= 1,
    ensures
        round_start(sizes, k1) + (k2 - k1) <= round_start(sizes, k2),
    decreases k2 - k1,
{
    if k1 < k2 {
        lemma_round_start_step(sizes, k1);
        lemma_round_start_monotone(sizes, k1 + 1, k2);
    }
}

/// The shape of a single elimination of `n` entrants: `ceil(log2(n))`
/// rounds of at least one match each, each starting where the one before it
/// ends, so that no two overlap, and together covering every match; with `n` a
/// power of two, `n - 1` matches.
pub proof fn lemma_single_elimination_shape(n: nat)
    requires
        1 <= n <= MAX_ENTRANTS,
    ensures
        round_sizes(TournamentKind::SingleElimination, false, bracket_size(n) as int).len() == ceil_log2(n),
        total(round_sizes(TournamentKind::SingleElimination, false, bracket_size(n) as int)) == match_count(
            TournamentKind::SingleElimination,
            false,
            bracket_size(n) as int,
        ),
        forall|k: int|
            0 <= k < round_sizes(TournamentKind::SingleElimination, false, bracket_size(n) as int).len()
                ==> #[trigger] round_sizes(TournamentKind::SingleElimination, false, bracket_size(n) as int)[k] >= 1,
        forall|k: int|
            0 <= k < round_sizes(TournamentKind::SingleElimination, false, bracket_size(n) as int).len() ==> #[trigger] round_start(
                round_sizes(TournamentKind::SingleElimination, false, bracket_size(n) as int),
                k + 1,
            ) == round_start(round_sizes(TournamentKind::SingleElimination, false, bracket_size(n) as int), k)
                + round_sizes(TournamentKind::SingleElimination, false, bracket_size(n) as int)[k],
        forall|k1: int, k2: int|
            0 <= k1 < k2 <= round_sizes(TournamentKind::SingleElimination, false, bracket_size(n) as int).len()
                ==> #[trigger] round_start(round_sizes(TournamentKind::SingleElimination, false, bracket_size(n) as int), k1)
                + round_sizes(TournamentKind::SingleElimination, false, bracket_size(n) as int)[k1]
                <= #[trigger] round_start(round_sizes(TournamentKind::SingleElimination, false, bracket_size(n) as int), k2),
        forall|e: nat| n == pow2(e) ==> match_count(TournamentKind::SingleElimination, false, bracket_size(n) as int) == n - 1,
{
    let c = ceil_log2(n);
    let p = bracket_size(n);
    let sizes = round_sizes(TournamentKind::SingleElimination, false, p as int);
    lemma_ceil_log2(n);
    lemma_pow2_positive(c);
    if c == 0 {
        assert(p == 1);
        assert(sizes =~= Seq::<int>::empty());
        assert(n == 1);
        assert forall|e: nat| n == pow2(e) implies match_count(TournamentKind::SingleElimination, false, p as int) == n - 1 by {
        }
    } else {
        let c1 = (c - 1) as nat;
        assert(p == 2 * pow2(c1));
        lemma_pow2_positive(c1);
        assert(p as int / 2 == pow2(c1) as int);
        lemma_halvings_of_pow2(c1);
        assert(sizes == halvings(pow2(c1) as int));
        assert forall|e: nat| n == pow2(e) implies match_count(TournamentKind::SingleElimination, false, p as int) == n - 1 by {
            if e < c {
                if e < c1 {
                    lemma_pow2_increasing(e, c1);
                }
            } else if e > c {
                lemma_pow2_increasing(c, e);
            }
        }
    }
    assert forall|k: int| 0 <= k < sizes.len() implies #[trigger] round_start(sizes, k + 1) == round_start(sizes, k) + sizes[k] by {
        lemma_round_start_step(sizes, k);
    }
    assert forall|k1: int, k2: int| 0 <= k1 < k2 <= sizes.len() implies #[trigger] round_start(sizes, k1) + sizes[k1]
        <= #[trigger] round_start(sizes, k2) by {
        lemma_round_start_step(sizes, k1);
        lemma_round_start_monotone(sizes, k1 + 1, k2);
    }
}

/// A losers' spot fed by a loser takes it from the winners' rounds from `w`
/// on; in the very first losers' round, from the winners' first round.
pub proof fn lemma_loser_feed_from(j: int, s: Side, a: int, size: int, w: int, pb: int, first: bool, f: int)
    requires
        w >= 0,
        losers_feed(j, s, a, size, w, pb, first) == Some((FeedKind::Loser, f)),
    ensures
        !first ==> f >= w,
        first ==> f >= 0,
    decreases size,
{
    if size > 0 && j >= a + 2 * size {
        lemma_loser_feed_from(j, s, a + 2 * size, size / 2, w + size, a + size, false, f);
    }
}

/// No two losers' spots take the loser of the same match.
pub proof fn lemma_loser_feed_injective(
    j1: int,
    s1: Side,
    j2: int,
    s2: Side,
    a: int,
    size: int,
    w: int,
    pb: int,
    first: bool,
    f: int,
)
    requires
        w >= 0,
        first ==> 2 * size <= w,
        losers_feed(j1, s1, a, size, w, pb, first) == Some((FeedKind::Loser, f)),
        losers_feed(j2, s2, a, size, w, pb, first) == Some((FeedKind::Loser, f)),
    ensures
        j1 == j2 && s1 == s2,
    decreases size,
{
    let deep1 = j1 >= a + 2 * size;
    let deep2 = j2 >= a + 2 * size;
    if deep1 && deep2 {
        lemma_loser_feed_injective(j1, s1, j2, s2, a + 2 * size, size / 2, w + size, a + size, false, f);
    } else if deep1 {
        lemma_loser_feed_from(j1, s1, a + 2 * size, size / 2, w + size, a + size, false, f);
    } else if deep2 {
        lemma_loser_feed_from(j2, s2, a + 2 * size, size / 2, w + size, a + size, false, f);
    }
}

/// Every match of the winners' rounds from `w` on but the last one drops its
/// loser into the right side of a losers' match in the pairs of rounds from
/// `a` on.
pub proof fn lemma_loser_feed_reaches(i: int, a: int, size: int, w: int, pb: int, first: bool, k: nat)
    requires
        size == pow2(k),
        w <= i < w + 2 * size - 1,
    ensures
        exists|j: int|
            a + size <= j < a + 4 * size - 2 && #[trigger] losers_feed(j, Side::Right, a, size, w, pb, first) == Some(
                (FeedKind::Loser, i),
            ),
    decreases k,
{
    lemma_pow2_positive(k);
    if i < w + size {
        let j = a + size + (i - w);
        assert(losers_feed(j, Side::Right, a, size, w, pb, first) == Some((FeedKind::Loser, i)));
    } else {
        let k1 = (k - 1) as nat;
        assert(size == 2 * pow2(k1));
        lemma_pow2_positive(k1);
        lemma_loser_feed_reaches(i, a + 2 * size, size / 2, w + size, a + size, false, k1);
        let j = choose|j: int|
            a + 2 * size + size / 2 <= j < a + 2 * size + 4 * (size / 2) - 2 && #[trigger] losers_feed(
                j,
                Side::Right,
                a + 2 * size,
                size / 2,
                w + size,
                a + size,
                false,
            ) == Some((FeedKind::Loser, i));
        assert(losers_feed(j, Side::Right, a, size, w, pb, first) == Some((FeedKind::Loser, i)));
    }
}

/// In a double elimination of two or more entrants, every match of the
/// winners' bracket but its final drops its loser into exactly one spot, and
/// that spot lies in the losers' bracket.
pub proof fn lemma_double_elimination_drops(n: nat, third_place: bool, i: int)
    requires
        2 <= n <= MAX_ENTRANTS,
        0 <= i < bracket_size(n) - 2,
    ensures
        exists|j: int, s: Side|
            bracket_size(n) - 1 <= j < 2 * bracket_size(n) - 3 && #[trigger] feeder(
                TournamentKind::DoubleElimination,
                third_place,
                bracket_size(n) as int,
                j,
                s,
            ) == Some((FeedKind::Loser, i)),
        forall|j1: int, s1: Side, j2: int, s2: Side|
            #[trigger] feeder(TournamentKind::DoubleElimination, third_place, bracket_size(n) as int, j1, s1) == Some(
                (FeedKind::Loser, i),
            ) && #[trigger] feeder(TournamentKind::DoubleElimination, third_place, bracket_size(n) as int, j2, s2)
                == Some((FeedKind::Loser, i)) ==> j1 == j2 && s1 == s2,
{
    let p = bracket_size(n) as int;
    let c = ceil_log2(n);
    lemma_ceil_log2(n);
    lemma_pow2_positive(c);
    // A winners' match below the final needs four spots or more.
    assert(c >= 2) by {
        if c < 2 {
            if c == 1 {
                assert(pow2(1) == 2);
            }
        }
    }
    let k = (c - 2) as nat;
    assert(pow2((c - 1) as nat) == 2 * pow2(k));
    assert(p == 4 * pow2(k));
    lemma_pow2_positive(k);
    assert(p / 4 == pow2(k));
    assert(p / 2 == 2 * pow2(k));
    let kind = TournamentKind::DoubleElimination;
    if i < p / 2 {
        let j = p - 1 + i / 2;
        let s = if i % 2 == 0 {
            Side::Left
        } else {
            Side::Right
        };
        assert(losers_feed(j, s, p - 1, p / 4, p / 2, 0, true) == Some((FeedKind::Loser, i)));
        assert(feeder(kind, third_place, p, j, s) == Some((FeedKind::Loser, i)));
    } else {
        lemma_loser_feed_reaches(i, p - 1, p / 4, p / 2, 0, true, k);
        let j = choose|j: int|
            p - 1 + p / 4 <= j < p - 1 + 4 * (p / 4) - 2 && #[trigger] losers_feed(j, Side::Right, p - 1, p / 4, p / 2, 0, true)
                == Some((FeedKind::Loser, i));
        assert(feeder(kind, third_place, p, j, Side::Right) == Some((FeedKind::Loser, i)));
    }
    assert forall|j1: int, s1: Side, j2: int, s2: Side|
        #[trigger] feeder(kind, third_place, p, j1, s1) == Some((FeedKind::Loser, i)) && #[trigger] feeder(
            kind,
            third_place,
            p,
            j2,
            s2,
        ) == Some((FeedKind::Loser, i)) implies j1 == j2 && s1 == s2 by {
        lemma_loser_feed_injective(j1, s1, j2, s2, p - 1, p / 4, p / 2, 0, true, i);
    }
}

/// In a single elimination, the winner of every match but the final moves on
/// into exactly one spot, that of match `(i + p) / 2` on the side of `i`'s
/// parity; the final's winner moves on nowhere.
pub proof fn lemma_single_elimination_parent(n: nat, third_place: bool, i: int)
    requires
        2 <= n <= MAX_ENTRANTS,
        0 <= i < bracket_size(n) - 1,
    ensures
        i < bracket_size(n) - 2 ==> feeder(
            TournamentKind::SingleElimination,
            third_place,
            bracket_size(n) as int,
            (i + bracket_size(n)) / 2,
            if i % 2 == 0 {
                Side::Left
            } else {
                Side::Right
            },
        ) == Some((FeedKind::Winner, i)),
        forall|j: int, s: Side|
            #[trigger] feeder(TournamentKind::SingleElimination, third_place, bracket_size(n) as int, j, s) == Some(
                (FeedKind::Winner, i),
            ) ==> i < bracket_size(n) - 2 && j == (i + bracket_size(n)) / 2 && s == (if i % 2 == 0 {
                Side::Left
            } else {
                Side::Right
            }),
{
    lemma_bracket_size_even(n);
    lemma_ceil_log2(n);
}

/// Two settled states of one tournament have their byes in the same spots:
/// byes come from seeding alone, and reporting results never makes nor
/// removes one.
pub proof fn lemma_byes_fixed(kind: TournamentKind, third_place: bool, n: nat, ms1: Seq<Match>, ms2: Seq<Match>, j: int, s: Side)
    requires
        valid_state(kind, third_place, n, ms1),
        valid_state(kind, third_place, n, ms2),
        0 <= j < ms1.len(),
    ensures
        (ms1[j].side(s) is Empty) == (ms2[j].side(s) is Empty),
    decreases j,
{
    let p = bracket_size(n) as int;
    lemma_bracket_size_even(n);
    assert(consistent_at(kind, third_place, n, ms1, j));
    assert(consistent_at(kind, third_place, n, ms2, j));
    if p >= 2 && j >= p / 2 {
        lemma_feeder_before(kind, third_place, p, j, s);
        match feeder(kind, third_place, p, j, s) {
            Some((_, f)) => {
                lemma_byes_fixed(kind, third_place, n, ms1, ms2, f, Side::Left);
                lemma_byes_fixed(kind, third_place, n, ms1, ms2, f, Side::Right);
            },
            None => {},
        }
    }
}

/// Reporting a result never makes nor removes a bye.
pub proof fn lemma_update_keeps_byes(
    kind: TournamentKind,
    third_place: bool,
    n: nat,
    ms: Seq<Match>,
    index: int,
    result: MatchResult,
    j: int,
    s: Side,
)
    requires
        valid_state(kind, third_place, n, ms),
        0 <= index < ms.len(),
        result.fits(ms[index]),
        0 <= j < ms.len(),
    ensures
        (updated(kind, third_place, n, ms, index, result)[j].side(s) is Empty) == (ms[j].side(s) is Empty),
{
    lemma_update_cascade(kind, third_place, n, ms, index, result);
    lemma_byes_fixed(kind, third_place, n, updated(kind, third_place, n, ms, index, result), ms, j, s);
}

} // verus!

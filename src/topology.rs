use vstd::prelude::*;

use crate::bracket::{EntrantSpot, Side};

verus! {

/// The largest number of entrants a tournament takes, so that every match
/// index and every sum of them fits in a `usize`.
pub const MAX_ENTRANTS: usize = 0x1000_0000;

/// The format of a tournament.
#[derive(Copy, Clone, Debug, PartialEq, Eq, Structural)]
pub enum TournamentKind {
    SingleElimination,
    DoubleElimination,
}

/// How a spot takes its entrant from an earlier match.
#[derive(Copy, Clone, Debug, PartialEq, Eq, Structural)]
pub enum FeedKind {
    /// The earlier match's winner moves on into the spot.
    Winner,
    /// The earlier match's loser drops into the spot.
    Loser,
    /// The grand final is played again: the spot repeats the same side of the
    /// first grand final, once the losers' finalist has won it.
    Reset,
}

/// Where a spot takes its entrant from: a kind of feed and a match index.
#[derive(Copy, Clone, Debug, PartialEq, Eq, Structural)]
pub struct Feed {
    pub kind: FeedKind,
    pub from: usize,
}

pub open spec fn side_num(s: Side) -> int {
    match s {
        Side::Left => 0,
        Side::Right => 1,
    }
}

pub open spec fn pow2(e: nat) -> nat
    decreases e,
{
    if e == 0 {
        1
    } else {
        2 * pow2((e - 1) as nat)
    }
}

/// The number of rounds that `n` entrants need in a single bracket:
/// the ceiling of the base-two logarithm of `n`.
pub open spec fn ceil_log2(n: nat) -> nat
    decreases n,
{
    if n <= 1 {
        0
    } else {
        1 + ceil_log2(((n + 1) / 2) as nat)
    }
}

/// The number of first-round spots: the least power of two not below `n`.
pub open spec fn bracket_size(n: nat) -> nat {
    pow2(ceil_log2(n))
}

pub proof fn lemma_pow2_positive(e: nat)
    ensures
        pow2(e) >= 1,
    decreases e,
{
    if e > 0 {
        lemma_pow2_positive((e - 1) as nat);
    }
}

/// `ceil_log2(n)` is the least exponent whose power of two reaches `n`.
pub proof fn lemma_ceil_log2(n: nat)
    ensures
        pow2(ceil_log2(n)) >= n,
        ceil_log2(n) == 0 || pow2((ceil_log2(n) - 1) as nat) < n,
    decreases n,
{
    if n > 1 {
        let h = ((n + 1) / 2) as nat;
        lemma_ceil_log2(h);
        lemma_pow2_positive(ceil_log2(h));
        if ceil_log2(h) > 0 {
            assert(pow2(ceil_log2(h)) == 2 * pow2((ceil_log2(h) - 1) as nat));
        }
    }
}

/// A bracket size of at least two is even, and so is its half when it is
/// four or more.
pub proof fn lemma_bracket_size_even(n: nat)
    ensures
        bracket_size(n) >= 1,
        bracket_size(n) >= 2 ==> bracket_size(n) % 2 == 0,
        bracket_size(n) >= 4 ==> (bracket_size(n) / 2) % 2 == 0,
        bracket_size(n) >= n,
        bracket_size(n) == 1 || bracket_size(n) < 2 * n,
{
    lemma_ceil_log2(n);
    let e = ceil_log2(n);
    lemma_pow2_positive(e);
    if e >= 1 {
        lemma_pow2_positive((e - 1) as nat);
        if e >= 2 {
            assert(pow2((e - 1) as nat) == 2 * pow2((e - 2) as nat));
        }
    }
}

pub fn compute_bracket_size(n: usize) -> (p: usize)
    requires
        n <= MAX_ENTRANTS,
    ensures
        p == bracket_size(n as nat),
        p <= 2 * MAX_ENTRANTS,
{
    let mut m: usize = n;
    let mut p: usize = 1;
    proof {
        lemma_ceil_log2(n as nat);
    }
    while m > 1
        invariant
            1 <= p <= 2 * MAX_ENTRANTS,
            m <= n <= MAX_ENTRANTS,
            n > 0 ==> m > 0,
            p * m < n + p,
            pow2(ceil_log2(m as nat)) * p == bracket_size(n as nat),
        decreases m,
    {
        let ghost old_p = p;
        let ghost old_m = m;
        assert(p < n) by (nonlinear_arith)
            requires
                p * m < n + p,
                m >= 2,
        ;
        m = m / 2 + m % 2;
        p = p * 2;
        proof {
            assert(m == (old_m + 1) / 2);
            assert(ceil_log2(old_m as nat) == 1 + ceil_log2(m as nat));
            assert(pow2(ceil_log2(old_m as nat)) == 2 * pow2(ceil_log2(m as nat)));
            assert(pow2(ceil_log2(m as nat)) * p == pow2(ceil_log2(m as nat)) * 2 * old_p)
                by (nonlinear_arith)
                requires p == old_p * 2;
            assert(p * m < n + p) by (nonlinear_arith)
                requires
                    p == old_p * 2,
                    m == (old_m + 1) / 2,
                    old_m > 1,
                    old_p * old_m < n + old_p,
                    old_p >= 1,
            ;
        }
    }
    proof {
        if m == 0 {
            assert(n == 0);
        }
        let q = pow2(ceil_log2(m as nat));
        assert(q == 1);
        assert(q * p == p) by (nonlinear_arith)
            requires q == 1;
    }
    p
}

/// How many matches a tournament of the given format holds, for a bracket of
/// `p` first-round spots.
pub open spec fn match_count(kind: TournamentKind, third_place: bool, p: int) -> int {
    if p < 2 {
        0
    } else {
        match kind {
            TournamentKind::SingleElimination => p - 1 + (if third_place && p >= 4 {
                1int
            } else {
                0int
            }),
            TournamentKind::DoubleElimination => 2 * p - 1,
        }
    }
}

pub fn compute_match_count(kind: TournamentKind, third_place: bool, p: usize) -> (r: usize)
    requires
        p <= 2 * MAX_ENTRANTS,
    ensures
        r == match_count(kind, third_place, p as int),
{
    if p < 2 {
        0
    } else {
        match kind {
            TournamentKind::SingleElimination => {
                if third_place && p >= 4 {
                    p
                } else {
                    p - 1
                }
            },
            TournamentKind::DoubleElimination => 2 * p - 1,
        }
    }
}

/// The entrant that seeding puts on side `s` of first-round match `j`, for `n`
/// entrants in a bracket of `p` spots. The `p - n` byes go to the top seeds:
/// the first `p - n` matches pair one entrant with a bye, the rest pair the
/// following entrants two by two, in order.
pub open spec fn seed(n: int, p: int, j: int, s: Side) -> EntrantSpot<usize> {
    let byes = p - n;
    if j < byes {
        match s {
            Side::Left => EntrantSpot::Entrant(j as usize),
            Side::Right => EntrantSpot::Empty,
        }
    } else {
        EntrantSpot::Entrant((2 * j - byes + side_num(s)) as usize)
    }
}

pub fn compute_seed(n: usize, p: usize, j: usize, s: Side) -> (r: EntrantSpot<usize>)
    requires
        n <= p <= 2 * MAX_ENTRANTS,
        2 * j < p,
    ensures
        r == seed(n as int, p as int, j as int, s),
{
    let byes = p - n;
    if j < byes {
        match s {
            Side::Left => EntrantSpot::Entrant(j),
            Side::Right => EntrantSpot::Empty,
        }
    } else {
        match s {
            Side::Left => EntrantSpot::Entrant(2 * j - byes),
            Side::Right => EntrantSpot::Entrant(2 * j - byes + 1),
        }
    }
}

/// The feed of a spot in the losers' bracket. Its rounds come in pairs: the
/// first of a pair matches the previous pair's winners two by two (in the very
/// first round, the losers of the winners' first round), the second matches
/// each of those winners (left) against a loser of the next winners' round
/// (right). `a` is where the current pair starts, `size` the number of
/// matches in each of its rounds, `w` where the winners' round whose losers
/// it takes starts, `pb` where the previous pair's second round starts.
pub open spec fn losers_feed(j: int, s: Side, a: int, size: int, w: int, pb: int, first: bool) -> Option<(FeedKind, int)>
    decreases size,
{
    if size <= 0 || j < a {
        None
    } else if j < a + size {
        let m = j - a;
        if first {
            Some((FeedKind::Loser, 2 * m + side_num(s)))
        } else {
            Some((FeedKind::Winner, pb + 2 * m + side_num(s)))
        }
    } else if j < a + 2 * size {
        let m = j - a - size;
        match s {
            Side::Left => Some((FeedKind::Winner, a + m)),
            Side::Right => Some((FeedKind::Loser, w + m)),
        }
    } else {
        losers_feed(j, s, a + 2 * size, size / 2, w + size, a + size, false)
    }
}

/// Where spot `s` of match `j` takes its entrant from, in a bracket of `p`
/// first-round spots; `None` for a first-round spot, which seeding fills.
///
/// The winners' bracket (the whole of a single elimination) lays its rounds
/// out one after the other, so that match `i` below the final feeds match
/// `(i + p) / 2`. A double elimination follows it with the losers' bracket and
/// the two grand-final matches; a single elimination with a third-place
/// match, if asked for, played by the losers of the two semi-finals.
pub open spec fn feeder(kind: TournamentKind, third_place: bool, p: int, j: int, s: Side) -> Option<(FeedKind, int)> {
    if p < 2 || j < p / 2 {
        None
    } else if j < p - 1 {
        Some((FeedKind::Winner, 2 * j - p + side_num(s)))
    } else {
        match kind {
            TournamentKind::SingleElimination => {
                if third_place && p >= 4 && j == p - 1 {
                    Some((FeedKind::Loser, p - 4 + side_num(s)))
                } else {
                    None
                }
            },
            TournamentKind::DoubleElimination => {
                if j == 2 * p - 3 {
                    match s {
                        Side::Left => Some((FeedKind::Winner, p - 2)),
                        Side::Right => if p == 2 {
                            Some((FeedKind::Loser, 0))
                        } else {
                            Some((FeedKind::Winner, 2 * p - 4))
                        },
                    }
                } else if j == 2 * p - 2 {
                    Some((FeedKind::Reset, 2 * p - 3))
                } else {
                    losers_feed(j, s, p - 1, p / 4, p / 2, 0, true)
                }
            },
        }
    }
}

pub proof fn lemma_losers_feed_before(j: int, s: Side, a: int, size: int, w: int, pb: int, first: bool)
    requires
        0 <= w <= a,
        0 <= pb,
        first ==> 2 * size <= a,
        !first ==> pb + 2 * size <= a,
    ensures
        losers_feed(j, s, a, size, w, pb, first) matches Some((_, f)) ==> 0 <= f < j,
    decreases size,
{
    if size > 0 && j >= a + 2 * size {
        lemma_losers_feed_before(j, s, a + 2 * size, size / 2, w + size, a + size, false);
    }
}

/// Every spot takes its entrant from an earlier match.
pub proof fn lemma_feeder_before(kind: TournamentKind, third_place: bool, p: int, j: int, s: Side)
    requires
        p >= 2,
        p % 2 == 0,
    ensures
        feeder(kind, third_place, p, j, s) matches Some((_, f)) ==> 0 <= f < j,
{
    if kind == TournamentKind::DoubleElimination && j >= p - 1 && j != 2 * p - 3 && j != 2 * p - 2 {
        lemma_losers_feed_before(j, s, p - 1, p / 4, p / 2, 0, true);
    }
}

pub fn side_index(s: Side) -> (r: usize)
    ensures
        r == side_num(s),
{
    match s {
        Side::Left => 0,
        Side::Right => 1,
    }
}

pub fn compute_feeder(kind: TournamentKind, third_place: bool, p: usize, j: usize, s: Side) -> (r: Option<Feed>)
    requires
        p <= 2 * MAX_ENTRANTS,
        p % 2 == 0,
        j < 2 * p,
    ensures
        r matches Some(f) ==> feeder(kind, third_place, p as int, j as int, s) == Some((f.kind, f.from as int)),
        r is None ==> feeder(kind, third_place, p as int, j as int, s) is None,
{
    let t = side_index(s);
    if p < 2 || j < p / 2 {
        None
    } else if j < p - 1 {
        Some(Feed { kind: FeedKind::Winner, from: 2 * j - p + t })
    } else {
        match kind {
            TournamentKind::SingleElimination => {
                if third_place && p >= 4 && j == p - 1 {
                    Some(Feed { kind: FeedKind::Loser, from: p - 4 + t })
                } else {
                    None
                }
            },
            TournamentKind::DoubleElimination => {
                if j == 2 * p - 3 {
                    match s {
                        Side::Left => Some(Feed { kind: FeedKind::Winner, from: p - 2 }),
                        Side::Right => if p == 2 {
                            Some(Feed { kind: FeedKind::Loser, from: 0 })
                        } else {
                            Some(Feed { kind: FeedKind::Winner, from: 2 * p - 4 })
                        },
                    }
                } else if j == 2 * p - 2 {
                    Some(Feed { kind: FeedKind::Reset, from: 2 * p - 3 })
                } else {
                    compute_losers_feed(p, j, s)
                }
            },
        }
    }
}

fn compute_losers_feed(p: usize, j: usize, s: Side) -> (r: Option<Feed>)
    requires
        2 <= p <= 2 * MAX_ENTRANTS,
        j < 2 * p,
    ensures
        r matches Some(f) ==> losers_feed(j as int, s, p - 1, (p / 4) as int, (p / 2) as int, 0, true) == Some((f.kind, f.from as int)),
        r is None ==> losers_feed(j as int, s, p - 1, (p / 4) as int, (p / 2) as int, 0, true) is None,
{
    let t = side_index(s);
    let mut a: usize = p - 1;
    let mut size: usize = p / 4;
    let mut w: usize = p / 2;
    let mut pb: usize = 0;
    let mut first: bool = true;
    while size > 0 && j >= a
        invariant
            losers_feed(j as int, s, a as int, size as int, w as int, pb as int, first)
                == losers_feed(j as int, s, p - 1, (p / 4) as int, (p / 2) as int, 0, true),
            w <= a <= 2 * p,
            pb <= a,
            size <= p,
            first ==> 2 * size <= a && a == p - 1,
            t == side_num(s),
            !first ==> pb + 2 * size <= a,
            j < 2 * p,
            p <= 2 * MAX_ENTRANTS,
        decreases size,
    {
        if j - a < size {
            let m = j - a;
            if first {
                return Some(Feed { kind: FeedKind::Loser, from: 2 * m + t });
            } else {
                return Some(Feed { kind: FeedKind::Winner, from: pb + 2 * m + t });
            }
        } else if j - a < 2 * size {
            let m = j - a - size;
            match s {
                Side::Left => {
                    return Some(Feed { kind: FeedKind::Winner, from: a + m });
                },
                Side::Right => {
                    return Some(Feed { kind: FeedKind::Loser, from: w + m });
                },
            }
        }
        pb = a + size;
        w = w + size;
        a = a + 2 * size;
        size = size / 2;
        first = false;
    }
    None
}

} // verus!

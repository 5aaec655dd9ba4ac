use vstd::prelude::*;

use crate::bracket::Side;
use crate::topology::{
    bracket_size, compute_bracket_size, compute_feeder, feeder, match_count, FeedKind,
    TournamentKind, MAX_ENTRANTS,
};

verus! {

/// A spot that takes its entrant from a given match.
#[derive(Copy, Clone, Debug, PartialEq, Eq, Structural)]
pub struct NextMatch {
    pub index: usize,
    pub side: Side,
    pub kind: FeedKind,
}

/// A half-open range of match indices.
#[derive(Copy, Clone, Debug, PartialEq, Eq, Structural)]
pub struct IndexRange {
    pub start: usize,
    pub end: usize,
}

/// Where a match stands for display: its round and its place in the round.
#[derive(Copy, Clone, Debug, PartialEq, Eq, Structural)]
pub struct Position {
    pub round: usize,
    pub index: usize,
}

/// The spots of match `j` fed by match `i`, left before right.
pub open spec fn fed_by(kind: TournamentKind, third_place: bool, p: int, i: int, j: int) -> Seq<NextMatch> {
    let l = match feeder(kind, third_place, p, j, Side::Left) {
        Some((k, f)) => if f == i {
            seq![NextMatch { index: j as usize, side: Side::Left, kind: k }]
        } else {
            Seq::empty()
        },
        None => Seq::empty(),
    };
    let r = match feeder(kind, third_place, p, j, Side::Right) {
        Some((k, f)) => if f == i {
            seq![NextMatch { index: j as usize, side: Side::Right, kind: k }]
        } else {
            Seq::empty()
        },
        None => Seq::empty(),
    };
    l + r
}

/// The spots of the matches from `j` up to `len` that match `i` feeds, in
/// index order.
pub open spec fn next_from(kind: TournamentKind, third_place: bool, p: int, i: int, j: int, len: int) -> Seq<NextMatch>
    decreases len - j,
{
    if j >= len {
        Seq::empty()
    } else {
        fed_by(kind, third_place, p, i, j) + next_from(kind, third_place, p, i, j + 1, len)
    }
}

/// Each round's size: the number of its matches, from the first round on.
/// A single elimination halves from round to round, and plays its third-place
/// match as a round of its own after the final. A double elimination has the
/// winners' rounds, then the losers' rounds, two of each size, then the two
/// grand-final matches.
pub open spec fn halvings(s: int) -> Seq<int>
    decreases s,
{
    if s <= 0 {
        Seq::empty()
    } else {
        seq![s] + halvings(s / 2)
    }
}

pub open spec fn pairs(s: int) -> Seq<int>
    decreases s,
{
    if s <= 0 {
        Seq::empty()
    } else {
        seq![s, s] + pairs(s / 2)
    }
}

pub open spec fn round_sizes(kind: TournamentKind, third_place: bool, p: int) -> Seq<int> {
    if p < 2 {
        Seq::empty()
    } else {
        match kind {
            TournamentKind::SingleElimination => if third_place && p >= 4 {
                halvings(p / 2) + seq![1int]
            } else {
                halvings(p / 2)
            },
            TournamentKind::DoubleElimination => halvings(p / 2) + pairs(p / 4) + seq![1int, 1int],
        }
    }
}

/// The brackets' sizes: the whole of a single elimination (with its
/// third-place match); the winners' bracket, the losers' bracket and the grand
/// final of a double elimination.
pub open spec fn bracket_sizes(kind: TournamentKind, third_place: bool, p: int) -> Seq<int> {
    if p < 2 {
        Seq::empty()
    } else {
        match kind {
            TournamentKind::SingleElimination => seq![match_count(kind, third_place, p)],
            TournamentKind::DoubleElimination => seq![p - 1, p - 2, 2],
        }
    }
}

/// The range of the part (a round or a bracket) that starts at `x`, walking
/// parts of the given sizes laid out from `acc` on; an empty range at `x` if
/// no part starts there.
pub open spec fn part_at(sizes: Seq<int>, acc: int, x: int) -> (int, int)
    decreases sizes.len(),
{
    if sizes.len() == 0 {
        (x, x)
    } else if acc == x {
        (acc, acc + sizes[0])
    } else {
        part_at(sizes.drop_first(), acc + sizes[0], x)
    }
}

/// The part (numbered from `k`) that holds index `x`, and `x`'s place in it.
pub open spec fn part_holding(sizes: Seq<int>, acc: int, k: int, x: int) -> Option<(int, int)>
    decreases sizes.len(),
{
    if sizes.len() == 0 {
        None
    } else if x < acc + sizes[0] {
        Some((k, x - acc))
    } else {
        part_holding(sizes.drop_first(), acc + sizes[0], k + 1, x)
    }
}

/// The sum of sizes.
pub open spec fn total(sizes: Seq<int>) -> int
    decreases sizes.len(),
{
    if sizes.len() == 0 {
        0
    } else {
        sizes[0] + total(sizes.drop_first())
    }
}

/// The spots that the result of match `i` feeds, in index order; none for an
/// index past the last match.
pub fn compute_next_matches(kind: TournamentKind, third_place: bool, n: usize, len: usize, i: usize) -> (r: Vec<NextMatch>)
    requires
        n <= MAX_ENTRANTS,
        len == match_count(kind, third_place, bracket_size(n as nat) as int),
    ensures
        r@ == next_from(kind, third_place, bracket_size(n as nat) as int, i as int, i as int + 1, len as int),
{
    let p = compute_bracket_size(n);
    proof {
        crate::topology::lemma_bracket_size_even(n as nat);
    }
    let mut out: Vec<NextMatch> = Vec::new();
    if i >= len {
        return out;
    }
    let mut j: usize = len;
    while j > i + 1
        invariant
            i < len,
            i + 1 <= j <= len,
            len == match_count(kind, third_place, p as int),
            p == bracket_size(n as nat),
            p <= 2 * MAX_ENTRANTS,
            p < 2 || p % 2 == 0,
            out@ == next_from(kind, third_place, p as int, i as int, j as int, len as int),
        decreases j,
    {
        j = j - 1;
        let mut here: Vec<NextMatch> = Vec::new();
        if let Some(f) = compute_feeder(kind, third_place, p, j, Side::Left) {
            if f.from == i {
                here.push(NextMatch { index: j, side: Side::Left, kind: f.kind });
            }
        }
        if let Some(f) = compute_feeder(kind, third_place, p, j, Side::Right) {
            if f.from == i {
                here.push(NextMatch { index: j, side: Side::Right, kind: f.kind });
            }
        }
        assert(here@ =~= fed_by(kind, third_place, p as int, i as int, j as int));
        here.append(&mut out);
        out = here;
    }
    out
}

/// The sizes of the rounds, or of the brackets.
pub fn compute_sizes(kind: TournamentKind, third_place: bool, p: usize, brackets: bool) -> (r: Vec<usize>)
    requires
        p <= 2 * MAX_ENTRANTS,
    ensures
        brackets ==> r@.map_values(|x: usize| x as int) == bracket_sizes(kind, third_place, p as int),
        !brackets ==> r@.map_values(|x: usize| x as int) == round_sizes(kind, third_place, p as int),
{
    let mut out: Vec<usize> = Vec::new();
    if p < 2 {
        assert(out@.map_values(|x: usize| x as int) =~= Seq::<int>::empty());
        return out;
    }
    if brackets {
        match kind {
            TournamentKind::SingleElimination => {
                out.push(crate::topology::compute_match_count(kind, third_place, p));
            },
            TournamentKind::DoubleElimination => {
                out.push(p - 1);
                out.push(p - 2);
                out.push(2);
            },
        }
        assert(out@.map_values(|x: usize| x as int) =~= bracket_sizes(kind, third_place, p as int));
        return out;
    }
    push_halvings(&mut out, p / 2);
    match kind {
        TournamentKind::SingleElimination => {
            if third_place && p >= 4 {
                out.push(1);
            }
        },
        TournamentKind::DoubleElimination => {
            push_pairs(&mut out, p / 4);
            out.push(1);
            out.push(1);
        },
    }
    assert(out@.map_values(|x: usize| x as int) =~= round_sizes(kind, third_place, p as int));
    out
}

pub open spec fn as_ints(v: Seq<usize>) -> Seq<int> {
    v.map_values(|x: usize| x as int)
}

pub proof fn lemma_part_at_past(sizes: Seq<int>, acc: int, x: int)
    requires
        acc > x,
        forall|k: int| 0 <= k < sizes.len() ==> sizes[k] >= 0,
    ensures
        part_at(sizes, acc, x) == (x, x),
    decreases sizes.len(),
{
    if sizes.len() > 0 {
        lemma_part_at_past(sizes.drop_first(), acc + sizes[0], x);
    }
}

pub proof fn lemma_total_append(a: Seq<int>, b: Seq<int>)
    ensures
        total(a + b) == total(a) + total(b),
    decreases a.len(),
{
    if a.len() > 0 {
        assert((a + b).drop_first() =~= a.drop_first() + b);
        lemma_total_append(a.drop_first(), b);
    } else {
        assert(a + b =~= b);
    }
}

pub proof fn lemma_total_nonneg(a: Seq<int>)
    requires
        forall|k: int| 0 <= k < a.len() ==> a[k] >= 0,
    ensures
        total(a) >= 0,
    decreases a.len(),
{
    if a.len() > 0 {
        lemma_total_nonneg(a.drop_first());
    }
}

pub proof fn lemma_halvings_total(s: int)
    requires
        s >= 0,
    ensures
        total(halvings(s)) <= 2 * s,
    decreases s,
{
    if s > 0 {
        lemma_halvings_total(s / 2);
        assert(halvings(s).drop_first() =~= halvings(s / 2));
    }
}

pub proof fn lemma_pairs_total(s: int)
    requires
        s >= 0,
    ensures
        total(pairs(s)) <= 4 * s,
    decreases s,
{
    if s > 0 {
        lemma_pairs_total(s / 2);
        let q = pairs(s);
        assert(q.drop_first().drop_first() =~= pairs(s / 2));
        assert(total(q.drop_first()) == q.drop_first()[0] + total(q.drop_first().drop_first()));
    }
}

/// Rounds and brackets never add up to more than four matches a spot.
pub proof fn lemma_sizes_total(kind: TournamentKind, third_place: bool, p: int)
    requires
        p >= 0,
    ensures
        total(round_sizes(kind, third_place, p)) <= 4 * p,
        total(bracket_sizes(kind, third_place, p)) <= 4 * p,
{
    lemma_halvings_total(p / 2);
    lemma_pairs_total(p / 4);
    reveal_with_fuel(total, 4);
    if p >= 2 {
        lemma_total_append(halvings(p / 2), seq![1int]);
        lemma_total_append(halvings(p / 2), pairs(p / 4));
        lemma_total_append(halvings(p / 2) + pairs(p / 4), seq![1int, 1int]);
        assert(seq![1int, 1int].drop_first() =~= seq![1int]);
        assert(seq![1int].drop_first() =~= Seq::<int>::empty());
        assert(seq![p - 2, 2].drop_first() =~= seq![2]);
        assert(seq![p - 1, p - 2, 2].drop_first() =~= seq![p - 2, 2]);
        assert(seq![2].drop_first() =~= Seq::<int>::empty());
        assert(seq![match_count(kind, third_place, p)].drop_first() =~= Seq::<int>::empty());
    }
}

/// The range of the part that starts at `x`; see `part_at`.
pub fn find_part_at(sizes: &Vec<usize>, x: usize) -> (r: IndexRange)
    requires
        total(as_ints(sizes@)) <= 8 * MAX_ENTRANTS,
    ensures
        (r.start as int, r.end as int) == part_at(as_ints(sizes@), 0, x as int),
{
    let mut k: usize = 0;
    let mut acc: usize = 0;
    assert(as_ints(sizes@).skip(0) =~= as_ints(sizes@));
    while k < sizes.len()
        invariant
            k <= sizes.len(),
            acc <= x,
            acc + total(as_ints(sizes@).skip(k as int)) == total(as_ints(sizes@)),
            total(as_ints(sizes@)) <= 8 * MAX_ENTRANTS,
            part_at(as_ints(sizes@).skip(k as int), acc as int, x as int) == part_at(as_ints(sizes@), 0, x as int),
        decreases sizes.len() - k,
    {
        let ghost rest = as_ints(sizes@).skip(k as int);
        assert(rest.drop_first() =~= as_ints(sizes@).skip(k + 1));
        let size = sizes[k];
        proof {
            lemma_total_nonneg(rest.drop_first());
        }
        if acc == x {
            return IndexRange { start: acc, end: acc + size };
        }
        if x - acc < size {
            proof {
                lemma_part_at_past(rest.drop_first(), acc + size, x as int);
            }
            return IndexRange { start: x, end: x };
        }
        acc = acc + size;
        k = k + 1;
    }
    IndexRange { start: x, end: x }
}

/// The part that holds index `x`, and its place there; see `part_holding`.
pub fn find_part_holding(sizes: &Vec<usize>, x: usize) -> (r: Option<(usize, usize)>)
    ensures
        r matches Some((k, i)) ==> part_holding(as_ints(sizes@), 0, 0, x as int) == Some((k as int, i as int)),
        r is None ==> part_holding(as_ints(sizes@), 0, 0, x as int) is None,
{
    let mut k: usize = 0;
    let mut acc: usize = 0;
    assert(as_ints(sizes@).skip(0) =~= as_ints(sizes@));
    while k < sizes.len()
        invariant
            k <= sizes.len(),
            acc <= x,
            part_holding(as_ints(sizes@).skip(k as int), acc as int, k as int, x as int) == part_holding(as_ints(sizes@), 0, 0, x as int),
        decreases sizes.len() - k,
    {
        let ghost rest = as_ints(sizes@).skip(k as int);
        assert(rest.drop_first() =~= as_ints(sizes@).skip(k + 1));
        let size = sizes[k];
        if x - acc < size {
            return Some((k, x - acc));
        }
        acc = acc + size;
        k = k + 1;
    }
    None
}

fn push_halvings(out: &mut Vec<usize>, s: usize)
    ensures
        final(out)@.map_values(|x: usize| x as int) == old(out)@.map_values(|x: usize| x as int) + halvings(s as int),
    decreases s,
{
    if s == 0 {
        assert(final(out)@.map_values(|x: usize| x as int) =~= old(out)@.map_values(|x: usize| x as int) + halvings(s as int));
        return;
    }
    out.push(s);
    push_halvings(out, s / 2);
    assert(final(out)@.map_values(|x: usize| x as int) =~= old(out)@.map_values(|x: usize| x as int) + halvings(s as int));
}

fn push_pairs(out: &mut Vec<usize>, s: usize)
    ensures
        final(out)@.map_values(|x: usize| x as int) == old(out)@.map_values(|x: usize| x as int) + pairs(s as int),
    decreases s,
{
    if s == 0 {
        assert(final(out)@.map_values(|x: usize| x as int) =~= old(out)@.map_values(|x: usize| x as int) + pairs(s as int));
        return;
    }
    out.push(s);
    out.push(s);
    push_pairs(out, s / 2);
    assert(final(out)@.map_values(|x: usize| x as int) =~= old(out)@.map_values(|x: usize| x as int) + pairs(s as int));
}

} // verus!

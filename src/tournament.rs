use vstd::prelude::*;

use crate::bracket::{same_view, Match, MatchResult, Side};
use crate::entrants::Entrants;
use crate::rounds::{
    bracket_sizes, compute_next_matches, compute_sizes, find_part_at, find_part_holding,
    lemma_sizes_total, next_from, part_at, part_holding, round_sizes, IndexRange, NextMatch,
    Position,
};
use crate::settle::{
    compute_expected, consistent_at, is_settled, lemma_settle_from, settle, settle_from,
    valid_state,
};
use crate::topology::{
    bracket_size, compute_bracket_size, compute_match_count, match_count, TournamentKind,
    MAX_ENTRANTS,
};

verus! {

/// Options of a format.
#[derive(Copy, Clone, Debug, PartialEq, Eq, Structural)]
pub struct TournamentOptions {
    /// A single elimination of four or more entrants also plays a match for
    /// third place, between the losers of the two semi-finals.
    pub third_place_match: bool,
}

impl TournamentOptions {
    pub fn new() -> (r: TournamentOptions)
        ensures
            r.third_place_match == false,
    {
        TournamentOptions { third_place_match: false }
    }
}

/// Why an operation on a tournament failed.
#[derive(Copy, Clone, Debug, PartialEq, Eq, Structural)]
pub enum Error {
    /// No match has the given index.
    IndexOutOfBounds,
    /// A winner was named for a match that does not hold two entrants.
    MatchNotReady,
    /// The matches do not have the shape or the contents that the entrants and
    /// the format give.
    InvalidMatches,
    /// More entrants than a tournament takes.
    TooManyEntrants,
}

/// What a tournament is: its format, its entrants in seeding order and its
/// matches.
pub ghost struct TournamentView<T> {
    pub kind: TournamentKind,
    pub options: TournamentOptions,
    pub entrants: Seq<T>,
    pub matches: Seq<Match>,
}

/// The matches that a tournament of the format starts with for `n` entrants:
/// every match settled from nothing.
pub open spec fn built(kind: TournamentKind, third_place: bool, n: nat) -> Seq<Match> {
    settle_from(
        kind,
        third_place,
        n,
        Seq::new(match_count(kind, third_place, bracket_size(n) as int) as nat, |i: int| Match::undecided()),
        0,
    )
}

/// The matches after `result` is reported for match `index`: the result is
/// written into it, and every match is brought up to date with it.
pub open spec fn updated(kind: TournamentKind, third_place: bool, n: nat, ms: Seq<Match>, index: int, result: MatchResult) -> Seq<Match> {
    settle_from(kind, third_place, n, ms.update(index, result.applied(ms[index])), 0)
}

/// Whether indices `x` and `y` fall in one bracket.
pub open spec fn same_bracket(sizes: Seq<int>, x: int, y: int) -> bool {
    match (part_holding(sizes, 0, 0, x), part_holding(sizes, 0, 0, y)) {
        (Some((a, _)), Some((b, _))) => a == b,
        _ => false,
    }
}

/// A tournament: its entrants and the matches between them.
pub struct Tournament<T> {
    kind: TournamentKind,
    options: TournamentOptions,
    entrants: Entrants<T>,
    matches: Vec<Match>,
}

impl<T> View for Tournament<T> {
    type V = TournamentView<T>;

    closed spec fn view(&self) -> TournamentView<T> {
        TournamentView {
            kind: self.kind,
            options: self.options,
            entrants: self.entrants.view(),
            matches: self.matches@,
        }
    }
}

/// The matches of a tournament with `n` entrants are built and settled.
pub proof fn lemma_built_valid(kind: TournamentKind, third_place: bool, n: nat)
    requires
        n <= MAX_ENTRANTS,
    ensures
        valid_state(kind, third_place, n, built(kind, third_place, n)),
{
    let ms = Seq::new(match_count(kind, third_place, bracket_size(n) as int) as nat, |i: int| Match::undecided());
    lemma_settle_from(kind, third_place, n, ms, 0);
}

fn build(kind: TournamentKind, third_place: bool, n: usize) -> (r: Vec<Match>)
    requires
        n <= MAX_ENTRANTS,
    ensures
        r@ == built(kind, third_place, n as nat),
{
    let p = compute_bracket_size(n);
    let count = compute_match_count(kind, third_place, p);
    let mut ms: Vec<Match> = Vec::new();
    let mut i: usize = 0;
    while i < count
        invariant
            i <= count,
            ms@ == Seq::new(i as nat, |k: int| Match::undecided()),
        decreases count - i,
    {
        ms.push(Match::new_undecided());
        i = i + 1;
        assert(ms@ =~= Seq::new(i as nat, |k: int| Match::undecided()));
    }
    settle(kind, third_place, n, p, &mut ms);
    ms
}

/// Whether the matches are settled for `n` entrants.
fn check_settled(kind: TournamentKind, third_place: bool, n: usize, ms: &Vec<Match>) -> (r: bool)
    requires
        n <= MAX_ENTRANTS,
        ms.len() == match_count(kind, third_place, bracket_size(n as nat) as int),
    ensures
        r == is_settled(kind, third_place, n as nat, ms@),
{
    let p = compute_bracket_size(n);
    let mut j: usize = 0;
    while j < ms.len()
        invariant
            n <= MAX_ENTRANTS,
            p == bracket_size(n as nat),
            ms.len() == match_count(kind, third_place, p as int),
            j <= ms.len(),
            forall|i: int| 0 <= i < j ==> #[trigger] consistent_at(kind, third_place, n as nat, ms@, i),
        decreases ms.len() - j,
    {
        let l = compute_expected(kind, third_place, n, p, ms, j, Side::Left);
        let r = compute_expected(kind, third_place, n, p, ms, j, Side::Right);
        if !same_view(ms[j].left, l) || !same_view(ms[j].right, r) {
            assert(!consistent_at(kind, third_place, n as nat, ms@, j as int));
            return false;
        }
        j = j + 1;
    }
    true
}

impl<T> Tournament<T> {
    /// The tournament holds its invariant: a number of entrants that it takes,
    /// and matches that are exactly what its entrants, format and results give.
    pub open spec fn wf(&self) -> bool {
        valid_state(self@.kind, self@.options.third_place_match, self@.entrants.len(), self@.matches)
    }

    /// A tournament of the given format with no entrants.
    pub fn new(kind: TournamentKind, options: TournamentOptions) -> (r: Tournament<T>)
        ensures
            r.wf(),
            r@.kind == kind,
            r@.options == options,
            r@.entrants == Seq::<T>::empty(),
            r@.matches == Seq::<Match>::empty(),
    {
        let r = Tournament { kind, options, entrants: Entrants::new(), matches: Vec::new() };
        proof {
            assert(bracket_size(0) == 1);
        }
        r
    }

    /// The options that a format starts with.
    pub fn options(kind: TournamentKind) -> (r: TournamentOptions)
        ensures
            r.third_place_match == false,
    {
        match kind {
            TournamentKind::SingleElimination => TournamentOptions::new(),
            TournamentKind::DoubleElimination => TournamentOptions::new(),
        }
    }

    /// Rebuilds a tournament from its entrants and matches, as they were kept.
    /// Fails unless the matches are exactly those that the entrants, the format
    /// and the results in them give.
    pub fn resume(kind: TournamentKind, entrants: Entrants<T>, matches: Vec<Match>, options: TournamentOptions) -> (r: Result<Tournament<T>, Error>)
        ensures
            entrants.view().len() > MAX_ENTRANTS ==> r == Err::<Tournament<T>, Error>(Error::TooManyEntrants),
            entrants.view().len() <= MAX_ENTRANTS && !valid_state(kind, options.third_place_match, entrants.view().len(), matches@)
                ==> r == Err::<Tournament<T>, Error>(Error::InvalidMatches),
            valid_state(kind, options.third_place_match, entrants.view().len(), matches@) ==> (r matches Ok(t) && t.wf()
                && t@ == (TournamentView { kind, options, entrants: entrants.view(), matches: matches@ })),
    {
        let n = entrants.len();
        if n > MAX_ENTRANTS {
            return Err(Error::TooManyEntrants);
        }
        let p = compute_bracket_size(n);
        let count = compute_match_count(kind, options.third_place_match, p);
        if matches.len() != count {
            return Err(Error::InvalidMatches);
        }
        if !check_settled(kind, options.third_place_match, n, &matches) {
            return Err(Error::InvalidMatches);
        }
        Ok(Tournament { kind, options, entrants, matches })
    }

    /// Adds an entrant after the others and builds the matches anew.
    pub fn push(&mut self, entrant: T)
        requires
            old(self).wf(),
            old(self)@.entrants.len() < MAX_ENTRANTS,
        ensures
            final(self).wf(),
            final(self)@.kind == old(self)@.kind,
            final(self)@.options == old(self)@.options,
            final(self)@.entrants == old(self)@.entrants.push(entrant),
            final(self)@.matches == built(old(self)@.kind, old(self)@.options.third_place_match, final(self)@.entrants.len()),
    {
        self.entrants.push(entrant);
        let n = self.entrants.len();
        self.matches = build(self.kind, self.options.third_place_match, n);
        proof {
            lemma_built_valid(self.kind, self.options.third_place_match, n as nat);
        }
    }

    /// Adds entrants after the others, in order, and builds the matches anew.
    pub fn extend(&mut self, entrants: Vec<T>)
        requires
            old(self).wf(),
            old(self)@.entrants.len() + entrants@.len() <= MAX_ENTRANTS,
        ensures
            final(self).wf(),
            final(self)@.kind == old(self)@.kind,
            final(self)@.options == old(self)@.options,
            final(self)@.entrants == old(self)@.entrants + entrants@,
            final(self)@.matches == built(old(self)@.kind, old(self)@.options.third_place_match, final(self)@.entrants.len()),
    {
        self.entrants.extend(entrants);
        let n = self.entrants.len();
        self.matches = build(self.kind, self.options.third_place_match, n);
        proof {
            lemma_built_valid(self.kind, self.options.third_place_match, n as nat);
        }
    }

    pub fn kind(&self) -> (r: TournamentKind)
        ensures
            r == self@.kind,
    {
        self.kind
    }

    pub fn entrants(&self) -> (r: &Entrants<T>)
        ensures
            r.view() == self@.entrants,
    {
        &self.entrants
    }

    pub fn matches(&self) -> (r: &Vec<Match>)
        ensures
            r@ == self@.matches,
    {
        &self.matches
    }

    pub fn into_entrants(self) -> (r: Entrants<T>)
        ensures
            r.view() == self@.entrants,
    {
        self.entrants
    }

    pub fn into_matches(self) -> (r: Vec<Match>)
        ensures
            r@ == self@.matches,
    {
        self.matches
    }

    /// Reports a result for match `index`: writes it into the data of the
    /// match's entrants, then brings every match up to date with it, so that a
    /// changed winner or loser moves on and everything that depended on the
    /// old one is played afresh.
    pub fn update_match(&mut self, index: usize, result: MatchResult) -> (r: Result<(), Error>)
        requires
            old(self).wf(),
        ensures
            final(self).wf(),
            final(self)@.kind == old(self)@.kind,
            final(self)@.options == old(self)@.options,
            final(self)@.entrants == old(self)@.entrants,
            index >= old(self)@.matches.len() ==> r == Err::<(), Error>(Error::IndexOutOfBounds)
                && final(self)@ == old(self)@,
            index < old(self)@.matches.len() && !result.fits(old(self)@.matches[index as int])
                ==> r == Err::<(), Error>(Error::MatchNotReady) && final(self)@ == old(self)@,
            index < old(self)@.matches.len() && result.fits(old(self)@.matches[index as int]) ==> r is Ok
                && final(self)@.matches == updated(
                    old(self)@.kind,
                    old(self)@.options.third_place_match,
                    old(self)@.entrants.len(),
                    old(self)@.matches,
                    index as int,
                    result,
                ),
    {
        if index >= self.matches.len() {
            return Err(Error::IndexOutOfBounds);
        }
        if !result.fits_match(&self.matches[index]) {
            return Err(Error::MatchNotReady);
        }
        let m = result.apply(&self.matches[index]);
        self.matches.set(index, m);
        let n = self.entrants.len();
        let p = compute_bracket_size(n);
        settle(self.kind, self.options.third_place_match, n, p, &mut self.matches);
        proof {
            let before = old(self)@.matches.update(index as int, result.applied(old(self)@.matches[index as int]));
            lemma_settle_from(self.kind, self.options.third_place_match, n as nat, before, 0);
        }
        Ok(())
    }

    /// Reports for match `index` the result that `f` draws up from the match
    /// as it stands: the hook through which callers attach their own data (the
    /// scores) to a match. Then works as `update_match` does.
    pub fn update_match_with<F: FnOnce(Match) -> MatchResult>(&mut self, index: usize, f: F) -> (r: Result<(), Error>)
        requires
            old(self).wf(),
            index < old(self)@.matches.len() ==> f.requires((old(self)@.matches[index as int],)),
        ensures
            final(self).wf(),
            final(self)@.kind == old(self)@.kind,
            final(self)@.options == old(self)@.options,
            final(self)@.entrants == old(self)@.entrants,
            index >= old(self)@.matches.len() ==> r == Err::<(), Error>(Error::IndexOutOfBounds)
                && final(self)@ == old(self)@,
            index < old(self)@.matches.len() ==> exists|res: MatchResult|
                #[trigger] f.ensures((old(self)@.matches[index as int],), res) && if res.fits(
                    old(self)@.matches[index as int],
                ) {
                    r is Ok && final(self)@.matches == updated(
                        old(self)@.kind,
                        old(self)@.options.third_place_match,
                        old(self)@.entrants.len(),
                        old(self)@.matches,
                        index as int,
                        res,
                    )
                } else {
                    r == Err::<(), Error>(Error::MatchNotReady) && final(self)@ == old(self)@
                },
    {
        if index >= self.matches.len() {
            return Err(Error::IndexOutOfBounds);
        }
        let m = self.matches[index];
        let res = f(m);
        let r = self.update_match(index, res);
        assert(f.ensures((old(self)@.matches[index as int],), res));
        r
    }

    /// The bracket size of the tournament.
    pub open spec fn spots(&self) -> int {
        bracket_size(self@.entrants.len()) as int
    }

    /// The spots that the result of match `index` feeds, in index order.
    pub fn next_matches(&self, index: usize) -> (r: Vec<NextMatch>)
        requires
            self.wf(),
        ensures
            r@ == next_from(
                self@.kind,
                self@.options.third_place_match,
                self.spots(),
                index as int,
                index as int + 1,
                self@.matches.len() as int,
            ),
    {
        compute_next_matches(self.kind, self.options.third_place_match, self.entrants.len(), self.matches.len(), index)
    }

    /// The round that starts where `range` ends; an empty range there if none
    /// does.
    pub fn next_round(&self, range: IndexRange) -> (r: IndexRange)
        requires
            self.wf(),
        ensures
            (r.start as int, r.end as int) == part_at(
                round_sizes(self@.kind, self@.options.third_place_match, self.spots()),
                0,
                range.end as int,
            ),
    {
        let p = compute_bracket_size(self.entrants.len());
        let sizes = compute_sizes(self.kind, self.options.third_place_match, p, false);
        proof {
            lemma_sizes_total(self.kind, self.options.third_place_match, p as int);
        }
        find_part_at(&sizes, range.end)
    }

    /// The bracket that starts where `range` ends; an empty range there if
    /// none does.
    pub fn next_bracket(&self, range: IndexRange) -> (r: IndexRange)
        requires
            self.wf(),
        ensures
            (r.start as int, r.end as int) == part_at(
                bracket_sizes(self@.kind, self@.options.third_place_match, self.spots()),
                0,
                range.end as int,
            ),
    {
        let p = compute_bracket_size(self.entrants.len());
        let sizes = compute_sizes(self.kind, self.options.third_place_match, p, true);
        proof {
            lemma_sizes_total(self.kind, self.options.third_place_match, p as int);
        }
        find_part_at(&sizes, range.end)
    }

    /// The round that starts where `range` ends, if it lies in the bracket of
    /// `range`'s start; an empty range there otherwise.
    pub fn next_bracket_round(&self, range: IndexRange) -> (r: IndexRange)
        requires
            self.wf(),
        ensures
            (r.start as int, r.end as int) == if same_bracket(
                bracket_sizes(self@.kind, self@.options.third_place_match, self.spots()),
                range.start as int,
                range.end as int,
            ) {
                part_at(round_sizes(self@.kind, self@.options.third_place_match, self.spots()), 0, range.end as int)
            } else {
                (range.end as int, range.end as int)
            },
    {
        let p = compute_bracket_size(self.entrants.len());
        let brackets = compute_sizes(self.kind, self.options.third_place_match, p, true);
        let same = match (find_part_holding(&brackets, range.start), find_part_holding(&brackets, range.end)) {
            (Some((a, _)), Some((b, _))) => a == b,
            _ => false,
        };
        if same {
            self.next_round(range)
        } else {
            IndexRange { start: range.end, end: range.end }
        }
    }

    /// The round of match `index` and its place in that round, for display.
    pub fn render_match_position(&self, index: usize) -> (r: Result<Position, Error>)
        requires
            self.wf(),
        ensures
            match part_holding(round_sizes(self@.kind, self@.options.third_place_match, self.spots()), 0, 0, index as int) {
                Some((k, i)) => r == Ok::<Position, Error>(Position { round: k as usize, index: i as usize }),
                None => r == Err::<Position, Error>(Error::IndexOutOfBounds),
            },
    {
        let p = compute_bracket_size(self.entrants.len());
        let sizes = compute_sizes(self.kind, self.options.third_place_match, p, false);
        match find_part_holding(&sizes, index) {
            Some((k, i)) => Ok(Position { round: k, index: i }),
            None => Err(Error::IndexOutOfBounds),
        }
    }
}

} // verus!

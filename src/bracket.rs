use vstd::prelude::*;

verus! {

/// One of the two halves of a match.
#[derive(Copy, Clone, Debug, PartialEq, Eq, Structural)]
pub enum Side {
    Left,
    Right,
}

/// Per-entrant data attached to a spot of a match: the score and whether the
/// entrant has won the match.
#[derive(Copy, Clone, Debug, PartialEq, Eq, Structural)]
pub struct EntrantScore {
    pub score: u64,
    pub winner: bool,
}

impl EntrantScore {
    /// The data of an entrant that has just entered a match.
    pub open spec fn fresh() -> EntrantScore {
        EntrantScore { score: 0, winner: false }
    }

    pub fn new() -> (r: EntrantScore)
        ensures
            r == EntrantScore::fresh(),
    {
        EntrantScore { score: 0, winner: false }
    }
}

/// An entrant placed in a match: its position in the entrant list, with the
/// data of this match.
#[derive(Copy, Clone, Debug, PartialEq, Eq, Structural)]
pub struct Node {
    pub index: usize,
    pub data: EntrantScore,
}

/// One side of a match.
#[derive(Copy, Clone, Debug, PartialEq, Eq, Structural)]
pub enum EntrantSpot<T> {
    /// The side is taken by an entrant.
    Entrant(T),
    /// A bye: the opposing side advances without playing.
    Empty,
    /// To be decided by an earlier match.
    TBD,
}

/// A match: two spots.
#[derive(Copy, Clone, Debug, PartialEq, Eq, Structural)]
pub struct Match {
    pub left: EntrantSpot<Node>,
    pub right: EntrantSpot<Node>,
}

/// What a spot holds, with the per-match data left out: the entrant's position,
/// a bye, or nothing decided yet.
pub open spec fn spot_view(s: EntrantSpot<Node>) -> EntrantSpot<usize> {
    match s {
        EntrantSpot::Entrant(n) => EntrantSpot::Entrant(n.index),
        EntrantSpot::Empty => EntrantSpot::Empty,
        EntrantSpot::TBD => EntrantSpot::TBD,
    }
}

/// The spot that an entrant or a bye has when it first enters a match.
pub open spec fn fresh_spot(s: EntrantSpot<usize>) -> EntrantSpot<Node> {
    match s {
        EntrantSpot::Entrant(i) => EntrantSpot::Entrant(Node { index: i, data: EntrantScore::fresh() }),
        EntrantSpot::Empty => EntrantSpot::Empty,
        EntrantSpot::TBD => EntrantSpot::TBD,
    }
}

impl Match {
    pub open spec fn side(self, s: Side) -> EntrantSpot<Node> {
        match s {
            Side::Left => self.left,
            Side::Right => self.right,
        }
    }

    /// A match with no entrant decided on either side.
    pub open spec fn undecided() -> Match {
        Match { left: EntrantSpot::TBD, right: EntrantSpot::TBD }
    }

    /// The side that won: both sides hold entrants and one of them carries the
    /// winner flag (the left one where both do).
    pub open spec fn winner_side(self) -> Option<Side> {
        match (self.left, self.right) {
            (EntrantSpot::Entrant(l), EntrantSpot::Entrant(r)) => {
                if l.data.winner {
                    Some(Side::Left)
                } else if r.data.winner {
                    Some(Side::Right)
                } else {
                    None
                }
            },
            _ => None,
        }
    }

    /// What moves on from this match as its winner. Against a bye, the other
    /// side moves on as it stands.
    pub open spec fn advancing(self) -> EntrantSpot<usize> {
        if self.left is Empty {
            spot_view(self.right)
        } else if self.right is Empty {
            spot_view(self.left)
        } else {
            match self.winner_side() {
                Some(Side::Left) => spot_view(self.left),
                Some(Side::Right) => spot_view(self.right),
                None => EntrantSpot::TBD,
            }
        }
    }

    /// What moves on from this match as its loser. A match with a bye has no
    /// loser: it hands on a bye.
    pub open spec fn losing(self) -> EntrantSpot<usize> {
        if self.left is Empty || self.right is Empty {
            EntrantSpot::Empty
        } else {
            match self.winner_side() {
                Some(Side::Left) => spot_view(self.right),
                Some(Side::Right) => spot_view(self.left),
                None => EntrantSpot::TBD,
            }
        }
    }

    /// The match once its sides are set to hold `l` and `r`: unchanged where
    /// they already do, and otherwise replayed from scratch with fresh data on
    /// both sides.
    pub open spec fn refreshed(self, l: EntrantSpot<usize>, r: EntrantSpot<usize>) -> Match {
        if spot_view(self.left) == l && spot_view(self.right) == r {
            self
        } else {
            Match { left: fresh_spot(l), right: fresh_spot(r) }
        }
    }

    pub fn new_undecided() -> (r: Match)
        ensures
            r == Match::undecided(),
    {
        Match { left: EntrantSpot::TBD, right: EntrantSpot::TBD }
    }

    pub fn get_side(&self, s: Side) -> (r: EntrantSpot<Node>)
        ensures
            r == self.side(s),
    {
        match s {
            Side::Left => self.left,
            Side::Right => self.right,
        }
    }

    pub fn get_winner_side(&self) -> (r: Option<Side>)
        ensures
            r == self.winner_side(),
    {
        match (self.left, self.right) {
            (EntrantSpot::Entrant(l), EntrantSpot::Entrant(r)) => {
                if l.data.winner {
                    Some(Side::Left)
                } else if r.data.winner {
                    Some(Side::Right)
                } else {
                    None
                }
            },
            _ => None,
        }
    }

    pub fn get_advancing(&self) -> (r: EntrantSpot<usize>)
        ensures
            r == self.advancing(),
    {
        if matches!(self.left, EntrantSpot::Empty) {
            view_of(self.right)
        } else if matches!(self.right, EntrantSpot::Empty) {
            view_of(self.left)
        } else {
            match self.get_winner_side() {
                Some(Side::Left) => view_of(self.left),
                Some(Side::Right) => view_of(self.right),
                None => EntrantSpot::TBD,
            }
        }
    }

    pub fn get_losing(&self) -> (r: EntrantSpot<usize>)
        ensures
            r == self.losing(),
    {
        if matches!(self.left, EntrantSpot::Empty) || matches!(self.right, EntrantSpot::Empty) {
            EntrantSpot::Empty
        } else {
            match self.get_winner_side() {
                Some(Side::Left) => view_of(self.right),
                Some(Side::Right) => view_of(self.left),
                None => EntrantSpot::TBD,
            }
        }
    }

    pub fn refresh(&self, l: EntrantSpot<usize>, r: EntrantSpot<usize>) -> (m: Match)
        ensures
            m == self.refreshed(l, r),
    {
        if same_view(self.left, l) && same_view(self.right, r) {
            *self
        } else {
            Match { left: fresh_of(l), right: fresh_of(r) }
        }
    }
}

/// A result reported for a match: the score of each side and, once the match
/// is decided, the side that won.
#[derive(Copy, Clone, Debug, PartialEq, Eq, Structural)]
pub struct MatchResult {
    pub left_score: u64,
    pub right_score: u64,
    pub winner: Option<Side>,
}

/// The spot with its data replaced, where it holds an entrant.
pub open spec fn with_data(s: EntrantSpot<Node>, d: EntrantScore) -> EntrantSpot<Node> {
    match s {
        EntrantSpot::Entrant(n) => EntrantSpot::Entrant(Node { index: n.index, data: d }),
        _ => s,
    }
}

impl MatchResult {
    /// A winner can be named only where both sides hold an entrant.
    pub open spec fn fits(self, m: Match) -> bool {
        self.winner is None || (m.left is Entrant && m.right is Entrant)
    }

    /// The match with this result written into the data of its entrants.
    pub open spec fn applied(self, m: Match) -> Match {
        Match {
            left: with_data(m.left, EntrantScore { score: self.left_score, winner: self.winner == Some(Side::Left) }),
            right: with_data(m.right, EntrantScore { score: self.right_score, winner: self.winner == Some(Side::Right) }),
        }
    }

    pub fn fits_match(&self, m: &Match) -> (r: bool)
        ensures
            r == self.fits(*m),
    {
        self.winner.is_none() || (matches!(m.left, EntrantSpot::Entrant(_)) && matches!(m.right, EntrantSpot::Entrant(_)))
    }

    pub fn apply(&self, m: &Match) -> (r: Match)
        ensures
            r == self.applied(*m),
    {
        let l = EntrantScore { score: self.left_score, winner: matches!(self.winner, Some(Side::Left)) };
        let r = EntrantScore { score: self.right_score, winner: matches!(self.winner, Some(Side::Right)) };
        Match { left: set_data(m.left, l), right: set_data(m.right, r) }
    }
}

pub fn set_data(s: EntrantSpot<Node>, d: EntrantScore) -> (r: EntrantSpot<Node>)
    ensures
        r == with_data(s, d),
{
    match s {
        EntrantSpot::Entrant(n) => EntrantSpot::Entrant(Node { index: n.index, data: d }),
        _ => s,
    }
}

pub fn view_of(s: EntrantSpot<Node>) -> (r: EntrantSpot<usize>)
    ensures
        r == spot_view(s),
{
    match s {
        EntrantSpot::Entrant(n) => EntrantSpot::Entrant(n.index),
        EntrantSpot::Empty => EntrantSpot::Empty,
        EntrantSpot::TBD => EntrantSpot::TBD,
    }
}

pub fn fresh_of(s: EntrantSpot<usize>) -> (r: EntrantSpot<Node>)
    ensures
        r == fresh_spot(s),
{
    match s {
        EntrantSpot::Entrant(i) => EntrantSpot::Entrant(Node { index: i, data: EntrantScore::new() }),
        EntrantSpot::Empty => EntrantSpot::Empty,
        EntrantSpot::TBD => EntrantSpot::TBD,
    }
}

pub fn same_view(s: EntrantSpot<Node>, v: EntrantSpot<usize>) -> (r: bool)
    ensures
        r == (spot_view(s) == v),
{
    match (s, v) {
        (EntrantSpot::Entrant(n), EntrantSpot::Entrant(i)) => n.index == i,
        (EntrantSpot::Empty, EntrantSpot::Empty) => true,
        (EntrantSpot::TBD, EntrantSpot::TBD) => true,
        _ => false,
    }
}

} // verus!

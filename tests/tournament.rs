use dynamic_tournament::bracket::{EntrantScore, EntrantSpot, Match, MatchResult, Node, Side};
use dynamic_tournament::entrants::Entrants;
use dynamic_tournament::rounds::{IndexRange, Position};
use dynamic_tournament::topology::{FeedKind, TournamentKind};
use dynamic_tournament::tournament::{Error, Tournament, TournamentOptions};

fn single(names: &[&'static str]) -> Tournament<&'static str> {
    let mut t = Tournament::new(TournamentKind::SingleElimination, TournamentOptions::new());
    t.extend(names.to_vec());
    t
}

fn double(names: &[&'static str]) -> Tournament<&'static str> {
    let mut t = Tournament::new(TournamentKind::DoubleElimination, TournamentOptions::new());
    t.extend(names.to_vec());
    t
}

fn occupant(s: &EntrantSpot<Node>) -> Option<usize> {
    match s {
        EntrantSpot::Entrant(n) => Some(n.index),
        _ => None,
    }
}

fn win(side: Side) -> MatchResult {
    let (l, r) = match side {
        Side::Left => (1, 0),
        Side::Right => (0, 1),
    };
    MatchResult { left_score: l, right_score: r, winner: Some(side) }
}

#[test]
fn four_entrants_single_elimination() {
    let mut t = single(&["A", "B", "C", "D"]);
    let ms = t.matches().clone();
    assert_eq!(ms.len(), 3);
    assert_eq!((occupant(&ms[0].left), occupant(&ms[0].right)), (Some(0), Some(1)));
    assert_eq!((occupant(&ms[1].left), occupant(&ms[1].right)), (Some(2), Some(3)));
    assert_eq!(ms[2], Match { left: EntrantSpot::TBD, right: EntrantSpot::TBD });

    t.update_match(0, win(Side::Left)).unwrap();
    t.update_match(1, win(Side::Left)).unwrap();
    let ms = t.matches().clone();
    assert_eq!((occupant(&ms[2].left), occupant(&ms[2].right)), (Some(0), Some(2)));

    t.update_match(2, win(Side::Left)).unwrap();
    let m = t.matches()[2];
    assert_eq!(m.left, EntrantSpot::Entrant(Node { index: 0, data: EntrantScore { score: 1, winner: true } }));
    assert_eq!(m.right, EntrantSpot::Entrant(Node { index: 2, data: EntrantScore { score: 0, winner: false } }));
}

#[test]
fn three_entrants_bye_moves_on_at_build() {
    let t = single(&["A", "B", "C"]);
    let ms = t.matches();
    assert_eq!(ms.len(), 3);
    assert_eq!(occupant(&ms[0].left), Some(0));
    assert_eq!(ms[0].right, EntrantSpot::Empty);
    assert_eq!((occupant(&ms[1].left), occupant(&ms[1].right)), (Some(1), Some(2)));
    assert_eq!(occupant(&ms[2].left), Some(0));
    assert_eq!(ms[2].right, EntrantSpot::TBD);
}

#[test]
fn push_rebuilds_the_matches() {
    let mut t = single(&["A", "B"]);
    t.update_match(0, win(Side::Right)).unwrap();
    t.push("C");
    assert_eq!(t.entrants().entrants, vec!["A", "B", "C"]);
    assert_eq!(t.matches().len(), 3);
    assert_eq!(occupant(&t.matches()[2].left), Some(0));
    assert_eq!(t.matches()[2].right, EntrantSpot::TBD);
}

#[test]
fn editing_an_early_result_cascades() {
    let mut t = single(&["A", "B", "C", "D", "E", "F", "G", "H"]);
    for i in 0..7 {
        t.update_match(i, win(Side::Left)).unwrap();
    }
    assert_eq!(occupant(&t.matches()[6].left), Some(0));
    assert_eq!(t.matches()[6].get_winner_side(), Some(Side::Left));
    t.update_match(0, win(Side::Right)).unwrap();
    let ms = t.matches();
    assert_eq!(occupant(&ms[4].left), Some(1));
    assert_eq!(ms[4].get_winner_side(), None);
    assert_eq!(ms[6].left, EntrantSpot::TBD);
    assert_eq!(occupant(&ms[6].right), Some(4));
    assert_eq!(ms[6].get_winner_side(), None);
    // The other half is untouched.
    assert_eq!(ms[5].get_winner_side(), Some(Side::Left));
}

#[test]
fn clearing_a_result_unsettles_what_follows() {
    let mut t = single(&["A", "B", "C", "D"]);
    t.update_match(0, win(Side::Left)).unwrap();
    assert_eq!(occupant(&t.matches()[2].left), Some(0));
    t.update_match(0, MatchResult { left_score: 3, right_score: 3, winner: None }).unwrap();
    assert_eq!(t.matches()[2].left, EntrantSpot::TBD);
    assert_eq!(t.matches()[0].left, EntrantSpot::Entrant(Node { index: 0, data: EntrantScore { score: 3, winner: false } }));
}

#[test]
fn update_errors() {
    let mut t = single(&["A", "B", "C", "D"]);
    assert_eq!(t.update_match(3, win(Side::Left)), Err(Error::IndexOutOfBounds));
    assert_eq!(t.update_match(2, win(Side::Left)), Err(Error::MatchNotReady));
    let t3 = single(&["A", "B", "C"]);
    let mut t3 = t3;
    assert_eq!(t3.update_match(0, win(Side::Left)), Err(Error::MatchNotReady));
    assert_eq!(t3.update_match(0, MatchResult { left_score: 2, right_score: 0, winner: None }), Ok(()));
}

#[test]
fn same_results_give_same_matches() {
    let mut a = double(&["A", "B", "C", "D", "E"]);
    let mut b = double(&["A", "B", "C", "D", "E"]);
    let steps = [(2usize, Side::Right), (3, Side::Left), (5, Side::Left), (0, Side::Left), (6, Side::Right)];
    for (i, s) in steps {
        assert_eq!(a.update_match(i, win(s)).is_ok(), b.update_match(i, win(s)).is_ok());
    }
    assert_eq!(a.matches(), b.matches());
}

#[test]
fn resume_accepts_a_fresh_build_and_rejects_a_changed_one() {
    let mut t = double(&["A", "B", "C", "D", "E", "F"]);
    t.update_match(2, win(Side::Right)).unwrap();
    let entrants = Entrants::from_vec(t.entrants().entrants.clone());
    let matches = t.matches().clone();
    let r = Tournament::resume(TournamentKind::DoubleElimination, entrants, matches.clone(), TournamentOptions::new()).unwrap();
    assert_eq!(r.matches(), &matches);
    assert_eq!(r.entrants().entrants, t.entrants().entrants);

    let mut bad = matches.clone();
    bad[7].left = EntrantSpot::Entrant(Node { index: 5, data: EntrantScore { score: 0, winner: false } });
    let e = Tournament::resume(TournamentKind::DoubleElimination, Entrants::from_vec(vec!["A", "B", "C", "D", "E", "F"]), bad, TournamentOptions::new());
    assert_eq!(e.err(), Some(Error::InvalidMatches));

    let short = matches[..5].to_vec();
    let e = Tournament::resume(TournamentKind::DoubleElimination, Entrants::from_vec(vec!["A", "B", "C", "D", "E", "F"]), short, TournamentOptions::new());
    assert_eq!(e.err(), Some(Error::InvalidMatches));

    let e = Tournament::resume(TournamentKind::SingleElimination, Entrants::from_vec(vec!["A", "B", "C", "D", "E", "F"]), matches, TournamentOptions::new());
    assert_eq!(e.err(), Some(Error::InvalidMatches));
}

#[test]
fn double_elimination_layout() {
    let mut t = double(&["A", "B", "C", "D"]);
    assert_eq!(t.matches().len(), 7);
    // Winners' first round feeds the winners' final and the losers' first round.
    let next: Vec<(usize, Side, FeedKind)> = t.next_matches(0).iter().map(|m| (m.index, m.side, m.kind)).collect();
    assert_eq!(next, vec![(2, Side::Left, FeedKind::Winner), (3, Side::Left, FeedKind::Loser)]);
    let next: Vec<(usize, Side, FeedKind)> = t.next_matches(2).iter().map(|m| (m.index, m.side, m.kind)).collect();
    assert_eq!(next, vec![(4, Side::Right, FeedKind::Loser), (5, Side::Left, FeedKind::Winner)]);
    t.update_match(0, win(Side::Left)).unwrap();
    t.update_match(1, win(Side::Right)).unwrap();
    assert_eq!((occupant(&t.matches()[3].left), occupant(&t.matches()[3].right)), (Some(1), Some(2)));
    t.update_match(2, win(Side::Left)).unwrap();
    assert_eq!(occupant(&t.matches()[4].right), Some(3));
    t.update_match(3, win(Side::Right)).unwrap();
    t.update_match(4, win(Side::Right)).unwrap();
    assert_eq!((occupant(&t.matches()[5].left), occupant(&t.matches()[5].right)), (Some(0), Some(3)));
    // The winners' finalist wins: no second grand final.
    t.update_match(5, win(Side::Left)).unwrap();
    assert_eq!(t.matches()[6], Match { left: EntrantSpot::TBD, right: EntrantSpot::TBD });
    // The losers' finalist wins: the grand final is played again.
    t.update_match(5, win(Side::Right)).unwrap();
    assert_eq!((occupant(&t.matches()[6].left), occupant(&t.matches()[6].right)), (Some(0), Some(3)));
}

#[test]
fn double_elimination_bye_gives_no_loser() {
    let t = double(&["A", "B", "C"]);
    let ms = t.matches();
    assert_eq!(ms.len(), 7);
    assert_eq!(ms[0].right, EntrantSpot::Empty);
    assert_eq!(ms[3].left, EntrantSpot::Empty);
}

#[test]
fn rounds_and_positions() {
    let t = single(&["A", "B", "C", "D", "E", "F", "G", "H"]);
    assert_eq!(t.next_round(IndexRange { start: 0, end: 0 }), IndexRange { start: 0, end: 4 });
    assert_eq!(t.next_round(IndexRange { start: 0, end: 4 }), IndexRange { start: 4, end: 6 });
    assert_eq!(t.next_round(IndexRange { start: 4, end: 6 }), IndexRange { start: 6, end: 7 });
    assert_eq!(t.next_round(IndexRange { start: 6, end: 7 }), IndexRange { start: 7, end: 7 });
    assert_eq!(t.next_bracket(IndexRange { start: 0, end: 0 }), IndexRange { start: 0, end: 7 });
    assert_eq!(t.render_match_position(5), Ok(Position { round: 1, index: 1 }));
    assert_eq!(t.render_match_position(7), Err(Error::IndexOutOfBounds));

    let d = double(&["A", "B", "C", "D", "E", "F", "G", "H"]);
    assert_eq!(d.matches().len(), 15);
    assert_eq!(d.next_bracket(IndexRange { start: 0, end: 7 }), IndexRange { start: 7, end: 13 });
    assert_eq!(d.next_bracket(IndexRange { start: 7, end: 13 }), IndexRange { start: 13, end: 15 });
    assert_eq!(d.next_round(IndexRange { start: 4, end: 6 }), IndexRange { start: 6, end: 7 });
    assert_eq!(d.next_round(IndexRange { start: 6, end: 7 }), IndexRange { start: 7, end: 9 });
    assert_eq!(d.next_bracket_round(IndexRange { start: 6, end: 7 }), IndexRange { start: 7, end: 7 });
    assert_eq!(d.next_bracket_round(IndexRange { start: 7, end: 9 }), IndexRange { start: 9, end: 11 });
    assert_eq!(d.render_match_position(12), Ok(Position { round: 6, index: 0 }));
}

#[test]
fn third_place_match() {
    let mut t = Tournament::new(TournamentKind::SingleElimination, TournamentOptions { third_place_match: true });
    t.extend(vec!["A", "B", "C", "D"]);
    assert_eq!(t.matches().len(), 4);
    t.update_match(0, win(Side::Left)).unwrap();
    t.update_match(1, win(Side::Right)).unwrap();
    assert_eq!((occupant(&t.matches()[3].left), occupant(&t.matches()[3].right)), (Some(1), Some(2)));
}

#[test]
fn small_tournaments() {
    let t: Tournament<&str> = Tournament::new(TournamentKind::SingleElimination, TournamentOptions::new());
    assert_eq!(t.matches().len(), 0);
    let t = single(&["A"]);
    assert_eq!(t.matches().len(), 0);
    let t = double(&["A", "B"]);
    assert_eq!(t.matches().len(), 3);
    assert_eq!(occupant(&t.matches()[0].left), Some(0));
}

#[test]
fn single_elimination_counts_and_rounds() {
    for (n, matches, rounds) in [(2usize, 1usize, 1usize), (4, 3, 2), (5, 7, 3), (8, 7, 3), (16, 15, 4), (17, 31, 5)] {
        let names: Vec<&'static str> = (0..n).map(|_| "x").collect();
        let t = single(&names);
        assert_eq!(t.matches().len(), matches);
        let mut range = IndexRange { start: 0, end: 0 };
        let mut count = 0;
        loop {
            let next = t.next_round(range);
            if next.start == next.end {
                break;
            }
            assert_eq!(next.start, range.end);
            range = next;
            count += 1;
        }
        assert_eq!(count, rounds);
        assert_eq!(range.end, matches);
    }
}

#[test]
fn each_winners_match_drops_one_loser() {
    let t = double(&["A", "B", "C", "D", "E", "F", "G", "H"]);
    for i in 0..6 {
        let drops: Vec<_> = t.next_matches(i).into_iter().filter(|m| m.kind == FeedKind::Loser).collect();
        assert_eq!(drops.len(), 1);
        assert!(drops[0].index >= 7 && drops[0].index < 13);
    }
    let d = double(&["A", "B", "C", "D", "E"]);
    // Byes in the winners' first round leave byes in the losers' first round.
    assert_eq!(d.matches()[7].left, EntrantSpot::Empty);
    assert_eq!(d.matches()[7].right, EntrantSpot::Empty);
    assert_eq!(d.matches()[8].left, EntrantSpot::Empty);
}

#[test]
fn resume_of_a_fresh_build() {
    for kind in [TournamentKind::SingleElimination, TournamentKind::DoubleElimination] {
        let mut t = Tournament::new(kind, TournamentOptions::new());
        t.extend(vec![1u32, 2, 3, 4, 5, 6, 7]);
        let r = Tournament::resume(kind, Entrants::from_vec(vec![1u32, 2, 3, 4, 5, 6, 7]), t.matches().clone(), TournamentOptions::new()).unwrap();
        assert_eq!(r.matches(), t.matches());
        assert_eq!(r.entrants().entrants, vec![1u32, 2, 3, 4, 5, 6, 7]);
        assert_eq!(r.kind(), kind);
    }
}

#[test]
fn resume_with_too_many_entrants() {
    let many = Entrants::from_vec(vec![(); dynamic_tournament::topology::MAX_ENTRANTS + 1]);
    let r = Tournament::resume(TournamentKind::SingleElimination, many, vec![], TournamentOptions::new());
    assert_eq!(r.err(), Some(Error::TooManyEntrants));
}

#[test]
fn single_elimination_next_match_is_the_parent() {
    let t = single(&["A", "B", "C", "D", "E", "F", "G", "H"]);
    for i in 0..6usize {
        let next = t.next_matches(i);
        assert_eq!(next.len(), 1);
        assert_eq!(next[0].index, (i + 8) / 2);
        assert_eq!(next[0].side, if i % 2 == 0 { Side::Left } else { Side::Right });
        assert_eq!(next[0].kind, FeedKind::Winner);
    }
    assert!(t.next_matches(6).is_empty());
    assert!(t.next_matches(99).is_empty());
}

#[test]
fn update_through_a_hook() {
    let mut t = single(&["A", "B", "C", "D"]);
    // The hook reads the match and names the entrant of lower seed as winner.
    let lower = |m: Match| {
        let winner = match (m.left, m.right) {
            (EntrantSpot::Entrant(l), EntrantSpot::Entrant(r)) => Some(if l.index < r.index { Side::Left } else { Side::Right }),
            _ => None,
        };
        MatchResult { left_score: 2, right_score: 1, winner }
    };
    assert_eq!(t.update_match_with(1, lower), Ok(()));
    assert_eq!(occupant(&t.matches()[2].right), Some(2));
    assert_eq!(t.matches()[1].left, EntrantSpot::Entrant(Node { index: 2, data: EntrantScore { score: 2, winner: true } }));
    assert_eq!(t.update_match_with(5, lower), Err(Error::IndexOutOfBounds));
    let named = |_m: Match| MatchResult { left_score: 0, right_score: 0, winner: Some(Side::Left) };
    assert_eq!(t.update_match_with(2, named), Err(Error::MatchNotReady));
}

#[test]
fn results_never_move_byes() {
    let mut t = double(&["A", "B", "C", "D", "E"]);
    let byes = |t: &Tournament<&'static str>| -> Vec<(bool, bool)> {
        t.matches().iter().map(|m| (m.left == EntrantSpot::Empty, m.right == EntrantSpot::Empty)).collect()
    };
    let before = byes(&t);
    t.update_match(3, win(Side::Right)).unwrap();
    t.update_match(4, win(Side::Left)).unwrap();
    t.update_match(5, win(Side::Right)).unwrap();
    t.update_match(3, win(Side::Left)).unwrap();
    assert_eq!(byes(&t), before);
    assert!(before.iter().any(|&(l, r)| l || r));
}

use vstd::prelude::*;

use crate::bracket::{EntrantSpot, Node};

verus! {

/// What a side of a match shows: an entrant, a bye, or a side still to be
/// decided.
#[derive(Copy, Clone, Debug, PartialEq, Eq, Structural)]
pub enum LabelText {
    Entrant(usize),
    Bye,
    Tbd,
}

/// How a side of a match is shown: its text, its score and whether it won.
#[derive(Copy, Clone, Debug, PartialEq, Eq, Structural)]
pub struct TeamLabel {
    pub text: LabelText,
    pub score: u64,
    pub winner: bool,
}

pub open spec fn label_of(spot: EntrantSpot<Node>) -> TeamLabel {
    match spot {
        EntrantSpot::Entrant(n) => TeamLabel { text: LabelText::Entrant(n.index), score: n.data.score, winner: n.data.winner },
        EntrantSpot::Empty => TeamLabel { text: LabelText::Bye, score: 0, winner: false },
        EntrantSpot::TBD => TeamLabel { text: LabelText::Tbd, score: 0, winner: false },
    }
}

/// How a side of a match is shown.
pub fn team_label(spot: &EntrantSpot<Node>) -> (r: TeamLabel)
    ensures
        r == label_of(*spot),
{
    match spot {
        EntrantSpot::Entrant(n) => TeamLabel { text: LabelText::Entrant(n.index), score: n.data.score, winner: n.data.winner },
        EntrantSpot::Empty => TeamLabel { text: LabelText::Bye, score: 0, winner: false },
        EntrantSpot::TBD => TeamLabel { text: LabelText::Tbd, score: 0, winner: false },
    }
}

/// The text that stands for a label without an entrant.
pub fn placeholder_text(text: LabelText) -> (r: Option<&'static str>)
    ensures
        text == LabelText::Bye ==> (r matches Some(s) && s@ == "BYE"@),
        text == LabelText::Tbd ==> (r matches Some(s) && s@ == "TBD"@),
        text is Entrant ==> r is None,
{
    proof {
        reveal_strlit("BYE");
        reveal_strlit("TBD");
    }
    match text {
        LabelText::Bye => Some("BYE"),
        LabelText::Tbd => Some("TBD"),
        LabelText::Entrant(_) => None,
    }
}

/// The style classes of a side: a winner is marked as such.
pub fn team_classes(winner: bool) -> (r: &'static str)
    ensures
        winner ==> r@ == "team winner"@,
        !winner ==> r@ == "team"@,
{
    if winner {
        "team winner"
    } else {
        "team"
    }
}

} // verus!

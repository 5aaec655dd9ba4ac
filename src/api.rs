use vstd::prelude::*;

use std::collections::HashMap;

verus! {

/// The identifier of a tournament.
#[derive(Copy, Clone, Debug, PartialEq, Eq, Structural)]
pub struct TournamentId(pub u64);

/// The identifier of a bracket system (a tournament format).
#[derive(Copy, Clone, Debug, PartialEq, Eq, Structural)]
pub struct SystemId(pub u64);

/// The identifier of a bracket.
#[derive(Copy, Clone, Debug, PartialEq, Eq, Structural)]
pub struct BracketId(pub u64);

/// A client of the tournament service at a base URL.
#[derive(Clone, Debug)]
pub struct Client {
    base_url: String,
}

impl Client {
    pub closed spec fn base_url_view(&self) -> Seq<char> {
        self.base_url@
    }

    pub fn new(base_url: String) -> (r: Client)
        ensures
            r.base_url_view() == base_url@,
    {
        Client { base_url }
    }

    pub fn base_url(&self) -> (r: &str)
        ensures
            r@ == self.base_url_view(),
    {
        self.base_url.as_str()
    }

    /// The part of the client that deals with tournaments.
    pub fn tournaments(&self) -> (r: TournamentsClient<'_>)
        ensures
            r.client() == self,
    {
        TournamentsClient::new(self)
    }
}

/// The part of a client that deals with tournaments.
pub struct TournamentsClient<'a> {
    client: &'a Client,
}

impl<'a> TournamentsClient<'a> {
    pub closed spec fn client(&self) -> &'a Client {
        self.client
    }

    pub(crate) fn new(client: &'a Client) -> (r: TournamentsClient<'a>)
        ensures
            r.client() == client,
    {
        TournamentsClient { client }
    }

    /// The part of the client that deals with the brackets of a tournament.
    pub fn brackets(&self, tournament_id: TournamentId) -> (r: BracketsClient<'a>)
        ensures
            r.client() == self.client(),
            r.tournament_id() == tournament_id,
    {
        BracketsClient { client: self.client, tournament_id }
    }

    /// The part of the client that deals with the entrants of a tournament.
    pub fn entrants(&self, tournament_id: TournamentId) -> (r: EntrantsClient<'a>)
        ensures
            r.client() == self.client(),
            r.tournament_id() == tournament_id,
    {
        EntrantsClient { client: self.client, tournament_id }
    }
}

/// The part of a client that deals with the brackets of one tournament.
pub struct BracketsClient<'a> {
    client: &'a Client,
    tournament_id: TournamentId,
}

impl<'a> BracketsClient<'a> {
    pub closed spec fn client(&self) -> &'a Client {
        self.client
    }

    pub closed spec fn tournament_id(&self) -> TournamentId {
        self.tournament_id
    }

    pub fn id(&self) -> (r: TournamentId)
        ensures
            r == self.tournament_id(),
    {
        self.tournament_id
    }
}

/// The part of a client that deals with the entrants of one tournament.
pub struct EntrantsClient<'a> {
    client: &'a Client,
    tournament_id: TournamentId,
}

impl<'a> EntrantsClient<'a> {
    pub closed spec fn client(&self) -> &'a Client {
        self.client
    }

    pub closed spec fn tournament_id(&self) -> TournamentId {
        self.tournament_id
    }

    pub fn id(&self) -> (r: TournamentId)
        ensures
            r == self.tournament_id(),
    {
        self.tournament_id
    }
}

/// A summary of a tournament, as listed.
#[derive(Clone, Debug)]
pub struct TournamentOverview {
    pub id: TournamentId,
    pub name: String,
    /// Seconds since the Unix epoch, in UTC.
    pub date: i64,
    pub kind: EntrantKind,
}

/// A tournament, as the service describes it.
#[derive(Clone, Debug)]
pub struct Tournament {
    pub id: TournamentId,
    pub name: String,
    pub description: String,
    /// Seconds since the Unix epoch, in UTC.
    pub date: i64,
    pub kind: EntrantKind,
}

/// The kind of entrants a tournament takes.
#[derive(Copy, Clone, Debug, PartialEq, Eq, Structural)]
pub enum EntrantKind {
    Player,
    Team,
}

impl EntrantKind {
    /// The byte that stands for the kind.
    pub open spec fn code(self) -> u8 {
        match self {
            EntrantKind::Player => 0,
            EntrantKind::Team => 1,
        }
    }

    pub fn to_u8(self) -> (r: u8)
        ensures
            r == self.code(),
    {
        match self {
            EntrantKind::Player => 0,
            EntrantKind::Team => 1,
        }
    }

    pub fn from_u8(byte: u8) -> (r: Option<EntrantKind>)
        ensures
            byte == 0 ==> r == Some(EntrantKind::Player),
            byte == 1 ==> r == Some(EntrantKind::Team),
            byte > 1 ==> r is None,
    {
        match byte {
            0 => Some(EntrantKind::Player),
            1 => Some(EntrantKind::Team),
            _ => None,
        }
    }
}

/// Reading back the byte of a kind gives the kind.
pub proof fn lemma_entrant_kind_round_trip(k: EntrantKind)
    ensures
        k.code() <= 1,
        k.code() == 0 ==> k == EntrantKind::Player,
        k.code() == 1 ==> k == EntrantKind::Team,
{
}

/// A player.
#[derive(Clone, Debug)]
pub struct Player {
    pub name: String,
}

/// A team of players.
#[derive(Clone, Debug)]
pub struct Team {
    pub name: String,
    pub players: Vec<Player>,
}

/// The entrants of a tournament: players, or teams.
#[derive(Clone, Debug)]
pub enum Entrants {
    Players(Vec<Player>),
    Teams(Vec<Team>),
}

impl Entrants {
    /// The number of entrants.
    pub open spec fn count(&self) -> nat {
        match self {
            Entrants::Players(v) => v@.len(),
            Entrants::Teams(v) => v@.len(),
        }
    }

    pub fn len(&self) -> (r: usize)
        ensures
            r == self.count(),
    {
        match self {
            Entrants::Players(vec) => vec.len(),
            Entrants::Teams(vec) => vec.len(),
        }
    }

    pub fn is_empty(&self) -> (r: bool)
        ensures
            r == (self.count() == 0),
    {
        self.len() == 0
    }
}

/// A bracket of a tournament.
#[derive(Clone, Debug)]
pub struct Bracket {
    pub id: BracketId,
    pub system: SystemId,
    /// The entrants playing in this bracket, by their identifiers in the
    /// tournament.
    pub entrants: Vec<u64>,
    /// Optional key-value pairs for the bracket's nodes.
    pub nodes: HashMap<String, NodeKind>,
}

/// The types a custom node value can have.
#[derive(Copy, Clone, Debug, PartialEq, Eq, Structural)]
pub enum NodeKind {
    Bool,
    I64,
    U64,
}

/// A custom node value.
#[derive(Copy, Clone, Debug, PartialEq, Eq, Structural)]
pub enum NodeValue {
    Bool(bool),
    I64(i64),
    U64(u64),
}

impl NodeValue {
    /// The type of the value.
    pub fn kind(&self) -> (r: NodeKind)
        ensures
            r == match self {
                NodeValue::Bool(_) => NodeKind::Bool,
                NodeValue::I64(_) => NodeKind::I64,
                NodeValue::U64(_) => NodeKind::U64,
            },
    {
        match self {
            NodeValue::Bool(_) => NodeKind::Bool,
            NodeValue::I64(_) => NodeKind::I64,
            NodeValue::U64(_) => NodeKind::U64,
        }
    }
}

} // verus!

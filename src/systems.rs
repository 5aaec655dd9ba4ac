use vstd::prelude::*;
use vstd::string::StringExecFns;

use crate::api::SystemId;
use crate::tournament::TournamentOptions;

verus! {

/// A bracket system as listed: its identifier and name.
#[derive(Clone, Debug)]
pub struct SystemOverview {
    pub id: SystemId,
    pub name: String,
}

/// A bracket system with the options it starts with.
#[derive(Clone, Debug)]
pub struct System {
    pub id: SystemId,
    pub name: String,
    pub options: TournamentOptions,
}

/// The systems the service offers: single elimination as 1, double
/// elimination as 2.
pub fn list_systems() -> (r: Vec<SystemOverview>)
    ensures
        r@.len() == 2,
        r@[0].id == SystemId(1),
        r@[0].name@ == "Single Elimination"@,
        r@[1].id == SystemId(2),
        r@[1].name@ == "Double Elimination"@,
{
    let mut r: Vec<SystemOverview> = Vec::new();
    r.push(SystemOverview { id: SystemId(1), name: String::from_str("Single Elimination") });
    r.push(SystemOverview { id: SystemId(2), name: String::from_str("Double Elimination") });
    r
}

/// The system with the given identifier, if there is one.
pub fn get_system(id: SystemId) -> (r: Option<System>)
    ensures
        id.0 == 1 ==> (r matches Some(s) && s.id == id && s.name@ == "Single Elimination"@
            && s.options.third_place_match == false),
        id.0 == 2 ==> (r matches Some(s) && s.id == id && s.name@ == "Double Elimination"@
            && s.options.third_place_match == false),
        id.0 != 1 && id.0 != 2 ==> r is None,
{
    match id.0 {
        1 => Some(System { id, name: String::from_str("Single Elimination"), options: TournamentOptions::new() }),
        2 => Some(System { id, name: String::from_str("Double Elimination"), options: TournamentOptions::new() }),
        _ => None,
    }
}

} // verus!

// Tournament brackets: building the matches of a single or double
// elimination from a list of entrants, reporting results, and moving winners
// and losers on through the bracket.
//
// - `bracket`: spots, matches and what a match hands on.
// - `topology`: bracket sizes, seeding, and which match feeds which spot.
// - `settle`: bringing every match up to date with the ones before it.
// - `tournament`: the tournament itself, its building, results and resuming.
// - `rounds`: rounds, brackets and display positions as index ranges.
// - `laws`: what holds of every tournament, proved.
// - `entrants`, `api`, `systems`, `display`, `movable`: the data the service
//   and its front end exchange, and the small rules they apply to it.
pub mod api;
pub mod bracket;
pub mod display;
pub mod entrants;
pub mod laws;
pub mod movable;
pub mod rounds;
pub mod settle;
pub mod systems;
pub mod topology;
pub mod tournament;

//! Verified rules of a squad-level tactical battle simulation: terrain
//! tiles and path costs, soldiers and their squads, the decisions soldiers
//! and squads take every frame, companies and their scouts, flags and the
//! tactical memory of dangers, the battle log's counts, orders typed or
//! spoken in the chat window (with its Hangul input composer), and the
//! reading of the language model's answers.

pub mod chat;
pub mod command;
pub mod company;
pub mod conduct;
pub mod cqb;
pub mod doctrine;
pub mod engagement;
pub mod events;
pub mod fight;
pub mod flag;
pub mod gesture;
pub mod ime;
pub mod keywords;
pub mod llm;
pub mod objective;
pub mod path;
pub mod pings;
pub mod reply;
pub mod roster;
pub mod soldier;
pub mod support;
pub mod tactics;
pub mod tally;
pub mod terrain;
pub mod text;

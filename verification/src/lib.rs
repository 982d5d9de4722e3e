//! The rules of a barbershop: its agenda, opening hours, cash book, monthly report,
//! register forms and database maintenance, each with a contract that Verus proves.
use vstd::prelude::*;

pub mod text;
pub mod clock;
pub mod dates;
pub mod schedule;
pub mod services;
pub mod appointments;
pub mod opening_hours;
pub mod finance;
pub mod report;
pub mod records;
pub mod client_history;
pub mod maintenance;

verus! {

} // verus!

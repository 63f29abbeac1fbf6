//! Ranked-choice polls decided by the Schulze method.
//!
//! A poll is created open, collects ballots until its deadline, and is then
//! closed exactly once by tallying the ballots into tiers of winners.  The
//! rules for creating polls, accepting ballots and tallying are stated as
//! contracts over mathematical models and proved.

pub mod api;
pub mod ballot;
pub mod creation;
pub mod database;
pub mod error;
pub mod poll;
pub mod record;
pub mod response;
pub mod session;
pub mod tally;
pub mod text;
pub mod voting;

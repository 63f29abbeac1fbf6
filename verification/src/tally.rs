//! The Schulze tally: from ballots to pairwise counts, from counts to the
//! strongest paths between candidates, and from those to tiers of winners.

pub mod fill;
pub mod order;
pub mod pairwise;
pub mod paths;
pub mod tiers;
pub mod walks;

//! Auction mechanisms for allocating scarce skills.
use vstd::prelude::*;

verus! {

/// The kind of auction run for a skill.
#[derive(Debug, Clone, Copy, PartialEq, Eq, Structural)]
pub enum AuctionType {
    /// Ascending-bid auction: the highest bid wins.
    English,
}

} // verus!

//! A crowdfunding ledger: campaign records stored in program-owned accounts,
//! with instructions to create a campaign, donate to it and withdraw from it.

pub mod codec;
pub mod guard;
pub mod processor;
pub mod laws;

//! Joint purchasing by a sealed double auction over additively secret-shared
//! bids, with the prompt rendering and commitments of the bidding agents.

pub mod field;
pub mod node;
pub mod auction;
pub mod simulate;
pub mod agent;
pub mod text;
pub mod prompt;
pub mod provenance;
pub mod scenario;
pub mod primality;

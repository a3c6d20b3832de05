//! The commands of the program.

use vstd::prelude::*;

verus! {

/// What the program is asked to do.
#[derive(Debug, Clone, Copy, PartialEq, Eq, Structural)]
pub enum Commands {
    /// Send offers at the given discount in percent.
    Offer { percentage: i16 },
    /// Scrape the inventory.
    Inventory,
    /// Fetch the seller's figures.
    Stats,
}

/// The parsed command line.
#[derive(Debug, Clone, Copy, PartialEq, Eq, Structural)]
pub struct Cli {
    pub command: Commands,
}

} // verus!

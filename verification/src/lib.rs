//! Region scanner for a deterministic, keyed coordinate grid.
//!
//! Given a rectangular footprint, a keyed hash oracle and a rarity-derived
//! threshold, the scanner enumerates every cell of the footprint and returns
//! exactly the cells whose digest falls below the threshold, paired with the
//! decimal rendering of that digest. The hash oracle and the threshold policy
//! are injected by the caller; the scan itself is pure.

pub mod digest;
pub mod oracle;
pub mod scan;

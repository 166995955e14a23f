//! Interface extraction for compiled contracts: canonical signatures,
//! selectors, event topics, interface identifiers and ABI entries, plus the
//! decisions of the compile pipeline that gates extraction on a clean analysis.
pub mod text;
pub mod model;
pub mod signature;
pub mod hash;
pub mod keyed;
pub mod abi;
pub mod collect;
pub mod pipeline;
pub mod laws;

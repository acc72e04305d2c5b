//! Anonymous polling core: create polls, record one vote per fingerprint,
//! serve consistent tallies, and round-trip the whole state through a
//! snapshot so polls survive a process restart.

pub mod ids;
pub mod poll;
pub mod store;
pub mod laws;
pub mod pages;

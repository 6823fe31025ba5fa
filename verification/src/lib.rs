//! Prime discovery over an integer range: a primality tester with a native
//! fast path and an arbitrary-precision fallback, exact powers of each prime,
//! a bounded buffer with its flush protocol, and the text of the output table.

pub mod buffer;
pub mod config;
pub mod powers;
pub mod primality;
pub mod record;
pub mod scan;
pub mod sink;
pub mod wide;

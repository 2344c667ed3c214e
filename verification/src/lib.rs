//! ## Tiny RNG, a minimal random number generator
//!
//! Warning: not cryptographically secure.
//!
//! Proven mathematical methods are applied to obtain unbiased samples:
//! rejection sampling for the uniform distribution on an integer range, and
//! the Fisher–Yates shuffle for the uniform distribution on the set of all
//! permutations. Every operation carries a contract that pins its result and
//! its effect on the generator state exactly, so one seed fixes one output
//! sequence per generator variant.

pub mod bounded;
pub mod lcg;
pub mod pcg;
pub mod rand;
pub mod shuffle;
pub mod xorshift;

pub use bounded::rand_bounded_u32;
pub use bounded::rand_bounded_u64;
pub use bounded::rand_bounded_usize;
pub use bounded::wrapping_next_power_of_two_u32;
pub use bounded::wrapping_next_power_of_two_u64;
pub use rand::choice;
pub use rand::fill;
pub use rand::rand_iter;
pub use rand::rand_range_i32;
pub use rand::rand_range_i64;
pub use rand::rand_range_u32;
pub use rand::rand_range_u64;
pub use rand::shuffle;
pub use rand::Rand;
pub use lcg::Lcg32;
pub use pcg::Pcg32;
pub use xorshift::Rng;

//! Nearest points under the XOR distance, and the inverse problem: a
//! position from which a given list of points is the list of the nearest
//! ones.
//!
//! The distance between two fixed-width unsigned integers is their XOR, read
//! as a number. [`xor_distance::XorDistance`] holds a set of points, ranks
//! them by their distance to a position, and finds a position for a given
//! ranking: each inequality between two distances decides one bit of the
//! position, and [`bits::Bits`] collects the decided bits and refuses a
//! contradiction.
//!
//! - [`pattern`]: facts about the bits of a 128-bit word.
//! - [`fixed_int`]: the integer types, each value modelled by its bit
//!   pattern.
//! - [`bitops`]: flags and single bits of an integer.
//! - [`bits`]: the register of decided and undecided bits.
//! - [`ranking`]: the order of points by distance, and the nearest points.
//! - [`inequality`]: the inequalities of a list of nearest points.
//! - [`xor_distance`]: the point set with both operations.
//! - [`round_trip`]: the laws that relate the two operations.
//! - [`delivery_system`]: farms and customers, by other names.

pub mod pattern;
pub mod fixed_int;
mod unsigned_impls;
mod signed_impls;
mod word_impls;
pub mod bitops;
pub mod bits;
pub mod ranking;
pub mod inequality;
pub mod xor_distance;
pub mod round_trip;
pub mod delivery_system;

//! The storage backends.

pub mod basic;

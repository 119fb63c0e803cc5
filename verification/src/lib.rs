//! Synthetic customer and order records for test fixtures, and their CSV form.
//!
//! Every draw goes through a [`random::RandomSource`], so a fixed seed gives a
//! fixed data set.

pub mod config;
pub mod csv_table;
pub mod customers;
pub mod dates;
pub mod facts;
pub mod orders;
pub mod random;
pub mod rows;
pub mod text;

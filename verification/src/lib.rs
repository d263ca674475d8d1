//! Elo skill ratings in exact fixed-point arithmetic.
//!
//! Ratings, K-factors and expected scores are carried as `i64` values in
//! millionths of a point, so every update is an exact integer computation
//! with a proved contract: the two expected scores of a pairing sum to one,
//! a match moves the two ratings by exactly opposite amounts, and swapping
//! the players while inverting the outcome swaps the results.

pub mod config;
pub mod elo;
pub mod fixed;
pub mod outcomes;
pub mod rating;

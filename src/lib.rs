//! Pairwise dissimilarity measures between fixed-length vectors.
//!
//! This crate holds the part of the measures that is decided by counting and
//! comparing, each function with a contract proved by Verus:
//! - `contingency`: the 2x2 table of two boolean vectors;
//! - `binary`: the binary-set measures (Jaccard, Dice, Kulsinski, Matching,
//!   Rogers-Tanimoto, Sokal-Michener, Russell-Rao, Sokal-Sneath, Yule) as
//!   exact fractions, with their zero-result policy on degenerate tables;
//! - `hamming`: the normalised Hamming distance over any comparable values;
//! - `select`: the non-zero mask of a vector and the scan that finds the
//!   first position of its largest entry;
//! - `utils`: the sign of a value and the identity, cost and ones builders
//!   that give the generalised measures their default parameters.
pub mod binary;
pub mod contingency;
pub mod hamming;
pub mod ratio;
pub mod select;
pub mod utils;

pub use binary::{
    dice, jaccard, kulsinski, matching, rogers_tanimoto, russell_rao, sokal_michener,
    sokal_sneath, yule,
};
pub use contingency::{contingency, Contingency};
pub use hamming::hamming;
pub use ratio::Ratio;
pub use select::{max_with_first_index, nonzero_mask};
pub use utils::{cost_matrix, identity_matrix, ones_vector, sign};

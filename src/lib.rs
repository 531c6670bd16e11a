use vstd::prelude::*;

pub mod contain;
pub mod hamming;
pub mod inner;
pub mod jaro_winkler;
pub mod levenshtein;
pub mod sniffer;
pub mod text;

verus! {

} // verus!

//! Quotes.

use vstd::prelude::*;

verus! {

/// A quote and where it is from.
#[derive(Clone, Debug)]
pub struct Quote {
    pub content: String,
    pub author: String,
    pub tags: Vec<String>,
}

} // verus!

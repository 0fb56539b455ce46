//! Index builder errors and the builder interface.
use vstd::prelude::*;
use crate::types::IndexTick;

verus! {

/// Why an index builder produced no tick.
#[derive(Debug, Clone)]
pub enum IndexError {
    NotEnoughData,
    StaleInput,
    JumpRejected,
    InvalidInput(String),
    Internal(String),
}

/// A builder that turns one input of type `I` into an index tick.
pub trait IndexBuilder<I> {
    fn build(&mut self, tick: I) -> Result<IndexTick, IndexError>;
}

} // verus!

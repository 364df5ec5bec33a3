//! Effects as they resolve.

use crate::text::Text;
use vstd::prelude::*;

pub mod ring;
pub mod token;
pub mod venture;
pub mod venture_laws;

verus! {

/// Why an effect could not resolve.
#[derive(Debug, PartialEq, Eq)]
pub struct EffectError {
    pub reason: Text,
}

} // verus!

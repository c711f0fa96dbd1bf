//! Camera models, for callers that interpret fields whose order or sign
//! changes between devices.

use vstd::prelude::*;

verus! {

/// The camera model that produced a stream.
///
/// Knowing the model lets a caller reinterpret fields that change order or
/// sign between devices; the decoder itself never consults it.
#[derive(Clone, Debug, PartialEq)]
pub enum Model {
    /// The first model with a documented axis order.
    Hero5,
    /// Any other model, named by the caller.
    Other(String),
}

} // verus!

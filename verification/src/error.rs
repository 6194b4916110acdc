//! What can be wrong with a value before it is ever sent.

use vstd::prelude::*;

verus! {

/// A value that breaks one of the service's limits.
#[derive(Clone, Copy, Debug, PartialEq, Eq, Structural)]
pub enum ModelError {
    /// A message carries more embeds than allowed.
    EmbedAmount,
    /// The text of an embed is too long, by this many code points.
    EmbedTooLarge(usize),
    /// The content of a message is too long, by this many code points.
    MessageTooLong(usize),
}

/// The errors of this crate.
#[derive(Clone, Copy, Debug, PartialEq, Eq, Structural)]
pub enum Error {
    /// A value was rejected before it was sent.
    Model(ModelError),
}

} // verus!

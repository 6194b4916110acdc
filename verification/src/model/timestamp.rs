//! Points in time as the service writes them.

use vstd::prelude::*;

verus! {

/// An instant in the text form the service sends it in.
#[derive(Clone, Debug)]
pub struct Timestamp(pub String);

} // verus!

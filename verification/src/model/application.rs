//! Applications and what they are allowed to do.

use vstd::prelude::*;

verus! {

/// One OAuth2 scope, by the name the service gives it.
#[derive(Clone, Debug)]
pub struct Scope(pub String);

} // verus!

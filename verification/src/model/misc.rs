//! Small types that several models share.

use vstd::prelude::*;

verus! {

/// The hash under which the service's content network keeps an image, as sent.
#[derive(Clone, Debug)]
pub struct ImageHash(pub String);

} // verus!

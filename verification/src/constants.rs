//! Limits that the service puts on what it accepts.

use vstd::prelude::*;

verus! {

/// The most embeds one message may carry.
pub const EMBED_MAX_COUNT: usize = 10;

/// The most code points the text of one embed may add up to.
pub const EMBED_MAX_LENGTH: usize = 6000;

/// The most code points the content of one message may have.
pub const MESSAGE_CODE_LIMIT: usize = 2000;

} // verus!

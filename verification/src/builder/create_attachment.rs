//! Files that go with a message.

use vstd::prelude::*;

use crate::model::id::AttachmentId;

verus! {

/// A file to upload with a message.
#[derive(Clone, Debug)]
pub struct CreateAttachment {
    pub filename: String,
    pub description: Option<String>,
    pub data: Vec<u8>,
}

/// A file that a message already has and is to keep.
#[derive(Clone, Copy, Debug, PartialEq, Eq, Structural)]
pub struct ExistingAttachment {
    pub id: AttachmentId,
}

} // verus!

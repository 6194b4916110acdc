//! Interactive parts of a message.

use vstd::prelude::*;

verus! {

/// A button, by the label it shows and the id it reports when pressed.
#[derive(Clone, Debug)]
pub struct CreateButton {
    pub custom_id: String,
    pub label: String,
    pub disabled: bool,
}

/// One row of interactive parts.
#[derive(Clone, Debug)]
pub struct CreateActionRow {
    pub buttons: Vec<CreateButton>,
}

} // verus!

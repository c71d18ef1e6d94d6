//! General facts about the model of the field, each proved from the
//! definitions in [`crate::state`].

pub mod collision;
pub mod layout;
pub mod moves;
pub mod tick;

//! The editor: what it selects, the diffs it records, its undo chain, its pause state and which
//! systems it runs.

pub mod diffs;
pub mod transactions;
pub mod time;
pub mod selection;
pub mod state;
pub mod gizmo;
pub mod schedule;
pub mod input;
pub mod apply;
pub mod inspector;

use vstd::prelude::*;
use crate::keymap::MapKey;

verus! {

/// An entity of a world: its slot and the generation of that slot.
#[derive(Clone, Copy, PartialEq, Eq, Structural, Debug, Hash)]
pub struct Entity {
    pub index: u32,
    pub version: u32,
}

impl MapKey for Entity {
    fn key_eq(&self, other: &Self) -> (res: bool) {
        self.index == other.index && self.version == other.version
    }
}

} // verus!

//! Diffs between two states of a world: which entities come and go, and how components change.

use vstd::prelude::*;
use crate::uuids::{ComponentTypeUuid, EntityUuid};

verus! {

/// Whether an entity is added or removed.
#[derive(Clone, Copy, PartialEq, Eq, Structural, Debug)]
pub enum EntityDiffOp {
    Add,
    Remove,
}

/// An entity that a diff adds or removes.
#[derive(Clone, Copy, Debug)]
pub struct EntityDiff {
    pub entity_uuid: EntityUuid,
    pub op: EntityDiffOp,
}

impl EntityDiff {
    pub fn new(entity_uuid: EntityUuid, op: EntityDiffOp) -> (res: Self)
        ensures
            res.entity_uuid == entity_uuid,
            res.op == op,
    {
        EntityDiff { entity_uuid, op }
    }

    pub fn entity_uuid(&self) -> (res: &EntityUuid)
        ensures
            *res == self.entity_uuid,
    {
        &self.entity_uuid
    }

    pub fn op(&self) -> (res: &EntityDiffOp)
        ensures
            *res == self.op,
    {
        &self.op
    }
}

/// What comparing one component of an entity in two worlds found.
#[derive(Clone, Copy, PartialEq, Eq, Structural, Debug)]
pub enum DiffSingleResult {
    /// The component is the same in both.
    NoChange,
    /// The component is in both and differs.
    Change,
    /// The component is only in the second world.
    Add,
    /// The component is only in the first world.
    Remove,
}

/// How a component of an entity changes; the data is the serialized diff or value.
#[derive(Clone, Debug)]
pub enum ComponentDiffOp {
    Change(Vec<u8>),
    Add(Vec<u8>),
    Remove,
}

/// The component change that a comparison result stands for, carrying `data`; `None` where the
/// comparison found no change.
pub open spec fn spec_op_from_result(result: DiffSingleResult, data: Vec<u8>) -> Option<ComponentDiffOp> {
    match result {
        DiffSingleResult::Add => Some(ComponentDiffOp::Add(data)),
        DiffSingleResult::Change => Some(ComponentDiffOp::Change(data)),
        DiffSingleResult::Remove => Some(ComponentDiffOp::Remove),
        DiffSingleResult::NoChange => None,
    }
}

impl ComponentDiffOp {
    /// The component change for a comparison result, carrying `data` where the change needs it.
    pub fn from_diff_single_result(diff_single_result: DiffSingleResult, data: Vec<u8>) -> (res: Option<ComponentDiffOp>)
        ensures
            res == spec_op_from_result(diff_single_result, data),
    {
        match diff_single_result {
            DiffSingleResult::Add => Some(ComponentDiffOp::Add(data)),
            DiffSingleResult::Change => Some(ComponentDiffOp::Change(data)),
            DiffSingleResult::Remove => Some(ComponentDiffOp::Remove),
            DiffSingleResult::NoChange => None,
        }
    }
}

/// A change to one component of one entity.
#[derive(Clone, Debug)]
pub struct ComponentDiff {
    pub entity_uuid: EntityUuid,
    pub component_type: ComponentTypeUuid,
    pub op: ComponentDiffOp,
}

impl ComponentDiff {
    pub fn new(entity_uuid: EntityUuid, component_type: ComponentTypeUuid, op: ComponentDiffOp) -> (res: Self)
        ensures
            res == (ComponentDiff { entity_uuid, component_type, op }),
    {
        ComponentDiff { entity_uuid, component_type, op }
    }

    /// The change of a component for a comparison result; `None` where it found no change.
    pub fn new_from_diff_single_result(
        entity_uuid: EntityUuid,
        component_type: ComponentTypeUuid,
        diff_single_result: DiffSingleResult,
        data: Vec<u8>,
    ) -> (res: Option<Self>)
        ensures
            match spec_op_from_result(diff_single_result, data) {
                Some(op) => res == Some(ComponentDiff { entity_uuid, component_type, op }),
                None => res is None,
            },
    {
        let op = ComponentDiffOp::from_diff_single_result(diff_single_result, data);
        match op {
            Some(op) => Some(ComponentDiff::new(entity_uuid, component_type, op)),
            None => None,
        }
    }

    pub fn entity_uuid(&self) -> (res: &EntityUuid)
        ensures
            *res == self.entity_uuid,
    {
        &self.entity_uuid
    }

    pub fn component_type(&self) -> (res: &ComponentTypeUuid)
        ensures
            *res == self.component_type,
    {
        &self.component_type
    }

    pub fn op(&self) -> (res: &ComponentDiffOp)
        ensures
            *res == self.op,
    {
        &self.op
    }
}

/// The entity and component changes that take one world to another.
#[derive(Clone, Debug)]
pub struct WorldDiff {
    pub entity_diffs: Vec<EntityDiff>,
    pub component_diffs: Vec<ComponentDiff>,
}

impl WorldDiff {
    pub fn new(entity_diffs: Vec<EntityDiff>, component_diffs: Vec<ComponentDiff>) -> (res: WorldDiff)
        ensures
            res.entity_diffs@ == entity_diffs@,
            res.component_diffs@ == component_diffs@,
    {
        WorldDiff { entity_diffs, component_diffs }
    }

    /// Whether the diff changes anything: an entity or a component.
    pub fn has_changes(&self) -> (res: bool)
        ensures
            res == (self.entity_diffs@.len() > 0 || self.component_diffs@.len() > 0),
    {
        !self.entity_diffs.is_empty() || !self.component_diffs.is_empty()
    }

    pub fn entity_diffs(&self) -> (res: &Vec<EntityDiff>)
        ensures
            res@ == self.entity_diffs@,
    {
        &self.entity_diffs
    }

    pub fn component_diffs(&self) -> (res: &Vec<ComponentDiff>)
        ensures
            res@ == self.component_diffs@,
    {
        &self.component_diffs
    }
}

} // verus!

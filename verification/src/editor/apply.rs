//! Applying a world diff to a copy of a world. The caller copies the world and does the work on
//! it; the decisions are here: which entity each identifier stands for in the copy, which
//! entities a diff spawns or deletes, and which entity a component change goes to.

use vstd::prelude::*;
use crate::uuids::{ComponentTypeUuid, EntityUuid, uuid_eq};
use crate::keymap::KeyMap;
use super::Entity;
use super::diffs::{ComponentDiff, EntityDiff, EntityDiffOp};

verus! {

/// The identifiers of a world's entities mapped to the entities of its copy: each identifier
/// goes to the copy of its entity. `copies` maps every entity of the world to its copy.
pub fn remap_entities(
    uuid_to_entity: &KeyMap<EntityUuid, Entity>,
    copies: &KeyMap<Entity, Entity>,
) -> (res: KeyMap<EntityUuid, Entity>)
    requires
        forall|u: EntityUuid| #[trigger] uuid_to_entity@.dom().contains(u) ==> copies@.dom().contains(uuid_to_entity@[u]),
    ensures
        res@.dom() == uuid_to_entity@.dom(),
        forall|u: EntityUuid| #[trigger] res@.dom().contains(u) ==> res@[u] == copies@[uuid_to_entity@[u]],
{
    let keys = uuid_to_entity.keys();
    let mut res: KeyMap<EntityUuid, Entity> = KeyMap::new();
    let mut i: usize = 0;
    while i < keys.len()
        invariant
            i <= keys@.len(),
            forall|k: EntityUuid| uuid_to_entity@.dom().contains(k) <==> #[trigger] keys@.contains(k),
            forall|a: int, b: int| 0 <= a < keys@.len() && 0 <= b < keys@.len() && a != b ==> keys@[a] != keys@[b],
            forall|u: EntityUuid| #[trigger] uuid_to_entity@.dom().contains(u) ==> copies@.dom().contains(uuid_to_entity@[u]),
            forall|u: EntityUuid| #[trigger] res@.dom().contains(u) <==> keys@.take(i as int).contains(u),
            forall|u: EntityUuid| #[trigger] res@.dom().contains(u) ==> res@[u] == copies@[uuid_to_entity@[u]],
        decreases keys@.len() - i,
    {
        let u = keys[i];
        assert(keys@.contains(u)) by {
            assert(keys@[i as int] == u);
        }
        let e = *uuid_to_entity.get(&u).unwrap();
        let c = *copies.get(&e).unwrap();
        res.insert(u, c);
        proof {
            let t0 = keys@.take(i as int);
            let t1 = keys@.take(i + 1);
            assert(t1 =~= t0.push(u));
            assert forall|v: EntityUuid| #[trigger] res@.dom().contains(v) <==> t1.contains(v) by {
                if t1.contains(v) {
                    let k = choose|k: int| 0 <= k < t1.len() && t1[k] == v;
                    if k < i {
                        assert(t0[k] == v);
                    }
                }
                if t0.contains(v) {
                    let k = choose|k: int| 0 <= k < t0.len() && t0[k] == v;
                    assert(t1[k] == v);
                }
                assert(t1[i as int] == u);
            }
        }
        i = i + 1;
    }
    proof {
        assert(keys@.take(keys@.len() as int) =~= keys@);
        assert(res@.dom() =~= uuid_to_entity@.dom());
    }
    res
}

/// What an entity diff asks of the copied world.
#[derive(PartialEq, Eq, Structural, Debug, Clone, Copy)]
pub enum EntityDiffAction {
    /// Spawn an empty entity; the caller then records it with [`record_spawned_entity`].
    Spawn,
    /// Delete this entity.
    Delete(Entity),
    /// Nothing: the entity to remove is not in the copy.
    Skip,
}

/// Decides what an entity diff does: an addition spawns an entity; a removal deletes the
/// entity its identifier stands for, and forgets the identifier, or does nothing if the
/// identifier stands for none.
pub fn plan_entity_diff(uuid_to_entity: &mut KeyMap<EntityUuid, Entity>, diff: &EntityDiff) -> (res: EntityDiffAction)
    ensures
        match diff.op {
            EntityDiffOp::Add => res == EntityDiffAction::Spawn && final(uuid_to_entity)@ == old(uuid_to_entity)@,
            EntityDiffOp::Remove => if old(uuid_to_entity)@.dom().contains(diff.entity_uuid) {
                res == EntityDiffAction::Delete(old(uuid_to_entity)@[diff.entity_uuid])
                    && final(uuid_to_entity)@ == old(uuid_to_entity)@.remove(diff.entity_uuid)
            } else {
                res == EntityDiffAction::Skip && final(uuid_to_entity)@ == old(uuid_to_entity)@
            },
        },
{
    match diff.op {
        EntityDiffOp::Add => EntityDiffAction::Spawn,
        EntityDiffOp::Remove => match uuid_to_entity.remove(&diff.entity_uuid) {
            Some(e) => EntityDiffAction::Delete(e),
            None => EntityDiffAction::Skip,
        },
    }
}

/// Records that the entity added under `entity_uuid` was spawned as `entity`.
pub fn record_spawned_entity(uuid_to_entity: &mut KeyMap<EntityUuid, Entity>, entity_uuid: EntityUuid, entity: Entity)
    ensures
        final(uuid_to_entity)@ == old(uuid_to_entity)@.insert(entity_uuid, entity),
{
    uuid_to_entity.insert(entity_uuid, entity);
}

/// The entity of the copy that a component change of `entity_uuid` and `component_type` goes
/// to: the entity the identifier stands for, if any, and only for a registered component type.
pub fn component_diff_target(
    uuid_to_entity: &KeyMap<EntityUuid, Entity>,
    registered: &Vec<ComponentTypeUuid>,
    entity_uuid: &EntityUuid,
    component_type: &ComponentTypeUuid,
) -> (res: Option<Entity>)
    ensures
        res == if uuid_to_entity@.dom().contains(*entity_uuid) && registered@.contains(*component_type) {
            Some(uuid_to_entity@[*entity_uuid])
        } else {
            None::<Entity>
        },
{
    match uuid_to_entity.get(entity_uuid) {
        None => None,
        Some(e) => {
            let mut i: usize = 0;
            while i < registered.len()
                invariant
                    i <= registered@.len(),
                    uuid_to_entity@.dom().contains(*entity_uuid),
                    *e == uuid_to_entity@[*entity_uuid],
                    forall|j: int| 0 <= j < i ==> registered@[j] != *component_type,
                decreases registered@.len() - i,
            {
                if uuid_eq(&registered[i], component_type) {
                    assert(registered@[i as int] == *component_type);
                    return Some(*e);
                }
                i = i + 1;
            }
            None
        },
    }
}

/// The component changes of `diffs` that reach the copy, in order: the position of each change
/// whose identifier stands for an entity of `map` and whose component type is registered, with
/// that entity. The other changes are skipped.
pub open spec fn component_targets(
    map: Map<EntityUuid, Entity>,
    registered: Seq<ComponentTypeUuid>,
    diffs: Seq<ComponentDiff>,
) -> Seq<(int, Entity)>
    decreases diffs.len(),
{
    if diffs.len() == 0 {
        Seq::empty()
    } else {
        let rest = component_targets(map, registered, diffs.drop_last());
        let d = diffs.last();
        if map.dom().contains(d.entity_uuid) && registered.contains(d.component_type) {
            rest.push((diffs.len() - 1, map[d.entity_uuid]))
        } else {
            rest
        }
    }
}

/// Decides where each component change of `diffs` goes in the copy, as [`component_targets`]
/// says: the position of each change that reaches an entity, with that entity.
pub fn plan_component_diffs(
    uuid_to_entity: &KeyMap<EntityUuid, Entity>,
    registered: &Vec<ComponentTypeUuid>,
    diffs: &Vec<ComponentDiff>,
) -> (res: Vec<(usize, Entity)>)
    ensures
        res@.len() == component_targets(uuid_to_entity@, registered@, diffs@).len(),
        forall|k: int| 0 <= k < res@.len() ==> {
            &&& (#[trigger] res@[k]).0 as int == component_targets(uuid_to_entity@, registered@, diffs@)[k].0
            &&& res@[k].1 == component_targets(uuid_to_entity@, registered@, diffs@)[k].1
        },
{
    let mut res: Vec<(usize, Entity)> = Vec::new();
    let mut i: usize = 0;
    while i < diffs.len()
        invariant
            i <= diffs@.len(),
            res@.len() == component_targets(uuid_to_entity@, registered@, diffs@.take(i as int)).len(),
            forall|k: int| 0 <= k < res@.len() ==> {
                &&& (#[trigger] res@[k]).0 as int == component_targets(uuid_to_entity@, registered@, diffs@.take(i as int))[k].0
                &&& res@[k].1 == component_targets(uuid_to_entity@, registered@, diffs@.take(i as int))[k].1
            },
        decreases diffs@.len() - i,
    {
        proof {
            assert(diffs@.take(i + 1).drop_last() =~= diffs@.take(i as int));
            assert(diffs@.take(i + 1).last() == diffs@[i as int]);
        }
        let d = &diffs[i];
        match component_diff_target(uuid_to_entity, registered, &d.entity_uuid, &d.component_type) {
            Some(e) => {
                res.push((i, e));
            },
            None => {},
        }
        i = i + 1;
    }
    proof {
        assert(diffs@.take(diffs@.len() as int) =~= diffs@);
    }
    res
}

/// Component changes that name an identifier the copy does not hold, or a component type that
/// is not registered, change nothing: appending them to a diff leaves where its changes go as
/// it was.
pub proof fn lemma_skipped_component_diffs(
    map: Map<EntityUuid, Entity>,
    registered: Seq<ComponentTypeUuid>,
    diffs: Seq<ComponentDiff>,
    extra: Seq<ComponentDiff>,
)
    requires
        forall|i: int| 0 <= i < extra.len() ==> !(map.dom().contains((#[trigger] extra[i]).entity_uuid) && registered.contains(
            extra[i].component_type,
        )),
    ensures
        component_targets(map, registered, diffs + extra) == component_targets(map, registered, diffs),
    decreases extra.len(),
{
    if extra.len() == 0 {
        assert(diffs + extra =~= diffs);
    } else {
        let init = extra.drop_last();
        assert forall|i: int| 0 <= i < init.len() implies !(map.dom().contains((#[trigger] init[i]).entity_uuid)
            && registered.contains(init[i].component_type)) by {
            assert(init[i] == extra[i]);
        }
        lemma_skipped_component_diffs(map, registered, diffs, init);
        assert((diffs + extra).drop_last() =~= diffs + init);
        assert((diffs + extra).last() == extra[extra.len() - 1]);
    }
}

} // verus!

//! Transactions: the editor copies some entities, lets a tool change the copies, and then turns
//! the difference into a diff that applies the change and a diff that reverts it.
//!
//! The worlds themselves are held by the caller. A transaction keeps, for every entity it knows
//! by identifier, which entity stands for it in the world before the change and in the world
//! after it; the caller reports which entities the changed world holds and how each component
//! compares, and the transaction decides the diffs.

use vstd::prelude::*;
use crate::uuids::{ComponentTypeUuid, EntityUuid, new_random_uuid};
use crate::keymap::KeyMap;
use super::Entity;
use super::diffs::{
    ComponentDiff, ComponentDiffOp, DiffSingleResult, EntityDiff, EntityDiffOp, WorldDiff,
    spec_op_from_result,
};

verus! {

/// An entity to copy into a transaction, and the identifier it is known by.
#[derive(Clone, Copy)]
pub struct TransactionBuilderEntityInfo {
    pub entity_uuid: EntityUuid,
    pub entity: Entity,
}

/// Collects the entities a transaction will cover.
pub struct TransactionBuilder {
    pub entities: Vec<TransactionBuilderEntityInfo>,
}

impl TransactionBuilder {
    /// A builder with no entities.
    pub fn new() -> (res: Self)
        ensures
            res.entities@ == Seq::<TransactionBuilderEntityInfo>::empty(),
    {
        TransactionBuilder { entities: Vec::new() }
    }

    /// Adds `entity`, known as `entity_uuid`, after the entities added so far.
    pub fn add_entity(self, entity: Entity, entity_uuid: EntityUuid) -> (res: Self)
        ensures
            res.entities@ == self.entities@.push(TransactionBuilderEntityInfo { entity_uuid, entity }),
    {
        let mut entities = self.entities;
        entities.push(TransactionBuilderEntityInfo { entity_uuid, entity });
        TransactionBuilder { entities }
    }

    /// Starts the transaction. `copies[i]` holds the entities that the copy of the `i`-th added
    /// entity got in the world before the change and in the world after it; an identifier added
    /// twice keeps its last copy.
    pub fn begin(self, copies: Vec<(Entity, Entity)>) -> (res: Transaction)
        requires
            copies@.len() == self.entities@.len(),
        ensures
            res.uuid_to_entities@ == begin_map(self.entities@, copies@),
    {
        let ghost infos = self.entities@;
        let ghost pairs = copies@;
        let mut uuid_to_entities: KeyMap<EntityUuid, TransactionEntityInfo> = KeyMap::new();
        let mut i: usize = 0;
        while i < self.entities.len()
            invariant
                infos == self.entities@,
                pairs == copies@,
                pairs.len() == infos.len(),
                i <= infos.len(),
                uuid_to_entities@ == begin_map(infos.take(i as int), pairs.take(i as int)),
            decreases infos.len() - i,
        {
            let info = self.entities[i];
            let (before, after) = copies[i];
            uuid_to_entities.insert(info.entity_uuid, TransactionEntityInfo::new(Some(before), Some(after)));
            proof {
                assert(infos.take(i + 1).drop_last() =~= infos.take(i as int));
                assert(pairs.take(i + 1).drop_last() =~= pairs.take(i as int));
            }
            i = i + 1;
        }
        proof {
            assert(infos.take(infos.len() as int) =~= infos);
            assert(pairs.take(pairs.len() as int) =~= pairs);
        }
        Transaction { uuid_to_entities }
    }
}

/// The identifiers a transaction starts with, each mapped to the copies of its entity.
pub open spec fn begin_map(
    infos: Seq<TransactionBuilderEntityInfo>,
    copies: Seq<(Entity, Entity)>,
) -> Map<EntityUuid, TransactionEntityInfo>
    decreases infos.len(),
{
    if infos.len() == 0 {
        Map::empty()
    } else {
        begin_map(infos.drop_last(), copies.drop_last()).insert(
            infos.last().entity_uuid,
            TransactionEntityInfo {
                before_entity: Some(copies.last().0),
                after_entity: Some(copies.last().1),
            },
        )
    }
}

/// Where an entity of a transaction is in the world before the change and after it.
#[derive(Clone, Copy, PartialEq, Eq, Structural, Debug)]
pub struct TransactionEntityInfo {
    pub before_entity: Option<Entity>,
    pub after_entity: Option<Entity>,
}

impl TransactionEntityInfo {
    pub fn new(before_entity: Option<Entity>, after_entity: Option<Entity>) -> (res: Self)
        ensures
            res == (TransactionEntityInfo { before_entity, after_entity }),
    {
        TransactionEntityInfo { before_entity, after_entity }
    }

    pub fn before_entity(&self) -> (res: Option<Entity>)
        ensures
            res == self.before_entity,
    {
        self.before_entity
    }

    pub fn after_entity(&self) -> (res: Option<Entity>)
        ensures
            res == self.after_entity,
    {
        self.after_entity
    }
}

/// An open transaction: every entity it knows, by identifier.
pub struct Transaction {
    pub uuid_to_entities: KeyMap<EntityUuid, TransactionEntityInfo>,
}

/// The diff that applies a transaction's change and the diff that reverts it.
#[derive(Clone, Debug)]
pub struct TransactionDiffs {
    pub apply_diff: WorldDiff,
    pub revert_diff: WorldDiff,
}

/// The same two diffs with their roles exchanged.
pub open spec fn reversed(d: TransactionDiffs) -> TransactionDiffs {
    TransactionDiffs { apply_diff: d.revert_diff, revert_diff: d.apply_diff }
}

/// Reversing twice gives back the diffs one started with.
pub proof fn lemma_reverse_twice(d: TransactionDiffs)
    ensures
        reversed(reversed(d)) == d,
{
}

impl TransactionDiffs {
    pub fn new(apply_diff: WorldDiff, revert_diff: WorldDiff) -> (res: Self)
        ensures
            res == (TransactionDiffs { apply_diff, revert_diff }),
    {
        TransactionDiffs { apply_diff, revert_diff }
    }

    pub fn apply_diff(&self) -> (res: &WorldDiff)
        ensures
            *res == self.apply_diff,
    {
        &self.apply_diff
    }

    pub fn revert_diff(&self) -> (res: &WorldDiff)
        ensures
            *res == self.revert_diff,
    {
        &self.revert_diff
    }

    /// Exchanges the two diffs, so that applying undoes and reverting redoes.
    pub fn reverse(&mut self)
        ensures
            *final(self) == reversed(*old(self)),
    {
        std::mem::swap(&mut self.apply_diff, &mut self.revert_diff);
    }
}

/// Some pair of `entries` has `e` as the entity after the change.
pub open spec fn is_known_after(entries: Seq<(EntityUuid, TransactionEntityInfo)>, e: Entity) -> bool {
    exists|i: int| 0 <= i < entries.len() && entries[i].1.after_entity == Some(e)
}

/// The identifiers of `entries` whose entity after the change is not among `live`: the
/// entities the change deleted, in the order of `entries`.
pub open spec fn removed_uuids(entries: Seq<(EntityUuid, TransactionEntityInfo)>, live: Seq<Entity>) -> Seq<EntityUuid>
    decreases entries.len(),
{
    if entries.len() == 0 {
        Seq::empty()
    } else {
        let rest = removed_uuids(entries.drop_last(), live);
        match entries.last().1.after_entity {
            Some(a) => if live.contains(a) {
                rest
            } else {
                rest.push(entries.last().0)
            },
            None => rest,
        }
    }
}

/// The entities of `live` that no pair of `entries` knows: the entities the change created, in
/// the order of `live`.
pub open spec fn created_entities(entries: Seq<(EntityUuid, TransactionEntityInfo)>, live: Seq<Entity>) -> Seq<Entity>
    decreases live.len(),
{
    if live.len() == 0 {
        Seq::empty()
    } else {
        let rest = created_entities(entries, live.drop_last());
        if is_known_after(entries, live.last()) {
            rest
        } else {
            rest.push(live.last())
        }
    }
}

/// `map` with every created entity added under its new identifier, known only after the change.
pub open spec fn with_created(
    map: Map<EntityUuid, TransactionEntityInfo>,
    created: Seq<(EntityUuid, Entity)>,
) -> Map<EntityUuid, TransactionEntityInfo>
    decreases created.len(),
{
    if created.len() == 0 {
        map
    } else {
        with_created(map, created.drop_last()).insert(
            created.last().0,
            TransactionEntityInfo { before_entity: None, after_entity: Some(created.last().1) },
        )
    }
}

/// An identifier as a random (version 4) identifier has it: the high half of byte 6 is 4 and
/// the top two bits of byte 8 are `10`.
pub open spec fn is_v4_uuid(u: EntityUuid) -> bool {
    u[6] >> 4u8 == 4u8 && u[8] >> 6u8 == 2u8
}

/// The entity changes of a transaction: what was deleted, what was created under which new
/// identifier, and the entity diffs that apply and revert them.
#[derive(Debug)]
pub struct EntityChanges {
    pub removed: Vec<EntityUuid>,
    pub created: Vec<(EntityUuid, Entity)>,
    pub apply_entity_diffs: Vec<EntityDiff>,
    pub revert_entity_diffs: Vec<EntityDiff>,
}

/// The entity diffs that apply the changes: remove each deleted entity, add each created one.
pub open spec fn apply_entity_diffs(removed: Seq<EntityUuid>, created: Seq<(EntityUuid, Entity)>) -> Seq<EntityDiff> {
    removed.map_values(|u: EntityUuid| EntityDiff { entity_uuid: u, op: EntityDiffOp::Remove })
        + created.map_values(|c: (EntityUuid, Entity)| EntityDiff { entity_uuid: c.0, op: EntityDiffOp::Add })
}

/// The entity diffs that revert the changes: add each deleted entity back, remove each created one.
pub open spec fn revert_entity_diffs(removed: Seq<EntityUuid>, created: Seq<(EntityUuid, Entity)>) -> Seq<EntityDiff> {
    removed.map_values(|u: EntityUuid| EntityDiff { entity_uuid: u, op: EntityDiffOp::Add })
        + created.map_values(|c: (EntityUuid, Entity)| EntityDiff { entity_uuid: c.0, op: EntityDiffOp::Remove })
}

/// How one component of one entity of a transaction compares between the two worlds, both
/// ways, as the caller found it.
#[derive(Debug)]
pub struct ComponentComparison {
    pub entity_uuid: EntityUuid,
    pub component_type: ComponentTypeUuid,
    /// The comparison from the world before the change to the world after it, and its data.
    pub apply_result: DiffSingleResult,
    pub apply_data: Vec<u8>,
    /// The comparison the other way, and its data.
    pub revert_result: DiffSingleResult,
    pub revert_data: Vec<u8>,
}

/// A comparison the caller is to make: one component type of one known entity, between the
/// entity that stands for it before the change and the one after it.
#[derive(Clone, Copy, Debug)]
pub struct ComparisonRequest {
    pub entity_uuid: EntityUuid,
    pub component_type: ComponentTypeUuid,
    pub before_entity: Option<Entity>,
    pub after_entity: Option<Entity>,
}

/// The comparisons for one known entity: one per component type of `registered`, in order.
pub open spec fn requests_for(
    entry: (EntityUuid, TransactionEntityInfo),
    registered: Seq<ComponentTypeUuid>,
) -> Seq<ComparisonRequest> {
    registered.map_values(
        |t: ComponentTypeUuid|
            ComparisonRequest {
                entity_uuid: entry.0,
                component_type: t,
                before_entity: entry.1.before_entity,
                after_entity: entry.1.after_entity,
            },
    )
}

/// Every comparison a transaction needs: for each known entity in order, one per component
/// type of `registered`.
pub open spec fn comparison_plan(
    entries: Seq<(EntityUuid, TransactionEntityInfo)>,
    registered: Seq<ComponentTypeUuid>,
) -> Seq<ComparisonRequest>
    decreases entries.len(),
{
    if entries.len() == 0 {
        Seq::empty()
    } else {
        comparison_plan(entries.drop_last(), registered) + requests_for(entries.last(), registered)
    }
}

/// The entity and component type each request of `plan` names.
pub open spec fn plan_pairs(plan: Seq<ComparisonRequest>) -> Seq<(EntityUuid, ComponentTypeUuid)> {
    plan.map_values(|r: ComparisonRequest| (r.entity_uuid, r.component_type))
}

/// The entity and component type each comparison names.
pub open spec fn comparison_pairs(found: Seq<ComponentComparison>) -> Seq<(EntityUuid, ComponentTypeUuid)> {
    found.map_values(|c: ComponentComparison| (c.entity_uuid, c.component_type))
}

/// The entity and component type each component diff names.
pub open spec fn diff_pairs(diffs: Seq<ComponentDiff>) -> Seq<(EntityUuid, ComponentTypeUuid)> {
    diffs.map_values(|d: ComponentDiff| (d.entity_uuid, d.component_type))
}

/// The comparisons were made as `plan` asks: the same entity and component type, in order.
pub open spec fn follows_plan(found: Seq<ComponentComparison>, plan: Seq<ComparisonRequest>) -> bool {
    comparison_pairs(found) == plan_pairs(plan)
}

/// The entity and component type of each comparison that found a change, in order.
pub open spec fn changed_pairs(found: Seq<ComponentComparison>) -> Seq<(EntityUuid, ComponentTypeUuid)>
    decreases found.len(),
{
    if found.len() == 0 {
        Seq::empty()
    } else {
        let rest = changed_pairs(found.drop_last());
        if found.last().apply_result != DiffSingleResult::NoChange {
            rest.push((found.last().entity_uuid, found.last().component_type))
        } else {
            rest
        }
    }
}

/// Each request of a plan names a known entity and a component type of `registered`.
pub proof fn lemma_plan_members(
    entries: Seq<(EntityUuid, TransactionEntityInfo)>,
    registered: Seq<ComponentTypeUuid>,
    k: int,
)
    requires
        0 <= k < comparison_plan(entries, registered).len(),
    ensures
        registered.contains(comparison_plan(entries, registered)[k].component_type),
        exists|i: int| 0 <= i < entries.len() && entries[i].0 == comparison_plan(entries, registered)[k].entity_uuid,
    decreases entries.len(),
{
    let init = comparison_plan(entries.drop_last(), registered);
    let plan = comparison_plan(entries, registered);
    if k < init.len() {
        assert(plan[k] == init[k]);
        lemma_plan_members(entries.drop_last(), registered, k);
        let i = choose|i: int| 0 <= i < entries.drop_last().len() && entries.drop_last()[i].0 == init[k].entity_uuid;
        assert(entries[i] == entries.drop_last()[i]);
    } else {
        let j = k - init.len();
        assert(plan[k] == requests_for(entries.last(), registered)[j]);
        assert(registered[j] == plan[k].component_type);
        assert(entries[entries.len() - 1].0 == plan[k].entity_uuid);
    }
}

/// A plan names no entity and component type twice when the known entities are distinct and
/// so are the component types.
pub proof fn lemma_plan_pairs_unique(
    entries: Seq<(EntityUuid, TransactionEntityInfo)>,
    registered: Seq<ComponentTypeUuid>,
)
    requires
        crate::keymap::keys_unique(entries),
        registered.no_duplicates(),
    ensures
        plan_pairs(comparison_plan(entries, registered)).no_duplicates(),
    decreases entries.len(),
{
    if entries.len() > 0 {
        let init_entries = entries.drop_last();
        assert(crate::keymap::keys_unique(init_entries)) by {
            assert forall|i: int, j: int| 0 <= i < init_entries.len() && 0 <= j < init_entries.len() && i != j implies
                init_entries[i].0 != init_entries[j].0 by {
                assert(init_entries[i] == entries[i] && init_entries[j] == entries[j]);
            }
        }
        lemma_plan_pairs_unique(init_entries, registered);
        let init = comparison_plan(init_entries, registered);
        let last = requests_for(entries.last(), registered);
        let plan = comparison_plan(entries, registered);
        let pp = plan_pairs(plan);
        assert forall|a: int, b: int| 0 <= a < pp.len() && 0 <= b < pp.len() && a != b implies pp[a] != pp[b] by {
            if a < init.len() && b < init.len() {
                assert(plan[a] == init[a] && plan[b] == init[b]);
                assert(plan_pairs(init)[a] == pp[a] && plan_pairs(init)[b] == pp[b]);
            } else if a >= init.len() && b >= init.len() {
                assert(plan[a] == last[a - init.len()] && plan[b] == last[b - init.len()]);
                assert(registered[a - init.len()] != registered[b - init.len()]);
            } else {
                let (x, y) = if a < init.len() { (a, b) } else { (b, a) };
                assert(plan[x] == init[x]);
                lemma_plan_members(init_entries, registered, x);
                let i = choose|i: int| 0 <= i < init_entries.len() && init_entries[i].0 == init[x].entity_uuid;
                assert(init_entries[i] == entries[i]);
                assert(plan[y] == last[y - init.len()]);
                assert(plan[y].entity_uuid == entries[entries.len() - 1].0);
            }
        }
    }
}

/// The component diffs of a transaction name, in order, the entity and component type of
/// each comparison that found a change, both ways alike.
proof fn lemma_component_diff_pairs(found: Seq<ComponentComparison>)
    requires
        forall|i: int| 0 <= i < found.len() ==> comparison_consistent(#[trigger] found[i]),
    ensures
        diff_pairs(apply_component_diffs(found)) == changed_pairs(found),
        diff_pairs(revert_component_diffs(found)) == changed_pairs(found),
    decreases found.len(),
{
    if found.len() > 0 {
        let init = found.drop_last();
        assert forall|i: int| 0 <= i < init.len() implies comparison_consistent(#[trigger] init[i]) by {
            assert(init[i] == found[i]);
        }
        lemma_component_diff_pairs(init);
        assert(comparison_consistent(found[found.len() - 1]));
        assert(diff_pairs(apply_component_diffs(found)) =~= changed_pairs(found));
        assert(diff_pairs(revert_component_diffs(found)) =~= changed_pairs(found));
    }
}

/// The changed pairs are among the pairs compared, and distinct when those are.
proof fn lemma_changed_pairs_within(found: Seq<ComponentComparison>)
    ensures
        forall|k: int| 0 <= k < changed_pairs(found).len() ==> comparison_pairs(found).contains(
            #[trigger] changed_pairs(found)[k],
        ),
        comparison_pairs(found).no_duplicates() ==> changed_pairs(found).no_duplicates(),
    decreases found.len(),
{
    if found.len() > 0 {
        let init = found.drop_last();
        lemma_changed_pairs_within(init);
        let cp = comparison_pairs(found);
        let ci = comparison_pairs(init);
        assert(ci =~= cp.drop_last());
        let ch = changed_pairs(found);
        let chi = changed_pairs(init);
        assert forall|k: int| 0 <= k < ch.len() implies cp.contains(#[trigger] ch[k]) by {
            if k < chi.len() {
                assert(ch[k] == chi[k]);
                let m = choose|m: int| 0 <= m < ci.len() && ci[m] == chi[k];
                assert(cp[m] == ci[m]);
            } else {
                assert(cp[cp.len() - 1] == ch[k]);
            }
        }
        if cp.no_duplicates() {
            assert(ci.no_duplicates()) by {
                assert forall|a: int, b: int| 0 <= a < ci.len() && 0 <= b < ci.len() && a != b implies ci[a] != ci[b] by {
                    assert(ci[a] == cp[a] && ci[b] == cp[b]);
                }
            }
            if found.last().apply_result != DiffSingleResult::NoChange {
                let x = cp[cp.len() - 1];
                assert(!chi.contains(x)) by {
                    if chi.contains(x) {
                        let k = choose|k: int| 0 <= k < chi.len() && chi[k] == x;
                        let m = choose|m: int| 0 <= m < ci.len() && ci[m] == chi[k];
                        assert(cp[m] == x);
                    }
                }
                assert forall|a: int, b: int| 0 <= a < ch.len() && 0 <= b < ch.len() && a != b implies ch[a] != ch[b] by {
                    if a < chi.len() && b < chi.len() {
                        assert(ch[a] == chi[a] && ch[b] == chi[b]);
                    } else if a < chi.len() {
                        assert(ch[a] == chi[a]);
                        assert(chi.contains(chi[a]));
                    } else if b < chi.len() {
                        assert(ch[b] == chi[b]);
                        assert(chi.contains(chi[b]));
                    }
                }
            }
        }
    }
}

/// The comparisons that found a change, in order.
pub open spec fn changed_comparisons(found: Seq<ComponentComparison>) -> Seq<ComponentComparison>
    decreases found.len(),
{
    if found.len() == 0 {
        Seq::empty()
    } else if found.last().apply_result != DiffSingleResult::NoChange {
        changed_comparisons(found.drop_last()).push(found.last())
    } else {
        changed_comparisons(found.drop_last())
    }
}

/// `op` is the change that a comparison with result `result` and data `data` found: an
/// addition or a change carrying that data, or a removal.
pub open spec fn carries_change(op: ComponentDiffOp, result: DiffSingleResult, data: Vec<u8>) -> bool {
    match result {
        DiffSingleResult::Add => op == ComponentDiffOp::Add(data),
        DiffSingleResult::Change => op == ComponentDiffOp::Change(data),
        DiffSingleResult::Remove => op == ComponentDiffOp::Remove,
        DiffSingleResult::NoChange => false,
    }
}

/// Every comparison that found a change gives, at the same place, a diff that applies the
/// change found from the world before to the world after, and a diff that reverts it with the
/// change found the other way; the two diffs name the comparison's entity and component type.
pub proof fn lemma_component_diffs_follow_comparisons(found: Seq<ComponentComparison>)
    requires
        forall|i: int| 0 <= i < found.len() ==> comparison_consistent(#[trigger] found[i]),
    ensures
        apply_component_diffs(found).len() == changed_comparisons(found).len(),
        revert_component_diffs(found).len() == changed_comparisons(found).len(),
        forall|k: int| 0 <= k < changed_comparisons(found).len() ==> {
            let c = #[trigger] changed_comparisons(found)[k];
            &&& apply_component_diffs(found)[k].entity_uuid == c.entity_uuid
            &&& apply_component_diffs(found)[k].component_type == c.component_type
            &&& carries_change(apply_component_diffs(found)[k].op, c.apply_result, c.apply_data)
            &&& revert_component_diffs(found)[k].entity_uuid == c.entity_uuid
            &&& revert_component_diffs(found)[k].component_type == c.component_type
            &&& carries_change(revert_component_diffs(found)[k].op, c.revert_result, c.revert_data)
        },
    decreases found.len(),
{
    if found.len() > 0 {
        let init = found.drop_last();
        assert forall|i: int| 0 <= i < init.len() implies comparison_consistent(#[trigger] init[i]) by {
            assert(init[i] == found[i]);
        }
        lemma_component_diffs_follow_comparisons(init);
        assert(comparison_consistent(found[found.len() - 1]));
        let ch = changed_comparisons(found);
        let chi = changed_comparisons(init);
        assert forall|k: int| 0 <= k < ch.len() implies {
            let c = #[trigger] ch[k];
            &&& apply_component_diffs(found)[k].entity_uuid == c.entity_uuid
            &&& apply_component_diffs(found)[k].component_type == c.component_type
            &&& carries_change(apply_component_diffs(found)[k].op, c.apply_result, c.apply_data)
            &&& revert_component_diffs(found)[k].entity_uuid == c.entity_uuid
            &&& revert_component_diffs(found)[k].component_type == c.component_type
            &&& carries_change(revert_component_diffs(found)[k].op, c.revert_result, c.revert_data)
        } by {
            if k < chi.len() {
                assert(ch[k] == chi[k]);
                assert(apply_component_diffs(found)[k] == apply_component_diffs(init)[k]);
                assert(revert_component_diffs(found)[k] == revert_component_diffs(init)[k]);
            }
        }
    }
}

/// A comparison that found a change, which must then be found the other way too.
pub open spec fn comparison_consistent(c: ComponentComparison) -> bool {
    c.apply_result != DiffSingleResult::NoChange ==> c.revert_result != DiffSingleResult::NoChange
}

/// The component diffs that apply a change: one per comparison that found a change, in order.
pub open spec fn apply_component_diffs(found: Seq<ComponentComparison>) -> Seq<ComponentDiff>
    decreases found.len(),
{
    if found.len() == 0 {
        Seq::empty()
    } else {
        let rest = apply_component_diffs(found.drop_last());
        let c = found.last();
        match spec_op_from_result(c.apply_result, c.apply_data) {
            Some(op) => rest.push(ComponentDiff { entity_uuid: c.entity_uuid, component_type: c.component_type, op }),
            None => rest,
        }
    }
}

/// The component diffs that revert a change: for each comparison that found a change, the
/// comparison the other way, in order.
pub open spec fn revert_component_diffs(found: Seq<ComponentComparison>) -> Seq<ComponentDiff>
    decreases found.len(),
{
    if found.len() == 0 {
        Seq::empty()
    } else {
        let rest = revert_component_diffs(found.drop_last());
        let c = found.last();
        if c.apply_result == DiffSingleResult::NoChange {
            rest
        } else {
            match spec_op_from_result(c.revert_result, c.revert_data) {
                Some(op) => rest.push(ComponentDiff { entity_uuid: c.entity_uuid, component_type: c.component_type, op }),
                None => rest,
            }
        }
    }
}

/// `map` without the keys `keys`.
pub open spec fn without_keys(map: Map<EntityUuid, TransactionEntityInfo>, keys: Seq<EntityUuid>) -> Map<EntityUuid, TransactionEntityInfo>
    decreases keys.len(),
{
    if keys.len() == 0 {
        map
    } else {
        without_keys(map, keys.drop_last()).remove(keys.last())
    }
}

/// Whether `v` holds `e`.
fn contains_entity(v: &Vec<Entity>, e: &Entity) -> (res: bool)
    ensures
        res == v@.contains(*e),
{
    let mut i: usize = 0;
    while i < v.len()
        invariant
            i <= v@.len(),
            forall|j: int| 0 <= j < i ==> v@[j] != *e,
        decreases v@.len() - i,
    {
        if v[i] == *e {
            return true;
        }
        i = i + 1;
    }
    false
}

/// The known entity `entry` was deleted by the change: its entity after the change is not
/// among `live`.
pub open spec fn is_removed_entry(entry: (EntityUuid, TransactionEntityInfo), live: Seq<Entity>) -> bool {
    match entry.1.after_entity {
        Some(a) => !live.contains(a),
        None => false,
    }
}

/// The created entities are given distinct identifiers that the transaction did not know.
pub open spec fn fresh_created(map: Map<EntityUuid, TransactionEntityInfo>, created: Seq<(EntityUuid, Entity)>) -> bool {
    &&& forall|i: int, j: int| 0 <= i < created.len() && 0 <= j < created.len() && i != j ==> created[i].0 != created[j].0
    &&& forall|i: int| 0 <= i < created.len() ==> !map.dom().contains(#[trigger] created[i].0)
}

/// The deleted identifiers are exactly those of the deleted known entities.
proof fn lemma_removed_uuids(entries: Seq<(EntityUuid, TransactionEntityInfo)>, live: Seq<Entity>)
    ensures
        forall|k: int| 0 <= k < removed_uuids(entries, live).len() ==> exists|i: int| 0 <= i < entries.len()
            && entries[i].0 == #[trigger] removed_uuids(entries, live)[k] && is_removed_entry(entries[i], live),
        forall|i: int| 0 <= i < entries.len() && is_removed_entry(#[trigger] entries[i], live) ==> removed_uuids(
            entries,
            live,
        ).contains(entries[i].0),
    decreases entries.len(),
{
    if entries.len() > 0 {
        let init = entries.drop_last();
        lemma_removed_uuids(init, live);
        let r = removed_uuids(entries, live);
        let ri = removed_uuids(init, live);
        assert forall|k: int| 0 <= k < r.len() implies exists|i: int| 0 <= i < entries.len()
            && entries[i].0 == #[trigger] r[k] && is_removed_entry(entries[i], live) by {
            if k < ri.len() {
                assert(r[k] == ri[k]);
                let i = choose|i: int| 0 <= i < init.len() && init[i].0 == ri[k] && is_removed_entry(init[i], live);
                assert(entries[i] == init[i]);
            } else {
                assert(entries[entries.len() - 1].0 == r[k]);
            }
        }
        assert forall|i: int| 0 <= i < entries.len() && is_removed_entry(#[trigger] entries[i], live) implies r.contains(
            entries[i].0,
        ) by {
            if i < init.len() {
                assert(init[i] == entries[i]);
                let k = choose|k: int| 0 <= k < ri.len() && ri[k] == init[i].0;
                assert(r[k] == ri[k]);
            } else {
                assert(r[r.len() - 1] == entries[i].0);
            }
        }
    }
}

/// The created entities are exactly the entities of `live` that no known entity stands for.
proof fn lemma_created_entities(entries: Seq<(EntityUuid, TransactionEntityInfo)>, live: Seq<Entity>)
    ensures
        forall|k: int| 0 <= k < created_entities(entries, live).len() ==> live.contains(
            #[trigger] created_entities(entries, live)[k],
        ) && !is_known_after(entries, created_entities(entries, live)[k]),
        forall|j: int| 0 <= j < live.len() && !is_known_after(entries, #[trigger] live[j]) ==> created_entities(
            entries,
            live,
        ).contains(live[j]),
    decreases live.len(),
{
    if live.len() > 0 {
        let init = live.drop_last();
        lemma_created_entities(entries, init);
        let c = created_entities(entries, live);
        let ci = created_entities(entries, init);
        assert forall|k: int| 0 <= k < c.len() implies live.contains(#[trigger] c[k]) && !is_known_after(entries, c[k]) by {
            if k < ci.len() {
                assert(c[k] == ci[k]);
                let j = choose|j: int| 0 <= j < init.len() && init[j] == ci[k];
                assert(live[j] == init[j]);
            } else {
                assert(live[live.len() - 1] == c[k]);
            }
        }
        assert forall|j: int| 0 <= j < live.len() && !is_known_after(entries, #[trigger] live[j]) implies c.contains(live[j]) by {
            if j < init.len() {
                assert(init[j] == live[j]);
                let k = choose|k: int| 0 <= k < ci.len() && ci[k] == init[j];
                assert(c[k] == ci[k]);
            } else {
                assert(c[c.len() - 1] == live[j]);
            }
        }
    }
}

/// What adding fresh created entities does to the map of known entities.
proof fn lemma_with_created(map: Map<EntityUuid, TransactionEntityInfo>, created: Seq<(EntityUuid, Entity)>)
    requires
        fresh_created(map, created),
    ensures
        forall|u: EntityUuid| #[trigger] with_created(map, created).dom().contains(u) <==> (map.dom().contains(u) || exists|i: int|
            0 <= i < created.len() && created[i].0 == u),
        forall|u: EntityUuid| #[trigger] map.dom().contains(u) ==> with_created(map, created)[u] == map[u],
        forall|i: int| 0 <= i < created.len() ==> with_created(map, created)[#[trigger] created[i].0] == (TransactionEntityInfo {
            before_entity: None,
            after_entity: Some(created[i].1),
        }),
    decreases created.len(),
{
    if created.len() > 0 {
        let init = created.drop_last();
        assert(fresh_created(map, init)) by {
            assert forall|i: int| 0 <= i < init.len() implies !map.dom().contains(#[trigger] init[i].0) by {
                assert(init[i] == created[i]);
            }
            assert forall|i: int, j: int| 0 <= i < init.len() && 0 <= j < init.len() && i != j implies init[i].0 != init[j].0 by {
                assert(init[i] == created[i] && init[j] == created[j]);
            }
        }
        lemma_with_created(map, init);
        let w = with_created(map, created);
        let wi = with_created(map, init);
        let last = created[created.len() - 1];
        assert forall|u: EntityUuid| #[trigger] w.dom().contains(u) <==> (map.dom().contains(u) || exists|i: int|
            0 <= i < created.len() && created[i].0 == u) by {
            if exists|i: int| 0 <= i < created.len() && created[i].0 == u {
                let i = choose|i: int| 0 <= i < created.len() && created[i].0 == u;
                if i < init.len() {
                    assert(init[i] == created[i]);
                }
            }
            if exists|i: int| 0 <= i < init.len() && init[i].0 == u {
                let i = choose|i: int| 0 <= i < init.len() && init[i].0 == u;
                assert(init[i] == created[i]);
            }
        }
        assert forall|u: EntityUuid| #[trigger] map.dom().contains(u) implies w[u] == map[u] by {
            assert(u != last.0);
        }
        assert forall|i: int| 0 <= i < created.len() implies w[#[trigger] created[i].0] == (TransactionEntityInfo {
            before_entity: None,
            after_entity: Some(created[i].1),
        }) by {
            if i < init.len() {
                assert(init[i] == created[i]);
                assert(created[i].0 != last.0);
            }
        }
    }
}

/// What forgetting `keys` does to the map of known entities.
proof fn lemma_without_keys(map: Map<EntityUuid, TransactionEntityInfo>, keys: Seq<EntityUuid>)
    ensures
        forall|u: EntityUuid| #[trigger] without_keys(map, keys).dom().contains(u) <==> (map.dom().contains(u)
            && !keys.contains(u)),
        forall|u: EntityUuid| #[trigger] without_keys(map, keys).dom().contains(u) ==> without_keys(map, keys)[u] == map[u],
    decreases keys.len(),
{
    if keys.len() > 0 {
        let init = keys.drop_last();
        lemma_without_keys(map, init);
        let w = without_keys(map, keys);
        let wi = without_keys(map, init);
        assert(w == wi.remove(keys.last()));
        assert forall|u: EntityUuid| #[trigger] w.dom().contains(u) <==> (map.dom().contains(u) && !keys.contains(u)) by {
            if keys.contains(u) && u != keys.last() {
                let k = choose|k: int| 0 <= k < keys.len() && keys[k] == u;
                assert(k < init.len());
                assert(init[k] == u);
                assert(init.contains(u));
            }
            if init.contains(u) {
                let k = choose|k: int| 0 <= k < init.len() && init[k] == u;
                assert(keys[k] == u);
            }
            assert(keys[keys.len() - 1] == keys.last());
        }
        assert forall|u: EntityUuid| #[trigger] w.dom().contains(u) implies w[u] == map[u] by {
            assert(wi.dom().contains(u));
        }
    }
}

/// A change that leaves the world as it was gives no diffs: when every known entity is still
/// there, no entity of the world is new, and no comparison found a change, nothing is deleted
/// or created and there are no component diffs either way.
pub proof fn lemma_unchanged_world_gives_no_diffs(
    entries: Seq<(EntityUuid, TransactionEntityInfo)>,
    live: Seq<Entity>,
    found: Seq<ComponentComparison>,
)
    requires
        forall|i: int| 0 <= i < entries.len() ==> !is_removed_entry(#[trigger] entries[i], live),
        forall|j: int| 0 <= j < live.len() ==> is_known_after(entries, #[trigger] live[j]),
        forall|k: int| 0 <= k < found.len() ==> (#[trigger] found[k]).apply_result == DiffSingleResult::NoChange,
    ensures
        removed_uuids(entries, live).len() == 0,
        created_entities(entries, live).len() == 0,
        apply_entity_diffs(removed_uuids(entries, live), Seq::empty()).len() == 0,
        revert_entity_diffs(removed_uuids(entries, live), Seq::empty()).len() == 0,
        apply_component_diffs(found).len() == 0,
        revert_component_diffs(found).len() == 0,
    decreases found.len(),
{
    lemma_removed_uuids(entries, live);
    lemma_created_entities(entries, live);
    if removed_uuids(entries, live).len() > 0 {
        let i = choose|i: int| 0 <= i < entries.len() && entries[i].0 == removed_uuids(entries, live)[0]
            && is_removed_entry(entries[i], live);
        assert(!is_removed_entry(entries[i], live));
    }
    if created_entities(entries, live).len() > 0 {
        let c = created_entities(entries, live);
        assert(live.contains(c[0]));
        let j = choose|j: int| 0 <= j < live.len() && live[j] == c[0];
        assert(is_known_after(entries, live[j]));
    }
    if found.len() > 0 {
        let init = found.drop_last();
        assert forall|k: int| 0 <= k < init.len() implies (#[trigger] init[k]).apply_result == DiffSingleResult::NoChange by {
            assert(init[k] == found[k]);
        }
        lemma_unchanged_world_gives_no_diffs(entries, live, init);
        assert(found[found.len() - 1].apply_result == DiffSingleResult::NoChange);
    }
}

/// An entity change is reported once. After a transaction found its entity changes against
/// `live`, gave the created entities fresh identifiers and forgot the deleted ones, looking
/// again at the same `live` finds nothing deleted and nothing created.
pub proof fn lemma_second_detection_finds_nothing(
    entries0: Seq<(EntityUuid, TransactionEntityInfo)>,
    live: Seq<Entity>,
    created: Seq<(EntityUuid, Entity)>,
    entries2: Seq<(EntityUuid, TransactionEntityInfo)>,
)
    requires
        crate::keymap::keys_unique(entries0),
        created.len() == created_entities(entries0, live).len(),
        forall|i: int| 0 <= i < created.len() ==> #[trigger] created[i].1 == created_entities(entries0, live)[i],
        fresh_created(crate::keymap::map_of(entries0), created),
        crate::keymap::keys_unique(entries2),
        crate::keymap::map_of(entries2) == without_keys(
            with_created(crate::keymap::map_of(entries0), created),
            removed_uuids(entries0, live),
        ),
    ensures
        removed_uuids(entries2, live).len() == 0,
        created_entities(entries2, live).len() == 0,
{
    let m0 = crate::keymap::map_of(entries0);
    let m1 = with_created(m0, created);
    let removed = removed_uuids(entries0, live);
    let m2 = crate::keymap::map_of(entries2);
    lemma_removed_uuids(entries0, live);
    lemma_created_entities(entries0, live);
    lemma_with_created(m0, created);
    lemma_without_keys(m1, removed);
    // Every known identifier stands, after the change, for none or for an entity of `live`.
    assert forall|u: EntityUuid| #[trigger] m2.dom().contains(u) implies !is_removed_entry((u, m2[u]), live) by {
        if exists|i: int| 0 <= i < created.len() && created[i].0 == u {
            let i = choose|i: int| 0 <= i < created.len() && created[i].0 == u;
            assert(m1[created[i].0] == (TransactionEntityInfo { before_entity: None, after_entity: Some(created[i].1) }));
            assert(live.contains(created_entities(entries0, live)[i]));
        } else {
            assert(m0.dom().contains(u));
            crate::keymap::lemma_map_of_dom(entries0, u);
            let i = choose|i: int| 0 <= i < entries0.len() && entries0[i].0 == u;
            crate::keymap::lemma_map_of_index(entries0, i);
            if is_removed_entry(entries0[i], live) {
                assert(removed.contains(entries0[i].0));
            }
        }
    }
    // Every entity of `live` is stood for by a known identifier.
    assert forall|j: int| 0 <= j < live.len() implies exists|u: EntityUuid| #[trigger] m2.dom().contains(u)
        && m2[u].after_entity == Some(#[trigger] live[j]) by {
        let e = live[j];
        if is_known_after(entries0, e) {
            let i = choose|i: int| 0 <= i < entries0.len() && entries0[i].1.after_entity == Some(e);
            let u = entries0[i].0;
            crate::keymap::lemma_map_of_index(entries0, i);
            assert(!exists|c: int| 0 <= c < created.len() && created[c].0 == u);
            if removed.contains(u) {
                let k = choose|k: int| 0 <= k < removed.len() && removed[k] == u;
                let i2 = choose|i2: int| 0 <= i2 < entries0.len() && entries0[i2].0 == removed[k] && is_removed_entry(
                    entries0[i2],
                    live,
                );
                assert(i2 == i);
            }
            assert(m2.dom().contains(u));
        } else {
            let cs = created_entities(entries0, live);
            assert(cs.contains(live[j]));
            let k = choose|k: int| 0 <= k < cs.len() && cs[k] == e;
            let u = created[k].0;
            assert(m1.dom().contains(u));
            if removed.contains(u) {
                let r = choose|r: int| 0 <= r < removed.len() && removed[r] == u;
                let i2 = choose|i2: int| 0 <= i2 < entries0.len() && entries0[i2].0 == removed[r] && is_removed_entry(
                    entries0[i2],
                    live,
                );
                crate::keymap::lemma_map_of_index(entries0, i2);
            }
            assert(m2.dom().contains(u));
            assert(m2[u] == m1[created[k].0]);
        }
    }
    lemma_removed_uuids(entries2, live);
    lemma_created_entities(entries2, live);
    if removed_uuids(entries2, live).len() > 0 {
        let r2 = removed_uuids(entries2, live);
        let i = choose|i: int| 0 <= i < entries2.len() && entries2[i].0 == r2[0] && is_removed_entry(entries2[i], live);
        crate::keymap::lemma_map_of_index(entries2, i);
        assert(m2.dom().contains(entries2[i].0));
        assert(!is_removed_entry((entries2[i].0, m2[entries2[i].0]), live));
    }
    if created_entities(entries2, live).len() > 0 {
        let c2 = created_entities(entries2, live);
        let e = c2[0];
        let j = choose|j: int| 0 <= j < live.len() && live[j] == e;
        let u = choose|u: EntityUuid| #[trigger] m2.dom().contains(u) && m2[u].after_entity == Some(live[j]);
        crate::keymap::lemma_map_of_dom(entries2, u);
        let i = choose|i: int| 0 <= i < entries2.len() && entries2[i].0 == u;
        crate::keymap::lemma_map_of_index(entries2, i);
        assert(entries2[i].1.after_entity == Some(e));
        assert(is_known_after(entries2, e));
    }
}

impl Transaction {
    /// Finds the entity changes: every known entity whose entity after the change is not among
    /// `live` (the entities the world after the change holds) was deleted; every entity of
    /// `live` that no known entity stands for was created, and gets a new random identifier,
    /// under which the transaction now knows it.
    pub fn detect_entity_changes(&mut self, live: &Vec<Entity>) -> (res: EntityChanges)
        ensures
            res.removed@ == removed_uuids(old(self).uuid_to_entities.spec_entries(), live@),
            res.created@.len() == created_entities(old(self).uuid_to_entities.spec_entries(), live@).len(),
            forall|i: int|
                0 <= i < res.created@.len() ==> #[trigger] res.created@[i].1 == created_entities(
                    old(self).uuid_to_entities.spec_entries(),
                    live@,
                )[i],
            res.apply_entity_diffs@ == apply_entity_diffs(res.removed@, res.created@),
            res.revert_entity_diffs@ == revert_entity_diffs(res.removed@, res.created@),
            final(self).uuid_to_entities@ == with_created(old(self).uuid_to_entities@, res.created@),
            forall|i: int| 0 <= i < res.created@.len() ==> is_v4_uuid(#[trigger] res.created@[i].0),
    {
        let ghost entries0 = self.uuid_to_entities.spec_entries();
        let keys = self.uuid_to_entities.keys();
        let mut removed: Vec<EntityUuid> = Vec::new();
        let mut preexisting: Vec<Entity> = Vec::new();
        let mut i: usize = 0;
        while i < keys.len()
            invariant
                entries0 == self.uuid_to_entities.spec_entries(),
                crate::keymap::keys_unique(entries0),
                self.uuid_to_entities == old(self).uuid_to_entities,
                keys@.len() == entries0.len(),
                forall|j: int| 0 <= j < keys@.len() ==> #[trigger] keys@[j] == entries0[j].0,
                forall|a: int, b: int| 0 <= a < keys@.len() && 0 <= b < keys@.len() && a != b ==> keys@[a] != keys@[b],
                i <= keys@.len(),
                removed@ == removed_uuids(entries0.take(i as int), live@),
                forall|e: Entity| #[trigger] preexisting@.contains(e) <==> is_known_after(entries0.take(i as int), e),
            decreases keys@.len() - i,
        {
            let k = keys[i];
            proof {
                crate::keymap::lemma_map_of_dom(entries0, k);
                crate::keymap::lemma_map_of_index(entries0, i as int);
                assert(entries0.take(i + 1).drop_last() =~= entries0.take(i as int));
                assert(entries0.take(i + 1).last() == entries0[i as int]);
            }
            let info = *self.uuid_to_entities.get(&k).unwrap();
            assert(info == entries0[i as int].1) by {
                crate::keymap::lemma_map_of_index(entries0, i as int);
            }
            let ghost pre_before = preexisting@;
            if let Some(after) = info.after_entity {
                if !contains_entity(live, &after) {
                    removed.push(k);
                }
                preexisting.push(after);
            }
            proof {
                assert forall|e: Entity| #[trigger] preexisting@.contains(e) <==> is_known_after(entries0.take(i + 1), e) by {
                    let t = entries0.take(i + 1);
                    if is_known_after(entries0.take(i as int), e) {
                        let j = choose|j: int| 0 <= j < i && entries0.take(i as int)[j].1.after_entity == Some(e);
                        assert(t[j] == entries0.take(i as int)[j]);
                    }
                    if is_known_after(t, e) {
                        let j = choose|j: int| 0 <= j < t.len() && t[j].1.after_entity == Some(e);
                        if j < i {
                            assert(t[j] == entries0.take(i as int)[j]);
                        }
                    }
                    if info.after_entity == Some(e) {
                        assert(t[i as int].1.after_entity == Some(e));
                    }
                    if preexisting@.contains(e) && !pre_before.contains(e) {
                        assert(preexisting@.last() == e);
                    }
                    if pre_before.contains(e) {
                        let j = choose|j: int| 0 <= j < pre_before.len() && pre_before[j] == e;
                        assert(preexisting@[j] == e);
                    }
                }
            }
            i = i + 1;
        }
        proof {
            assert(entries0.take(keys@.len() as int) =~= entries0);
        }
        let mut created: Vec<(EntityUuid, Entity)> = Vec::new();
        let mut j: usize = 0;
        while j < live.len()
            invariant
                entries0 == old(self).uuid_to_entities.spec_entries(),
                forall|e: Entity| #[trigger] preexisting@.contains(e) <==> is_known_after(entries0, e),
                j <= live@.len(),
                created@.len() == created_entities(entries0, live@.take(j as int)).len(),
                forall|m: int|
                    0 <= m < created@.len() ==> #[trigger] created@[m].1 == created_entities(entries0, live@.take(j as int))[m],
                self.uuid_to_entities@ == with_created(old(self).uuid_to_entities@, created@),
                forall|m: int| 0 <= m < created@.len() ==> is_v4_uuid(#[trigger] created@[m].0),
            decreases live@.len() - j,
        {
            let e = live[j];
            proof {
                assert(live@.take(j + 1).drop_last() =~= live@.take(j as int));
                assert(live@.take(j + 1).last() == e);
            }
            if !contains_entity(&preexisting, &e) {
                let uuid = new_random_uuid();
                let ghost before = created@;
                created.push((uuid, e));
                self.uuid_to_entities.insert(uuid, TransactionEntityInfo::new(None, Some(e)));
                proof {
                    assert(created@.drop_last() =~= before);
                }
            }
            j = j + 1;
        }
        proof {
            assert(live@.take(live@.len() as int) =~= live@);
        }
        let mut apply_entity_diffs: Vec<EntityDiff> = Vec::new();
        let mut revert_entity_diffs: Vec<EntityDiff> = Vec::new();
        let mut r: usize = 0;
        while r < removed.len()
            invariant
                r <= removed@.len(),
                apply_entity_diffs@ == removed@.take(r as int).map_values(
                    |u: EntityUuid| EntityDiff { entity_uuid: u, op: EntityDiffOp::Remove },
                ),
                revert_entity_diffs@ == removed@.take(r as int).map_values(
                    |u: EntityUuid| EntityDiff { entity_uuid: u, op: EntityDiffOp::Add },
                ),
            decreases removed@.len() - r,
        {
            apply_entity_diffs.push(EntityDiff::new(removed[r], EntityDiffOp::Remove));
            revert_entity_diffs.push(EntityDiff::new(removed[r], EntityDiffOp::Add));
            proof {
                assert(removed@.take(r + 1) =~= removed@.take(r as int).push(removed@[r as int]));
            }
            r = r + 1;
        }
        let ghost removed_part_apply = apply_entity_diffs@;
        let ghost removed_part_revert = revert_entity_diffs@;
        proof {
            assert(removed@.take(removed@.len() as int) =~= removed@);
        }
        let mut c: usize = 0;
        while c < created.len()
            invariant
                c <= created@.len(),
                apply_entity_diffs@ == removed_part_apply + created@.take(c as int).map_values(
                    |p: (EntityUuid, Entity)| EntityDiff { entity_uuid: p.0, op: EntityDiffOp::Add },
                ),
                revert_entity_diffs@ == removed_part_revert + created@.take(c as int).map_values(
                    |p: (EntityUuid, Entity)| EntityDiff { entity_uuid: p.0, op: EntityDiffOp::Remove },
                ),
            decreases created@.len() - c,
        {
            apply_entity_diffs.push(EntityDiff::new(created[c].0, EntityDiffOp::Add));
            revert_entity_diffs.push(EntityDiff::new(created[c].0, EntityDiffOp::Remove));
            proof {
                assert(created@.take(c + 1) =~= created@.take(c as int).push(created@[c as int]));
            }
            c = c + 1;
        }
        proof {
            assert(created@.take(created@.len() as int) =~= created@);
        }
        EntityChanges { removed, created, apply_entity_diffs, revert_entity_diffs }
    }

    /// The comparisons the caller is to make for the transaction: for each known entity, in
    /// the order the transaction keeps them, one per component type of `registered`, with the
    /// entities that stand for it before and after the change. No entity and component type is
    /// named twice when the types of `registered` are distinct.
    pub fn comparisons_to_make(&self, registered: &Vec<ComponentTypeUuid>) -> (res: Vec<ComparisonRequest>)
        ensures
            res@ == comparison_plan(self.uuid_to_entities.spec_entries(), registered@),
            registered@.no_duplicates() ==> plan_pairs(res@).no_duplicates(),
    {
        let ghost entries = self.uuid_to_entities.spec_entries();
        let ghost reg = registered@;
        let keys = self.uuid_to_entities.keys();
        let mut res: Vec<ComparisonRequest> = Vec::new();
        let mut i: usize = 0;
        while i < keys.len()
            invariant
                entries == self.uuid_to_entities.spec_entries(),
                reg == registered@,
                keys@.len() == entries.len(),
                forall|j: int| 0 <= j < keys@.len() ==> #[trigger] keys@[j] == entries[j].0,
                crate::keymap::keys_unique(entries),
                i <= keys@.len(),
                res@ == comparison_plan(entries.take(i as int), reg),
            decreases keys@.len() - i,
        {
            let k = keys[i];
            proof {
                crate::keymap::lemma_map_of_dom(entries, k);
                crate::keymap::lemma_map_of_index(entries, i as int);
            }
            let info = *self.uuid_to_entities.get(&k).unwrap();
            assert(info == entries[i as int].1) by {
                crate::keymap::lemma_map_of_index(entries, i as int);
            }
            let ghost start = res@;
            let mut t: usize = 0;
            while t < registered.len()
                invariant
                    reg == registered@,
                    t <= reg.len(),
                    0 <= i < entries.len(),
                    k == entries[i as int].0,
                    info == entries[i as int].1,
                    res@ == start + requests_for(entries[i as int], reg).take(t as int),
                decreases reg.len() - t,
            {
                res.push(
                    ComparisonRequest {
                        entity_uuid: k,
                        component_type: registered[t],
                        before_entity: info.before_entity,
                        after_entity: info.after_entity,
                    },
                );
                proof {
                    assert(requests_for(entries[i as int], reg).take(t + 1) =~= requests_for(entries[i as int], reg).take(
                        t as int,
                    ).push(requests_for(entries[i as int], reg)[t as int]));
                    assert(res@ =~= start + requests_for(entries[i as int], reg).take(t + 1));
                }
                t = t + 1;
            }
            proof {
                assert(requests_for(entries[i as int], reg).take(reg.len() as int) =~= requests_for(entries[i as int], reg));
                assert(entries.take(i + 1).drop_last() =~= entries.take(i as int));
                assert(entries.take(i + 1).last() == entries[i as int]);
            }
            i = i + 1;
        }
        proof {
            assert(entries.take(entries.len() as int) =~= entries);
            if reg.no_duplicates() {
                lemma_plan_pairs_unique(entries, reg);
            }
        }
        res
    }

    /// Finishes the transaction from its entity changes and the component comparisons the
    /// caller made as [`Self::comparisons_to_make`] asks for the component types `registered`:
    /// a comparison that found a change gives a diff that applies it and, from the comparison
    /// the other way, a diff that reverts it. The deleted entities are then forgotten.
    pub fn finish_transaction_diffs(
        &mut self,
        changes: EntityChanges,
        registered: &Vec<ComponentTypeUuid>,
        comparisons: Vec<ComponentComparison>,
    ) -> (res: TransactionDiffs)
        requires
            follows_plan(comparisons@, comparison_plan(old(self).uuid_to_entities.spec_entries(), registered@)),
            forall|i: int| 0 <= i < comparisons@.len() ==> comparison_consistent(#[trigger] comparisons@[i]),
        ensures
            res.apply_diff.entity_diffs@ == changes.apply_entity_diffs@,
            res.revert_diff.entity_diffs@ == changes.revert_entity_diffs@,
            res.apply_diff.component_diffs@ == apply_component_diffs(comparisons@),
            res.revert_diff.component_diffs@ == revert_component_diffs(comparisons@),
            diff_pairs(res.apply_diff.component_diffs@) == diff_pairs(res.revert_diff.component_diffs@),
            res.apply_diff.component_diffs@.len() == changed_comparisons(comparisons@).len(),
            res.revert_diff.component_diffs@.len() == changed_comparisons(comparisons@).len(),
            forall|k: int| 0 <= k < changed_comparisons(comparisons@).len() ==> {
                let c = #[trigger] changed_comparisons(comparisons@)[k];
                &&& carries_change(res.apply_diff.component_diffs@[k].op, c.apply_result, c.apply_data)
                &&& carries_change(res.revert_diff.component_diffs@[k].op, c.revert_result, c.revert_data)
            },
            forall|k: int| 0 <= k < res.apply_diff.component_diffs@.len() ==> {
                &&& registered@.contains((#[trigger] res.apply_diff.component_diffs@[k]).component_type)
                &&& old(self).uuid_to_entities@.dom().contains(res.apply_diff.component_diffs@[k].entity_uuid)
            },
            plan_pairs(comparison_plan(old(self).uuid_to_entities.spec_entries(), registered@)).no_duplicates()
                ==> diff_pairs(res.apply_diff.component_diffs@).no_duplicates(),
            final(self).uuid_to_entities@ == without_keys(old(self).uuid_to_entities@, changes.removed@),
    {
        proof {
            let entries = old(self).uuid_to_entities.spec_entries();
            let plan = comparison_plan(entries, registered@);
            let found = comparisons@;
            lemma_component_diffs_follow_comparisons(found);
            lemma_component_diff_pairs(found);
            lemma_changed_pairs_within(found);
            let ad = apply_component_diffs(found);
            assert forall|k: int| 0 <= k < ad.len() implies {
                &&& registered@.contains((#[trigger] ad[k]).component_type)
                &&& old(self).uuid_to_entities@.dom().contains(ad[k].entity_uuid)
            } by {
                assert(diff_pairs(ad)[k] == changed_pairs(found)[k]);
                let m = choose|m: int| 0 <= m < comparison_pairs(found).len() && comparison_pairs(found)[m]
                    == changed_pairs(found)[k];
                assert(plan_pairs(plan)[m] == comparison_pairs(found)[m]);
                lemma_plan_members(entries, registered@, m);
                let i = choose|i: int| 0 <= i < entries.len() && entries[i].0 == plan[m].entity_uuid;
                crate::keymap::lemma_map_of_dom(entries, plan[m].entity_uuid);
            }
        }
        let ghost found0 = comparisons@;
        let total = comparisons.len();
        let mut pending = comparisons;
        let mut apply_component: Vec<ComponentDiff> = Vec::new();
        let mut revert_component: Vec<ComponentDiff> = Vec::new();
        let mut done: usize = 0;
        while pending.len() > 0
            invariant
                forall|i: int| 0 <= i < found0.len() ==> comparison_consistent(#[trigger] found0[i]),
                done <= found0.len(),
                pending@ == found0.skip(done as int),
                pending@.len() + done == found0.len(),
                found0.len() == total,
                apply_component@ == apply_component_diffs(found0.take(done as int)),
                revert_component@ == revert_component_diffs(found0.take(done as int)),
            decreases pending.len(),
        {
            let item = pending.remove(0);
            proof {
                assert(item == found0[done as int]);
                assert(found0.take(done + 1).drop_last() =~= found0.take(done as int));
                assert(found0.take(done + 1).last() == item);
                assert(pending@ =~= found0.skip(done + 1));
                assert(comparison_consistent(found0[done as int]));
            }
            let ComponentComparison { entity_uuid, component_type, apply_result, apply_data, revert_result, revert_data } = item;
            if apply_result != DiffSingleResult::NoChange {
                let apply = ComponentDiff::new_from_diff_single_result(entity_uuid, component_type, apply_result, apply_data);
                let revert = ComponentDiff::new_from_diff_single_result(entity_uuid, component_type, revert_result, revert_data);
                match (apply, revert) {
                    (Some(a), Some(r)) => {
                        apply_component.push(a);
                        revert_component.push(r);
                    },
                    _ => {},
                }
            }
            done = done + 1;
        }
        proof {
            assert(found0.take(found0.len() as int) =~= found0);
        }
        let EntityChanges { removed, created: _, apply_entity_diffs, revert_entity_diffs } = changes;
        let mut r: usize = 0;
        while r < removed.len()
            invariant
                r <= removed@.len(),
                self.uuid_to_entities@ == without_keys(old(self).uuid_to_entities@, removed@.take(r as int)),
            decreases removed@.len() - r,
        {
            self.uuid_to_entities.remove(&removed[r]);
            proof {
                assert(removed@.take(r + 1).drop_last() =~= removed@.take(r as int));
            }
            r = r + 1;
        }
        proof {
            assert(removed@.take(removed@.len() as int) =~= removed@);
        }
        TransactionDiffs::new(
            WorldDiff::new(apply_entity_diffs, apply_component),
            WorldDiff::new(revert_entity_diffs, revert_component),
        )
    }
}

} // verus!

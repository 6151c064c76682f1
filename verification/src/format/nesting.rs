//! How the calls that reading a file makes are nested: every component of an entity comes
//! between the begin and the end of that entity, every diff between the begin and the end of
//! its prefab reference, and every call names the prefab that the file describes.

use vstd::prelude::*;
use crate::uuids::{EntityUuid, PrefabUuid};
use super::{
    IdText, ComponentEntry, ComponentOverrideEntry, EntityEntry, EntityOverrideEntry, PrefabDoc,
    PrefabEntry, PrefabObject, PrefabRefEntry, StorageEvent,
};
use super::deserialize::{
    ComponentOverride, EntityComponent, EntityOverride, EntityPrefabObject, FormatSeed,
    PrefabObjectDeserializer, PrefabRef, SeqDeserializer, spec_visit_prefab, spec_walk,
};

verus! {

/// Where a reader is: between objects, inside an entity, or inside a prefab reference.
pub enum Nesting {
    Top,
    InEntity(EntityUuid),
    InRef(PrefabUuid),
}

/// Where the reader is after `event`, starting at `n`, for a file describing prefab `p`;
/// `None` where the event cannot come there.
pub open spec fn nest_step<D>(p: PrefabUuid, n: Nesting, event: StorageEvent<D>) -> Option<Nesting> {
    match event {
        StorageEvent::BeginEntityObject { prefab, entity } => if n is Top && prefab == p {
            Some(Nesting::InEntity(entity))
        } else {
            None
        },
        StorageEvent::DeserializeComponent { prefab, entity, .. } => if n == Nesting::InEntity(entity) && prefab == p {
            Some(n)
        } else {
            None
        },
        StorageEvent::EndEntityObject { prefab, entity } => if n == Nesting::InEntity(entity) && prefab == p {
            Some(Nesting::Top)
        } else {
            None
        },
        StorageEvent::BeginPrefabRef { prefab, target_prefab } => if n is Top && prefab == p {
            Some(Nesting::InRef(target_prefab))
        } else {
            None
        },
        StorageEvent::ApplyComponentDiff { parent_prefab, prefab_ref, .. } => if n == Nesting::InRef(prefab_ref)
            && parent_prefab == p {
            Some(n)
        } else {
            None
        },
        StorageEvent::EndPrefabRef { prefab, target_prefab } => if n == Nesting::InRef(target_prefab) && prefab == p {
            Some(Nesting::Top)
        } else {
            None
        },
    }
}

/// Where the reader is after `events`, starting at `n`; `None` where one of them cannot come
/// where it does.
pub open spec fn nest_run<D>(p: PrefabUuid, n: Nesting, events: Seq<StorageEvent<D>>) -> Option<Nesting>
    decreases events.len(),
{
    if events.len() == 0 {
        Some(n)
    } else {
        match nest_step(p, n, events[0]) {
            Some(m) => nest_run(p, m, events.drop_first()),
            None => None,
        }
    }
}

/// The prefab that an event names.
pub open spec fn event_prefab<D>(event: StorageEvent<D>) -> PrefabUuid {
    match event {
        StorageEvent::BeginEntityObject { prefab, .. } => prefab,
        StorageEvent::EndEntityObject { prefab, .. } => prefab,
        StorageEvent::DeserializeComponent { prefab, .. } => prefab,
        StorageEvent::BeginPrefabRef { prefab, .. } => prefab,
        StorageEvent::EndPrefabRef { prefab, .. } => prefab,
        StorageEvent::ApplyComponentDiff { parent_prefab, .. } => parent_prefab,
    }
}

/// The events are well nested for the prefab they start with.
pub open spec fn well_nested<D>(events: Seq<StorageEvent<D>>) -> bool {
    events.len() == 0 || nest_run(event_prefab(events[0]), Nesting::Top, events) is Some
}

/// Running `a` then `b` is running `a + b`.
pub proof fn lemma_nest_run_append<D>(p: PrefabUuid, n: Nesting, a: Seq<StorageEvent<D>>, b: Seq<StorageEvent<D>>)
    ensures
        nest_run(p, n, a + b) == match nest_run(p, n, a) {
            Some(m) => nest_run(p, m, b),
            None => None,
        },
    decreases a.len(),
{
    if a.len() == 0 {
        assert(a + b =~= b);
    } else {
        assert((a + b)[0] == a[0]);
        assert((a + b).drop_first() =~= a.drop_first() + b);
        if let Some(m) = nest_step(p, n, a[0]) {
            lemma_nest_run_append(p, m, a.drop_first(), b);
        }
    }
}

proof fn lemma_component_nest<D, I: IdText>(seed: EntityComponent, entries: Seq<ComponentEntry<D, I>>, cid: Option<[u8; 16]>)
    ensures
        nest_run(seed.prefab_id, Nesting::InEntity(seed.entity_id), seed.spec_visit_map(entries, cid).0)
            == Some(Nesting::InEntity(seed.entity_id)),
    decreases entries.len(),
{
    reveal_with_fuel(nest_run, 2);
    if entries.len() > 0 {
        if let ComponentEntry::Type(_) = entries[0] {
            lemma_component_nest(seed, entries.drop_first(), entries[0]->Type_0.spec_parse());
        }
    }
}

proof fn lemma_components_nest<D, I: IdText>(seed: EntityComponent, list: Seq<Vec<ComponentEntry<D, I>>>)
    ensures
        nest_run(seed.prefab_id, Nesting::InEntity(seed.entity_id), SeqDeserializer(seed).spec_visit_seq(list).0)
            == Some(Nesting::InEntity(seed.entity_id)),
    decreases list.len(),
{
    if list.len() > 0 {
        let first = <EntityComponent as FormatSeed<D, I>>::spec_deserialize(seed, list[0]);
        lemma_component_nest(seed, list[0]@, None);
        lemma_components_nest(seed, list.drop_first());
        if first.1 is None {
            lemma_nest_run_append(
                seed.prefab_id,
                Nesting::InEntity(seed.entity_id),
                first.0,
                SeqDeserializer(seed).spec_visit_seq(list.drop_first()).0,
            );
        }
    }
}

proof fn lemma_entity_object_nest<D, I: IdText>(seed: EntityPrefabObject, entries: Seq<EntityEntry<D, I>>, eid: Option<EntityUuid>)
    ensures
        nest_run(seed.prefab_id, Nesting::Top, seed.spec_visit_map(entries, eid).0) is Some,
        seed.spec_visit_map(entries, eid).1 is None ==> nest_run(
            seed.prefab_id,
            Nesting::Top,
            seed.spec_visit_map(entries, eid).0,
        ) == Some(Nesting::Top),
    decreases entries.len(),
{
    let p = seed.prefab_id;
    if entries.len() > 0 {
        match entries[0] {
            EntityEntry::Id(t) => {
                lemma_entity_object_nest(seed, entries.drop_first(), t.spec_parse());
            },
            EntityEntry::Components(list) => {
                if let Some(e) = eid {
                    let inner_seed = EntityComponent { prefab_id: p, entity_id: e };
                    let inner = SeqDeserializer(inner_seed).spec_visit_seq(list@);
                    let begin = seq![StorageEvent::<D>::BeginEntityObject { prefab: p, entity: e }];
                    let end = seq![StorageEvent::<D>::EndEntityObject { prefab: p, entity: e }];
                    lemma_components_nest(inner_seed, list@);
                    lemma_nest_run_append(p, Nesting::Top, begin, inner.0);
                    assert(nest_run(p, Nesting::Top, begin) == Some(Nesting::InEntity(e))) by {
                        reveal_with_fuel(nest_run, 2);
                        assert(begin.drop_first() =~= Seq::<StorageEvent<D>>::empty());
                    }
                    lemma_nest_run_append(p, Nesting::Top, begin + inner.0, end);
                    assert(nest_run(p, Nesting::InEntity(e), end) == Some(Nesting::Top)) by {
                        reveal_with_fuel(nest_run, 2);
                        assert(end.drop_first() =~= Seq::<StorageEvent<D>>::empty());
                    }
                }
            },
        }
    }
}

proof fn lemma_component_override_nest<D, I: IdText>(
    seed: ComponentOverride,
    entries: Seq<ComponentOverrideEntry<D, I>>,
    cid: Option<[u8; 16]>,
)
    ensures
        nest_run(seed.parent_id, Nesting::InRef(seed.prefab_ref_id), seed.spec_visit_map(entries, cid).0)
            == Some(Nesting::InRef(seed.prefab_ref_id)),
    decreases entries.len(),
{
    reveal_with_fuel(nest_run, 2);
    if entries.len() > 0 {
        if let ComponentOverrideEntry::ComponentType(t) = entries[0] {
            lemma_component_override_nest(seed, entries.drop_first(), t.spec_parse());
        }
    }
}

proof fn lemma_component_overrides_nest<D, I: IdText>(seed: ComponentOverride, list: Seq<Vec<ComponentOverrideEntry<D, I>>>)
    ensures
        nest_run(seed.parent_id, Nesting::InRef(seed.prefab_ref_id), SeqDeserializer(seed).spec_visit_seq(list).0)
            == Some(Nesting::InRef(seed.prefab_ref_id)),
    decreases list.len(),
{
    if list.len() > 0 {
        let first = <ComponentOverride as FormatSeed<D, I>>::spec_deserialize(seed, list[0]);
        lemma_component_override_nest(seed, list[0]@, None);
        lemma_component_overrides_nest(seed, list.drop_first());
        if first.1 is None {
            lemma_nest_run_append(
                seed.parent_id,
                Nesting::InRef(seed.prefab_ref_id),
                first.0,
                SeqDeserializer(seed).spec_visit_seq(list.drop_first()).0,
            );
        }
    }
}

proof fn lemma_entity_override_nest<D, I: IdText>(seed: EntityOverride, entries: Seq<EntityOverrideEntry<D, I>>, eid: Option<EntityUuid>)
    ensures
        nest_run(seed.parent_id, Nesting::InRef(seed.prefab_ref_id), seed.spec_visit_map(entries, eid).0)
            == Some(Nesting::InRef(seed.prefab_ref_id)),
    decreases entries.len(),
{
    if entries.len() > 0 {
        match entries[0] {
            EntityOverrideEntry::EntityId(t) => {
                lemma_entity_override_nest(seed, entries.drop_first(), t.spec_parse());
            },
            EntityOverrideEntry::ComponentOverrides(list) => {
                if let Some(e) = eid {
                    lemma_component_overrides_nest(
                        ComponentOverride { parent_id: seed.parent_id, prefab_ref_id: seed.prefab_ref_id, entity_id: e },
                        list@,
                    );
                }
            },
        }
    }
}

proof fn lemma_entity_overrides_nest<D, I: IdText>(seed: EntityOverride, list: Seq<Vec<EntityOverrideEntry<D, I>>>)
    ensures
        nest_run(seed.parent_id, Nesting::InRef(seed.prefab_ref_id), SeqDeserializer(seed).spec_visit_seq(list).0)
            == Some(Nesting::InRef(seed.prefab_ref_id)),
    decreases list.len(),
{
    if list.len() > 0 {
        let first = <EntityOverride as FormatSeed<D, I>>::spec_deserialize(seed, list[0]);
        lemma_entity_override_nest(seed, list[0]@, None);
        lemma_entity_overrides_nest(seed, list.drop_first());
        if first.1 is None {
            lemma_nest_run_append(
                seed.parent_id,
                Nesting::InRef(seed.prefab_ref_id),
                first.0,
                SeqDeserializer(seed).spec_visit_seq(list.drop_first()).0,
            );
        }
    }
}

proof fn lemma_prefab_ref_nest<D, I: IdText>(seed: PrefabRef, entries: Seq<PrefabRefEntry<D, I>>, rid: Option<PrefabUuid>)
    ensures
        nest_run(seed.parent_id, Nesting::Top, seed.spec_visit_map(entries, rid).0) is Some,
        seed.spec_visit_map(entries, rid).1 is None ==> nest_run(
            seed.parent_id,
            Nesting::Top,
            seed.spec_visit_map(entries, rid).0,
        ) == Some(Nesting::Top),
    decreases entries.len(),
{
    let p = seed.parent_id;
    if entries.len() > 0 {
        match entries[0] {
            PrefabRefEntry::PrefabId(t) => {
                lemma_prefab_ref_nest(seed, entries.drop_first(), t.spec_parse());
            },
            PrefabRefEntry::EntityOverrides(list) => {
                if let Some(r) = rid {
                    let inner_seed = EntityOverride { parent_id: p, prefab_ref_id: r };
                    let inner = SeqDeserializer(inner_seed).spec_visit_seq(list@);
                    let begin = seq![StorageEvent::<D>::BeginPrefabRef { prefab: p, target_prefab: r }];
                    let end = seq![StorageEvent::<D>::EndPrefabRef { prefab: p, target_prefab: r }];
                    lemma_entity_overrides_nest(inner_seed, list@);
                    lemma_nest_run_append(p, Nesting::Top, begin, inner.0);
                    assert(nest_run(p, Nesting::Top, begin) == Some(Nesting::InRef(r))) by {
                        reveal_with_fuel(nest_run, 2);
                        assert(begin.drop_first() =~= Seq::<StorageEvent<D>>::empty());
                    }
                    lemma_nest_run_append(p, Nesting::Top, begin + inner.0, end);
                    assert(nest_run(p, Nesting::InRef(r), end) == Some(Nesting::Top)) by {
                        reveal_with_fuel(nest_run, 2);
                        assert(end.drop_first() =~= Seq::<StorageEvent<D>>::empty());
                    }
                }
            },
        }
    }
}

proof fn lemma_objects_nest<D, I: IdText>(seed: PrefabObjectDeserializer, list: Seq<PrefabObject<D, I>>)
    ensures
        nest_run(seed.prefab_id, Nesting::Top, SeqDeserializer(seed).spec_visit_seq(list).0) is Some,
        SeqDeserializer(seed).spec_visit_seq(list).1 is None ==> nest_run(
            seed.prefab_id,
            Nesting::Top,
            SeqDeserializer(seed).spec_visit_seq(list).0,
        ) == Some(Nesting::Top),
    decreases list.len(),
{
    let p = seed.prefab_id;
    if list.len() > 0 {
        let first = <PrefabObjectDeserializer as FormatSeed<D, I>>::spec_deserialize(seed, list[0]);
        match list[0] {
            PrefabObject::Entity(es) => {
                lemma_entity_object_nest(EntityPrefabObject { prefab_id: p }, es@, None);
            },
            PrefabObject::PrefabRef(es) => {
                lemma_prefab_ref_nest(PrefabRef { parent_id: p }, es@, None);
            },
        }
        lemma_objects_nest(seed, list.drop_first());
        if first.1 is None {
            lemma_nest_run_append(p, Nesting::Top, first.0, SeqDeserializer(seed).spec_visit_seq(list.drop_first()).0);
        }
    }
}

proof fn lemma_visit_prefab_nest<D, I: IdText>(entries: Seq<PrefabEntry<D, I>>, p: PrefabUuid, seen: bool)
    ensures
        nest_run(p, Nesting::Top, spec_visit_prefab(entries, Some(p), seen).0) is Some,
    decreases entries.len(),
{
    if entries.len() > 0 {
        if let PrefabEntry::Objects(list) = entries[0] {
            let seed = PrefabObjectDeserializer { prefab_id: p };
            let objects = SeqDeserializer(seed).spec_visit_seq(list@);
            lemma_objects_nest(seed, list@);
            lemma_visit_prefab_nest(entries.drop_first(), p, true);
            if objects.1 is None {
                lemma_nest_run_append(p, Nesting::Top, objects.0, spec_visit_prefab(entries.drop_first(), Some(p), true).0);
            }
        }
    }
}

proof fn lemma_first_event_prefab<D>(p: PrefabUuid, events: Seq<StorageEvent<D>>)
    requires
        events.len() > 0,
        nest_run(p, Nesting::Top, events) is Some,
    ensures
        event_prefab(events[0]) == p,
{
}

/// Reading any file makes well-nested calls: every call names the prefab that the file
/// describes, every component comes inside its entity and every diff inside its prefab
/// reference, whether or not the file has an error.
pub proof fn lemma_walk_well_nested<D, I: IdText>(doc: PrefabDoc<D, I>)
    ensures
        well_nested(spec_walk(doc).0),
{
    let entries = doc.entries@;
    if entries.len() > 0 {
        if let PrefabEntry::Id(t) = entries[0] {
            if let Some(p) = t.spec_parse() {
                lemma_visit_prefab_nest(entries.drop_first(), p, false);
                let events = spec_walk(doc).0;
                if events.len() > 0 {
                    lemma_first_event_prefab(p, events);
                }
            }
        }
    }
}

} // verus!

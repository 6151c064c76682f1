//! A storage that only collects the prefabs that a file references.

use vstd::prelude::*;
use crate::uuids::{ComponentTypeUuid, EntityUuid, PrefabUuid};
use crate::format::{DeError, IdText, PrefabDoc, StorageEvent};
use crate::format::deserialize::{
    PrefabError, StorageDeserializer, deserialize, spec_replay, spec_replay_callable, spec_walk,
};
use crate::format::serialize::{
    StorageSerializer, describes_prefab, entities_events, entity_events, component_events,
    lemma_read_back, override_events, overrides_events, prefab_ref_events, prefab_refs_events,
    storage_events,
};

verus! {

/// Collects, in file order, the prefabs that the references of a file point to.
pub struct PrefabRefUuidReader {
    pub prefab_ref_uuids: Vec<PrefabUuid>,
}

impl View for PrefabRefUuidReader {
    type V = Seq<PrefabUuid>;

    open spec fn view(&self) -> Seq<PrefabUuid> {
        self.prefab_ref_uuids@
    }
}

impl PrefabRefUuidReader {
    /// A reader that has collected nothing.
    pub fn new() -> (res: Self)
        ensures
            res@ == Seq::<PrefabUuid>::empty(),
    {
        PrefabRefUuidReader { prefab_ref_uuids: Vec::new() }
    }

    /// The prefabs collected so far.
    pub fn into_inner(self) -> (res: Vec<PrefabUuid>)
        ensures
            res@ == self@,
    {
        self.prefab_ref_uuids
    }
}

/// The prefabs that the reference beginnings among `events` point to, in order.
pub open spec fn ref_targets<D>(events: Seq<StorageEvent<D>>) -> Seq<PrefabUuid>
    decreases events.len(),
{
    if events.len() == 0 {
        Seq::empty()
    } else {
        let rest = ref_targets(events.drop_last());
        match events.last() {
            StorageEvent::BeginPrefabRef { target_prefab, .. } => rest.push(target_prefab),
            _ => rest,
        }
    }
}

impl<D> StorageDeserializer<D> for PrefabRefUuidReader {
    type Error = ();

    open spec fn spec_receive(state: Seq<PrefabUuid>, event: StorageEvent<D>) -> Seq<PrefabUuid> {
        match event {
            StorageEvent::BeginPrefabRef { target_prefab, .. } => state.push(target_prefab),
            _ => state,
        }
    }

    open spec fn spec_accepts(state: Seq<PrefabUuid>, event: StorageEvent<D>) -> bool {
        true
    }

    open spec fn spec_callable(state: Seq<PrefabUuid>, event: StorageEvent<D>) -> bool {
        true
    }

    open spec fn spec_refusal(state: Seq<PrefabUuid>, event: StorageEvent<D>) -> () {
        ()
    }

    fn begin_entity_object(&mut self, prefab: &PrefabUuid, entity: &EntityUuid) {
    }

    fn end_entity_object(&mut self, prefab: &PrefabUuid, entity: &EntityUuid) {
    }

    fn deserialize_component(
        &mut self,
        prefab: &PrefabUuid,
        entity: &EntityUuid,
        component_type: &ComponentTypeUuid,
        data: D,
    ) -> (res: Result<(), ()>) {
        Ok(())
    }

    fn begin_prefab_ref(&mut self, prefab: &PrefabUuid, target_prefab: &PrefabUuid) {
        self.prefab_ref_uuids.push(*target_prefab);
    }

    fn end_prefab_ref(&mut self, prefab: &PrefabUuid, target_prefab: &PrefabUuid) {
    }

    fn apply_component_diff(
        &mut self,
        parent_prefab: &PrefabUuid,
        prefab_ref: &PrefabUuid,
        entity: &EntityUuid,
        component_type: &ComponentTypeUuid,
        data: D,
    ) -> (res: Result<(), ()>) {
        Ok(())
    }
}

/// Feeding any events to the reader is allowed, takes every event, and collects the targets of
/// the reference beginnings among them, in order.
pub proof fn lemma_reader_replay<D>(state: Seq<PrefabUuid>, events: Seq<StorageEvent<D>>)
    ensures
        spec_replay_callable::<D, PrefabRefUuidReader>(state, events),
        spec_replay::<D, PrefabRefUuidReader>(state, events) == (state + ref_targets(events), true),
    decreases events.len(),
{
    if events.len() == 0 {
        assert(state + ref_targets(events) =~= state);
    } else {
        let next = <PrefabRefUuidReader as StorageDeserializer<D>>::spec_receive(state, events[0]);
        lemma_reader_replay(next, events.drop_first());
        lemma_ref_targets_append(seq![events[0]], events.drop_first());
        assert(seq![events[0]] + events.drop_first() =~= events);
        assert(ref_targets(seq![events[0]]) =~= match events[0] {
            StorageEvent::BeginPrefabRef { target_prefab, .. } => seq![target_prefab],
            _ => Seq::<PrefabUuid>::empty(),
        }) by {
            reveal_with_fuel(ref_targets, 2);
            assert(seq![events[0]].drop_last() =~= Seq::<StorageEvent<D>>::empty());
        }
        assert(next + ref_targets(events.drop_first()) =~= state + ref_targets(events));
    }
}

/// The targets of `a + b` are those of `a` followed by those of `b`.
pub proof fn lemma_ref_targets_append<D>(a: Seq<StorageEvent<D>>, b: Seq<StorageEvent<D>>)
    ensures
        ref_targets(a + b) == ref_targets(a) + ref_targets(b),
    decreases b.len(),
{
    if b.len() == 0 {
        assert(a + b =~= a);
        assert(ref_targets(a) + ref_targets(b) =~= ref_targets(a));
    } else {
        lemma_ref_targets_append(a, b.drop_last());
        assert((a + b).drop_last() =~= a + b.drop_last());
        assert((a + b).last() == b.last());
        assert(ref_targets(a) + ref_targets(b.drop_last()) + match b.last() {
            StorageEvent::BeginPrefabRef { target_prefab, .. } => seq![target_prefab],
            _ => Seq::<PrefabUuid>::empty(),
        } =~= ref_targets(a) + ref_targets(b));
    }
}

/// Reads the prefabs that a parsed file references, in file order, up to the first error in
/// the file.
pub fn read_prefab_refs<D, I: IdText>(doc: PrefabDoc<D, I>) -> (res: (Result<(), PrefabError<()>>, Vec<PrefabUuid>))
    ensures
        res.1@ == ref_targets(spec_walk(doc).0),
        res.0 is Ok <==> spec_walk(doc).1 is None,
        res.0 matches Err(e) ==> e == PrefabError::<()>::Format(spec_walk(doc).1->Some_0),
{
    let mut reader = PrefabRefUuidReader::new();
    proof {
        lemma_reader_replay::<D>(Seq::empty(), spec_walk(doc).0);
        assert(Seq::<PrefabUuid>::empty() + ref_targets(spec_walk(doc).0) =~= ref_targets(spec_walk(doc).0));
    }
    let result = deserialize(doc, &mut reader);
    let result = match result {
        Ok(()) => Ok(()),
        Err(PrefabError::Format(e)) => Err(PrefabError::Format(e)),
        Err(PrefabError::Storage(_)) => {
            proof {
                assert(false);
            }
            Ok(())
        },
    };
    (result, reader.into_inner())
}

proof fn lemma_no_targets_in_overrides<D, SS: StorageSerializer<D>>(
    storage: SS,
    prefab: PrefabUuid,
    prefab_ref: PrefabUuid,
    overrides: Seq<(EntityUuid, Seq<ComponentTypeUuid>)>,
)
    ensures
        ref_targets(overrides_events(storage, prefab, prefab_ref, overrides)) == Seq::<PrefabUuid>::empty(),
    decreases overrides.len(),
{
    if overrides.len() > 0 {
        lemma_no_targets_in_overrides(storage, prefab, prefab_ref, overrides.drop_first());
        lemma_no_targets_in_override(storage, prefab, prefab_ref, overrides[0].0, overrides[0].1);
        lemma_ref_targets_append(
            override_events(storage, prefab, prefab_ref, overrides[0].0, overrides[0].1),
            overrides_events(storage, prefab, prefab_ref, overrides.drop_first()),
        );
    }
}

proof fn lemma_no_targets_in_override<D, SS: StorageSerializer<D>>(
    storage: SS,
    prefab: PrefabUuid,
    prefab_ref: PrefabUuid,
    entity: EntityUuid,
    types: Seq<ComponentTypeUuid>,
)
    ensures
        ref_targets(override_events(storage, prefab, prefab_ref, entity, types)) == Seq::<PrefabUuid>::empty(),
    decreases types.len(),
{
    if types.len() > 0 {
        let rest = override_events(storage, prefab, prefab_ref, entity, types.drop_first());
        let first = seq![
            StorageEvent::ApplyComponentDiff {
                parent_prefab: prefab,
                prefab_ref,
                entity,
                component_type: types[0],
                data: storage.spec_component_override_diff(prefab_ref, entity, types[0]),
            },
        ];
        lemma_no_targets_in_override(storage, prefab, prefab_ref, entity, types.drop_first());
        lemma_ref_targets_append(first, rest);
        assert(ref_targets(first) =~= Seq::<PrefabUuid>::empty()) by {
            reveal_with_fuel(ref_targets, 2);
            assert(first.drop_last() =~= Seq::<StorageEvent<D>>::empty());
        }
    }
}

proof fn lemma_no_targets_in_components<D, SS: StorageSerializer<D>>(
    storage: SS,
    prefab: PrefabUuid,
    entity: EntityUuid,
    types: Seq<ComponentTypeUuid>,
)
    ensures
        ref_targets(component_events(storage, prefab, entity, types)) == Seq::<PrefabUuid>::empty(),
    decreases types.len(),
{
    if types.len() > 0 {
        let rest = component_events(storage, prefab, entity, types.drop_first());
        let first = seq![
            StorageEvent::DeserializeComponent {
                prefab,
                entity,
                component_type: types[0],
                data: storage.spec_entity_component(entity, types[0]),
            },
        ];
        lemma_no_targets_in_components(storage, prefab, entity, types.drop_first());
        lemma_ref_targets_append(first, rest);
        assert(ref_targets(first) =~= Seq::<PrefabUuid>::empty()) by {
            reveal_with_fuel(ref_targets, 2);
            assert(first.drop_last() =~= Seq::<StorageEvent<D>>::empty());
        }
    }
}

proof fn lemma_no_targets_in_entities<D, SS: StorageSerializer<D>>(
    storage: SS,
    prefab: PrefabUuid,
    entities: Seq<EntityUuid>,
)
    ensures
        ref_targets(entities_events(storage, prefab, entities)) == Seq::<PrefabUuid>::empty(),
    decreases entities.len(),
{
    if entities.len() > 0 {
        let e = entities[0];
        let begin = seq![StorageEvent::<D>::BeginEntityObject { prefab, entity: e }];
        let end = seq![StorageEvent::<D>::EndEntityObject { prefab, entity: e }];
        let comps = component_events(storage, prefab, e, storage.spec_component_types(e));
        lemma_no_targets_in_entities(storage, prefab, entities.drop_first());
        lemma_no_targets_in_components(storage, prefab, e, storage.spec_component_types(e));
        lemma_ref_targets_append(begin, comps);
        lemma_ref_targets_append(begin + comps, end);
        lemma_ref_targets_append(entity_events(storage, prefab, e), entities_events(storage, prefab, entities.drop_first()));
        assert(ref_targets(begin) =~= Seq::<PrefabUuid>::empty()) by {
            reveal_with_fuel(ref_targets, 2);
            assert(begin.drop_last() =~= Seq::<StorageEvent<D>>::empty());
        }
        assert(ref_targets(end) =~= Seq::<PrefabUuid>::empty()) by {
            reveal_with_fuel(ref_targets, 2);
            assert(end.drop_last() =~= Seq::<StorageEvent<D>>::empty());
        }
    }
}

proof fn lemma_targets_of_refs<D, SS: StorageSerializer<D>>(storage: SS, prefab: PrefabUuid, refs: Seq<PrefabUuid>)
    ensures
        ref_targets(prefab_refs_events(storage, prefab, refs)) == refs,
    decreases refs.len(),
{
    if refs.len() == 0 {
        assert(ref_targets(Seq::<StorageEvent<D>>::empty()) =~= refs);
    } else {
        let r = refs[0];
        let begin = seq![StorageEvent::<D>::BeginPrefabRef { prefab, target_prefab: r }];
        let end = seq![StorageEvent::<D>::EndPrefabRef { prefab, target_prefab: r }];
        let inner = overrides_events(storage, prefab, r, storage.spec_prefab_ref_overrides(r));
        lemma_targets_of_refs(storage, prefab, refs.drop_first());
        lemma_no_targets_in_overrides(storage, prefab, r, storage.spec_prefab_ref_overrides(r));
        lemma_ref_targets_append(begin, inner);
        lemma_ref_targets_append(begin + inner, end);
        lemma_ref_targets_append(prefab_ref_events(storage, prefab, r), prefab_refs_events(storage, prefab, refs.drop_first()));
        assert(ref_targets(begin) =~= seq![r]) by {
            reveal_with_fuel(ref_targets, 2);
            assert(begin.drop_last() =~= Seq::<StorageEvent<D>>::empty());
        }
        assert(ref_targets(end) =~= Seq::<PrefabUuid>::empty()) by {
            reveal_with_fuel(ref_targets, 2);
            assert(end.drop_last() =~= Seq::<StorageEvent<D>>::empty());
        }
        assert(seq![r] + refs.drop_first() =~= refs);
    }
}

/// Reading back the references of a written file: the file that
/// [`crate::format::serialize::serialize`] writes for a storage references exactly the prefabs
/// that the storage references, in the same order.
pub proof fn lemma_written_refs_read_back<D, SS: StorageSerializer<D>>(
    doc: PrefabDoc<D, String>,
    storage: SS,
    prefab_id: PrefabUuid,
)
    requires
        describes_prefab(doc, storage, prefab_id),
    ensures
        ref_targets(spec_walk(doc).0) == storage.spec_prefab_refs(),
        spec_walk(doc).1 == Option::<DeError>::None,
{
    lemma_read_back(doc, storage, prefab_id);
    lemma_targets_of_refs(storage, prefab_id, storage.spec_prefab_refs());
    lemma_no_targets_in_entities(storage, prefab_id, storage.spec_entities());
    lemma_ref_targets_append(
        prefab_refs_events(storage, prefab_id, storage.spec_prefab_refs()),
        entities_events(storage, prefab_id, storage.spec_entities()),
    );
    assert(storage.spec_prefab_refs() + Seq::<PrefabUuid>::empty() =~= storage.spec_prefab_refs());
}

} // verus!

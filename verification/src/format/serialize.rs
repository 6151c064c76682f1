//! Writing a prefab file: a storage is asked for its prefab references and its entities, and
//! the file lists the references first, then the entities, each field in the order the format
//! reads them back.

use vstd::prelude::*;
use crate::uuids::{ComponentTypeUuid, EntityUuid, PrefabUuid, hyphenated_text, uuid_from_text, uuid_to_text};
use super::deserialize::{
    ComponentOverride, EntityComponent, EntityOverride, EntityPrefabObject, FormatSeed,
    PrefabObjectDeserializer, PrefabRef, SeqDeserializer, spec_visit_prefab, spec_walk,
};
use super::{
    DeError, then_outcome, ComponentEntry, ComponentOverrideEntry, EntityEntry, EntityOverrideEntry, PrefabDoc,
    PrefabEntry, PrefabObject, PrefabRefEntry, StorageEvent,
};

verus! {

/// A storage that a prefab file is written from.
///
/// Its contents are described by the spec functions; each method returns what they describe.
pub trait StorageSerializer<D> {
    /// The entities of the prefab, in the order they are written.
    spec fn spec_entities(&self) -> Seq<EntityUuid>;

    /// The component types of an entity, in the order they are written.
    spec fn spec_component_types(&self, entity: EntityUuid) -> Seq<ComponentTypeUuid>;

    /// The data of a component of an entity.
    spec fn spec_entity_component(&self, entity: EntityUuid, component: ComponentTypeUuid) -> D;

    /// The prefabs that this prefab references, in the order they are written.
    spec fn spec_prefab_refs(&self) -> Seq<PrefabUuid>;

    /// For a referenced prefab, the entities it overrides and, for each, the component types.
    spec fn spec_prefab_ref_overrides(&self, prefab_ref: PrefabUuid) -> Seq<(EntityUuid, Seq<ComponentTypeUuid>)>;

    /// The diff that overrides a component of an entity of a referenced prefab.
    spec fn spec_component_override_diff(
        &self,
        prefab_ref: PrefabUuid,
        entity: EntityUuid,
        component: ComponentTypeUuid,
    ) -> D;

    fn entities(&self) -> (res: Vec<EntityUuid>)
        ensures
            res@ == self.spec_entities(),
    ;

    fn component_types(&self, entity: &EntityUuid) -> (res: Vec<ComponentTypeUuid>)
        ensures
            res@ == self.spec_component_types(*entity),
    ;

    /// The data of a component that the entity has.
    fn serialize_entity_component(&self, entity: &EntityUuid, component: &ComponentTypeUuid) -> (res: D)
        requires
            self.spec_component_types(*entity).contains(*component),
        ensures
            res == self.spec_entity_component(*entity, *component),
    ;

    fn prefab_refs(&self) -> (res: Vec<PrefabUuid>)
        ensures
            res@ == self.spec_prefab_refs(),
    ;

    fn prefab_ref_overrides(&self, prefab_ref: &PrefabUuid) -> (res: Vec<(EntityUuid, Vec<ComponentTypeUuid>)>)
        ensures
            res@.len() == self.spec_prefab_ref_overrides(*prefab_ref).len(),
            forall|i: int|
                0 <= i < res@.len() ==> #[trigger] res@[i].0 == self.spec_prefab_ref_overrides(
                    *prefab_ref,
                )[i].0 && res@[i].1@ == self.spec_prefab_ref_overrides(*prefab_ref)[i].1,
    ;

    /// The diff of a component that the reference overrides.
    fn serialize_component_override_diff(
        &self,
        prefab_ref: &PrefabUuid,
        entity: &EntityUuid,
        component: &ComponentTypeUuid,
    ) -> (res: D)
        requires
            overrides_component(self.spec_prefab_ref_overrides(*prefab_ref), *entity, *component),
        ensures
            res == self.spec_component_override_diff(*prefab_ref, *entity, *component),
    ;
}

/// `overrides` lists `component` among the overridden components of `entity`.
pub open spec fn overrides_component(
    overrides: Seq<(EntityUuid, Seq<ComponentTypeUuid>)>,
    entity: EntityUuid,
    component: ComponentTypeUuid,
) -> bool {
    exists|i: int| 0 <= i < overrides.len() && #[trigger] overrides[i].0 == entity && overrides[i].1.contains(component)
}

/// `text` is the text the `uuid` crate writes for `id`, and reads back as `id`.
pub open spec fn is_uuid_text(text: String, id: [u8; 16]) -> bool {
    text@ == hyphenated_text(id) && uuid_from_text(text@) == Some(id)
}

/// The fields written for a component of an entity: its type, then its data.
pub open spec fn describes_component<D, SS: StorageSerializer<D>>(
    entries: Seq<ComponentEntry<D, String>>,
    storage: SS,
    entity: EntityUuid,
    component: ComponentTypeUuid,
) -> bool {
    &&& entries.len() == 2
    &&& entries[0] matches ComponentEntry::Type(t) && is_uuid_text(t, component)
    &&& entries[1] == ComponentEntry::<D, String>::Data(storage.spec_entity_component(entity, component))
}

/// The fields written for an entity: its identifier, then its components.
pub open spec fn describes_entity<D, SS: StorageSerializer<D>>(
    entries: Seq<EntityEntry<D, String>>,
    storage: SS,
    entity: EntityUuid,
) -> bool {
    let types = storage.spec_component_types(entity);
    &&& entries.len() == 2
    &&& entries[0] matches EntityEntry::Id(t) && is_uuid_text(t, entity)
    &&& entries[1] matches EntityEntry::Components(list) && list@.len() == types.len() && forall|i: int|
        0 <= i < types.len() ==> describes_component(#[trigger] list@[i]@, storage, entity, types[i])
}

/// The fields written for a component override: its type, then its diff.
pub open spec fn describes_component_override<D, SS: StorageSerializer<D>>(
    entries: Seq<ComponentOverrideEntry<D, String>>,
    storage: SS,
    prefab_ref: PrefabUuid,
    entity: EntityUuid,
    component: ComponentTypeUuid,
) -> bool {
    &&& entries.len() == 2
    &&& entries[0] matches ComponentOverrideEntry::ComponentType(t) && is_uuid_text(t, component)
    &&& entries[1] == ComponentOverrideEntry::<D, String>::Diff(
        storage.spec_component_override_diff(prefab_ref, entity, component),
    )
}

/// The fields written for an entity override: its identifier, then its component overrides.
pub open spec fn describes_entity_override<D, SS: StorageSerializer<D>>(
    entries: Seq<EntityOverrideEntry<D, String>>,
    storage: SS,
    prefab_ref: PrefabUuid,
    entity: EntityUuid,
    types: Seq<ComponentTypeUuid>,
) -> bool {
    &&& entries.len() == 2
    &&& entries[0] matches EntityOverrideEntry::EntityId(t) && is_uuid_text(t, entity)
    &&& entries[1] matches EntityOverrideEntry::ComponentOverrides(list) && list@.len() == types.len()
        && forall|i: int|
        0 <= i < types.len() ==> describes_component_override(
            #[trigger] list@[i]@,
            storage,
            prefab_ref,
            entity,
            types[i],
        )
}

/// The fields written for a prefab reference: its identifier, then its entity overrides.
pub open spec fn describes_prefab_ref<D, SS: StorageSerializer<D>>(
    entries: Seq<PrefabRefEntry<D, String>>,
    storage: SS,
    prefab_ref: PrefabUuid,
) -> bool {
    let overrides = storage.spec_prefab_ref_overrides(prefab_ref);
    &&& entries.len() == 2
    &&& entries[0] matches PrefabRefEntry::PrefabId(t) && is_uuid_text(t, prefab_ref)
    &&& entries[1] matches PrefabRefEntry::EntityOverrides(list) && list@.len() == overrides.len()
        && forall|i: int|
        0 <= i < overrides.len() ==> describes_entity_override(
            #[trigger] list@[i]@,
            storage,
            prefab_ref,
            overrides[i].0,
            overrides[i].1,
        )
}

/// The file written for a storage: the prefab's identifier, then its objects, the prefab
/// references first and the entities after them.
pub open spec fn describes_prefab<D, SS: StorageSerializer<D>>(
    doc: PrefabDoc<D, String>,
    storage: SS,
    prefab_id: PrefabUuid,
) -> bool {
    let refs = storage.spec_prefab_refs();
    let ents = storage.spec_entities();
    &&& doc.entries@.len() == 2
    &&& doc.entries@[0] matches PrefabEntry::Id(t) && is_uuid_text(t, prefab_id)
    &&& doc.entries@[1] matches PrefabEntry::Objects(list) && list@.len() == refs.len() + ents.len()
        && (forall|i: int|
        0 <= i < refs.len() ==> (#[trigger] list@[i] matches PrefabObject::PrefabRef(es)
            && describes_prefab_ref(es@, storage, refs[i])))
        && (forall|j: int|
        0 <= j < ents.len() ==> (#[trigger] list@[refs.len() + j] matches PrefabObject::Entity(es)
            && describes_entity(es@, storage, ents[j])))
}

/// The calls a storage receives for the components `types` of an entity.
pub open spec fn component_events<D, SS: StorageSerializer<D>>(
    storage: SS,
    prefab: PrefabUuid,
    entity: EntityUuid,
    types: Seq<ComponentTypeUuid>,
) -> Seq<StorageEvent<D>>
    decreases types.len(),
{
    if types.len() == 0 {
        Seq::empty()
    } else {
        seq![
            StorageEvent::DeserializeComponent {
                prefab,
                entity,
                component_type: types[0],
                data: storage.spec_entity_component(entity, types[0]),
            },
        ] + component_events(storage, prefab, entity, types.drop_first())
    }
}

/// The calls a storage receives for an entity: begin, its components, end.
pub open spec fn entity_events<D, SS: StorageSerializer<D>>(
    storage: SS,
    prefab: PrefabUuid,
    entity: EntityUuid,
) -> Seq<StorageEvent<D>> {
    seq![StorageEvent::BeginEntityObject { prefab, entity }] + component_events(
        storage,
        prefab,
        entity,
        storage.spec_component_types(entity),
    ) + seq![StorageEvent::EndEntityObject { prefab, entity }]
}

/// The calls a storage receives for the entities `entities`, in order.
pub open spec fn entities_events<D, SS: StorageSerializer<D>>(
    storage: SS,
    prefab: PrefabUuid,
    entities: Seq<EntityUuid>,
) -> Seq<StorageEvent<D>>
    decreases entities.len(),
{
    if entities.len() == 0 {
        Seq::empty()
    } else {
        entity_events(storage, prefab, entities[0]) + entities_events(
            storage,
            prefab,
            entities.drop_first(),
        )
    }
}

/// The calls a storage receives for the overridden components `types` of an entity of a
/// referenced prefab.
pub open spec fn override_events<D, SS: StorageSerializer<D>>(
    storage: SS,
    prefab: PrefabUuid,
    prefab_ref: PrefabUuid,
    entity: EntityUuid,
    types: Seq<ComponentTypeUuid>,
) -> Seq<StorageEvent<D>>
    decreases types.len(),
{
    if types.len() == 0 {
        Seq::empty()
    } else {
        seq![
            StorageEvent::ApplyComponentDiff {
                parent_prefab: prefab,
                prefab_ref,
                entity,
                component_type: types[0],
                data: storage.spec_component_override_diff(prefab_ref, entity, types[0]),
            },
        ] + override_events(storage, prefab, prefab_ref, entity, types.drop_first())
    }
}

/// The calls a storage receives for the entity overrides `overrides` of a referenced prefab.
pub open spec fn overrides_events<D, SS: StorageSerializer<D>>(
    storage: SS,
    prefab: PrefabUuid,
    prefab_ref: PrefabUuid,
    overrides: Seq<(EntityUuid, Seq<ComponentTypeUuid>)>,
) -> Seq<StorageEvent<D>>
    decreases overrides.len(),
{
    if overrides.len() == 0 {
        Seq::empty()
    } else {
        override_events(storage, prefab, prefab_ref, overrides[0].0, overrides[0].1)
            + overrides_events(storage, prefab, prefab_ref, overrides.drop_first())
    }
}

/// The calls a storage receives for a referenced prefab: begin, its overrides, end.
pub open spec fn prefab_ref_events<D, SS: StorageSerializer<D>>(
    storage: SS,
    prefab: PrefabUuid,
    prefab_ref: PrefabUuid,
) -> Seq<StorageEvent<D>> {
    seq![StorageEvent::BeginPrefabRef { prefab, target_prefab: prefab_ref }] + overrides_events(
        storage,
        prefab,
        prefab_ref,
        storage.spec_prefab_ref_overrides(prefab_ref),
    ) + seq![StorageEvent::EndPrefabRef { prefab, target_prefab: prefab_ref }]
}

/// The calls a storage receives for the referenced prefabs `refs`, in order.
pub open spec fn prefab_refs_events<D, SS: StorageSerializer<D>>(
    storage: SS,
    prefab: PrefabUuid,
    refs: Seq<PrefabUuid>,
) -> Seq<StorageEvent<D>>
    decreases refs.len(),
{
    if refs.len() == 0 {
        Seq::empty()
    } else {
        prefab_ref_events(storage, prefab, refs[0]) + prefab_refs_events(
            storage,
            prefab,
            refs.drop_first(),
        )
    }
}

/// The calls that reading back the file written for `storage` makes: every referenced prefab
/// with its overrides, then every entity with its components, in the storage's order.
pub open spec fn storage_events<D, SS: StorageSerializer<D>>(
    storage: SS,
    prefab: PrefabUuid,
) -> Seq<StorageEvent<D>> {
    prefab_refs_events(storage, prefab, storage.spec_prefab_refs()) + entities_events(
        storage,
        prefab,
        storage.spec_entities(),
    )
}

proof fn lemma_components<D, SS: StorageSerializer<D>>(
    storage: SS,
    prefab: PrefabUuid,
    entity: EntityUuid,
    list: Seq<Vec<ComponentEntry<D, String>>>,
    types: Seq<ComponentTypeUuid>,
)
    requires
        list.len() == types.len(),
        forall|i: int| 0 <= i < types.len() ==> describes_component(#[trigger] list[i]@, storage, entity, types[i]),
    ensures
        SeqDeserializer(EntityComponent { prefab_id: prefab, entity_id: entity }).spec_visit_seq(list)
            == (component_events(storage, prefab, entity, types), Option::<DeError>::None),
    decreases list.len(),
{
    let seed = EntityComponent { prefab_id: prefab, entity_id: entity };
    if list.len() > 0 {
        lemma_components(storage, prefab, entity, list.drop_first(), types.drop_first());
        assert forall|i: int| 0 <= i < types.drop_first().len() implies describes_component(
            #[trigger] list.drop_first()[i]@,
            storage,
            entity,
            types.drop_first()[i],
        ) by {
            assert(list.drop_first()[i] == list[i + 1]);
        }
        let entries = list[0]@;
        assert(describes_component(entries, storage, entity, types[0]));
        assert(entries.drop_first()[0] == entries[1]);
        assert(seed.spec_visit_map(entries.drop_first(), Some(types[0])) == (
            seq![
                StorageEvent::DeserializeComponent {
                    prefab,
                    entity,
                    component_type: types[0],
                    data: storage.spec_entity_component(entity, types[0]),
                },
            ],
            Option::<DeError>::None,
        ));
        assert(<EntityComponent as FormatSeed<D, String>>::spec_deserialize(seed, list[0]) == seed.spec_visit_map(entries.drop_first(), Some(types[0])));
    }
}


proof fn lemma_component_overrides<D, SS: StorageSerializer<D>>(
    storage: SS,
    prefab: PrefabUuid,
    prefab_ref: PrefabUuid,
    entity: EntityUuid,
    list: Seq<Vec<ComponentOverrideEntry<D, String>>>,
    types: Seq<ComponentTypeUuid>,
)
    requires
        list.len() == types.len(),
        forall|i: int|
            0 <= i < types.len() ==> describes_component_override(
                #[trigger] list[i]@,
                storage,
                prefab_ref,
                entity,
                types[i],
            ),
    ensures
        SeqDeserializer(
            ComponentOverride { parent_id: prefab, prefab_ref_id: prefab_ref, entity_id: entity },
        ).spec_visit_seq(list) == (
            override_events(storage, prefab, prefab_ref, entity, types),
            Option::<DeError>::None,
        ),
    decreases list.len(),
{
    let seed = ComponentOverride { parent_id: prefab, prefab_ref_id: prefab_ref, entity_id: entity };
    if list.len() > 0 {
        assert forall|i: int| 0 <= i < types.drop_first().len() implies describes_component_override(
            #[trigger] list.drop_first()[i]@,
            storage,
            prefab_ref,
            entity,
            types.drop_first()[i],
        ) by {
            assert(list.drop_first()[i] == list[i + 1]);
        }
        lemma_component_overrides(storage, prefab, prefab_ref, entity, list.drop_first(), types.drop_first());
        let entries = list[0]@;
        assert(describes_component_override(entries, storage, prefab_ref, entity, types[0]));
        assert(entries.drop_first()[0] == entries[1]);
        assert(<ComponentOverride as FormatSeed<D, String>>::spec_deserialize(seed, list[0])
            == seed.spec_visit_map(entries.drop_first(), Some(types[0])));
    }
}

proof fn lemma_entity_override<D, SS: StorageSerializer<D>>(
    storage: SS,
    prefab: PrefabUuid,
    prefab_ref: PrefabUuid,
    entries: Seq<EntityOverrideEntry<D, String>>,
    entity: EntityUuid,
    types: Seq<ComponentTypeUuid>,
)
    requires
        describes_entity_override(entries, storage, prefab_ref, entity, types),
    ensures
        (EntityOverride { parent_id: prefab, prefab_ref_id: prefab_ref }).spec_visit_map(entries, None)
            == (override_events(storage, prefab, prefab_ref, entity, types), Option::<DeError>::None),
{
    let seed = EntityOverride { parent_id: prefab, prefab_ref_id: prefab_ref };
    assert(entries.drop_first()[0] == entries[1]);
    if let EntityOverrideEntry::ComponentOverrides(list) = entries[1] {
        lemma_component_overrides(storage, prefab, prefab_ref, entity, list@, types);
    }
    assert(seed.spec_visit_map(entries, None) == seed.spec_visit_map(entries.drop_first(), Some(entity)));
}

proof fn lemma_entity_overrides<D, SS: StorageSerializer<D>>(
    storage: SS,
    prefab: PrefabUuid,
    prefab_ref: PrefabUuid,
    list: Seq<Vec<EntityOverrideEntry<D, String>>>,
    overrides: Seq<(EntityUuid, Seq<ComponentTypeUuid>)>,
)
    requires
        list.len() == overrides.len(),
        forall|i: int|
            0 <= i < overrides.len() ==> describes_entity_override(
                #[trigger] list[i]@,
                storage,
                prefab_ref,
                overrides[i].0,
                overrides[i].1,
            ),
    ensures
        SeqDeserializer(EntityOverride { parent_id: prefab, prefab_ref_id: prefab_ref }).spec_visit_seq(list)
            == (overrides_events(storage, prefab, prefab_ref, overrides), Option::<DeError>::None),
    decreases list.len(),
{
    if list.len() > 0 {
        assert forall|i: int| 0 <= i < overrides.drop_first().len() implies describes_entity_override(
            #[trigger] list.drop_first()[i]@,
            storage,
            prefab_ref,
            overrides.drop_first()[i].0,
            overrides.drop_first()[i].1,
        ) by {
            assert(list.drop_first()[i] == list[i + 1]);
        }
        lemma_entity_overrides(storage, prefab, prefab_ref, list.drop_first(), overrides.drop_first());
        lemma_entity_override(storage, prefab, prefab_ref, list[0]@, overrides[0].0, overrides[0].1);
    }
}

proof fn lemma_prefab_ref_object<D, SS: StorageSerializer<D>>(
    storage: SS,
    prefab: PrefabUuid,
    entries: Seq<PrefabRefEntry<D, String>>,
    prefab_ref: PrefabUuid,
)
    requires
        describes_prefab_ref(entries, storage, prefab_ref),
    ensures
        (PrefabRef { parent_id: prefab }).spec_visit_map(entries, None)
            == (prefab_ref_events(storage, prefab, prefab_ref), Option::<DeError>::None),
{
    let seed = PrefabRef { parent_id: prefab };
    assert(entries.drop_first()[0] == entries[1]);
    if let PrefabRefEntry::EntityOverrides(list) = entries[1] {
        lemma_entity_overrides(storage, prefab, prefab_ref, list@, storage.spec_prefab_ref_overrides(prefab_ref));
    }
    assert(seed.spec_visit_map(entries, None) == seed.spec_visit_map(entries.drop_first(), Some(prefab_ref)));
}

proof fn lemma_entity_object<D, SS: StorageSerializer<D>>(
    storage: SS,
    prefab: PrefabUuid,
    entries: Seq<EntityEntry<D, String>>,
    entity: EntityUuid,
)
    requires
        describes_entity(entries, storage, entity),
    ensures
        (EntityPrefabObject { prefab_id: prefab }).spec_visit_map(entries, None)
            == (entity_events(storage, prefab, entity), Option::<DeError>::None),
{
    let seed = EntityPrefabObject { prefab_id: prefab };
    assert(entries.drop_first()[0] == entries[1]);
    if let EntityEntry::Components(list) = entries[1] {
        lemma_components(storage, prefab, entity, list@, storage.spec_component_types(entity));
    }
    assert(seed.spec_visit_map(entries, None) == seed.spec_visit_map(entries.drop_first(), Some(entity)));
}

/// Walking `a` then `b` is walking `a`, and `b` only where `a` found no error.
pub proof fn lemma_visit_seq_append<D, I, T: FormatSeed<D, I>>(
    seed: SeqDeserializer<T>,
    a: Seq<<T as FormatSeed<D, I>>::Input>,
    b: Seq<<T as FormatSeed<D, I>>::Input>,
)
    ensures
        seed.spec_visit_seq(a + b) == then_outcome(seed.spec_visit_seq(a), seed.spec_visit_seq(b)),
    decreases a.len(),
{
    if a.len() == 0 {
        assert(a + b =~= b);
        assert(Seq::<StorageEvent<D>>::empty() + seed.spec_visit_seq(b).0 =~= seed.spec_visit_seq(b).0);
    } else {
        assert((a + b).drop_first() =~= a.drop_first() + b);
        assert((a + b)[0] == a[0]);
        lemma_visit_seq_append(seed, a.drop_first(), b);
        let first = seed.0.spec_deserialize(a[0]);
        let ra = seed.spec_visit_seq(a.drop_first());
        let rb = seed.spec_visit_seq(b);
        if first.1 is None && ra.1 is None {
            assert(first.0 + (ra.0 + rb.0) =~= (first.0 + ra.0) + rb.0);
        }
    }
}

proof fn lemma_ref_objects<D, SS: StorageSerializer<D>>(
    storage: SS,
    prefab: PrefabUuid,
    list: Seq<PrefabObject<D, String>>,
    refs: Seq<PrefabUuid>,
)
    requires
        list.len() == refs.len(),
        forall|i: int|
            0 <= i < refs.len() ==> (#[trigger] list[i] matches PrefabObject::PrefabRef(es)
                && describes_prefab_ref(es@, storage, refs[i])),
    ensures
        SeqDeserializer(PrefabObjectDeserializer { prefab_id: prefab }).spec_visit_seq(list)
            == (prefab_refs_events(storage, prefab, refs), Option::<DeError>::None),
    decreases list.len(),
{
    if list.len() > 0 {
        assert forall|i: int| 0 <= i < refs.drop_first().len() implies (#[trigger] list.drop_first()[i] matches PrefabObject::PrefabRef(es)
            && describes_prefab_ref(es@, storage, refs.drop_first()[i])) by {
            assert(list.drop_first()[i] == list[i + 1]);
        }
        lemma_ref_objects(storage, prefab, list.drop_first(), refs.drop_first());
        if let PrefabObject::PrefabRef(es) = list[0] {
            lemma_prefab_ref_object(storage, prefab, es@, refs[0]);
        }
    }
}

proof fn lemma_entity_objects<D, SS: StorageSerializer<D>>(
    storage: SS,
    prefab: PrefabUuid,
    list: Seq<PrefabObject<D, String>>,
    ents: Seq<EntityUuid>,
)
    requires
        list.len() == ents.len(),
        forall|i: int|
            0 <= i < ents.len() ==> (#[trigger] list[i] matches PrefabObject::Entity(es)
                && describes_entity(es@, storage, ents[i])),
    ensures
        SeqDeserializer(PrefabObjectDeserializer { prefab_id: prefab }).spec_visit_seq(list)
            == (entities_events(storage, prefab, ents), Option::<DeError>::None),
    decreases list.len(),
{
    if list.len() > 0 {
        assert forall|i: int| 0 <= i < ents.drop_first().len() implies (#[trigger] list.drop_first()[i] matches PrefabObject::Entity(es)
            && describes_entity(es@, storage, ents.drop_first()[i])) by {
            assert(list.drop_first()[i] == list[i + 1]);
        }
        lemma_entity_objects(storage, prefab, list.drop_first(), ents.drop_first());
        if let PrefabObject::Entity(es) = list[0] {
            lemma_entity_object(storage, prefab, es@, ents[0]);
        }
    }
}

/// Reading back a written file: the file that [`serialize`] writes for a storage reads without
/// error, and reading it makes exactly the calls [`storage_events`] lists, that is every
/// prefab reference with its overridden components, then every entity with its components, with
/// the identifiers and data the storage gave.
pub proof fn lemma_read_back<D, SS: StorageSerializer<D>>(
    doc: PrefabDoc<D, String>,
    storage: SS,
    prefab_id: PrefabUuid,
)
    requires
        describes_prefab(doc, storage, prefab_id),
    ensures
        spec_walk(doc) == (storage_events(storage, prefab_id), Option::<DeError>::None),
{
    let entries = doc.entries@;
    let refs = storage.spec_prefab_refs();
    let ents = storage.spec_entities();
    assert(entries.drop_first()[0] == entries[1]);
    assert(entries.drop_first().drop_first().len() == 0);
    if let PrefabEntry::Objects(list) = entries[1] {
        let l = list@;
        let r = refs.len() as int;
        let front = l.subrange(0, r);
        let back = l.subrange(r, l.len() as int);
        assert(l =~= front + back);
        assert forall|i: int| 0 <= i < refs.len() implies (#[trigger] front[i] matches PrefabObject::PrefabRef(es)
            && describes_prefab_ref(es@, storage, refs[i])) by {
            assert(front[i] == l[i]);
        }
        assert forall|j: int| 0 <= j < ents.len() implies (#[trigger] back[j] matches PrefabObject::Entity(es)
            && describes_entity(es@, storage, ents[j])) by {
            assert(back[j] == l[r + j]);
        }
        let seed = SeqDeserializer(PrefabObjectDeserializer { prefab_id });
        lemma_ref_objects(storage, prefab_id, front, refs);
        lemma_entity_objects(storage, prefab_id, back, ents);
        lemma_visit_seq_append(seed, front, back);
        let rest = entries.drop_first();
        assert(rest.drop_first() =~= Seq::<PrefabEntry<D, String>>::empty());
        assert(spec_visit_prefab(rest.drop_first(), Some(prefab_id), true) == (Seq::<StorageEvent<D>>::empty(), Option::<DeError>::None));
        assert(seed.spec_visit_seq(l) == (storage_events(storage, prefab_id), Option::<DeError>::None));
        assert(spec_visit_prefab(rest, Some(prefab_id), false) == then_outcome(
            seed.spec_visit_seq(l),
            spec_visit_prefab(rest.drop_first(), Some(prefab_id), true),
        ));
        assert(storage_events(storage, prefab_id) + Seq::<StorageEvent<D>>::empty() =~= storage_events(storage, prefab_id));
        assert(spec_visit_prefab(entries, None, false) == spec_visit_prefab(rest, Some(prefab_id), false));
    }
}

/// Writes the fields of a component of an entity.
fn serialize_component<D, SS: StorageSerializer<D>>(
    storage: &SS,
    entity: &EntityUuid,
    component: &ComponentTypeUuid,
) -> (res: Vec<ComponentEntry<D, String>>)
    requires
        storage.spec_component_types(*entity).contains(*component),
    ensures
        describes_component(res@, *storage, *entity, *component),
{
    let mut res: Vec<ComponentEntry<D, String>> = Vec::new();
    res.push(ComponentEntry::Type(uuid_to_text(component)));
    res.push(ComponentEntry::Data(storage.serialize_entity_component(entity, component)));
    res
}

/// Writes the fields of an entity object.
fn serialize_entity<D, SS: StorageSerializer<D>>(storage: &SS, entity: &EntityUuid) -> (res: Vec<EntityEntry<D, String>>)
    ensures
        describes_entity(res@, *storage, *entity),
{
    let types = storage.component_types(entity);
    let mut list: Vec<Vec<ComponentEntry<D, String>>> = Vec::new();
    let mut i: usize = 0;
    while i < types.len()
        invariant
            i <= types@.len(),
            types@ == storage.spec_component_types(*entity),
            list@.len() == i,
            forall|k: int| 0 <= k < i ==> describes_component(#[trigger] list@[k]@, *storage, *entity, types@[k]),
        decreases types@.len() - i,
    {
        let c = types[i];
        assert(types@[i as int] == c);
        list.push(serialize_component(storage, entity, &c));
        i = i + 1;
    }
    let mut res: Vec<EntityEntry<D, String>> = Vec::new();
    res.push(EntityEntry::Id(uuid_to_text(entity)));
    res.push(EntityEntry::Components(list));
    res
}

/// Writes the fields of a component override.
fn serialize_component_override<D, SS: StorageSerializer<D>>(
    storage: &SS,
    prefab_ref: &PrefabUuid,
    entity: &EntityUuid,
    component: &ComponentTypeUuid,
) -> (res: Vec<ComponentOverrideEntry<D, String>>)
    requires
        overrides_component(storage.spec_prefab_ref_overrides(*prefab_ref), *entity, *component),
    ensures
        describes_component_override(res@, *storage, *prefab_ref, *entity, *component),
{
    let mut res: Vec<ComponentOverrideEntry<D, String>> = Vec::new();
    res.push(ComponentOverrideEntry::ComponentType(uuid_to_text(component)));
    res.push(ComponentOverrideEntry::Diff(storage.serialize_component_override_diff(prefab_ref, entity, component)));
    res
}

/// Writes the fields of an entity override.
fn serialize_entity_override<D, SS: StorageSerializer<D>>(
    storage: &SS,
    prefab_ref: &PrefabUuid,
    entity: &EntityUuid,
    types: &Vec<ComponentTypeUuid>,
) -> (res: Vec<EntityOverrideEntry<D, String>>)
    requires
        exists|k: int|
            0 <= k < storage.spec_prefab_ref_overrides(*prefab_ref).len()
                && #[trigger] storage.spec_prefab_ref_overrides(*prefab_ref)[k].0 == *entity
                && storage.spec_prefab_ref_overrides(*prefab_ref)[k].1 == types@,
    ensures
        describes_entity_override(res@, *storage, *prefab_ref, *entity, types@),
{
    let mut list: Vec<Vec<ComponentOverrideEntry<D, String>>> = Vec::new();
    let mut i: usize = 0;
    while i < types.len()
        invariant
            i <= types@.len(),
            exists|k: int|
                0 <= k < storage.spec_prefab_ref_overrides(*prefab_ref).len()
                    && #[trigger] storage.spec_prefab_ref_overrides(*prefab_ref)[k].0 == *entity
                    && storage.spec_prefab_ref_overrides(*prefab_ref)[k].1 == types@,
            list@.len() == i,
            forall|k: int|
                0 <= k < i ==> describes_component_override(
                    #[trigger] list@[k]@,
                    *storage,
                    *prefab_ref,
                    *entity,
                    types@[k],
                ),
        decreases types@.len() - i,
    {
        let c = types[i];
        proof {
            let k = choose|k: int|
                0 <= k < storage.spec_prefab_ref_overrides(*prefab_ref).len()
                    && #[trigger] storage.spec_prefab_ref_overrides(*prefab_ref)[k].0 == *entity
                    && storage.spec_prefab_ref_overrides(*prefab_ref)[k].1 == types@;
            assert(types@[i as int] == c);
            assert(storage.spec_prefab_ref_overrides(*prefab_ref)[k].1.contains(c));
        }
        list.push(serialize_component_override(storage, prefab_ref, entity, &c));
        i = i + 1;
    }
    let mut res: Vec<EntityOverrideEntry<D, String>> = Vec::new();
    res.push(EntityOverrideEntry::EntityId(uuid_to_text(entity)));
    res.push(EntityOverrideEntry::ComponentOverrides(list));
    res
}

/// Writes the fields of a prefab reference.
fn serialize_prefab_ref<D, SS: StorageSerializer<D>>(storage: &SS, prefab_ref: &PrefabUuid) -> (res: Vec<PrefabRefEntry<D, String>>)
    ensures
        describes_prefab_ref(res@, *storage, *prefab_ref),
{
    let overrides = storage.prefab_ref_overrides(prefab_ref);
    let ghost spec_overrides = storage.spec_prefab_ref_overrides(*prefab_ref);
    let mut list: Vec<Vec<EntityOverrideEntry<D, String>>> = Vec::new();
    let mut i: usize = 0;
    while i < overrides.len()
        invariant
            i <= overrides@.len(),
            spec_overrides == storage.spec_prefab_ref_overrides(*prefab_ref),
            overrides@.len() == spec_overrides.len(),
            forall|k: int|
                0 <= k < overrides@.len() ==> #[trigger] overrides@[k].0 == spec_overrides[k].0
                    && overrides@[k].1@ == spec_overrides[k].1,
            list@.len() == i,
            forall|k: int|
                0 <= k < i ==> describes_entity_override(
                    #[trigger] list@[k]@,
                    *storage,
                    *prefab_ref,
                    spec_overrides[k].0,
                    spec_overrides[k].1,
                ),
        decreases overrides@.len() - i,
    {
        assert(overrides@[i as int].0 == spec_overrides[i as int].0);
        let entry = serialize_entity_override(storage, prefab_ref, &overrides[i].0, &overrides[i].1);
        list.push(entry);
        i = i + 1;
    }
    let mut res: Vec<PrefabRefEntry<D, String>> = Vec::new();
    res.push(PrefabRefEntry::PrefabId(uuid_to_text(prefab_ref)));
    res.push(PrefabRefEntry::EntityOverrides(list));
    res
}

/// Writes the prefab file for `storage`: the identifier `prefab_id`, then one object per prefab
/// reference, then one object per entity.
pub fn serialize<D, SS: StorageSerializer<D>>(storage: &SS, prefab_id: PrefabUuid) -> (res: PrefabDoc<D, String>)
    ensures
        describes_prefab(res, *storage, prefab_id),
        spec_walk(res) == (storage_events(*storage, prefab_id), Option::<DeError>::None),
{
    let refs = storage.prefab_refs();
    let ents = storage.entities();
    let mut list: Vec<PrefabObject<D, String>> = Vec::new();
    let mut i: usize = 0;
    while i < refs.len()
        invariant
            i <= refs@.len(),
            refs@ == storage.spec_prefab_refs(),
            list@.len() == i,
            forall|k: int|
                0 <= k < i ==> (#[trigger] list@[k] matches PrefabObject::PrefabRef(es)
                    && describes_prefab_ref(es@, *storage, refs@[k])),
        decreases refs@.len() - i,
    {
        let r = refs[i];
        list.push(PrefabObject::PrefabRef(serialize_prefab_ref(storage, &r)));
        i = i + 1;
    }
    let mut j: usize = 0;
    while j < ents.len()
        invariant
            j <= ents@.len(),
            refs@ == storage.spec_prefab_refs(),
            ents@ == storage.spec_entities(),
            list@.len() == refs@.len() + j,
            forall|k: int|
                0 <= k < refs@.len() ==> (#[trigger] list@[k] matches PrefabObject::PrefabRef(es)
                    && describes_prefab_ref(es@, *storage, refs@[k])),
            forall|k: int|
                0 <= k < j ==> (#[trigger] list@[refs@.len() + k] matches PrefabObject::Entity(es)
                    && describes_entity(es@, *storage, ents@[k])),
        decreases ents@.len() - j,
    {
        let e = ents[j];
        let ghost before = list@;
        list.push(PrefabObject::Entity(serialize_entity(storage, &e)));
        assert(forall|k: int| 0 <= k < refs@.len() ==> list@[k] == before[k]);
        assert(forall|k: int| 0 <= k < j ==> #[trigger] list@[refs@.len() + k] == before[refs@.len() + k]);
        j = j + 1;
    }
    let mut entries: Vec<PrefabEntry<D, String>> = Vec::new();
    entries.push(PrefabEntry::Id(uuid_to_text(&prefab_id)));
    entries.push(PrefabEntry::Objects(list));
    let doc = PrefabDoc { entries };
    proof {
        lemma_read_back(doc, *storage, prefab_id);
    }
    doc
}

/// A prefab together with the storage it is written from.
pub struct PrefabSerializer<'a, SS> {
    pub storage: &'a SS,
    pub prefab_id: PrefabUuid,
}

impl<'a, SS> PrefabSerializer<'a, SS> {
    /// Pairs the identifier `prefab_id` with `storage`.
    pub fn new(prefab_id: PrefabUuid, storage: &'a SS) -> (res: Self)
        ensures
            res.prefab_id == prefab_id,
            res.storage == storage,
    {
        PrefabSerializer { storage, prefab_id }
    }

    /// Writes the prefab file, as [`serialize`] does.
    pub fn serialize<D>(&self) -> (res: PrefabDoc<D, String>) where SS: StorageSerializer<D>
        ensures
            describes_prefab(res, *self.storage, self.prefab_id),
            spec_walk(res) == (storage_events(*self.storage, self.prefab_id), Option::<DeError>::None),
    {
        serialize(self.storage, self.prefab_id)
    }
}

} // verus!

//! Storages that prefab files are read into: one that only collects the prefabs a file
//! references, and one that builds the prefab itself, its entities, their component data and
//! the overrides it applies to the prefabs it references.

pub mod reader;
pub mod serializer;

use vstd::prelude::*;
use crate::uuids::{ComponentTypeUuid, EntityUuid, PrefabUuid, uuid_eq};
use crate::keymap::KeyMap;
use crate::editor::Entity;
use crate::format::{IdText, PrefabDoc, StorageEvent};
use crate::format::deserialize::{
    PrefabError, StorageDeserializer, deserialize_events, replay_events, spec_replay,
    spec_replay_callable, spec_replay_error, spec_walk,
};
use crate::format::nesting::{Nesting, event_prefab, lemma_walk_well_nested, nest_run, nest_step};

verus! {

/// Data that overrides a component of an entity of a referenced prefab.
pub struct ComponentOverride<D> {
    /// The component type the data overrides.
    pub component_type: ComponentTypeUuid,
    /// The diff to apply to the component.
    pub data: D,
}

/// A reference from a prefab to another, with the overrides it applies to the other's entities.
pub struct PrefabRef<D> {
    pub overrides: KeyMap<EntityUuid, Vec<ComponentOverride<D>>>,
}

/// What a prefab holds besides its component data: its identifier, the prefabs it references
/// and the entities it holds, by identifier.
pub struct PrefabMeta<D> {
    pub id: PrefabUuid,
    pub prefab_refs: KeyMap<PrefabUuid, PrefabRef<D>>,
    pub entities: KeyMap<EntityUuid, Entity>,
}

/// The entities of a prefab and their component data, as plain values: the entities are
/// created one after the other, the `n`-th with index `n`.
pub struct PrefabWorld<D> {
    pub entity_count: u32,
    pub components: Vec<(Entity, ComponentTypeUuid, D)>,
}

/// A prefab as it is read: its entities' data and, once the first entity or reference has
/// been read, its metadata.
pub struct PrefabInner<D> {
    pub world: PrefabWorld<D>,
    pub prefab_meta: Option<PrefabMeta<D>>,
}

/// The component types that can be read.
pub struct PrefabDeserializeContext {
    pub registered_components: Vec<ComponentTypeUuid>,
}

/// A storage that builds a prefab from the file it reads.
pub struct DeserializablePrefab<D> {
    pub prefab: PrefabInner<D>,
    pub context: PrefabDeserializeContext,
}

/// Why building a prefab refused a call.
#[derive(Debug, Clone, Copy)]
pub enum PrefabStorageError {
    /// Component data of a type that is not registered.
    UnregisteredComponent(ComponentTypeUuid),
    /// More entities than an entity index can number.
    TooManyEntities,
}

/// The metadata of a prefab, as values.
pub struct MetaView<D> {
    pub id: PrefabUuid,
    pub entities: Map<EntityUuid, Entity>,
    pub prefab_refs: Map<PrefabUuid, Map<EntityUuid, Seq<ComponentOverride<D>>>>,
}

/// A prefab being built, as values.
pub struct PrefabView<D> {
    pub entity_count: nat,
    pub components: Seq<(Entity, ComponentTypeUuid, D)>,
    pub meta: Option<MetaView<D>>,
    pub registered: Seq<ComponentTypeUuid>,
}

/// The overrides of a reference, as values.
pub open spec fn ref_view<D>(r: PrefabRef<D>) -> Map<EntityUuid, Seq<ComponentOverride<D>>> {
    r.overrides@.map_values(|v: Vec<ComponentOverride<D>>| v@)
}

/// The metadata of a prefab, as values.
pub open spec fn meta_view<D>(m: PrefabMeta<D>) -> MetaView<D> {
    MetaView { id: m.id, entities: m.entities@, prefab_refs: m.prefab_refs@.map_values(|r: PrefabRef<D>| ref_view(r)) }
}

impl<D> View for DeserializablePrefab<D> {
    type V = PrefabView<D>;

    open spec fn view(&self) -> PrefabView<D> {
        PrefabView {
            entity_count: self.prefab.world.entity_count as nat,
            components: self.prefab.world.components@,
            meta: match self.prefab.prefab_meta {
                Some(m) => Some(meta_view(m)),
                None => None,
            },
            registered: self.context.registered_components@,
        }
    }
}

/// The metadata that a call naming `prefab` works on: the existing metadata, or fresh
/// metadata for `prefab` with no entity and no reference.
pub open spec fn meta_for<D>(meta: Option<MetaView<D>>, prefab: PrefabUuid) -> MetaView<D> {
    match meta {
        Some(m) => m,
        None => MetaView { id: prefab, entities: Map::empty(), prefab_refs: Map::empty() },
    }
}

/// The metadata may be used for `prefab`: there is none yet, or it is for `prefab`.
pub open spec fn meta_fits<D>(meta: Option<MetaView<D>>, prefab: PrefabUuid) -> bool {
    meta matches Some(m) ==> m.id == prefab
}

impl<D> PrefabMeta<D> {
    /// The metadata of a prefab after a diff was applied to a copy of it: the same identifier,
    /// the entities of the copy by identifier, and no reference to another prefab.
    pub fn after_diff(id: PrefabUuid, entities: KeyMap<EntityUuid, Entity>) -> (res: Self)
        ensures
            res.id == id,
            res.entities == entities,
            res.prefab_refs@ == Map::<PrefabUuid, PrefabRef<D>>::empty(),
    {
        PrefabMeta { id, prefab_refs: KeyMap::new(), entities }
    }
}

impl<D> PrefabInner<D> {
    /// An empty prefab: no entity, no data, no metadata.
    pub fn new() -> (res: Self)
        ensures
            res.world.entity_count == 0,
            res.world.components@.len() == 0,
            res.prefab_meta is None,
    {
        PrefabInner { world: PrefabWorld { entity_count: 0, components: Vec::new() }, prefab_meta: None }
    }

    /// The identifier of the prefab, once known.
    pub fn prefab_id(&self) -> (res: Option<PrefabUuid>)
        ensures
            res == match self.prefab_meta {
                Some(m) => Some(m.id),
                None => None,
            },
    {
        match &self.prefab_meta {
            Some(m) => Some(m.id),
            None => None,
        }
    }

    /// Makes sure there is metadata for `prefab`: fresh metadata where there was none, the
    /// existing metadata otherwise (which must be for `prefab`).
    pub fn get_or_insert_prefab_mut(&mut self, prefab: &PrefabUuid)
        requires
            old(self).prefab_meta matches Some(m) ==> m.id == *prefab,
        ensures
            final(self).world == old(self).world,
            final(self).prefab_meta matches Some(m) && m.id == *prefab,
            match old(self).prefab_meta {
                Some(m) => final(self).prefab_meta == Some(m),
                None => final(self).prefab_meta matches Some(m) && m.entities@ == Map::<EntityUuid, Entity>::empty()
                    && m.prefab_refs@ == Map::<PrefabUuid, PrefabRef<D>>::empty(),
            },
    {
        if self.prefab_meta.is_none() {
            self.prefab_meta = Some(PrefabMeta { id: *prefab, entities: KeyMap::new(), prefab_refs: KeyMap::new() });
        }
    }
}

/// Whether `v` holds `id`.
fn contains_type(v: &Vec<ComponentTypeUuid>, id: &ComponentTypeUuid) -> (res: bool)
    ensures
        res == v@.contains(*id),
{
    let mut i: usize = 0;
    while i < v.len()
        invariant
            i <= v@.len(),
            forall|j: int| 0 <= j < i ==> v@[j] != *id,
        decreases v@.len() - i,
    {
        if uuid_eq(&v[i], id) {
            return true;
        }
        i = i + 1;
    }
    false
}

impl<D> DeserializablePrefab<D> {
    /// A storage that builds a fresh prefab, reading the component types of `context`.
    pub fn new(context: PrefabDeserializeContext) -> (res: Self)
        ensures
            res@ == fresh_view::<D>(context.registered_components@),
    {
        let res = DeserializablePrefab { prefab: PrefabInner::new(), context };
        assert(res@.components =~= Seq::<(Entity, ComponentTypeUuid, D)>::empty());
        res
    }
}

impl<D> StorageDeserializer<D> for DeserializablePrefab<D> {
    type Error = PrefabStorageError;

    open spec fn spec_receive(state: PrefabView<D>, event: StorageEvent<D>) -> PrefabView<D> {
        match event {
            StorageEvent::BeginEntityObject { prefab, entity } => {
                let m = meta_for(state.meta, prefab);
                PrefabView {
                    entity_count: state.entity_count + 1,
                    meta: Some(MetaView {
                        entities: m.entities.insert(entity, Entity { index: state.entity_count as u32, version: 0 }),
                        ..m
                    }),
                    ..state
                }
            },
            StorageEvent::DeserializeComponent { prefab, entity, component_type, data } => {
                let m = meta_for(state.meta, prefab);
                if state.registered.contains(component_type) {
                    PrefabView {
                        components: state.components.push((m.entities[entity], component_type, data)),
                        meta: Some(m),
                        ..state
                    }
                } else {
                    PrefabView { meta: Some(m), ..state }
                }
            },
            StorageEvent::BeginPrefabRef { prefab, target_prefab } => {
                let m = meta_for(state.meta, prefab);
                let refs = if m.prefab_refs.dom().contains(target_prefab) {
                    m.prefab_refs
                } else {
                    m.prefab_refs.insert(target_prefab, Map::empty())
                };
                PrefabView { meta: Some(MetaView { prefab_refs: refs, ..m }), ..state }
            },
            StorageEvent::ApplyComponentDiff { parent_prefab, prefab_ref, entity, component_type, data } => {
                let m = meta_for(state.meta, parent_prefab);
                let overrides = m.prefab_refs[prefab_ref];
                let list = if overrides.dom().contains(entity) {
                    overrides[entity]
                } else {
                    Seq::empty()
                };
                let added = ComponentOverride { component_type, data };
                PrefabView {
                    meta: Some(MetaView {
                        prefab_refs: m.prefab_refs.insert(prefab_ref, overrides.insert(entity, list.push(added))),
                        ..m
                    }),
                    ..state
                }
            },
            _ => state,
        }
    }

    open spec fn spec_accepts(state: PrefabView<D>, event: StorageEvent<D>) -> bool {
        match event {
            StorageEvent::DeserializeComponent { component_type, .. } => state.registered.contains(component_type),
            _ => true,
        }
    }

    open spec fn spec_callable(state: PrefabView<D>, event: StorageEvent<D>) -> bool {
        match event {
            StorageEvent::BeginEntityObject { prefab, .. } => meta_fits(state.meta, prefab) && state.entity_count
                < u32::MAX,
            StorageEvent::DeserializeComponent { prefab, entity, .. } => state.meta matches Some(m) && m.id == prefab
                && m.entities.dom().contains(entity),
            StorageEvent::BeginPrefabRef { prefab, .. } => meta_fits(state.meta, prefab),
            StorageEvent::ApplyComponentDiff { parent_prefab, prefab_ref, .. } => state.meta matches Some(m) && m.id
                == parent_prefab && m.prefab_refs.dom().contains(prefab_ref),
            _ => true,
        }
    }

    open spec fn spec_refusal(state: PrefabView<D>, event: StorageEvent<D>) -> PrefabStorageError {
        match event {
            StorageEvent::DeserializeComponent { component_type, .. } => PrefabStorageError::UnregisteredComponent(
                component_type,
            ),
            StorageEvent::ApplyComponentDiff { component_type, .. } => PrefabStorageError::UnregisteredComponent(
                component_type,
            ),
            _ => PrefabStorageError::TooManyEntities,
        }
    }

    fn begin_entity_object(&mut self, prefab: &PrefabUuid, entity: &EntityUuid) {
        let ghost old_meta = self@.meta;
        let new_entity = Entity { index: self.prefab.world.entity_count, version: 0 };
        self.prefab.world.entity_count = self.prefab.world.entity_count + 1;
        self.prefab.get_or_insert_prefab_mut(prefab);
        let mut meta = self.prefab.prefab_meta.take().unwrap();
        let ghost before = meta_view(meta);
        proof {
            assert(before.prefab_refs =~= meta_for(old_meta, *prefab).prefab_refs);
            assert(before.entities =~= meta_for(old_meta, *prefab).entities);
        }
        meta.entities.insert(*entity, new_entity);
        proof {
            assert(meta_view(meta).prefab_refs =~= before.prefab_refs);
        }
        self.prefab.prefab_meta = Some(meta);
    }

    fn end_entity_object(&mut self, prefab: &PrefabUuid, entity: &EntityUuid) {
    }

    fn deserialize_component(
        &mut self,
        prefab: &PrefabUuid,
        entity: &EntityUuid,
        component_type: &ComponentTypeUuid,
        data: D,
    ) -> (res: Result<(), PrefabStorageError>) {
        self.prefab.get_or_insert_prefab_mut(prefab);
        let target = match &self.prefab.prefab_meta {
            Some(m) => *m.entities.get(entity).unwrap(),
            None => {
                proof {
                    assert(false);
                }
                Entity { index: 0, version: 0 }
            },
        };
        if !contains_type(&self.context.registered_components, component_type) {
            return Err(PrefabStorageError::UnregisteredComponent(*component_type));
        }
        self.prefab.world.components.push((target, *component_type, data));
        Ok(())
    }

    fn begin_prefab_ref(&mut self, prefab: &PrefabUuid, target_prefab: &PrefabUuid) {
        let ghost old_meta = self@.meta;
        self.prefab.get_or_insert_prefab_mut(prefab);
        let mut meta = self.prefab.prefab_meta.take().unwrap();
        let ghost before = meta_view(meta);
        proof {
            assert(before.prefab_refs =~= meta_for(old_meta, *prefab).prefab_refs);
            assert(before.entities =~= meta_for(old_meta, *prefab).entities);
        }
        if !meta.prefab_refs.contains_key(target_prefab) {
            let fresh: PrefabRef<D> = PrefabRef { overrides: KeyMap::new() };
            proof {
                assert(ref_view(fresh) =~= Map::<EntityUuid, Seq<ComponentOverride<D>>>::empty());
            }
            meta.prefab_refs.insert(*target_prefab, fresh);
            proof {
                assert(meta_view(meta).prefab_refs =~= before.prefab_refs.insert(*target_prefab, Map::empty()));
            }
        }
        self.prefab.prefab_meta = Some(meta);
    }

    fn end_prefab_ref(&mut self, prefab: &PrefabUuid, target_prefab: &PrefabUuid) {
    }

    fn apply_component_diff(
        &mut self,
        parent_prefab: &PrefabUuid,
        prefab_ref: &PrefabUuid,
        entity: &EntityUuid,
        component_type: &ComponentTypeUuid,
        data: D,
    ) -> (res: Result<(), PrefabStorageError>) {
        self.prefab.get_or_insert_prefab_mut(parent_prefab);
        let mut meta = self.prefab.prefab_meta.take().unwrap();
        let ghost before = meta_view(meta);
        let mut reference = meta.prefab_refs.remove(prefab_ref).unwrap();
        let ghost ref_before = ref_view(reference);
        let mut list = match reference.overrides.remove(entity) {
            Some(v) => v,
            None => Vec::new(),
        };
        list.push(ComponentOverride { component_type: *component_type, data });
        let ghost new_list = list@;
        reference.overrides.insert(*entity, list);
        proof {
            assert(ref_view(reference) =~= ref_before.insert(*entity, new_list));
        }
        meta.prefab_refs.insert(*prefab_ref, reference);
        proof {
            assert(meta_view(meta).prefab_refs =~= before.prefab_refs.insert(*prefab_ref, ref_before.insert(*entity, new_list)));
        }
        self.prefab.prefab_meta = Some(meta);
        Ok(())
    }
}

/// The prefab being built may be sent the calls that come at nesting `n` of a file for prefab
/// `p`: its metadata, if any, is for `p`, and the entity or reference that `n` is inside of is
/// known.
pub open spec fn ready_for<D>(state: PrefabView<D>, p: PrefabUuid, n: Nesting) -> bool {
    &&& meta_fits(state.meta, p)
    &&& match n {
        Nesting::Top => true,
        Nesting::InEntity(e) => state.meta matches Some(m) && m.entities.dom().contains(e),
        Nesting::InRef(r) => state.meta matches Some(m) && m.prefab_refs.dom().contains(r),
    }
}

/// The number of entity beginnings among `events`.
pub open spec fn entity_begins<D>(events: Seq<StorageEvent<D>>) -> nat
    decreases events.len(),
{
    if events.len() == 0 {
        0
    } else {
        entity_begins(events.drop_last()) + if events.last() is BeginEntityObject {
            1nat
        } else {
            0nat
        }
    }
}

proof fn lemma_entity_begins_first<D>(events: Seq<StorageEvent<D>>)
    requires
        events.len() > 0,
    ensures
        entity_begins(events) == entity_begins(events.drop_first()) + if events[0] is BeginEntityObject {
            1nat
        } else {
            0nat
        },
    decreases events.len(),
{
    if events.len() > 1 {
        lemma_entity_begins_first(events.drop_last());
        assert(events.drop_last().drop_first() =~= events.drop_first().drop_last());
        assert(events.drop_last()[0] == events[0]);
    } else {
        assert(events.drop_first() =~= Seq::<StorageEvent<D>>::empty());
        assert(events.drop_last() =~= Seq::<StorageEvent<D>>::empty());
    }
}

/// A prefab being built that is ready for nesting `n` may be sent every call of well-nested
/// events from there, as long as the entity indices do not run out.
pub proof fn lemma_prefab_replay_callable<D>(state: PrefabView<D>, p: PrefabUuid, n: Nesting, events: Seq<StorageEvent<D>>)
    requires
        ready_for(state, p, n),
        nest_run(p, n, events) is Some,
        state.entity_count + entity_begins(events) < u32::MAX,
    ensures
        spec_replay_callable::<D, DeserializablePrefab<D>>(state, events),
    decreases events.len(),
{
    if events.len() > 0 {
        let ev = events[0];
        let m = nest_step(p, n, ev)->Some_0;
        let next = <DeserializablePrefab<D> as StorageDeserializer<D>>::spec_receive(state, ev);
        lemma_entity_begins_first(events);
        assert(<DeserializablePrefab<D> as StorageDeserializer<D>>::spec_callable(state, ev));
        assert(ready_for(next, p, m));
        assert(next.entity_count + entity_begins(events.drop_first()) < u32::MAX);
        lemma_prefab_replay_callable(next, p, m, events.drop_first());
    }
}

/// The number of entity beginnings among `events`.
fn count_entity_begins<D>(events: &Vec<StorageEvent<D>>) -> (res: usize)
    ensures
        res == entity_begins(events@),
{
    let mut count: usize = 0;
    let mut i: usize = 0;
    while i < events.len()
        invariant
            i <= events@.len(),
            count == entity_begins(events@.take(i as int)),
            count <= i,
        decreases events@.len() - i,
    {
        proof {
            assert(events@.take(i + 1).drop_last() =~= events@.take(i as int));
            assert(events@.take(i + 1).last() == events@[i as int]);
        }
        match &events[i] {
            StorageEvent::BeginEntityObject { .. } => {
                count = count + 1;
            },
            _ => {},
        }
        i = i + 1;
    }
    proof {
        assert(events@.take(events@.len() as int) =~= events@);
    }
    count
}

/// The component type of the first component data among `events` whose type is not in
/// `registered`, if there is one.
pub open spec fn first_unregistered<D>(events: Seq<StorageEvent<D>>, registered: Seq<ComponentTypeUuid>) -> Option<
    ComponentTypeUuid,
>
    decreases events.len(),
{
    if events.len() == 0 {
        None
    } else if events[0] is DeserializeComponent && !registered.contains(
        events[0]->DeserializeComponent_component_type,
    ) {
        Some(events[0]->DeserializeComponent_component_type)
    } else {
        first_unregistered(events.drop_first(), registered)
    }
}

/// Feeding `events` to a prefab being built stops exactly at the first component data of a type
/// it does not read, and reports that type.
proof fn lemma_prefab_replay_error<D>(state: PrefabView<D>, events: Seq<StorageEvent<D>>)
    ensures
        spec_replay::<D, DeserializablePrefab<D>>(state, events).1 == first_unregistered(events, state.registered) is None,
        spec_replay_error::<D, DeserializablePrefab<D>>(state, events) == match first_unregistered(
            events,
            state.registered,
        ) {
            Some(t) => Some(PrefabStorageError::UnregisteredComponent(t)),
            None => None,
        },
    decreases events.len(),
{
    if events.len() > 0 {
        let next = <DeserializablePrefab<D> as StorageDeserializer<D>>::spec_receive(state, events[0]);
        assert(next.registered == state.registered);
        lemma_prefab_replay_error(next, events.drop_first());
    }
}

/// The overrides a prefab being built holds for entity `e` of the referenced prefab `r`, in
/// order; none where it holds no such reference or entity.
pub open spec fn override_list<D>(v: PrefabView<D>, r: PrefabUuid, e: EntityUuid) -> Seq<ComponentOverride<D>> {
    match v.meta {
        Some(m) => if m.prefab_refs.dom().contains(r) && m.prefab_refs[r].dom().contains(e) {
            m.prefab_refs[r][e]
        } else {
            Seq::empty()
        },
        None => Seq::empty(),
    }
}

/// The overrides that `events` apply to entity `e` of the referenced prefab `r`, in order: one
/// per diff event for that reference and entity, with its component type and data.
pub open spec fn overrides_in<D>(events: Seq<StorageEvent<D>>, r: PrefabUuid, e: EntityUuid) -> Seq<
    ComponentOverride<D>,
>
    decreases events.len(),
{
    if events.len() == 0 {
        Seq::empty()
    } else {
        let rest = overrides_in(events.drop_first(), r, e);
        match events[0] {
            StorageEvent::ApplyComponentDiff { prefab_ref, entity, component_type, data, .. } => if prefab_ref == r
                && entity == e {
                seq![ComponentOverride { component_type, data }] + rest
            } else {
                rest
            },
            _ => rest,
        }
    }
}

/// Reading events into a prefab being built keeps every override: when no event is refused,
/// the overrides it then holds for an entity of a referenced prefab are the ones it held,
/// followed by those the events apply to that entity, in the order of the events.
pub proof fn lemma_overrides_read<D>(state: PrefabView<D>, events: Seq<StorageEvent<D>>, r: PrefabUuid, e: EntityUuid)
    requires
        spec_replay_callable::<D, DeserializablePrefab<D>>(state, events),
        spec_replay::<D, DeserializablePrefab<D>>(state, events).1,
    ensures
        override_list(spec_replay::<D, DeserializablePrefab<D>>(state, events).0, r, e) == override_list(state, r, e)
            + overrides_in(events, r, e),
    decreases events.len(),
{
    if events.len() == 0 {
        assert(override_list(state, r, e) + Seq::<ComponentOverride<D>>::empty() =~= override_list(state, r, e));
    } else {
        let ev = events[0];
        let next = <DeserializablePrefab<D> as StorageDeserializer<D>>::spec_receive(state, ev);
        lemma_overrides_read(next, events.drop_first(), r, e);
        let rest = overrides_in(events.drop_first(), r, e);
        match ev {
            StorageEvent::ApplyComponentDiff { parent_prefab, prefab_ref, entity, component_type, data } => {
                if prefab_ref == r && entity == e {
                    assert(override_list(next, r, e) =~= override_list(state, r, e).push(
                        ComponentOverride { component_type, data },
                    ));
                    assert(override_list(state, r, e).push(ComponentOverride { component_type, data }) + rest
                        =~= override_list(state, r, e) + (seq![ComponentOverride { component_type, data }] + rest));
                } else {
                    assert(override_list(next, r, e) =~= override_list(state, r, e));
                }
            },
            StorageEvent::BeginPrefabRef { prefab, target_prefab } => {
                assert(override_list(next, r, e) =~= override_list(state, r, e));
            },
            _ => {
                assert(override_list(next, r, e) =~= override_list(state, r, e));
            },
        }
    }
}

/// A fresh prefab being built, reading the component types `registered`.
pub open spec fn fresh_view<D>(registered: Seq<ComponentTypeUuid>) -> PrefabView<D> {
    PrefabView { entity_count: 0, components: Seq::empty(), meta: None, registered }
}

/// Builds a prefab from a parsed file, reading the component types of `context`: the storage
/// receives the calls that [`spec_walk`] gives for the file, in order, up to the first error in
/// the file or the first component data of a type that is not registered. A file with more
/// entities than an entity index can number is refused before any call.
pub fn read_prefab<D, I: IdText>(doc: PrefabDoc<D, I>, context: PrefabDeserializeContext) -> (res: (
    Result<(), PrefabError<PrefabStorageError>>,
    DeserializablePrefab<D>,
))
    ensures
        entity_begins(spec_walk(doc).0) >= u32::MAX ==> (res.0 matches Err(
            PrefabError::Storage(PrefabStorageError::TooManyEntities),
        )) && res.1@ == fresh_view::<D>(context.registered_components@),
        entity_begins(spec_walk(doc).0) < u32::MAX ==> {
            let replay = spec_replay::<D, DeserializablePrefab<D>>(
                fresh_view::<D>(context.registered_components@),
                spec_walk(doc).0,
            );
            &&& res.1@ == replay.0
            &&& (res.0 is Ok <==> replay.1 && spec_walk(doc).1 is None)
            &&& (res.0 matches Err(PrefabError::Format(e)) ==> replay.1 && spec_walk(doc).1 == Some(e))
            &&& (res.0 matches Err(PrefabError::Storage(_)) ==> !replay.1)
            &&& (replay.1 <==> first_unregistered(spec_walk(doc).0, context.registered_components@) is None)
            &&& (res.0 matches Err(PrefabError::Storage(e)) ==> first_unregistered(
                spec_walk(doc).0,
                context.registered_components@,
            ) matches Some(t) && e == PrefabStorageError::UnregisteredComponent(t))
            &&& (replay.1 ==> forall|r: PrefabUuid, e: EntityUuid| #[trigger] override_list(res.1@, r, e)
                == overrides_in(spec_walk(doc).0, r, e))
        },
{
    let ghost registered = context.registered_components@;
    let mut storage = DeserializablePrefab::new(context);
    proof {
        assert(storage@ == fresh_view::<D>(registered));
    }
    let (events, err) = deserialize_events(doc);
    let count = count_entity_begins(&events);
    let limit: usize = 4294967295;
    if count >= limit {
        return (Err(PrefabError::Storage(PrefabStorageError::TooManyEntities)), storage);
    }
    proof {
        lemma_walk_well_nested(doc);
        lemma_prefab_replay_error(storage@, events@);
        if events@.len() > 0 {
            lemma_prefab_replay_callable(storage@, event_prefab(events@[0]), Nesting::Top, events@);
        }
    }
    proof {
        let fresh = storage@;
        if spec_replay::<D, DeserializablePrefab<D>>(fresh, events@).1 {
            assert forall|r: PrefabUuid, e: EntityUuid| #[trigger] override_list(
                spec_replay::<D, DeserializablePrefab<D>>(fresh, events@).0,
                r,
                e,
            ) == overrides_in(events@, r, e) by {
                if events@.len() > 0 {
                    lemma_overrides_read(fresh, events@, r, e);
                }
                assert(override_list(fresh, r, e) + overrides_in(events@, r, e) =~= overrides_in(events@, r, e));
            }
        }
    }
    match replay_events(events, &mut storage) {
        Err(e) => (Err(PrefabError::Storage(e)), storage),
        Ok(()) => match err {
            Some(e) => (Err(PrefabError::Format(e)), storage),
            None => (Ok(()), storage),
        },
    }
}

} // verus!

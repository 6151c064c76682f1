//! Reading a parsed prefab file: every struct of the format is visited field by field, and the
//! walk yields the calls it makes on a storage, or the error that stops it.

use vstd::prelude::*;
use crate::uuids::{ComponentTypeUuid, EntityUuid, PrefabUuid};
use super::{
    IdText, ComponentEntry, ComponentOverrideEntry, DeError, EntityEntry, EntityOverrideEntry, Outcome,
    PrefabDoc, PrefabEntry, PrefabObject, PrefabRefEntry, Section, StorageEvent, then_outcome,
};

verus! {

/// A part of the format that can be walked: it takes its parsed input and appends the storage
/// calls the input asks for.
pub trait FormatSeed<D, I>: Sized + Copy {
    /// The parsed input of this part.
    type Input;

    /// The storage calls and error that walking `input` gives.
    spec fn spec_deserialize(self, input: Self::Input) -> Outcome<D>;

    /// Walks `input`, appending the storage calls to `events`.
    fn deserialize(self, input: Self::Input, events: &mut Vec<StorageEvent<D>>) -> (err: Option<DeError>)
        ensures
            final(events)@ == old(events)@ + self.spec_deserialize(input).0,
            err == self.spec_deserialize(input).1,
    ;
}

/// Walks a sequence, handing a copy of the seed to every element, and stops at the first error.
pub struct SeqDeserializer<T>(pub T);

impl<T> SeqDeserializer<T> {
    /// Wraps a seed.
    pub fn new(seed: T) -> (res: Self)
        ensures
            res.0 == seed,
    {
        SeqDeserializer(seed)
    }
}

impl<T> SeqDeserializer<T> {
    /// The storage calls and error of the elements of `items` in order, up to the first error.
    pub open spec fn spec_visit_seq<D, I>(self, items: Seq<<T as FormatSeed<D, I>>::Input>) -> Outcome<D> where
        T: FormatSeed<D, I>,
    decreases items.len(),
    {
        if items.len() == 0 {
            (Seq::empty(), None)
        } else {
            then_outcome(
                self.0.spec_deserialize(items[0]),
                self.spec_visit_seq(items.drop_first()),
            )
        }
    }

    /// Walks the elements of `items` in order, up to the first error.
    pub fn visit_seq<D, I>(
        self,
        items: Vec<<T as FormatSeed<D, I>>::Input>,
        events: &mut Vec<StorageEvent<D>>,
    ) -> (err: Option<DeError>) where T: FormatSeed<D, I>
        ensures
            final(events)@ == old(events)@ + self.spec_visit_seq(items@).0,
            err == self.spec_visit_seq(items@).1,
    {
        let ghost items0 = items@;
        let ghost events0 = events@;
        let ghost mut added: Seq<StorageEvent<D>> = Seq::empty();
        let mut pending = items;
        while pending.len() > 0
            invariant
                items0 == items@,
                events0 == old(events)@,
                events@ == events0 + added,
                self.spec_visit_seq(items0) == (
                    added + self.spec_visit_seq(pending@).0,
                    self.spec_visit_seq(pending@).1,
                ),
            decreases pending.len(),
        {
            let ghost cur = pending@;
            let item = pending.remove(0);
            assert(pending@ == cur.drop_first());
            assert(cur[0] == item);
            let ghost step = self.0.spec_deserialize(item);
            assert(self.spec_visit_seq(cur) == then_outcome(step, self.spec_visit_seq(pending@)));
            let err = self.0.deserialize(item, events);
            if err.is_some() {
                assert(step.1 is Some);
                assert(self.spec_visit_seq(cur) == step);
                assert(events@ =~= events0 + (added + step.0));

                return err;
            }
            assert(self.spec_visit_seq(items0).0 == (added + step.0) + self.spec_visit_seq(
                pending@,
            ).0);
            proof {
                added = added + step.0;
            }
        }
        assert(added + Seq::<StorageEvent<D>>::empty() == added);
        None
    }
}

/// The seed of a component override: which prefab reference and entity it overrides.
#[derive(Clone, Copy)]
pub struct ComponentOverride {
    pub parent_id: PrefabUuid,
    pub prefab_ref_id: PrefabUuid,
    pub entity_id: EntityUuid,
}

impl ComponentOverride {
    /// Walks the fields of a component override once `component_type` has been read (or not).
    pub open spec fn spec_visit_map<D, I: IdText>(
        self,
        entries: Seq<ComponentOverrideEntry<D, I>>,
        component_type: Option<ComponentTypeUuid>,
    ) -> Outcome<D>
        decreases entries.len(),
    {
        if entries.len() == 0 {
            (Seq::empty(), Some(DeError::MissingField(Section::ComponentOverride)))
        } else {
            match entries[0] {
                ComponentOverrideEntry::ComponentType(text) => if component_type is Some {
                    (Seq::empty(), Some(DeError::DuplicateField(Section::ComponentOverride)))
                } else {
                    match text.spec_parse() {
                        None => (Seq::empty(), Some(DeError::InvalidUuid(Section::ComponentOverride))),
                        Some(id) => self.spec_visit_map(entries.drop_first(), Some(id)),
                    }
                },
                ComponentOverrideEntry::Diff(data) => match component_type {
                    None => (Seq::empty(), Some(DeError::FieldOutOfOrder(Section::ComponentOverride))),
                    Some(ct) => (
                        seq![
                            StorageEvent::ApplyComponentDiff {
                                parent_prefab: self.parent_id,
                                prefab_ref: self.prefab_ref_id,
                                entity: self.entity_id,
                                component_type: ct,
                                data,
                            },
                        ],
                        None,
                    ),
                },
            }
        }
    }
}

impl<D, I: IdText> FormatSeed<D, I> for ComponentOverride {
    type Input = Vec<ComponentOverrideEntry<D, I>>;

    open spec fn spec_deserialize(self, input: Vec<ComponentOverrideEntry<D, I>>) -> Outcome<D> {
        self.spec_visit_map(input@, None)
    }

    fn deserialize(self, input: Vec<ComponentOverrideEntry<D, I>>, events: &mut Vec<StorageEvent<D>>) -> (err: Option<DeError>) {
        let ghost input0 = input@;
        let mut entries = input;
        let mut component_type: Option<ComponentTypeUuid> = None;
        while entries.len() > 0
            invariant
                input0 == input@,
                self.spec_visit_map(input0, None) == self.spec_visit_map(entries@, component_type),
                events@ == old(events)@,
            decreases entries.len(),
        {
            let ghost cur = entries@;
            let entry = entries.remove(0);
            assert(entries@ == cur.drop_first());
            assert(cur[0] == entry);
            match entry {
                ComponentOverrideEntry::ComponentType(text) => {
                    if component_type.is_some() {
                        return Some(DeError::DuplicateField(Section::ComponentOverride));
                    }
                    match text.parse() {
                        None => {
                            return Some(DeError::InvalidUuid(Section::ComponentOverride));
                        },
                        Some(id) => {
                            component_type = Some(id);
                        },
                    }
                },
                ComponentOverrideEntry::Diff(data) => {
                    match component_type {
                        None => {
                            return Some(DeError::FieldOutOfOrder(Section::ComponentOverride));
                        },
                        Some(ct) => {
                            events.push(
                                StorageEvent::ApplyComponentDiff {
                                    parent_prefab: self.parent_id,
                                    prefab_ref: self.prefab_ref_id,
                                    entity: self.entity_id,
                                    component_type: ct,
                                    data,
                                },
                            );
                            return None;
                        },
                    }
                },
            }
        }
        Some(DeError::MissingField(Section::ComponentOverride))
    }
}

/// The seed of an entity override: which prefab reference it belongs to.
#[derive(Clone, Copy)]
pub struct EntityOverride {
    pub parent_id: PrefabUuid,
    pub prefab_ref_id: PrefabUuid,
}

impl EntityOverride {
    /// Walks the fields of an entity override once `entity_id` has been read (or not).
    pub open spec fn spec_visit_map<D, I: IdText>(
        self,
        entries: Seq<EntityOverrideEntry<D, I>>,
        entity_id: Option<EntityUuid>,
    ) -> Outcome<D>
        decreases entries.len(),
    {
        if entries.len() == 0 {
            (Seq::empty(), Some(DeError::MissingField(Section::EntityOverride)))
        } else {
            match entries[0] {
                EntityOverrideEntry::EntityId(text) => if entity_id is Some {
                    (Seq::empty(), Some(DeError::DuplicateField(Section::EntityOverride)))
                } else {
                    match text.spec_parse() {
                        None => (Seq::empty(), Some(DeError::InvalidUuid(Section::EntityOverride))),
                        Some(id) => self.spec_visit_map(entries.drop_first(), Some(id)),
                    }
                },
                EntityOverrideEntry::ComponentOverrides(list) => match entity_id {
                    None => (Seq::empty(), Some(DeError::FieldOutOfOrder(Section::EntityOverride))),
                    Some(e) => SeqDeserializer(
                        ComponentOverride {
                            parent_id: self.parent_id,
                            prefab_ref_id: self.prefab_ref_id,
                            entity_id: e,
                        },
                    ).spec_visit_seq(list@),
                },
            }
        }
    }
}

impl<D, I: IdText> FormatSeed<D, I> for EntityOverride {
    type Input = Vec<EntityOverrideEntry<D, I>>;

    open spec fn spec_deserialize(self, input: Vec<EntityOverrideEntry<D, I>>) -> Outcome<D> {
        self.spec_visit_map(input@, None)
    }

    fn deserialize(self, input: Vec<EntityOverrideEntry<D, I>>, events: &mut Vec<StorageEvent<D>>) -> (err: Option<DeError>) {
        let ghost input0 = input@;
        let mut entries = input;
        let mut entity_id: Option<EntityUuid> = None;
        while entries.len() > 0
            invariant
                input0 == input@,
                self.spec_visit_map(input0, None) == self.spec_visit_map(entries@, entity_id),
                events@ == old(events)@,
            decreases entries.len(),
        {
            let ghost cur = entries@;
            let entry = entries.remove(0);
            assert(entries@ == cur.drop_first());
            assert(cur[0] == entry);
            match entry {
                EntityOverrideEntry::EntityId(text) => {
                    if entity_id.is_some() {
                        return Some(DeError::DuplicateField(Section::EntityOverride));
                    }
                    match text.parse() {
                        None => {
                            return Some(DeError::InvalidUuid(Section::EntityOverride));
                        },
                        Some(id) => {
                            entity_id = Some(id);
                        },
                    }
                },
                EntityOverrideEntry::ComponentOverrides(list) => {
                    match entity_id {
                        None => {
                            return Some(DeError::FieldOutOfOrder(Section::EntityOverride));
                        },
                        Some(e) => {
                            let seq = SeqDeserializer(
                                ComponentOverride {
                                    parent_id: self.parent_id,
                                    prefab_ref_id: self.prefab_ref_id,
                                    entity_id: e,
                                },
                            );
                            return seq.visit_seq(list, events);
                        },
                    }
                },
            }
        }
        Some(DeError::MissingField(Section::EntityOverride))
    }
}

/// The seed of a prefab reference: the prefab that holds it.
#[derive(Clone, Copy)]
pub struct PrefabRef {
    pub parent_id: PrefabUuid,
}

impl PrefabRef {
    /// Walks the fields of a prefab reference once `prefab_id` has been read (or not).
    pub open spec fn spec_visit_map<D, I: IdText>(
        self,
        entries: Seq<PrefabRefEntry<D, I>>,
        prefab_id: Option<PrefabUuid>,
    ) -> Outcome<D>
        decreases entries.len(),
    {
        if entries.len() == 0 {
            (Seq::empty(), Some(DeError::MissingField(Section::PrefabRef)))
        } else {
            match entries[0] {
                PrefabRefEntry::PrefabId(text) => if prefab_id is Some {
                    (Seq::empty(), Some(DeError::DuplicateField(Section::PrefabRef)))
                } else {
                    match text.spec_parse() {
                        None => (Seq::empty(), Some(DeError::InvalidUuid(Section::PrefabRef))),
                        Some(id) => self.spec_visit_map(entries.drop_first(), Some(id)),
                    }
                },
                PrefabRefEntry::EntityOverrides(list) => match prefab_id {
                    None => (Seq::empty(), Some(DeError::FieldOutOfOrder(Section::PrefabRef))),
                    Some(target) => {
                        let begin = StorageEvent::BeginPrefabRef {
                            prefab: self.parent_id,
                            target_prefab: target,
                        };
                        let end = StorageEvent::EndPrefabRef {
                            prefab: self.parent_id,
                            target_prefab: target,
                        };
                        let inner = SeqDeserializer(
                            EntityOverride { parent_id: self.parent_id, prefab_ref_id: target },
                        ).spec_visit_seq(list@);
                        if inner.1 is Some {
                            (seq![begin] + inner.0, inner.1)
                        } else {
                            (seq![begin] + inner.0 + seq![end], None)
                        }
                    },
                },
            }
        }
    }
}

impl<D, I: IdText> FormatSeed<D, I> for PrefabRef {
    type Input = Vec<PrefabRefEntry<D, I>>;

    open spec fn spec_deserialize(self, input: Vec<PrefabRefEntry<D, I>>) -> Outcome<D> {
        self.spec_visit_map(input@, None)
    }

    fn deserialize(self, input: Vec<PrefabRefEntry<D, I>>, events: &mut Vec<StorageEvent<D>>) -> (err: Option<DeError>) {
        let ghost input0 = input@;
        let mut entries = input;
        let mut prefab_id: Option<PrefabUuid> = None;
        while entries.len() > 0
            invariant
                input0 == input@,
                self.spec_visit_map(input0, None) == self.spec_visit_map(entries@, prefab_id),
                events@ == old(events)@,
            decreases entries.len(),
        {
            let ghost cur = entries@;
            let entry = entries.remove(0);
            assert(entries@ == cur.drop_first());
            assert(cur[0] == entry);
            match entry {
                PrefabRefEntry::PrefabId(text) => {
                    if prefab_id.is_some() {
                        return Some(DeError::DuplicateField(Section::PrefabRef));
                    }
                    match text.parse() {
                        None => {
                            return Some(DeError::InvalidUuid(Section::PrefabRef));
                        },
                        Some(id) => {
                            prefab_id = Some(id);
                        },
                    }
                },
                PrefabRefEntry::EntityOverrides(list) => {
                    match prefab_id {
                        None => {
                            return Some(DeError::FieldOutOfOrder(Section::PrefabRef));
                        },
                        Some(target) => {
                            events.push(
                                StorageEvent::BeginPrefabRef {
                                    prefab: self.parent_id,
                                    target_prefab: target,
                                },
                            );
                            let seq = SeqDeserializer(
                                EntityOverride { parent_id: self.parent_id, prefab_ref_id: target },
                            );
                            let ghost inner = seq.spec_visit_seq(list@);
                            let err = seq.visit_seq(list, events);
                            if err.is_some() {
                                assert(events@ =~= old(events)@ + (seq![
                                    StorageEvent::BeginPrefabRef {
                                        prefab: self.parent_id,
                                        target_prefab: target,
                                    },
                                ] + inner.0));
                                return err;
                            }
                            events.push(
                                StorageEvent::EndPrefabRef {
                                    prefab: self.parent_id,
                                    target_prefab: target,
                                },
                            );
                            return None;
                        },
                    }
                },
            }
        }
        Some(DeError::MissingField(Section::PrefabRef))
    }
}

/// The seed of a component of an entity: which entity of which prefab it belongs to.
#[derive(Clone, Copy)]
pub struct EntityComponent {
    pub prefab_id: PrefabUuid,
    pub entity_id: EntityUuid,
}

impl EntityComponent {
    /// Walks the fields of a component once `type` has been read (or not).
    pub open spec fn spec_visit_map<D, I: IdText>(
        self,
        entries: Seq<ComponentEntry<D, I>>,
        component_id: Option<ComponentTypeUuid>,
    ) -> Outcome<D>
        decreases entries.len(),
    {
        if entries.len() == 0 {
            (Seq::empty(), Some(DeError::MissingField(Section::Component)))
        } else {
            match entries[0] {
                ComponentEntry::Type(text) => if component_id is Some {
                    (Seq::empty(), Some(DeError::DuplicateField(Section::Component)))
                } else {
                    match text.spec_parse() {
                        None => (Seq::empty(), Some(DeError::InvalidUuid(Section::Component))),
                        Some(id) => self.spec_visit_map(entries.drop_first(), Some(id)),
                    }
                },
                ComponentEntry::Data(data) => match component_id {
                    None => (Seq::empty(), Some(DeError::FieldOutOfOrder(Section::Component))),
                    Some(ct) => (
                        seq![
                            StorageEvent::DeserializeComponent {
                                prefab: self.prefab_id,
                                entity: self.entity_id,
                                component_type: ct,
                                data,
                            },
                        ],
                        None,
                    ),
                },
            }
        }
    }
}

impl<D, I: IdText> FormatSeed<D, I> for EntityComponent {
    type Input = Vec<ComponentEntry<D, I>>;

    open spec fn spec_deserialize(self, input: Vec<ComponentEntry<D, I>>) -> Outcome<D> {
        self.spec_visit_map(input@, None)
    }

    fn deserialize(self, input: Vec<ComponentEntry<D, I>>, events: &mut Vec<StorageEvent<D>>) -> (err: Option<DeError>) {
        let ghost input0 = input@;
        let mut entries = input;
        let mut component_id: Option<ComponentTypeUuid> = None;
        while entries.len() > 0
            invariant
                input0 == input@,
                self.spec_visit_map(input0, None) == self.spec_visit_map(entries@, component_id),
                events@ == old(events)@,
            decreases entries.len(),
        {
            let ghost cur = entries@;
            let entry = entries.remove(0);
            assert(entries@ == cur.drop_first());
            assert(cur[0] == entry);
            match entry {
                ComponentEntry::Type(text) => {
                    if component_id.is_some() {
                        return Some(DeError::DuplicateField(Section::Component));
                    }
                    match text.parse() {
                        None => {
                            return Some(DeError::InvalidUuid(Section::Component));
                        },
                        Some(id) => {
                            component_id = Some(id);
                        },
                    }
                },
                ComponentEntry::Data(data) => {
                    match component_id {
                        None => {
                            return Some(DeError::FieldOutOfOrder(Section::Component));
                        },
                        Some(ct) => {
                            events.push(
                                StorageEvent::DeserializeComponent {
                                    prefab: self.prefab_id,
                                    entity: self.entity_id,
                                    component_type: ct,
                                    data,
                                },
                            );
                            return None;
                        },
                    }
                },
            }
        }
        Some(DeError::MissingField(Section::Component))
    }
}

/// The seed of an entity object: the prefab that holds it.
#[derive(Clone, Copy)]
pub struct EntityPrefabObject {
    pub prefab_id: PrefabUuid,
}

impl EntityPrefabObject {
    /// Walks the fields of an entity object once `id` has been read (or not).
    pub open spec fn spec_visit_map<D, I: IdText>(
        self,
        entries: Seq<EntityEntry<D, I>>,
        entity_id: Option<EntityUuid>,
    ) -> Outcome<D>
        decreases entries.len(),
    {
        if entries.len() == 0 {
            (Seq::empty(), Some(DeError::MissingField(Section::Entity)))
        } else {
            match entries[0] {
                EntityEntry::Id(text) => if entity_id is Some {
                    (Seq::empty(), Some(DeError::DuplicateField(Section::Entity)))
                } else {
                    match text.spec_parse() {
                        None => (Seq::empty(), Some(DeError::InvalidUuid(Section::Entity))),
                        Some(id) => self.spec_visit_map(entries.drop_first(), Some(id)),
                    }
                },
                EntityEntry::Components(list) => match entity_id {
                    None => (Seq::empty(), Some(DeError::FieldOutOfOrder(Section::Entity))),
                    Some(e) => {
                        let begin = StorageEvent::BeginEntityObject {
                            prefab: self.prefab_id,
                            entity: e,
                        };
                        let end = StorageEvent::EndEntityObject { prefab: self.prefab_id, entity: e };
                        let inner = SeqDeserializer(
                            EntityComponent { prefab_id: self.prefab_id, entity_id: e },
                        ).spec_visit_seq(list@);
                        if inner.1 is Some {
                            (seq![begin] + inner.0, inner.1)
                        } else {
                            (seq![begin] + inner.0 + seq![end], None)
                        }
                    },
                },
            }
        }
    }
}

impl<D, I: IdText> FormatSeed<D, I> for EntityPrefabObject {
    type Input = Vec<EntityEntry<D, I>>;

    open spec fn spec_deserialize(self, input: Vec<EntityEntry<D, I>>) -> Outcome<D> {
        self.spec_visit_map(input@, None)
    }

    fn deserialize(self, input: Vec<EntityEntry<D, I>>, events: &mut Vec<StorageEvent<D>>) -> (err: Option<DeError>) {
        let ghost input0 = input@;
        let mut entries = input;
        let mut entity_id: Option<EntityUuid> = None;
        while entries.len() > 0
            invariant
                input0 == input@,
                self.spec_visit_map(input0, None) == self.spec_visit_map(entries@, entity_id),
                events@ == old(events)@,
            decreases entries.len(),
        {
            let ghost cur = entries@;
            let entry = entries.remove(0);
            assert(entries@ == cur.drop_first());
            assert(cur[0] == entry);
            match entry {
                EntityEntry::Id(text) => {
                    if entity_id.is_some() {
                        return Some(DeError::DuplicateField(Section::Entity));
                    }
                    match text.parse() {
                        None => {
                            return Some(DeError::InvalidUuid(Section::Entity));
                        },
                        Some(id) => {
                            entity_id = Some(id);
                        },
                    }
                },
                EntityEntry::Components(list) => {
                    match entity_id {
                        None => {
                            return Some(DeError::FieldOutOfOrder(Section::Entity));
                        },
                        Some(e) => {
                            events.push(StorageEvent::BeginEntityObject { prefab: self.prefab_id, entity: e });
                            let seq = SeqDeserializer(
                                EntityComponent { prefab_id: self.prefab_id, entity_id: e },
                            );
                            let ghost inner = seq.spec_visit_seq(list@);
                            let err = seq.visit_seq(list, events);
                            if err.is_some() {
                                assert(events@ =~= old(events)@ + (seq![
                                    StorageEvent::BeginEntityObject { prefab: self.prefab_id, entity: e },
                                ] + inner.0));
                                return err;
                            }
                            events.push(StorageEvent::EndEntityObject { prefab: self.prefab_id, entity: e });
                            return None;
                        },
                    }
                },
            }
        }
        Some(DeError::MissingField(Section::Entity))
    }
}

/// The seed of one element of a prefab's `objects`: the prefab that holds it.
#[derive(Clone, Copy)]
pub struct PrefabObjectDeserializer {
    pub prefab_id: PrefabUuid,
}

impl<D, I: IdText> FormatSeed<D, I> for PrefabObjectDeserializer {
    type Input = PrefabObject<D, I>;

    open spec fn spec_deserialize(self, input: PrefabObject<D, I>) -> Outcome<D> {
        match input {
            PrefabObject::Entity(entries) => EntityPrefabObject { prefab_id: self.prefab_id }.spec_deserialize(entries),
            PrefabObject::PrefabRef(entries) => PrefabRef { parent_id: self.prefab_id }.spec_deserialize(entries),
        }
    }

    fn deserialize(self, input: PrefabObject<D, I>, events: &mut Vec<StorageEvent<D>>) -> (err: Option<DeError>) {
        match input {
            PrefabObject::Entity(entries) => EntityPrefabObject { prefab_id: self.prefab_id }.deserialize(entries, events),
            PrefabObject::PrefabRef(entries) => PrefabRef { parent_id: self.prefab_id }.deserialize(entries, events),
        }
    }
}

/// Walks the fields of the `Prefab` struct, given the identifier read so far and whether
/// `objects` has been seen.
pub open spec fn spec_visit_prefab<D, I: IdText>(
    entries: Seq<PrefabEntry<D, I>>,
    prefab_id: Option<PrefabUuid>,
    seen_objects: bool,
) -> Outcome<D>
    decreases entries.len(),
{
    if entries.len() == 0 {
        if seen_objects {
            (Seq::empty(), None)
        } else {
            (Seq::empty(), Some(DeError::MissingField(Section::Prefab)))
        }
    } else {
        match entries[0] {
            PrefabEntry::Id(text) => if prefab_id is Some {
                (Seq::empty(), Some(DeError::DuplicateField(Section::Prefab)))
            } else {
                match text.spec_parse() {
                    None => (Seq::empty(), Some(DeError::InvalidUuid(Section::Prefab))),
                    Some(id) => spec_visit_prefab(entries.drop_first(), Some(id), seen_objects),
                }
            },
            PrefabEntry::Objects(list) => match prefab_id {
                None => (Seq::empty(), Some(DeError::FieldOutOfOrder(Section::Prefab))),
                Some(p) => then_outcome(
                    SeqDeserializer(PrefabObjectDeserializer { prefab_id: p }).spec_visit_seq(list@),
                    spec_visit_prefab(entries.drop_first(), prefab_id, true),
                ),
            },
        }
    }
}

/// The storage calls that reading `doc` makes, in order, and the error that stops it, if any.
pub open spec fn spec_walk<D, I: IdText>(doc: PrefabDoc<D, I>) -> Outcome<D> {
    spec_visit_prefab(doc.entries@, None, false)
}

/// Reads a parsed prefab file into the list of storage calls it asks for, stopping at the first
/// error in its structure.
pub fn deserialize_events<D, I: IdText>(doc: PrefabDoc<D, I>) -> (res: (Vec<StorageEvent<D>>, Option<DeError>))
    ensures
        res.0@ == spec_walk(doc).0,
        res.1 == spec_walk(doc).1,
{
    let ghost entries0 = doc.entries@;
    let mut entries = doc.entries;
    let mut events: Vec<StorageEvent<D>> = Vec::new();
    let mut prefab_id: Option<PrefabUuid> = None;
    let mut seen_objects = false;
    while entries.len() > 0
        invariant
            entries0 == doc.entries@,
            spec_walk(doc) == (
                events@ + spec_visit_prefab(entries@, prefab_id, seen_objects).0,
                spec_visit_prefab(entries@, prefab_id, seen_objects).1,
            ),
        decreases entries.len(),
    {
        let ghost cur = entries@;
        let ghost before = events@;
        let entry = entries.remove(0);
        assert(entries@ == cur.drop_first());
        assert(cur[0] == entry);
        match entry {
            PrefabEntry::Id(text) => {
                if prefab_id.is_some() {
                    assert(events@ + Seq::<StorageEvent<D>>::empty() == events@);
                    return (events, Some(DeError::DuplicateField(Section::Prefab)));
                }
                match text.parse() {
                    None => {
                        assert(events@ + Seq::<StorageEvent<D>>::empty() == events@);
                        return (events, Some(DeError::InvalidUuid(Section::Prefab)));
                    },
                    Some(id) => {
                        prefab_id = Some(id);
                    },
                }
            },
            PrefabEntry::Objects(list) => {
                match prefab_id {
                    None => {
                        assert(events@ + Seq::<StorageEvent<D>>::empty() == events@);
                        return (events, Some(DeError::FieldOutOfOrder(Section::Prefab)));
                    },
                    Some(p) => {
                        let seq = SeqDeserializer(PrefabObjectDeserializer { prefab_id: p });
                        let ghost inner = seq.spec_visit_seq(list@);
                        let err = seq.visit_seq(list, &mut events);
                        if err.is_some() {
                            return (events, err);
                        }
                        seen_objects = true;
                        assert(before + (inner.0 + spec_visit_prefab(entries@, prefab_id, seen_objects).0)
                            =~= events@ + spec_visit_prefab(entries@, prefab_id, seen_objects).0);
                    },
                }
            },
        }
    }
    if seen_objects {
        assert(events@ + Seq::<StorageEvent<D>>::empty() == events@);
        (events, None)
    } else {
        assert(events@ + Seq::<StorageEvent<D>>::empty() == events@);
        (events, Some(DeError::MissingField(Section::Prefab)))
    }
}

/// A storage that a prefab file is read into.
///
/// The abstract state of a storage is its view; `spec_receive` says how each call changes it,
/// `spec_accepts` says which data-carrying calls the storage takes without error, and
/// `spec_callable` says in which states a call may be made at all.
pub trait StorageDeserializer<D>: View + Sized {
    /// The error a storage reports when it cannot take component data.
    type Error;

    /// The state of the storage after it receives `event` in state `state`.
    spec fn spec_receive(state: Self::V, event: StorageEvent<D>) -> Self::V;

    /// Whether the storage takes a data-carrying `event` in state `state` without error.
    spec fn spec_accepts(state: Self::V, event: StorageEvent<D>) -> bool;

    /// Whether `event` may be sent to the storage in state `state`.
    spec fn spec_callable(state: Self::V, event: StorageEvent<D>) -> bool;

    /// The error the storage reports when it refuses a data-carrying `event` in state `state`.
    spec fn spec_refusal(state: Self::V, event: StorageEvent<D>) -> Self::Error;

    /// Called when the reader meets an entity object, before its components.
    fn begin_entity_object(&mut self, prefab: &PrefabUuid, entity: &EntityUuid)
        requires
            Self::spec_callable(old(self)@, StorageEvent::BeginEntityObject { prefab: *prefab, entity: *entity }),
        ensures
            final(self)@ == Self::spec_receive(
                old(self)@,
                StorageEvent::BeginEntityObject { prefab: *prefab, entity: *entity },
            ),
    ;

    /// Called when the reader is done with an entity object.
    fn end_entity_object(&mut self, prefab: &PrefabUuid, entity: &EntityUuid)
        requires
            Self::spec_callable(old(self)@, StorageEvent::EndEntityObject { prefab: *prefab, entity: *entity }),
        ensures
            final(self)@ == Self::spec_receive(
                old(self)@,
                StorageEvent::EndEntityObject { prefab: *prefab, entity: *entity },
            ),
    ;

    /// Called with the data of a component of an entity.
    fn deserialize_component(
        &mut self,
        prefab: &PrefabUuid,
        entity: &EntityUuid,
        component_type: &ComponentTypeUuid,
        data: D,
    ) -> (res: Result<(), Self::Error>)
        requires
            Self::spec_callable(
                old(self)@,
                StorageEvent::DeserializeComponent {
                    prefab: *prefab,
                    entity: *entity,
                    component_type: *component_type,
                    data,
                },
            ),
        ensures
            final(self)@ == Self::spec_receive(
                old(self)@,
                StorageEvent::DeserializeComponent {
                    prefab: *prefab,
                    entity: *entity,
                    component_type: *component_type,
                    data,
                },
            ),
            res is Ok <==> Self::spec_accepts(
                old(self)@,
                StorageEvent::DeserializeComponent {
                    prefab: *prefab,
                    entity: *entity,
                    component_type: *component_type,
                    data,
                },
            ),
            res matches Err(e) ==> e == Self::spec_refusal(
                old(self)@,
                StorageEvent::DeserializeComponent {
                    prefab: *prefab,
                    entity: *entity,
                    component_type: *component_type,
                    data,
                },
            ),
    ;

    /// Called when the reader meets a reference to another prefab, before its overrides.
    fn begin_prefab_ref(&mut self, prefab: &PrefabUuid, target_prefab: &PrefabUuid)
        requires
            Self::spec_callable(old(self)@, StorageEvent::BeginPrefabRef { prefab: *prefab, target_prefab: *target_prefab }),
        ensures
            final(self)@ == Self::spec_receive(
                old(self)@,
                StorageEvent::BeginPrefabRef { prefab: *prefab, target_prefab: *target_prefab },
            ),
    ;

    /// Called when the reader is done with a reference to another prefab.
    fn end_prefab_ref(&mut self, prefab: &PrefabUuid, target_prefab: &PrefabUuid)
        requires
            Self::spec_callable(old(self)@, StorageEvent::EndPrefabRef { prefab: *prefab, target_prefab: *target_prefab }),
        ensures
            final(self)@ == Self::spec_receive(
                old(self)@,
                StorageEvent::EndPrefabRef { prefab: *prefab, target_prefab: *target_prefab },
            ),
    ;

    /// Called with a diff to apply to a component of an entity of a referenced prefab.
    fn apply_component_diff(
        &mut self,
        parent_prefab: &PrefabUuid,
        prefab_ref: &PrefabUuid,
        entity: &EntityUuid,
        component_type: &ComponentTypeUuid,
        data: D,
    ) -> (res: Result<(), Self::Error>)
        requires
            Self::spec_callable(
                old(self)@,
                StorageEvent::ApplyComponentDiff {
                    parent_prefab: *parent_prefab,
                    prefab_ref: *prefab_ref,
                    entity: *entity,
                    component_type: *component_type,
                    data,
                },
            ),
        ensures
            final(self)@ == Self::spec_receive(
                old(self)@,
                StorageEvent::ApplyComponentDiff {
                    parent_prefab: *parent_prefab,
                    prefab_ref: *prefab_ref,
                    entity: *entity,
                    component_type: *component_type,
                    data,
                },
            ),
            res is Ok <==> Self::spec_accepts(
                old(self)@,
                StorageEvent::ApplyComponentDiff {
                    parent_prefab: *parent_prefab,
                    prefab_ref: *prefab_ref,
                    entity: *entity,
                    component_type: *component_type,
                    data,
                },
            ),
            res matches Err(e) ==> e == Self::spec_refusal(
                old(self)@,
                StorageEvent::ApplyComponentDiff {
                    parent_prefab: *parent_prefab,
                    prefab_ref: *prefab_ref,
                    entity: *entity,
                    component_type: *component_type,
                    data,
                },
            ),
    ;
}

/// Feeds `events` to a storage in state `state`, stopping after the first data-carrying event
/// it refuses: the final state, and whether every event was taken.
pub open spec fn spec_replay<D, S: StorageDeserializer<D>>(
    state: S::V,
    events: Seq<StorageEvent<D>>,
) -> (S::V, bool)
    decreases events.len(),
{
    if events.len() == 0 {
        (state, true)
    } else {
        let next = S::spec_receive(state, events[0]);
        if events[0].carries_data() && !S::spec_accepts(state, events[0]) {
            (next, false)
        } else {
            spec_replay::<D, S>(next, events.drop_first())
        }
    }
}

/// The error of the first data-carrying event that feeding `events` to a storage in state
/// `state` is refused, if one is.
pub open spec fn spec_replay_error<D, S: StorageDeserializer<D>>(
    state: S::V,
    events: Seq<StorageEvent<D>>,
) -> Option<S::Error>
    decreases events.len(),
{
    if events.len() == 0 {
        None
    } else if events[0].carries_data() && !S::spec_accepts(state, events[0]) {
        Some(S::spec_refusal(state, events[0]))
    } else {
        spec_replay_error::<D, S>(S::spec_receive(state, events[0]), events.drop_first())
    }
}

/// Every event that feeding `events` to a storage in state `state` reaches may be sent in the
/// state the storage is then in.
pub open spec fn spec_replay_callable<D, S: StorageDeserializer<D>>(
    state: S::V,
    events: Seq<StorageEvent<D>>,
) -> bool
    decreases events.len(),
{
    events.len() == 0 || (S::spec_callable(state, events[0]) && (
    (events[0].carries_data() && !S::spec_accepts(state, events[0]))
        || spec_replay_callable::<D, S>(S::spec_receive(state, events[0]), events.drop_first())))
}

/// Why reading a prefab file into a storage stopped.
#[derive(Debug)]
pub enum PrefabError<E> {
    /// The file's structure is not that of a prefab.
    Format(DeError),
    /// The storage refused component data.
    Storage(E),
}

/// Makes the storage calls of `events` in order, stopping at the first one the storage refuses.
pub fn replay_events<D, S: StorageDeserializer<D>>(events: Vec<StorageEvent<D>>, storage: &mut S) -> (res: Result<(), S::Error>)
    requires
        spec_replay_callable::<D, S>(old(storage)@, events@),
    ensures
        final(storage)@ == spec_replay::<D, S>(old(storage)@, events@).0,
        res is Ok <==> spec_replay::<D, S>(old(storage)@, events@).1,
        res matches Err(e) ==> spec_replay_error::<D, S>(old(storage)@, events@) == Some(e),
{
    let ghost events0 = events@;
    let mut pending = events;
    while pending.len() > 0
        invariant
            events0 == events@,
            spec_replay::<D, S>(old(storage)@, events0) == spec_replay::<D, S>(storage@, pending@),
            spec_replay_error::<D, S>(old(storage)@, events0) == spec_replay_error::<D, S>(storage@, pending@),
            spec_replay_callable::<D, S>(storage@, pending@),
        decreases pending.len(),
    {
        let ghost cur = pending@;
        let event = pending.remove(0);
        assert(pending@ == cur.drop_first());
        assert(cur[0] == event);
        match event {
            StorageEvent::BeginEntityObject { prefab, entity } => {
                storage.begin_entity_object(&prefab, &entity);
            },
            StorageEvent::EndEntityObject { prefab, entity } => {
                storage.end_entity_object(&prefab, &entity);
            },
            StorageEvent::DeserializeComponent { prefab, entity, component_type, data } => {
                let r = storage.deserialize_component(&prefab, &entity, &component_type, data);
                if let Err(e) = r {
                    return Err(e);
                }
            },
            StorageEvent::BeginPrefabRef { prefab, target_prefab } => {
                storage.begin_prefab_ref(&prefab, &target_prefab);
            },
            StorageEvent::EndPrefabRef { prefab, target_prefab } => {
                storage.end_prefab_ref(&prefab, &target_prefab);
            },
            StorageEvent::ApplyComponentDiff { parent_prefab, prefab_ref, entity, component_type, data } => {
                let r = storage.apply_component_diff(&parent_prefab, &prefab_ref, &entity, &component_type, data);
                if let Err(e) = r {
                    return Err(e);
                }
            },
        }
    }
    Ok(())
}

/// Reads a parsed prefab file into `storage`: the storage receives the calls that
/// [`spec_walk`] gives for the file, in order, up to the first error in the file or the first
/// component data the storage refuses.
pub fn deserialize<D, I: IdText, S: StorageDeserializer<D>>(doc: PrefabDoc<D, I>, storage: &mut S) -> (res: Result<(), PrefabError<S::Error>>)
    requires
        spec_replay_callable::<D, S>(old(storage)@, spec_walk(doc).0),
    ensures
        final(storage)@ == spec_replay::<D, S>(old(storage)@, spec_walk(doc).0).0,
        res is Ok <==> spec_replay::<D, S>(old(storage)@, spec_walk(doc).0).1 && spec_walk(doc).1 is None,
        res matches Err(PrefabError::Format(e)) ==> spec_replay::<D, S>(old(storage)@, spec_walk(doc).0).1
            && spec_walk(doc).1 == Some(e),
        res matches Err(PrefabError::Storage(_)) ==> !spec_replay::<D, S>(old(storage)@, spec_walk(doc).0).1,
        res matches Err(PrefabError::Storage(e)) ==> spec_replay_error::<D, S>(old(storage)@, spec_walk(doc).0)
            == Some(e),
{
    let (events, err) = deserialize_events(doc);
    match replay_events(events, storage) {
        Err(e) => Err(PrefabError::Storage(e)),
        Ok(()) => match err {
            Some(e) => Err(PrefabError::Format(e)),
            None => Ok(()),
        },
    }
}

/// Reads prefab files into a storage that it owns.
pub struct PrefabDeserializer<S> {
    pub storage: S,
}

impl<S> PrefabDeserializer<S> {
    /// Reads `doc` into the owned storage, as [`deserialize`] does.
    pub fn deserialize<D, I: IdText>(&mut self, doc: PrefabDoc<D, I>) -> (res: Result<(), PrefabError<S::Error>>) where
        S: StorageDeserializer<D>,
        requires
            spec_replay_callable::<D, S>(old(self).storage@, spec_walk(doc).0),
        ensures
            final(self).storage@ == spec_replay::<D, S>(old(self).storage@, spec_walk(doc).0).0,
            res is Ok <==> spec_replay::<D, S>(old(self).storage@, spec_walk(doc).0).1 && spec_walk(doc).1 is None,
            res matches Err(PrefabError::Format(e)) ==> spec_replay::<D, S>(old(self).storage@, spec_walk(doc).0).1
                && spec_walk(doc).1 == Some(e),
            res matches Err(PrefabError::Storage(_)) ==> !spec_replay::<D, S>(old(self).storage@, spec_walk(doc).0).1,
            res matches Err(PrefabError::Storage(e)) ==> spec_replay_error::<D, S>(old(self).storage@, spec_walk(doc).0)
                == Some(e),
    {
        deserialize(doc, &mut self.storage)
    }
}

} // verus!

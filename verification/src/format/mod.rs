//! The prefab file format: a prefab is a struct with an `id` and a list of `objects`; each object
//! is either an entity with its component data or a reference to another prefab with the
//! component diffs that override it.
//!
//! A parsed file is held as a [`PrefabDoc`]: every struct of the format is kept as the list of
//! its fields in the order the file gives them, so that the rules of the format (which field
//! must come first, which may not repeat) are decided here. Component data is opaque to the
//! format and is carried as a value of the type parameter `D`.
//!
//! Identifiers are carried as values of the type parameter `I`: as the text of the file
//! (`String`), which reading parses with the `uuid` crate, or already parsed
//! (`Option<[u8; 16]>`, `None` for a text that is not an identifier).

pub mod deserialize;
pub mod serialize;
pub mod nesting;

use vstd::prelude::*;
use crate::uuids::{ComponentTypeUuid, EntityUuid, PrefabUuid, parse_uuid, uuid_from_text};

verus! {

/// How an identifier of the file is carried, and what reading it gives.
pub trait IdText: Sized {
    /// The identifier this value stands for, or `None` if it stands for none.
    spec fn spec_parse(&self) -> Option<[u8; 16]>;

    /// Reads the identifier.
    fn parse(&self) -> (res: Option<[u8; 16]>)
        ensures
            res == self.spec_parse(),
    ;
}

/// The text of an identifier, read with the `uuid` crate.
impl IdText for String {
    open spec fn spec_parse(&self) -> Option<[u8; 16]> {
        uuid_from_text(self@)
    }

    fn parse(&self) -> (res: Option<[u8; 16]>) {
        parse_uuid(self.as_str())
    }
}

/// An identifier that was already read.
impl IdText for Option<[u8; 16]> {
    open spec fn spec_parse(&self) -> Option<[u8; 16]> {
        *self
    }

    fn parse(&self) -> (res: Option<[u8; 16]>) {
        *self
    }
}

/// A field of a `Prefab` struct.
#[derive(Debug, Clone, PartialEq)]
pub enum PrefabEntry<D, I> {
    /// `id`: the prefab's identifier.
    Id(I),
    /// `objects`: the entities and prefab references of the prefab.
    Objects(Vec<PrefabObject<D, I>>),
}

/// A parsed prefab file: the fields of its `Prefab` struct in file order.
#[derive(Debug, Clone, PartialEq)]
pub struct PrefabDoc<D, I> {
    pub entries: Vec<PrefabEntry<D, I>>,
}

/// One element of `objects`: the `PrefabObject` enum with its two variants.
#[derive(Debug, Clone, PartialEq)]
pub enum PrefabObject<D, I> {
    /// `Entity(..)`: the fields of the entity struct.
    Entity(Vec<EntityEntry<D, I>>),
    /// `PrefabRef(..)`: the fields of the prefab reference struct.
    PrefabRef(Vec<PrefabRefEntry<D, I>>),
}

/// A field of an entity object.
#[derive(Debug, Clone, PartialEq)]
pub enum EntityEntry<D, I> {
    /// `id`: the entity's identifier.
    Id(I),
    /// `components`: one field list per component.
    Components(Vec<Vec<ComponentEntry<D, I>>>),
}

/// A field of a component of an entity.
#[derive(Debug, Clone, PartialEq)]
pub enum ComponentEntry<D, I> {
    /// `type`: the component type's identifier.
    Type(I),
    /// `data`: the component's data.
    Data(D),
}

/// A field of a prefab reference.
#[derive(Debug, Clone, PartialEq)]
pub enum PrefabRefEntry<D, I> {
    /// `prefab_id`: the referenced prefab's identifier.
    PrefabId(I),
    /// `entity_overrides`: one field list per overridden entity.
    EntityOverrides(Vec<Vec<EntityOverrideEntry<D, I>>>),
}

/// A field of an entity override.
#[derive(Debug, Clone, PartialEq)]
pub enum EntityOverrideEntry<D, I> {
    /// `entity_id`: the overridden entity's identifier.
    EntityId(I),
    /// `component_overrides`: one field list per overridden component.
    ComponentOverrides(Vec<Vec<ComponentOverrideEntry<D, I>>>),
}

/// A field of a component override.
#[derive(Debug, Clone, PartialEq)]
pub enum ComponentOverrideEntry<D, I> {
    /// `component_type`: the component type's identifier.
    ComponentType(I),
    /// `diff`: the diff to apply to the component.
    Diff(D),
}

/// The struct of the format in which an error was found.
#[derive(PartialEq, Eq, Structural, Debug, Clone, Copy)]
pub enum Section {
    Prefab,
    Entity,
    Component,
    PrefabRef,
    EntityOverride,
    ComponentOverride,
}

/// An error in the structure of a prefab file.
#[derive(PartialEq, Eq, Structural, Debug, Clone, Copy)]
pub enum DeError {
    /// The identifying field of the struct appears twice.
    DuplicateField(Section),
    /// The body field of the struct comes before its identifying field.
    FieldOutOfOrder(Section),
    /// The struct ends without its body field.
    MissingField(Section),
    /// An identifier's text is not one that the `uuid` crate reads.
    InvalidUuid(Section),
}

/// A call that the format makes on the storage it deserializes into.
#[derive(Debug, Clone, PartialEq)]
pub enum StorageEvent<D> {
    BeginEntityObject { prefab: PrefabUuid, entity: EntityUuid },
    EndEntityObject { prefab: PrefabUuid, entity: EntityUuid },
    DeserializeComponent {
        prefab: PrefabUuid,
        entity: EntityUuid,
        component_type: ComponentTypeUuid,
        data: D,
    },
    BeginPrefabRef { prefab: PrefabUuid, target_prefab: PrefabUuid },
    EndPrefabRef { prefab: PrefabUuid, target_prefab: PrefabUuid },
    ApplyComponentDiff {
        parent_prefab: PrefabUuid,
        prefab_ref: PrefabUuid,
        entity: EntityUuid,
        component_type: ComponentTypeUuid,
        data: D,
    },
}

impl<D> StorageEvent<D> {
    /// The events that carry data, which a storage may refuse.
    pub open spec fn carries_data(self) -> bool {
        self is DeserializeComponent || self is ApplyComponentDiff
    }
}

/// What walking a part of a file gives: the storage calls it makes, in order, and the error
/// that stopped it, if any.
pub type Outcome<D> = (Seq<StorageEvent<D>>, Option<DeError>);

/// Runs `first`, and `rest` only where `first` found no error.
pub open spec fn then_outcome<D>(first: Outcome<D>, rest: Outcome<D>) -> Outcome<D> {
    if first.1 is Some {
        first
    } else {
        (first.0 + rest.0, rest.1)
    }
}

} // verus!

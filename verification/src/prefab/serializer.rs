//! Writing a prefab back out: a prefab is a storage that a prefab file is written from. Its
//! entities are those its metadata knows, each with the components its world holds for it, and
//! its references are those its metadata holds, with their overrides.

use vstd::prelude::*;
use crate::uuids::{ComponentTypeUuid, EntityUuid, PrefabUuid};
use crate::keymap::{keys_unique, lemma_map_of_index};
use crate::editor::Entity;
use crate::format::serialize::{StorageSerializer, overrides_component};
use super::{ComponentOverride, PrefabInner, PrefabRef};

verus! {

/// The component types that `components` holds for `entity`, in order.
pub open spec fn types_of<D>(components: Seq<(Entity, ComponentTypeUuid, D)>, entity: Entity) -> Seq<ComponentTypeUuid>
    decreases components.len(),
{
    if components.len() == 0 {
        Seq::empty()
    } else {
        let rest = types_of(components.drop_last(), entity);
        if components.last().0 == entity {
            rest.push(components.last().1)
        } else {
            rest
        }
    }
}

/// The data of the first component of `entity` of type `component` in `components`.
pub open spec fn data_of<D>(components: Seq<(Entity, ComponentTypeUuid, D)>, entity: Entity, component: ComponentTypeUuid) -> D
    decreases components.len(),
{
    if components.len() == 0 {
        arbitrary()
    } else if components[0].0 == entity && components[0].1 == component {
        components[0].2
    } else {
        data_of(components.drop_first(), entity, component)
    }
}

/// The data of the first override of type `component` in `overrides`.
pub open spec fn override_data_of<D>(overrides: Seq<ComponentOverride<D>>, component: ComponentTypeUuid) -> D
    decreases overrides.len(),
{
    if overrides.len() == 0 {
        arbitrary()
    } else if overrides[0].component_type == component {
        overrides[0].data
    } else {
        override_data_of(overrides.drop_first(), component)
    }
}

/// The component types of overrides, in order.
pub open spec fn override_types<D>(overrides: Seq<ComponentOverride<D>>) -> Seq<ComponentTypeUuid> {
    overrides.map_values(|o: ComponentOverride<D>| o.component_type)
}

proof fn lemma_types_of_contains<D>(components: Seq<(Entity, ComponentTypeUuid, D)>, entity: Entity, component: ComponentTypeUuid)
    requires
        types_of(components, entity).contains(component),
    ensures
        exists|i: int| 0 <= i < components.len() && components[i].0 == entity && components[i].1 == component,
    decreases components.len(),
{
    let rest = types_of(components.drop_last(), entity);
    if rest.contains(component) {
        lemma_types_of_contains(components.drop_last(), entity, component);
        let i = choose|i: int| 0 <= i < components.drop_last().len() && components.drop_last()[i].0 == entity
            && components.drop_last()[i].1 == component;
        assert(components[i] == components.drop_last()[i]);
    } else {
        let n = components.len() - 1;
        assert(components[n].0 == entity && components[n].1 == component);
    }
}

impl<D: Copy> PrefabInner<D> {
    /// The world entity that the metadata gives for `entity`, if any.
    pub open spec fn spec_entity(&self, entity: EntityUuid) -> Option<Entity> {
        match self.prefab_meta {
            Some(m) => if m.entities@.dom().contains(entity) {
                Some(m.entities@[entity])
            } else {
                None
            },
            None => None,
        }
    }

    /// The reference to `prefab_ref` that the metadata holds, if any.
    pub open spec fn spec_ref(&self, prefab_ref: PrefabUuid) -> Option<PrefabRef<D>> {
        match self.prefab_meta {
            Some(m) => if m.prefab_refs@.dom().contains(prefab_ref) {
                Some(m.prefab_refs@[prefab_ref])
            } else {
                None
            },
            None => None,
        }
    }
}

impl<D: Copy> StorageSerializer<D> for PrefabInner<D> {
    open spec fn spec_entities(&self) -> Seq<EntityUuid> {
        match self.prefab_meta {
            Some(m) => m.entities.spec_entries().map_values(|p: (EntityUuid, Entity)| p.0),
            None => Seq::empty(),
        }
    }

    open spec fn spec_component_types(&self, entity: EntityUuid) -> Seq<ComponentTypeUuid> {
        match self.spec_entity(entity) {
            Some(e) => types_of(self.world.components@, e),
            None => Seq::empty(),
        }
    }

    open spec fn spec_entity_component(&self, entity: EntityUuid, component: ComponentTypeUuid) -> D {
        data_of(self.world.components@, self.spec_entity(entity)->Some_0, component)
    }

    open spec fn spec_prefab_refs(&self) -> Seq<PrefabUuid> {
        match self.prefab_meta {
            Some(m) => m.prefab_refs.spec_entries().map_values(|p: (PrefabUuid, PrefabRef<D>)| p.0),
            None => Seq::empty(),
        }
    }

    open spec fn spec_prefab_ref_overrides(&self, prefab_ref: PrefabUuid) -> Seq<(EntityUuid, Seq<ComponentTypeUuid>)> {
        match self.spec_ref(prefab_ref) {
            Some(r) => r.overrides.spec_entries().map_values(
                |p: (EntityUuid, Vec<ComponentOverride<D>>)| (p.0, override_types(p.1@)),
            ),
            None => Seq::empty(),
        }
    }

    open spec fn spec_component_override_diff(
        &self,
        prefab_ref: PrefabUuid,
        entity: EntityUuid,
        component: ComponentTypeUuid,
    ) -> D {
        override_data_of(self.spec_ref(prefab_ref)->Some_0.overrides@[entity]@, component)
    }

    fn entities(&self) -> (res: Vec<EntityUuid>) {
        match &self.prefab_meta {
            Some(m) => {
                let res = m.entities.keys();
                assert(res@ =~= self.spec_entities());
                res
            },
            None => Vec::new(),
        }
    }

    fn component_types(&self, entity: &EntityUuid) -> (res: Vec<ComponentTypeUuid>) {
        let mut res: Vec<ComponentTypeUuid> = Vec::new();
        let target = match &self.prefab_meta {
            Some(m) => match m.entities.get(entity) {
                Some(e) => *e,
                None => {
                    return res;
                },
            },
            None => {
                return res;
            },
        };
        let mut i: usize = 0;
        while i < self.world.components.len()
            invariant
                i <= self.world.components@.len(),
                res@ == types_of(self.world.components@.take(i as int), target),
            decreases self.world.components@.len() - i,
        {
            proof {
                assert(self.world.components@.take(i + 1).drop_last() =~= self.world.components@.take(i as int));
            }
            if self.world.components[i].0 == target {
                res.push(self.world.components[i].1);
            }
            i = i + 1;
        }
        proof {
            assert(self.world.components@.take(self.world.components@.len() as int) =~= self.world.components@);
        }
        res
    }

    fn serialize_entity_component(&self, entity: &EntityUuid, component: &ComponentTypeUuid) -> (res: D) {
        let target = match &self.prefab_meta {
            Some(m) => *m.entities.get(entity).unwrap(),
            None => {
                proof {
                    assert(false);
                }
                Entity { index: 0, version: 0 }
            },
        };
        let ghost all = self.world.components@;
        proof {
            lemma_types_of_contains(all, target, *component);
            assert(all.skip(0) =~= all);
        }
        let mut i: usize = 0;
        while i < self.world.components.len()
            invariant
                all == self.world.components@,
                self.spec_entity(*entity) == Some(target),
                i <= all.len(),
                data_of(all, target, *component) == data_of(all.skip(i as int), target, *component),
                exists|j: int| i <= j < all.len() && all[j].0 == target && all[j].1 == *component,
            decreases all.len() - i,
        {
            let (e, t, d) = self.world.components[i];
            proof {
                assert(all[i as int] == (e, t, d));
                assert(all.skip(i as int)[0] == all[i as int]);
                assert(all.skip(i as int).drop_first() =~= all.skip(i + 1));
            }
            if e == target && crate::uuids::uuid_eq(&t, component) {
                return d;
            }
            i = i + 1;
        }
        proof {
            assert(false);
        }
        self.world.components[0].2
    }

    fn prefab_refs(&self) -> (res: Vec<PrefabUuid>) {
        match &self.prefab_meta {
            Some(m) => {
                let res = m.prefab_refs.keys();
                assert(res@ =~= self.spec_prefab_refs());
                res
            },
            None => Vec::new(),
        }
    }

    fn prefab_ref_overrides(&self, prefab_ref: &PrefabUuid) -> (res: Vec<(EntityUuid, Vec<ComponentTypeUuid>)>) {
        let mut res: Vec<(EntityUuid, Vec<ComponentTypeUuid>)> = Vec::new();
        let reference = match &self.prefab_meta {
            Some(m) => match m.prefab_refs.get(prefab_ref) {
                Some(r) => r,
                None => {
                    return res;
                },
            },
            None => {
                return res;
            },
        };
        let keys = reference.overrides.keys();
        let ghost entries = reference.overrides.spec_entries();
        let mut i: usize = 0;
        while i < keys.len()
            invariant
                self.spec_ref(*prefab_ref) == Some(*reference),
                entries == reference.overrides.spec_entries(),
                keys_unique(entries),
                keys@.len() == entries.len(),
                forall|k: int| 0 <= k < keys@.len() ==> #[trigger] keys@[k] == entries[k].0,
                i <= keys@.len(),
                res@.len() == i,
                forall|k: int|
                    0 <= k < i ==> #[trigger] res@[k].0 == entries[k].0 && res@[k].1@ == override_types(entries[k].1@),
            decreases keys@.len() - i,
        {
            let k = keys[i];
            proof {
                lemma_map_of_index(entries, i as int);
            }
            let list = reference.overrides.get(&k).unwrap();
            let mut types: Vec<ComponentTypeUuid> = Vec::new();
            let mut j: usize = 0;
            while j < list.len()
                invariant
                    j <= list@.len(),
                    types@ == override_types(list@.take(j as int)),
                decreases list@.len() - j,
            {
                types.push(list[j].component_type);
                proof {
                    assert(override_types(list@.take(j + 1)) =~= override_types(list@.take(j as int)).push(list@[j as int].component_type));
                }
                j = j + 1;
            }
            proof {
                assert(list@.take(list@.len() as int) =~= list@);
            }
            let ghost before = res@;
            res.push((k, types));
            proof {
                assert(*list == entries[i as int].1);
                assert forall|m: int| 0 <= m < i + 1 implies #[trigger] res@[m].0 == entries[m].0 && res@[m].1@
                    == override_types(entries[m].1@) by {
                    if m < i {
                        assert(res@[m] == before[m]);
                    }
                }
            }
            i = i + 1;
        }
        res
    }

    fn serialize_component_override_diff(
        &self,
        prefab_ref: &PrefabUuid,
        entity: &EntityUuid,
        component: &ComponentTypeUuid,
    ) -> (res: D) {
        let reference = match &self.prefab_meta {
            Some(m) => m.prefab_refs.get(prefab_ref).unwrap(),
            None => {
                proof {
                    assert(false);
                }
                return self.world.components[0].2;
            },
        };
        let ghost ov = self.spec_prefab_ref_overrides(*prefab_ref);
        let ghost entries = reference.overrides.spec_entries();
        let found = reference.overrides.get(entity);
        proof {
            let k = choose|k: int| 0 <= k < ov.len() && #[trigger] ov[k].0 == *entity && ov[k].1.contains(*component);
            assert(ov[k] == (entries[k].0, override_types(entries[k].1@)));
            lemma_map_of_index(entries, k);
        }
        let list = found.unwrap();
        let ghost all = list@;
        proof {
            let k = choose|k: int| 0 <= k < ov.len() && #[trigger] ov[k].0 == *entity && ov[k].1.contains(*component);
            assert(ov[k] == (entries[k].0, override_types(entries[k].1@)));
            lemma_map_of_index(entries, k);
            let t = choose|t: int| 0 <= t < override_types(all).len() && override_types(all)[t] == *component;
            assert(all[t].component_type == *component);
            assert(all.skip(0) =~= all);
            assert(self.spec_ref(*prefab_ref) == Some(*reference));
            assert(*list == reference.overrides@[*entity]);
        }
        let mut i: usize = 0;
        while i < list.len()
            invariant
                all == list@,
                self.spec_component_override_diff(*prefab_ref, *entity, *component) == override_data_of(all, *component),
                i <= all.len(),
                override_data_of(all, *component) == override_data_of(all.skip(i as int), *component),
                exists|j: int| i <= j < all.len() && all[j].component_type == *component,
            decreases all.len() - i,
        {
            proof {
                assert(all.skip(i as int)[0] == all[i as int]);
                assert(all.skip(i as int).drop_first() =~= all.skip(i + 1));
            }
            if crate::uuids::uuid_eq(&list[i].component_type, component) {
                return list[i].data;
            }
            i = i + 1;
        }
        proof {
            assert(false);
        }
        list[0].data
    }
}

} // verus!

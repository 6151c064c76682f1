//! The entities the editor has selected. Changes are queued and applied together once a frame.

use vstd::prelude::*;
use crate::keymap::KeyMap;
use super::Entity;

verus! {

/// A queued change of the selection.
#[derive(Debug)]
pub enum SelectionOp {
    Add(Entity),
    Remove(Entity),
    Replace(Vec<Entity>),
    Clear,
}

/// The selection after `op`, and whether `op` reports a change.
pub open spec fn apply_selection_op(selected: Set<Entity>, op: SelectionOp) -> (Set<Entity>, bool) {
    match op {
        SelectionOp::Add(e) => (selected.insert(e), !selected.contains(e)),
        SelectionOp::Remove(e) => (selected.remove(e), selected.contains(e)),
        SelectionOp::Clear => (Set::empty(), selected != Set::<Entity>::empty()),
        SelectionOp::Replace(entities) => (entities@.to_set(), true),
    }
}

/// The selection after `ops` in order, and whether any of them reports a change.
pub open spec fn apply_selection_ops(selected: Set<Entity>, ops: Seq<SelectionOp>) -> (Set<Entity>, bool)
    decreases ops.len(),
{
    if ops.len() == 0 {
        (selected, false)
    } else {
        let first = apply_selection_op(selected, ops[0]);
        let rest = apply_selection_ops(first.0, ops.drop_first());
        (rest.0, first.1 || rest.1)
    }
}

/// Queued changes that report no change leave the selection as it was.
pub proof fn lemma_unreported_changes_keep_selection(selected: Set<Entity>, ops: Seq<SelectionOp>)
    ensures
        !apply_selection_ops(selected, ops).1 ==> apply_selection_ops(selected, ops).0 == selected,
    decreases ops.len(),
{
    if ops.len() > 0 {
        let first = apply_selection_op(selected, ops[0]);
        lemma_unreported_changes_keep_selection(first.0, ops.drop_first());
        if !first.1 {
            match ops[0] {
                SelectionOp::Add(e) => {
                    assert(selected.insert(e) =~= selected);
                },
                SelectionOp::Remove(e) => {
                    assert(selected.remove(e) =~= selected);
                },
                _ => {},
            }
        }
    }
}

/// The editor's selection and the changes queued for it.
pub struct EditorSelectionResource {
    pub selected_entities: KeyMap<Entity, ()>,
    pub pending_selection_ops: Vec<SelectionOp>,
}

impl EditorSelectionResource {
    /// The selected entities.
    pub open spec fn selected(self) -> Set<Entity> {
        self.selected_entities@.dom()
    }

    /// Nothing selected and nothing queued.
    pub fn new() -> (res: Self)
        ensures
            res.selected() == Set::<Entity>::empty(),
            res.pending_selection_ops@.len() == 0,
    {
        let res = EditorSelectionResource { selected_entities: KeyMap::new(), pending_selection_ops: Vec::new() };
        assert(res.selected() =~= Set::<Entity>::empty());
        res
    }

    /// The selected entities, each once.
    pub fn selected_entities(&self) -> (res: Vec<Entity>)
        ensures
            res@.to_set() == self.selected(),
            res@.no_duplicates(),
    {
        let res = self.selected_entities.keys();
        proof {
            assert forall|e: Entity| res@.to_set().contains(e) == self.selected().contains(e) by {}
            assert(res@.to_set() =~= self.selected());
        }
        res
    }

    /// Queues adding `entity`.
    pub fn enqueue_add_to_selection(&mut self, entity: Entity)
        ensures
            final(self).pending_selection_ops@ == old(self).pending_selection_ops@.push(SelectionOp::Add(entity)),
            final(self).selected_entities == old(self).selected_entities,
    {
        self.pending_selection_ops.push(SelectionOp::Add(entity));
    }

    /// Queues removing `entity`.
    pub fn enqueue_remove_from_selection(&mut self, entity: Entity)
        ensures
            final(self).pending_selection_ops@ == old(self).pending_selection_ops@.push(SelectionOp::Remove(entity)),
            final(self).selected_entities == old(self).selected_entities,
    {
        self.pending_selection_ops.push(SelectionOp::Remove(entity));
    }

    /// Queues clearing the selection.
    pub fn enqueue_clear_selection(&mut self)
        ensures
            final(self).pending_selection_ops@ == old(self).pending_selection_ops@.push(SelectionOp::Clear),
            final(self).selected_entities == old(self).selected_entities,
    {
        self.pending_selection_ops.push(SelectionOp::Clear);
    }

    /// Queues replacing the selection with `selected_entities`.
    pub fn enqueue_set_selection(&mut self, selected_entities: Vec<Entity>)
        ensures
            final(self).pending_selection_ops@ == old(self).pending_selection_ops@.push(
                SelectionOp::Replace(selected_entities),
            ),
            final(self).selected_entities == old(self).selected_entities,
    {
        self.pending_selection_ops.push(SelectionOp::Replace(selected_entities));
    }

    /// Whether `entity` is selected.
    pub fn is_entity_selected(&self, entity: Entity) -> (res: bool)
        ensures
            res == self.selected().contains(entity),
    {
        self.selected_entities.contains_key(&entity)
    }

    /// Applies the queued changes in order and empties the queue; the result says whether any
    /// of them changed the selection (replacing it always counts as a change).
    pub fn process_selection_ops(&mut self) -> (changed: bool)
        ensures
            final(self).selected() == apply_selection_ops(old(self).selected(), old(self).pending_selection_ops@).0,
            changed == apply_selection_ops(old(self).selected(), old(self).pending_selection_ops@).1,
            final(self).pending_selection_ops@.len() == 0,
    {
        let ghost target = apply_selection_ops(old(self).selected(), old(self).pending_selection_ops@);
        let mut ops: Vec<SelectionOp> = Vec::new();
        std::mem::swap(&mut ops, &mut self.pending_selection_ops);
        let mut changed = false;
        while ops.len() > 0
            invariant
                self.pending_selection_ops@.len() == 0,
                target == (
                    apply_selection_ops(self.selected(), ops@).0,
                    changed || apply_selection_ops(self.selected(), ops@).1,
                ),
            decreases ops.len(),
        {
            let ghost cur = ops@;
            let op = ops.remove(0);
            proof {
                assert(ops@ == cur.drop_first());
                assert(cur[0] == op);
            }
            let ghost sel0 = self.selected();
            let ghost expected = apply_selection_op(sel0, op);
            let step = match op {
                SelectionOp::Add(e) => {
                    let had = self.selected_entities.contains_key(&e);
                    self.selected_entities.insert(e, ());
                    !had
                },
                SelectionOp::Remove(e) => {
                    let removed = self.selected_entities.remove(&e);
                    removed.is_some()
                },
                SelectionOp::Clear => {
                    let n = self.selected_entities.len();
                    proof {
                        let s = self.selected_entities.spec_entries();
                        if n > 0 {
                            crate::keymap::lemma_map_of_dom(s, s[0].0);
                            assert(sel0.contains(s[0].0));
                        } else {
                            assert(sel0 =~= Set::<Entity>::empty());
                        }
                    }
                    if n > 0 {
                        self.selected_entities = KeyMap::new();
                        true
                    } else {
                        false
                    }
                },
                SelectionOp::Replace(entities) => {
                    let mut fresh: KeyMap<Entity, ()> = KeyMap::new();
                    let mut i: usize = 0;
                    proof {
                        assert(entities@.take(0).to_set() =~= Set::<Entity>::empty());
                    }
                    while i < entities.len()
                        invariant
                            i <= entities@.len(),
                            fresh@.dom() == entities@.take(i as int).to_set(),
                        decreases entities@.len() - i,
                    {
                        let ghost before = entities@.take(i as int);
                        fresh.insert(entities[i], ());
                        proof {
                            let after = entities@.take(i + 1);
                            assert(after =~= before.push(entities@[i as int]));
                            assert forall|x: Entity| after.to_set().contains(x) == before.to_set().insert(entities@[i as int]).contains(x) by {
                                if after.contains(x) {
                                    let k = choose|k: int| 0 <= k < after.len() && after[k] == x;
                                    if k < i {
                                        assert(before[k] == x);
                                    }
                                }
                                if before.contains(x) {
                                    let k = choose|k: int| 0 <= k < before.len() && before[k] == x;
                                    assert(after[k] == x);
                                }
                                if x == entities@[i as int] {
                                    assert(after[i as int] == x);
                                }
                            }
                            assert(after.to_set() =~= before.to_set().insert(entities@[i as int]));
                        }
                        i = i + 1;
                    }
                    proof {
                        assert(entities@.take(entities@.len() as int) =~= entities@);
                    }
                    self.selected_entities = fresh;
                    true
                },
            };
            proof {
                assert(self.selected() =~= expected.0);
                assert(step == expected.1);
            }
            changed = changed || step;
        }
        changed
    }
}

} // verus!

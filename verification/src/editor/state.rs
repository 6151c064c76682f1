//! The editor's state: whether it is editing, which tool is active, the prefab it has opened,
//! the operations queued for the next frame, the diffs waiting to be applied and committed, and
//! the undo chain.
//!
//! Work on the world (spawning the opened prefab, applying diffs to it) is the caller's: the
//! state tells it what to do through an [`EditorAction`] and is told the outcome.

use vstd::prelude::*;
use crate::uuids::{ComponentTypeUuid, EntityUuid};
use crate::keymap::KeyMap;
use super::Entity;
use super::diffs::{ComponentDiff, ComponentDiffOp};
use super::selection::EditorSelectionResource;
use super::time::{SimulationTimePauseReason, TimeResource, paused_for};
use super::transactions::{TransactionBuilderEntityInfo, TransactionEntityInfo, begin_map};

verus! {

/// The identifier of an asset.
pub type AssetUuid = [u8; 16];

/// An operation queued for the editor to perform at the start of the next frame.
#[derive(Debug)]
pub enum EditorOp {
    Play,
    Pause,
    Reset,
    OpenPrefab(AssetUuid),
    TogglePause,
    SetActiveEditorTool(EditorTool),
    Undo,
    Redo,
}

/// Which editor windows are shown.
#[derive(Clone, Copy, PartialEq, Eq, Structural, Debug)]
pub struct WindowOptions {
    pub show_imgui_metrics: bool,
    pub show_imgui_style_editor: bool,
    pub show_imgui_demo: bool,
    pub show_entity_list: bool,
    pub show_inspector: bool,
}

impl WindowOptions {
    /// No window shown.
    pub fn new() -> (res: Self)
        ensures
            res == (WindowOptions {
                show_imgui_metrics: false,
                show_imgui_style_editor: false,
                show_imgui_demo: false,
                show_entity_list: false,
                show_inspector: false,
            }),
    {
        WindowOptions {
            show_imgui_metrics: false,
            show_imgui_style_editor: false,
            show_imgui_demo: false,
            show_entity_list: false,
            show_inspector: false,
        }
    }

    /// The windows shown while the simulation runs: the entity list and the inspector.
    pub fn new_runtime() -> (res: Self)
        ensures
            res == (WindowOptions {
                show_imgui_metrics: false,
                show_imgui_style_editor: false,
                show_imgui_demo: false,
                show_entity_list: true,
                show_inspector: true,
            }),
    {
        let mut options = Self::new();
        options.show_entity_list = true;
        options.show_inspector = true;
        options
    }

    /// The windows shown while editing: the entity list and the inspector.
    pub fn new_editing() -> (res: Self)
        ensures
            res == (WindowOptions {
                show_imgui_metrics: false,
                show_imgui_style_editor: false,
                show_imgui_demo: false,
                show_entity_list: true,
                show_inspector: true,
            }),
    {
        let mut options = Self::new();
        options.show_entity_list = true;
        options.show_inspector = true;
        options
    }
}

/// The tool that mouse drags on selected entities use.
#[derive(PartialEq, Eq, Structural, Debug, Copy, Clone)]
pub enum EditorTool {
    Translate,
    Scale,
    Rotate,
}

/// Whether the editor is editing (and the simulation held) or the simulation runs.
#[derive(PartialEq, Eq, Structural, Debug, Copy, Clone, Hash)]
pub enum EditorMode {
    Inactive,
    Active,
}

/// The prefab the editor has opened: its asset and version, the entities of its cooked form by
/// identifier, and how the entities of the cooked form map to the entities spawned in the
/// world, both ways.
pub struct OpenedPrefabState {
    pub uuid: AssetUuid,
    pub version: u32,
    pub cooked_entities: KeyMap<EntityUuid, Entity>,
    pub prefab_to_world_mappings: KeyMap<Entity, Entity>,
    pub world_to_prefab_mappings: KeyMap<Entity, Entity>,
}

impl OpenedPrefabState {
    pub fn uuid(&self) -> (res: &AssetUuid)
        ensures
            *res == self.uuid,
    {
        &self.uuid
    }

    pub fn cooked_entities(&self) -> (res: &KeyMap<EntityUuid, Entity>)
        ensures
            *res == self.cooked_entities,
    {
        &self.cooked_entities
    }

    pub fn prefab_to_world_mappings(&self) -> (res: &KeyMap<Entity, Entity>)
        ensures
            *res == self.prefab_to_world_mappings,
    {
        &self.prefab_to_world_mappings
    }

    pub fn world_to_prefab_mappings(&self) -> (res: &KeyMap<Entity, Entity>)
        ensures
            *res == self.world_to_prefab_mappings,
    {
        &self.world_to_prefab_mappings
    }

    /// An identifier under which the cooked prefab holds `prefab_entity`, if there is one.
    pub fn uuid_of_prefab_entity(&self, prefab_entity: Entity) -> (res: Option<EntityUuid>)
        ensures
            match res {
                Some(u) => self.cooked_entities@.dom().contains(u) && self.cooked_entities@[u] == prefab_entity,
                None => forall|u: EntityUuid| #[trigger] self.cooked_entities@.dom().contains(u)
                    ==> self.cooked_entities@[u] != prefab_entity,
            },
    {
        let keys = self.cooked_entities.keys();
        let mut i: usize = 0;
        while i < keys.len()
            invariant
                i <= keys@.len(),
                forall|k: EntityUuid| self.cooked_entities@.dom().contains(k) <==> #[trigger] keys@.contains(k),
                forall|j: int| 0 <= j < i ==> self.cooked_entities@[#[trigger] keys@[j]] != prefab_entity,
            decreases keys@.len() - i,
        {
            let k = keys[i];
            assert(keys@.contains(k)) by {
                assert(keys@[i as int] == k);
            }
            let e = *self.cooked_entities.get(&k).unwrap();
            if e == prefab_entity {
                return Some(k);
            }
            i = i + 1;
        }
        proof {
            assert forall|u: EntityUuid| #[trigger] self.cooked_entities@.dom().contains(u)
                implies self.cooked_entities@[u] != prefab_entity by {
                assert(keys@.contains(u));
                let j = choose|j: int| 0 <= j < keys@.len() && keys@[j] == u;
                assert(self.cooked_entities@[keys@[j]] != prefab_entity);
            }
        }
        None
    }
}

/// A change to apply to the opened prefab: the component diffs that make it, the component
/// diffs that undo it, and whether it ends an edit that goes into the undo chain.
#[derive(Debug)]
pub struct EditorDiffStep {
    pub diffs: Vec<ComponentDiff>,
    pub undo_diffs: Vec<ComponentDiff>,
    pub commit_changes: bool,
}

/// How one component of one entity of an editor transaction compares between the copy taken
/// when it began and the edited copy, as the caller found it: whether it changed, the data of
/// the diff that makes the change and the data of the diff that undoes it.
#[derive(Debug)]
pub struct ComponentChange {
    pub entity_uuid: EntityUuid,
    pub component_type: ComponentTypeUuid,
    pub has_changes: bool,
    pub data: Vec<u8>,
    pub undo_data: Vec<u8>,
}

/// The diffs that make the changes: one per changed component, in order.
pub open spec fn change_diffs(changes: Seq<ComponentChange>) -> Seq<ComponentDiff>
    decreases changes.len(),
{
    if changes.len() == 0 {
        Seq::empty()
    } else {
        let rest = change_diffs(changes.drop_last());
        let c = changes.last();
        if c.has_changes {
            rest.push(ComponentDiff { entity_uuid: c.entity_uuid, component_type: c.component_type, op: ComponentDiffOp::Change(c.data) })
        } else {
            rest
        }
    }
}

/// The diffs that undo the changes, one per changed component, in order of the changes; the
/// step holds them reversed, so that the last change is undone first.
pub open spec fn undo_change_diffs(changes: Seq<ComponentChange>) -> Seq<ComponentDiff>
    decreases changes.len(),
{
    if changes.len() == 0 {
        Seq::empty()
    } else {
        let rest = undo_change_diffs(changes.drop_last());
        let c = changes.last();
        if c.has_changes {
            rest.push(ComponentDiff { entity_uuid: c.entity_uuid, component_type: c.component_type, op: ComponentDiffOp::Change(c.undo_data) })
        } else {
            rest
        }
    }
}

impl EditorDiffStep {
    /// The step for an edit: a diff for every changed component, and the diffs that undo them
    /// in reverse order. Such a step always ends an edit.
    pub fn from_changes(changes: Vec<ComponentChange>) -> (res: EditorDiffStep)
        ensures
            res.diffs@ == change_diffs(changes@),
            res.undo_diffs@ == undo_change_diffs(changes@).reverse(),
            res.commit_changes,
    {
        let ghost all = changes@;
        let total = changes.len();
        let mut pending = changes;
        let mut diffs: Vec<ComponentDiff> = Vec::new();
        let mut undo_diffs: Vec<ComponentDiff> = Vec::new();
        let mut done: usize = 0;
        while pending.len() > 0
            invariant
                done <= all.len(),
                all.len() == total,
                pending@ == all.skip(done as int),
                pending@.len() + done == all.len(),
                diffs@ == change_diffs(all.take(done as int)),
                undo_diffs@ == undo_change_diffs(all.take(done as int)),
            decreases pending.len(),
        {
            let change = pending.remove(0);
            proof {
                assert(change == all[done as int]);
                assert(all.take(done + 1).drop_last() =~= all.take(done as int));
                assert(all.take(done + 1).last() == change);
                assert(pending@ =~= all.skip(done + 1));
            }
            let ComponentChange { entity_uuid, component_type, has_changes, data, undo_data } = change;
            if has_changes {
                diffs.push(ComponentDiff::new(entity_uuid, component_type, ComponentDiffOp::Change(data)));
                undo_diffs.push(ComponentDiff::new(entity_uuid, component_type, ComponentDiffOp::Change(undo_data)));
            }
            done = done + 1;
        }
        proof {
            assert(all.take(all.len() as int) =~= all);
        }
        let ghost forward = undo_diffs@;
        let mut reversed: Vec<ComponentDiff> = Vec::new();
        while undo_diffs.len() > 0
            invariant
                forward.len() == undo_diffs@.len() + reversed@.len(),
                undo_diffs@ == forward.take(undo_diffs@.len() as int),
                reversed@ == forward.skip(undo_diffs@.len() as int).reverse(),
            decreases undo_diffs.len(),
        {
            let ghost n = undo_diffs@.len();
            let d = undo_diffs.pop().unwrap();
            proof {
                assert(d == forward[n - 1]);
                assert(undo_diffs@ =~= forward.take(n - 1));
            }
            reversed.push(d);
            proof {
                assert(forward.skip(n - 1) =~= seq![forward[n - 1]] + forward.skip(n as int));
                assert(reversed@ =~= forward.skip(n - 1).reverse());
            }
        }
        proof {
            assert(forward.skip(0) =~= forward);
        }
        EditorDiffStep { diffs, undo_diffs: reversed, commit_changes: true }
    }
}

/// The steps of `s` that end an edit: the index of the last one, or -1 if none does.
pub open spec fn last_commit_index(s: Seq<EditorDiffStep>) -> int
    decreases s.len(),
{
    if s.len() == 0 {
        -1
    } else if s.last().commit_changes {
        s.len() - 1
    } else {
        last_commit_index(s.drop_last())
    }
}

/// The diffs of the steps of `s`, in order.
pub open spec fn flat_diffs(s: Seq<EditorDiffStep>) -> Seq<ComponentDiff>
    decreases s.len(),
{
    if s.len() == 0 {
        Seq::empty()
    } else {
        flat_diffs(s.drop_last()) + s.last().diffs@
    }
}

/// The undo diffs of the steps of `s`, in order.
pub open spec fn flat_undo_diffs(s: Seq<EditorDiffStep>) -> Seq<ComponentDiff>
    decreases s.len(),
{
    if s.len() == 0 {
        Seq::empty()
    } else {
        flat_undo_diffs(s.drop_last()) + s.last().undo_diffs@
    }
}

/// The position in the undo chain after an undo, and the step whose undo diffs it applies.
pub open spec fn spec_undo(position: int) -> (int, Option<int>) {
    if position > 0 {
        (position - 1, Some(position - 1))
    } else {
        (position, None)
    }
}

/// The position in the undo chain after a redo, and the step whose diffs it applies.
pub open spec fn spec_redo(chain_len: int, position: int) -> (int, Option<int>) {
    if position < chain_len {
        (position + 1, Some(position))
    } else {
        (position, None)
    }
}

/// What the caller must do to the world for an operation the editor processed.
#[derive(Debug, Clone, Copy)]
pub enum EditorAction {
    /// Restart simulation time and, if `respawn`, replace the world's entities with a fresh
    /// spawn of the opened prefab, reporting the new mappings.
    Reset { respawn: bool },
    /// Load and cook the prefab `uuid`, open it, then reset.
    OpenPrefab(AssetUuid),
    /// Apply to the opened prefab the diffs of step `step` of the undo chain (its undo diffs if
    /// `undo`), then respawn it and restore the selection.
    ApplyDiffs { step: usize, undo: bool },
}

/// The editor's state.
pub struct EditorStateResource {
    pub editor_mode: EditorMode,
    pub window_options_running: WindowOptions,
    pub window_options_editing: WindowOptions,
    pub active_editor_tool: EditorTool,
    pub opened_prefab: Option<OpenedPrefabState>,
    pub pending_editor_ops: Vec<EditorOp>,
    pub diffs_pending_apply: Vec<EditorDiffStep>,
    pub diffs_pending_commit: Vec<EditorDiffStep>,
    pub undo_chain: Vec<EditorDiffStep>,
    pub undo_chain_position: usize,
}

/// The two states agree but for the pending operations.
pub open spec fn same_but_ops(a: EditorStateResource, b: EditorStateResource) -> bool {
    &&& a.editor_mode == b.editor_mode
    &&& a.window_options_running == b.window_options_running
    &&& a.window_options_editing == b.window_options_editing
    &&& a.active_editor_tool == b.active_editor_tool
    &&& a.opened_prefab == b.opened_prefab
    &&& a.diffs_pending_apply == b.diffs_pending_apply
    &&& a.diffs_pending_commit == b.diffs_pending_commit
    &&& a.undo_chain == b.undo_chain
    &&& a.undo_chain_position == b.undo_chain_position
}

/// The two states have the same queued diff steps and the same window options.
pub open spec fn same_queues_and_windows(a: EditorStateResource, b: EditorStateResource) -> bool {
    &&& a.diffs_pending_apply@ == b.diffs_pending_apply@
    &&& a.diffs_pending_commit@ == b.diffs_pending_commit@
    &&& a.window_options_running == b.window_options_running
    &&& a.window_options_editing == b.window_options_editing
}

/// What processing `op` does: from editor state `s0` and pause state `t0` to `s1` and `t1`,
/// with `res` the work left to the caller.
pub open spec fn op_done(
    s0: EditorStateResource,
    t0: TimeResource,
    op: EditorOp,
    s1: EditorStateResource,
    t1: TimeResource,
    res: Option<EditorAction>,
) -> bool {
    &&& t0.wf() ==> t1.wf()
    &&& match op {
        EditorOp::Play => res is None && s1.editor_mode == EditorMode::Inactive
            && t1.simulation_pause_flags == t0.simulation_pause_flags & !1u8
            && s1.undo_chain_position == s0.undo_chain_position,
        EditorOp::Pause => res is None && s1.editor_mode == EditorMode::Active
            && t1.simulation_pause_flags == t0.simulation_pause_flags | 1u8
            && s1.undo_chain_position == s0.undo_chain_position,
        EditorOp::TogglePause => res is None && s1.editor_mode == (if s0.editor_mode == EditorMode::Active {
            EditorMode::Inactive
        } else {
            EditorMode::Active
        }) && t1.simulation_pause_flags == (if s0.editor_mode == EditorMode::Active {
            t0.simulation_pause_flags & !1u8
        } else {
            t0.simulation_pause_flags | 1u8
        }) && s1.undo_chain_position == s0.undo_chain_position,
        EditorOp::SetActiveEditorTool(t) => res is None && s1.active_editor_tool == t
            && s1.editor_mode == s0.editor_mode
            && t1.simulation_pause_flags == t0.simulation_pause_flags
            && s1.undo_chain_position == s0.undo_chain_position,
        EditorOp::Reset => res == Some(EditorAction::Reset { respawn: s0.opened_prefab is Some })
            && s1.editor_mode == EditorMode::Active
            && t1.simulation_pause_flags == t0.simulation_pause_flags | 1u8
            && s1.undo_chain_position == s0.undo_chain_position,
        EditorOp::OpenPrefab(uuid) => res == Some(EditorAction::OpenPrefab(uuid))
            && s1.editor_mode == s0.editor_mode
            && t1.simulation_pause_flags == t0.simulation_pause_flags
            && s1.undo_chain_position == s0.undo_chain_position,
        EditorOp::Undo => {
            let u = spec_undo(s0.undo_chain_position as int);
            &&& s1.undo_chain_position == u.0
            &&& match u.1 {
                Some(i) => res == Some(EditorAction::ApplyDiffs { step: i as usize, undo: true }),
                None => res is None,
            }
            &&& if u.1 is Some && s0.opened_prefab is Some {
                s1.editor_mode == EditorMode::Active
                    && t1.simulation_pause_flags == t0.simulation_pause_flags | 1u8
            } else {
                s1.editor_mode == s0.editor_mode
                    && t1.simulation_pause_flags == t0.simulation_pause_flags
            }
        },
        EditorOp::Redo => {
            let r = spec_redo(s0.undo_chain@.len() as int, s0.undo_chain_position as int);
            &&& s1.undo_chain_position == r.0
            &&& match r.1 {
                Some(i) => res == Some(EditorAction::ApplyDiffs { step: i as usize, undo: false }),
                None => res is None,
            }
            &&& if r.1 is Some && s0.opened_prefab is Some {
                s1.editor_mode == EditorMode::Active
                    && t1.simulation_pause_flags == t0.simulation_pause_flags | 1u8
            } else {
                s1.editor_mode == s0.editor_mode
                    && t1.simulation_pause_flags == t0.simulation_pause_flags
            }
        },
    }
    &&& s1.undo_chain@ == s0.undo_chain@
    &&& s1.opened_prefab == s0.opened_prefab
    &&& !(op is SetActiveEditorTool) ==> s1.active_editor_tool == s0.active_editor_tool
    &&& same_queues_and_windows(s1, s0)
}

/// The states `trace` pass through when `ops` are processed in order from `s0` and `t0`: the
/// first is where they start (the queue of pending operations aside), and each operation leads
/// from one to the next, with `actions` the work left to the caller for each.
pub open spec fn ops_trace(
    s0: EditorStateResource,
    t0: TimeResource,
    trace: Seq<(EditorStateResource, TimeResource)>,
    ops: Seq<EditorOp>,
    actions: Seq<Option<EditorAction>>,
) -> bool {
    &&& trace.len() == ops.len() + 1
    &&& actions.len() == ops.len()
    &&& same_but_ops(trace[0].0, s0)
    &&& trace[0].1 == t0
    &&& forall|i: int| 0 <= i < ops.len() ==> op_done(trace[i].0, trace[i].1, #[trigger] ops[i], trace[i + 1].0, trace[i + 1].1, actions[i])
}

/// What processing `ops` in order does, from `s0` and `t0` to `s1` and `t1` (the queue of
/// pending operations aside), with `actions` the work left to the caller for each operation.
pub open spec fn ops_done(
    s0: EditorStateResource,
    t0: TimeResource,
    ops: Seq<EditorOp>,
    s1: EditorStateResource,
    t1: TimeResource,
    actions: Seq<Option<EditorAction>>,
) -> bool {
    exists|trace: Seq<(EditorStateResource, TimeResource)>| #[trigger] ops_trace(s0, t0, trace, ops, actions)
        && same_but_ops(s1, trace.last().0) && t1 == trace.last().1
}

impl EditorStateResource {
    /// The position in the undo chain is within the chain.
    pub open spec fn wf(self) -> bool {
        self.undo_chain_position <= self.undo_chain@.len()
    }

    /// A state that is not editing, with the translate tool, no prefab, nothing queued and an
    /// empty undo chain.
    pub fn new() -> (res: Self)
        ensures
            res.wf(),
            res.editor_mode == EditorMode::Inactive,
            res.window_options_running == (WindowOptions {
                show_imgui_metrics: false,
                show_imgui_style_editor: false,
                show_imgui_demo: false,
                show_entity_list: true,
                show_inspector: true,
            }),
            res.window_options_editing == res.window_options_running,
            res.active_editor_tool == EditorTool::Translate,
            res.opened_prefab is None,
            res.pending_editor_ops@.len() == 0,
            res.diffs_pending_apply@.len() == 0,
            res.diffs_pending_commit@.len() == 0,
            res.undo_chain@.len() == 0,
            res.undo_chain_position == 0,
    {
        EditorStateResource {
            editor_mode: EditorMode::Inactive,
            window_options_running: WindowOptions::new_runtime(),
            window_options_editing: WindowOptions::new_editing(),
            active_editor_tool: EditorTool::Translate,
            opened_prefab: None,
            pending_editor_ops: Vec::new(),
            diffs_pending_apply: Vec::new(),
            diffs_pending_commit: Vec::new(),
            undo_chain: Vec::new(),
            undo_chain_position: 0,
        }
    }

    pub fn opened_prefab(&self) -> (res: Option<&OpenedPrefabState>)
        ensures
            match res {
                Some(p) => self.opened_prefab == Some(*p),
                None => self.opened_prefab is None,
            },
    {
        match &self.opened_prefab {
            Some(p) => Some(p),
            None => None,
        }
    }

    /// The editor is editing.
    pub fn is_editor_active(&self) -> (res: bool)
        ensures
            res == (self.editor_mode != EditorMode::Inactive),
    {
        self.editor_mode != EditorMode::Inactive
    }

    pub fn editor_mode(&self) -> (res: EditorMode)
        ensures
            res == self.editor_mode,
    {
        self.editor_mode
    }

    /// The window options of the current mode: those for editing while editing, else those for
    /// running.
    pub fn window_options(&self) -> (res: &WindowOptions)
        ensures
            *res == if self.editor_mode != EditorMode::Inactive {
                self.window_options_editing
            } else {
                self.window_options_running
            },
    {
        if self.is_editor_active() {
            &self.window_options_editing
        } else {
            &self.window_options_running
        }
    }

    /// Sets the window options of the current mode.
    pub fn set_window_options(&mut self, options: WindowOptions)
        ensures
            final(self).window_options_editing == if old(self).editor_mode != EditorMode::Inactive {
                options
            } else {
                old(self).window_options_editing
            },
            final(self).window_options_running == if old(self).editor_mode != EditorMode::Inactive {
                old(self).window_options_running
            } else {
                options
            },
            final(self).editor_mode == old(self).editor_mode,
            final(self).undo_chain_position == old(self).undo_chain_position,
            final(self).undo_chain@ == old(self).undo_chain@,
            final(self).opened_prefab == old(self).opened_prefab,
            final(self).active_editor_tool == old(self).active_editor_tool,
            final(self).pending_editor_ops@ == old(self).pending_editor_ops@,
            final(self).diffs_pending_apply@ == old(self).diffs_pending_apply@,
            final(self).diffs_pending_commit@ == old(self).diffs_pending_commit@,
    {
        if self.is_editor_active() {
            self.window_options_editing = options;
        } else {
            self.window_options_running = options;
        }
    }

    /// Stops editing and lets the simulation run, as far as the editor is concerned.
    pub fn play(&mut self, time_state: &mut TimeResource)
        ensures
            final(self).editor_mode == EditorMode::Inactive,
            final(self).opened_prefab == old(self).opened_prefab,
            final(self).undo_chain_position == old(self).undo_chain_position,
            final(self).undo_chain@ == old(self).undo_chain@,
            final(self).active_editor_tool == old(self).active_editor_tool,
            final(time_state).simulation_pause_flags == old(time_state).simulation_pause_flags & !1u8,
            !paused_for(final(time_state).simulation_pause_flags, SimulationTimePauseReason::Editor),
            paused_for(final(time_state).simulation_pause_flags, SimulationTimePauseReason::User)
                == paused_for(old(time_state).simulation_pause_flags, SimulationTimePauseReason::User),
            old(time_state).wf() ==> final(time_state).wf(),
            final(self).pending_editor_ops@ == old(self).pending_editor_ops@,
            same_queues_and_windows(*final(self), *old(self)),
    {
        self.editor_mode = EditorMode::Inactive;
        time_state.set_simulation_time_paused(false, SimulationTimePauseReason::Editor);
    }

    /// Starts editing and holds the simulation.
    pub fn pause(&mut self, time_state: &mut TimeResource)
        ensures
            final(self).editor_mode == EditorMode::Active,
            final(self).opened_prefab == old(self).opened_prefab,
            final(self).undo_chain_position == old(self).undo_chain_position,
            final(self).undo_chain@ == old(self).undo_chain@,
            final(self).active_editor_tool == old(self).active_editor_tool,
            final(time_state).simulation_pause_flags == old(time_state).simulation_pause_flags | 1u8,
            paused_for(final(time_state).simulation_pause_flags, SimulationTimePauseReason::Editor),
            paused_for(final(time_state).simulation_pause_flags, SimulationTimePauseReason::User)
                == paused_for(old(time_state).simulation_pause_flags, SimulationTimePauseReason::User),
            old(time_state).wf() ==> final(time_state).wf(),
            final(self).pending_editor_ops@ == old(self).pending_editor_ops@,
            same_queues_and_windows(*final(self), *old(self)),
    {
        self.editor_mode = EditorMode::Active;
        time_state.set_simulation_time_paused(true, SimulationTimePauseReason::Editor);
    }

    /// Plays while editing, pauses while running.
    pub fn toggle_pause(&mut self, time_state: &mut TimeResource)
        ensures
            final(self).editor_mode == if old(self).editor_mode == EditorMode::Active {
                EditorMode::Inactive
            } else {
                EditorMode::Active
            },
            final(self).opened_prefab == old(self).opened_prefab,
            final(self).undo_chain_position == old(self).undo_chain_position,
            final(self).undo_chain@ == old(self).undo_chain@,
            final(self).active_editor_tool == old(self).active_editor_tool,
            final(time_state).simulation_pause_flags == if old(self).editor_mode == EditorMode::Active {
                old(time_state).simulation_pause_flags & !1u8
            } else {
                old(time_state).simulation_pause_flags | 1u8
            },
            paused_for(final(time_state).simulation_pause_flags, SimulationTimePauseReason::Editor)
                == (final(self).editor_mode == EditorMode::Active),
            paused_for(final(time_state).simulation_pause_flags, SimulationTimePauseReason::User)
                == paused_for(old(time_state).simulation_pause_flags, SimulationTimePauseReason::User),
            old(time_state).wf() ==> final(time_state).wf(),
            final(self).pending_editor_ops@ == old(self).pending_editor_ops@,
            same_queues_and_windows(*final(self), *old(self)),
    {
        match self.editor_mode {
            EditorMode::Active => self.play(time_state),
            EditorMode::Inactive => self.pause(time_state),
        }
    }

    /// What a reset does to the editor: it starts editing and holds the simulation. The result
    /// says whether a prefab is opened, whose fresh spawn the caller then puts in the world.
    pub fn reset(&mut self, time_state: &mut TimeResource) -> (respawn: bool)
        ensures
            respawn == old(self).opened_prefab is Some,
            final(self).editor_mode == EditorMode::Active,
            final(self).opened_prefab == old(self).opened_prefab,
            final(self).undo_chain_position == old(self).undo_chain_position,
            final(self).undo_chain@ == old(self).undo_chain@,
            final(self).active_editor_tool == old(self).active_editor_tool,
            final(self).pending_editor_ops@ == old(self).pending_editor_ops@,
            same_queues_and_windows(*final(self), *old(self)),
            final(time_state).simulation_pause_flags == old(time_state).simulation_pause_flags | 1u8,
            old(time_state).wf() ==> final(time_state).wf(),
    {
        time_state.set_simulation_time_paused(true, SimulationTimePauseReason::Editor);
        self.editor_mode = EditorMode::Active;
        self.opened_prefab.is_some()
    }

    /// Opens a prefab: its asset, version and the entities of its cooked form. Nothing is
    /// spawned yet, so no entity of the world maps to it.
    pub fn set_opened_prefab(&mut self, uuid: AssetUuid, version: u32, cooked_entities: KeyMap<EntityUuid, Entity>)
        ensures
            final(self).opened_prefab matches Some(p) && p.uuid == uuid && p.version == version
                && p.cooked_entities == cooked_entities && p.prefab_to_world_mappings@ == Map::<Entity, Entity>::empty()
                && p.world_to_prefab_mappings@ == Map::<Entity, Entity>::empty(),
            final(self).editor_mode == old(self).editor_mode,
            final(self).undo_chain_position == old(self).undo_chain_position,
            final(self).undo_chain@ == old(self).undo_chain@,
            final(self).pending_editor_ops@ == old(self).pending_editor_ops@,
            same_queues_and_windows(*final(self), *old(self)),
            final(self).active_editor_tool == old(self).active_editor_tool,
    {
        self.opened_prefab = Some(
            OpenedPrefabState {
                uuid,
                version,
                cooked_entities,
                prefab_to_world_mappings: KeyMap::new(),
                world_to_prefab_mappings: KeyMap::new(),
            },
        );
    }

    /// Records where the entities of the opened prefab were spawned: `pairs` maps each entity of
    /// the cooked prefab to its spawn. The reverse mapping is kept too.
    pub fn set_world_mappings(&mut self, pairs: Vec<(Entity, Entity)>)
        ensures
            match (old(self).opened_prefab, final(self).opened_prefab) {
                (Some(a), Some(b)) => {
                    &&& b.uuid == a.uuid
                    &&& b.version == a.version
                    &&& b.cooked_entities == a.cooked_entities
                    &&& b.prefab_to_world_mappings@ == crate::keymap::map_of(pairs@)
                    &&& forall|w: Entity| #[trigger] b.world_to_prefab_mappings@.dom().contains(w) ==> {
                        let p = b.world_to_prefab_mappings@[w];
                        b.prefab_to_world_mappings@.dom().contains(p) && b.prefab_to_world_mappings@[p] == w
                    }
                    &&& forall|p: Entity| #[trigger] b.prefab_to_world_mappings@.dom().contains(p)
                        ==> b.world_to_prefab_mappings@.dom().contains(b.prefab_to_world_mappings@[p])
                },
                (None, None) => true,
                _ => false,
            },
            final(self).editor_mode == old(self).editor_mode,
            final(self).undo_chain_position == old(self).undo_chain_position,
            final(self).undo_chain@ == old(self).undo_chain@,
            final(self).pending_editor_ops@ == old(self).pending_editor_ops@,
    {
        let opened = self.opened_prefab.take();
        match opened {
            None => {},
            Some(prefab) => {
                let OpenedPrefabState { uuid, version, cooked_entities, prefab_to_world_mappings: _, world_to_prefab_mappings: _ } = prefab;
                let mut prefab_to_world: KeyMap<Entity, Entity> = KeyMap::new();
                let mut i: usize = 0;
                while i < pairs.len()
                    invariant
                        i <= pairs@.len(),
                        prefab_to_world@ == crate::keymap::map_of(pairs@.take(i as int)),
                    decreases pairs@.len() - i,
                {
                    let (p, w) = pairs[i];
                    prefab_to_world.insert(p, w);
                    proof {
                        assert(pairs@.take(i + 1).drop_last() =~= pairs@.take(i as int));
                    }
                    i = i + 1;
                }
                proof {
                    assert(pairs@.take(pairs@.len() as int) =~= pairs@);
                }
                let keys = prefab_to_world.keys();
                let mut world_to_prefab: KeyMap<Entity, Entity> = KeyMap::new();
                let mut j: usize = 0;
                while j < keys.len()
                    invariant
                        j <= keys@.len(),
                        forall|k: Entity| prefab_to_world@.dom().contains(k) <==> #[trigger] keys@.contains(k),
                        forall|w: Entity| #[trigger] world_to_prefab@.dom().contains(w) ==> {
                            let p = world_to_prefab@[w];
                            prefab_to_world@.dom().contains(p) && prefab_to_world@[p] == w
                        },
                        forall|m: int| 0 <= m < j ==> world_to_prefab@.dom().contains(prefab_to_world@[#[trigger] keys@[m]]),
                    decreases keys@.len() - j,
                {
                    let p = keys[j];
                    assert(keys@.contains(p)) by {
                        assert(keys@[j as int] == p);
                    }
                    let w = *prefab_to_world.get(&p).unwrap();
                    world_to_prefab.insert(w, p);
                    j = j + 1;
                }
                proof {
                    assert forall|p: Entity| #[trigger] prefab_to_world@.dom().contains(p)
                        implies world_to_prefab@.dom().contains(prefab_to_world@[p]) by {
                        assert(keys@.contains(p));
                        let m = choose|m: int| 0 <= m < keys@.len() && keys@[m] == p;
                        assert(world_to_prefab@.dom().contains(prefab_to_world@[keys@[m]]));
                    }
                }
                self.opened_prefab = Some(
                    OpenedPrefabState {
                        uuid,
                        version,
                        cooked_entities,
                        prefab_to_world_mappings: prefab_to_world,
                        world_to_prefab_mappings: world_to_prefab,
                    },
                );
            },
        }
    }

    /// Whether the opened prefab must be reloaded: its asset is now at `current_version`, not
    /// the version the editor opened.
    pub fn needs_reload(&self, current_version: u32) -> (res: bool)
        ensures
            res == (self.opened_prefab matches Some(p) && p.version != current_version),
    {
        match &self.opened_prefab {
            Some(p) => p.version != current_version,
            None => false,
        }
    }

    pub fn active_editor_tool(&self) -> (res: EditorTool)
        ensures
            res == self.active_editor_tool,
    {
        self.active_editor_tool
    }

    pub fn set_active_editor_tool(&mut self, editor_tool: EditorTool)
        ensures
            final(self).active_editor_tool == editor_tool,
            final(self).editor_mode == old(self).editor_mode,
            final(self).opened_prefab == old(self).opened_prefab,
            final(self).undo_chain_position == old(self).undo_chain_position,
            final(self).undo_chain@ == old(self).undo_chain@,
            final(self).pending_editor_ops@ == old(self).pending_editor_ops@,
            same_queues_and_windows(*final(self), *old(self)),
    {
        self.active_editor_tool = editor_tool;
    }

    pub fn enqueue_play(&mut self)
        ensures
            final(self).pending_editor_ops@ == old(self).pending_editor_ops@.push(EditorOp::Play),
            same_but_ops(*final(self), *old(self)),
    {
        self.pending_editor_ops.push(EditorOp::Play);
    }

    pub fn enqueue_pause(&mut self)
        ensures
            final(self).pending_editor_ops@ == old(self).pending_editor_ops@.push(EditorOp::Pause),
            same_but_ops(*final(self), *old(self)),
    {
        self.pending_editor_ops.push(EditorOp::Pause);
    }

    pub fn enqueue_reset(&mut self)
        ensures
            final(self).pending_editor_ops@ == old(self).pending_editor_ops@.push(EditorOp::Reset),
            same_but_ops(*final(self), *old(self)),
    {
        self.pending_editor_ops.push(EditorOp::Reset);
    }

    pub fn enqueue_open_prefab(&mut self, prefab_uuid: AssetUuid)
        ensures
            final(self).pending_editor_ops@ == old(self).pending_editor_ops@.push(EditorOp::OpenPrefab(prefab_uuid)),
            same_but_ops(*final(self), *old(self)),
    {
        self.pending_editor_ops.push(EditorOp::OpenPrefab(prefab_uuid));
    }

    pub fn enqueue_toggle_pause(&mut self)
        ensures
            final(self).pending_editor_ops@ == old(self).pending_editor_ops@.push(EditorOp::TogglePause),
            same_but_ops(*final(self), *old(self)),
    {
        self.pending_editor_ops.push(EditorOp::TogglePause);
    }

    pub fn enqueue_undo(&mut self)
        ensures
            final(self).pending_editor_ops@ == old(self).pending_editor_ops@.push(EditorOp::Undo),
            same_but_ops(*final(self), *old(self)),
    {
        self.pending_editor_ops.push(EditorOp::Undo);
    }

    pub fn enqueue_redo(&mut self)
        ensures
            final(self).pending_editor_ops@ == old(self).pending_editor_ops@.push(EditorOp::Redo),
            same_but_ops(*final(self), *old(self)),
    {
        self.pending_editor_ops.push(EditorOp::Redo);
    }

    pub fn enqueue_set_active_editor_tool(&mut self, editor_tool: EditorTool)
        ensures
            final(self).pending_editor_ops@ == old(self).pending_editor_ops@.push(
                EditorOp::SetActiveEditorTool(editor_tool),
            ),
            same_but_ops(*final(self), *old(self)),
    {
        self.pending_editor_ops.push(EditorOp::SetActiveEditorTool(editor_tool));
    }

    /// Takes the queued operations, leaving the queue empty.
    pub fn take_pending_editor_ops(&mut self) -> (res: Vec<EditorOp>)
        ensures
            res@ == old(self).pending_editor_ops@,
            final(self).pending_editor_ops@.len() == 0,
            same_but_ops(*final(self), *old(self)),
    {
        let mut ops: Vec<EditorOp> = Vec::new();
        std::mem::swap(&mut ops, &mut self.pending_editor_ops);
        ops
    }

    /// Steps back in the undo chain. The result is the step whose undo diffs the caller applies,
    /// if there is one to undo.
    pub fn undo(&mut self) -> (res: Option<usize>)
        requires
            old(self).wf(),
        ensures
            final(self).wf(),
            final(self).undo_chain_position == spec_undo(old(self).undo_chain_position as int).0,
            res matches Some(i) ==> spec_undo(old(self).undo_chain_position as int).1 == Some(i as int),
            res is None ==> spec_undo(old(self).undo_chain_position as int).1 is None,
            final(self).undo_chain@ == old(self).undo_chain@,
            final(self).editor_mode == old(self).editor_mode,
            final(self).opened_prefab == old(self).opened_prefab,
            final(self).pending_editor_ops@ == old(self).pending_editor_ops@,
            final(self).active_editor_tool == old(self).active_editor_tool,
            final(self).window_options_running == old(self).window_options_running,
            final(self).window_options_editing == old(self).window_options_editing,
            final(self).diffs_pending_apply@ == old(self).diffs_pending_apply@,
            final(self).diffs_pending_commit@ == old(self).diffs_pending_commit@,
    {
        if self.undo_chain_position > 0 {
            self.undo_chain_position = self.undo_chain_position - 1;
            Some(self.undo_chain_position)
        } else {
            None
        }
    }

    /// Steps forward in the undo chain. The result is the step whose diffs the caller applies,
    /// if there is one to redo.
    pub fn redo(&mut self) -> (res: Option<usize>)
        requires
            old(self).wf(),
        ensures
            final(self).wf(),
            final(self).undo_chain_position == spec_redo(
                old(self).undo_chain@.len() as int,
                old(self).undo_chain_position as int,
            ).0,
            res matches Some(i) ==> spec_redo(old(self).undo_chain@.len() as int, old(self).undo_chain_position as int).1
                == Some(i as int),
            res is None ==> spec_redo(old(self).undo_chain@.len() as int, old(self).undo_chain_position as int).1 is None,
            final(self).undo_chain@ == old(self).undo_chain@,
            final(self).editor_mode == old(self).editor_mode,
            final(self).opened_prefab == old(self).opened_prefab,
            final(self).pending_editor_ops@ == old(self).pending_editor_ops@,
            final(self).active_editor_tool == old(self).active_editor_tool,
            final(self).window_options_running == old(self).window_options_running,
            final(self).window_options_editing == old(self).window_options_editing,
            final(self).diffs_pending_apply@ == old(self).diffs_pending_apply@,
            final(self).diffs_pending_commit@ == old(self).diffs_pending_commit@,
    {
        if self.undo_chain_position < self.undo_chain.len() {
            let step = self.undo_chain_position;
            self.undo_chain_position = self.undo_chain_position + 1;
            Some(step)
        } else {
            None
        }
    }

    /// The step at `index` of the undo chain.
    pub fn undo_step(&self, index: usize) -> (res: &EditorDiffStep)
        requires
            index < self.undo_chain@.len(),
        ensures
            *res == self.undo_chain@[index as int],
    {
        &self.undo_chain[index]
    }

    /// Puts `diff_step` after the current position of the undo chain, dropping what could have
    /// been redone, and moves past it.
    pub fn push_to_undo_queue(&mut self, diff_step: EditorDiffStep)
        requires
            old(self).wf(),
        ensures
            final(self).wf(),
            final(self).undo_chain@ == old(self).undo_chain@.take(old(self).undo_chain_position as int).push(diff_step),
            final(self).undo_chain_position == old(self).undo_chain_position + 1,
            final(self).editor_mode == old(self).editor_mode,
            final(self).opened_prefab == old(self).opened_prefab,
            final(self).diffs_pending_apply@ == old(self).diffs_pending_apply@,
            final(self).diffs_pending_commit@ == old(self).diffs_pending_commit@,
            final(self).pending_editor_ops@ == old(self).pending_editor_ops@,
            final(self).window_options_running == old(self).window_options_running,
            final(self).window_options_editing == old(self).window_options_editing,
            final(self).active_editor_tool == old(self).active_editor_tool,
    {
        self.undo_chain.truncate(self.undo_chain_position);
        self.undo_chain.push(diff_step);
        self.undo_chain_position = self.undo_chain.len();
        proof {
            assert(self.undo_chain@ =~= old(self).undo_chain@.take(old(self).undo_chain_position as int).push(diff_step));
        }
    }

    /// Queues the step of an edit to be applied next frame, unless it changes nothing. Whether
    /// it ends an edit is its own flag; `commit` is not read.
    pub fn enqueue_transaction(&mut self, diff_step: EditorDiffStep, commit: bool)
        ensures
            final(self).diffs_pending_apply@ == if diff_step.diffs@.len() > 0 {
                old(self).diffs_pending_apply@.push(diff_step)
            } else {
                old(self).diffs_pending_apply@
            },
            final(self).undo_chain@ == old(self).undo_chain@,
            final(self).undo_chain_position == old(self).undo_chain_position,
            final(self).diffs_pending_commit@ == old(self).diffs_pending_commit@,
            final(self).editor_mode == old(self).editor_mode,
            final(self).opened_prefab == old(self).opened_prefab,
            final(self).window_options_running == old(self).window_options_running,
            final(self).window_options_editing == old(self).window_options_editing,
            final(self).active_editor_tool == old(self).active_editor_tool,
            final(self).pending_editor_ops@ == old(self).pending_editor_ops@,
    {
        if diff_step.diffs.len() > 0 {
            self.diffs_pending_apply.push(diff_step);
        }
    }

    /// Takes the steps queued to be applied this frame, leaving the queue empty.
    pub fn take_diffs_pending_apply(&mut self) -> (res: Vec<EditorDiffStep>)
        ensures
            res@ == old(self).diffs_pending_apply@,
            final(self).diffs_pending_apply@.len() == 0,
            final(self).diffs_pending_commit@ == old(self).diffs_pending_commit@,
            final(self).undo_chain@ == old(self).undo_chain@,
            final(self).undo_chain_position == old(self).undo_chain_position,
            final(self).editor_mode == old(self).editor_mode,
            final(self).opened_prefab == old(self).opened_prefab,
            final(self).window_options_running == old(self).window_options_running,
            final(self).window_options_editing == old(self).window_options_editing,
            final(self).active_editor_tool == old(self).active_editor_tool,
            final(self).pending_editor_ops@ == old(self).pending_editor_ops@,
    {
        let mut steps: Vec<EditorDiffStep> = Vec::new();
        std::mem::swap(&mut steps, &mut self.diffs_pending_apply);
        steps
    }

    /// Records that `applied` were applied to the world: they join the steps waiting to be
    /// committed, and everything up to the last step that ends an edit goes into the undo chain
    /// as one step, its diffs and undo diffs in order.
    pub fn commit_applied_diffs(&mut self, applied: Vec<EditorDiffStep>)
        requires
            old(self).wf(),
        ensures
            final(self).wf(),
            ({
                let all = old(self).diffs_pending_commit@ + applied@;
                let k = last_commit_index(all);
                if k < 0 {
                    &&& final(self).diffs_pending_commit@ == all
                    &&& final(self).undo_chain@ == old(self).undo_chain@
                    &&& final(self).undo_chain_position == old(self).undo_chain_position
                } else {
                    &&& final(self).diffs_pending_commit@ == all.skip(k + 1)
                    &&& final(self).undo_chain_position == old(self).undo_chain_position + 1
                    &&& final(self).undo_chain@.len() == old(self).undo_chain_position + 1
                    &&& final(self).undo_chain@.take(old(self).undo_chain_position as int)
                        == old(self).undo_chain@.take(old(self).undo_chain_position as int)
                    &&& final(self).undo_chain@.last().diffs@ == flat_diffs(all.take(k + 1))
                    &&& final(self).undo_chain@.last().undo_diffs@ == flat_undo_diffs(all.take(k + 1))
                    &&& final(self).undo_chain@.last().commit_changes
                }
            }),
            final(self).diffs_pending_apply@ == old(self).diffs_pending_apply@,
            final(self).editor_mode == old(self).editor_mode,
            final(self).opened_prefab == old(self).opened_prefab,
            final(self).window_options_running == old(self).window_options_running,
            final(self).window_options_editing == old(self).window_options_editing,
            final(self).active_editor_tool == old(self).active_editor_tool,
            final(self).pending_editor_ops@ == old(self).pending_editor_ops@,
    {
        let mut applied = applied;
        self.diffs_pending_commit.append(&mut applied);
        let ghost all = self.diffs_pending_commit@;
        let total = self.diffs_pending_commit.len();
        let mut found: usize = total;
        proof {
            assert(all.take(total as int) =~= all);
        }
        let mut has_commit = false;
        while found > 0
            invariant_except_break
                found <= all.len(),
                all == self.diffs_pending_commit@,
                !has_commit,
                last_commit_index(all) == last_commit_index(all.take(found as int)),
            ensures
                all == self.diffs_pending_commit@,
                has_commit ==> found < all.len() && last_commit_index(all) == found,
                !has_commit ==> last_commit_index(all) < 0,
            decreases found,
        {
            proof {
                assert(all.take(found as int).drop_last() =~= all.take(found - 1));
            }
            if self.diffs_pending_commit[found - 1].commit_changes {
                found = found - 1;
                has_commit = true;
                break;
            }
            found = found - 1;
        }
        if has_commit {
            let mut remaining: Vec<EditorDiffStep> = Vec::new();
            std::mem::swap(&mut remaining, &mut self.diffs_pending_commit);
            let mut diffs: Vec<ComponentDiff> = Vec::new();
            let mut undo_diffs: Vec<ComponentDiff> = Vec::new();
            let mut taken: usize = 0;
            while taken <= found
                invariant
                    found < all.len(),
                    all.len() == total,
                    taken <= found + 1,
                    remaining@ == all.skip(taken as int),
                    remaining@.len() + taken == all.len(),
                    diffs@ == flat_diffs(all.take(taken as int)),
                    undo_diffs@ == flat_undo_diffs(all.take(taken as int)),
                decreases found + 1 - taken,
            {
                let mut step = remaining.remove(0);
                proof {
                    assert(step == all[taken as int]);
                    assert(all.take(taken + 1).drop_last() =~= all.take(taken as int));
                    assert(all.take(taken + 1).last() == step);
                    assert(remaining@ =~= all.skip(taken + 1));
                }
                diffs.append(&mut step.diffs);
                undo_diffs.append(&mut step.undo_diffs);
                taken = taken + 1;
            }
            self.diffs_pending_commit = remaining;
            self.push_to_undo_queue(EditorDiffStep { diffs, undo_diffs, commit_changes: true });
        }
    }

    /// The identifiers of the selected world entities `selected` in the opened prefab; none
    /// without an opened prefab. A selected entity that no prefab entity was spawned as is
    /// skipped.
    pub fn get_selected_uuids(&self, selected: &Vec<Entity>) -> (res: Vec<EntityUuid>)
        requires
            self.opened_prefab matches Some(p) ==> forall|e: Entity|
                #[trigger] selected@.contains(e) && p.world_to_prefab_mappings@.dom().contains(e)
                    ==> exists|u: EntityUuid| uuid_for(p, u, e),
        ensures
            self.opened_prefab is None ==> res@.len() == 0,
            self.opened_prefab matches Some(p) ==> {
                &&& forall|u: EntityUuid| #[trigger] res@.contains(u) ==> exists|e: Entity|
                    selected@.contains(e) && uuid_for(p, u, e)
                &&& forall|e: Entity| #[trigger] selected@.contains(e) && p.world_to_prefab_mappings@.dom().contains(e)
                    ==> exists|u: EntityUuid| res@.contains(u) && uuid_for(p, u, e)
            },
            res@.no_duplicates(),
    {
        match &self.opened_prefab {
            None => Vec::new(),
            Some(p) => selected_uuids_in(p, selected),
        }
    }

    /// Selects again, after a respawn, the entities of the opened prefab known as
    /// `selected_uuids`: the selection is replaced (through the queue of `selection_resource`) by
    /// their spawns. An identifier the cooked prefab does not hold is skipped.
    pub fn restore_selected_uuids(&self, selection_resource: &mut EditorSelectionResource, selected_uuids: &Vec<EntityUuid>)
        requires
            self.opened_prefab matches Some(p) ==> forall|u: EntityUuid|
                #![trigger p.cooked_entities@[u]]
                selected_uuids@.contains(u) && p.cooked_entities@.dom().contains(u)
                    ==> p.prefab_to_world_mappings@.dom().contains(p.cooked_entities@[u]),
        ensures
            final(selection_resource).selected_entities == old(selection_resource).selected_entities,
            final(selection_resource).pending_selection_ops@.len() == old(selection_resource).pending_selection_ops@.len() + 1,
            final(selection_resource).pending_selection_ops@.take(old(selection_resource).pending_selection_ops@.len() as int)
                == old(selection_resource).pending_selection_ops@,
            final(selection_resource).pending_selection_ops@.last() matches super::selection::SelectionOp::Replace(v)
                && v@.to_set() == restored_selection(self.opened_prefab, selected_uuids@),
    {
        let mut entities: Vec<Entity> = Vec::new();
        let mut i: usize = 0;
        proof {
            assert(entities@.to_set() =~= restored_selection(self.opened_prefab, selected_uuids@.take(0)));
        }
        while i < selected_uuids.len()
            invariant
                i <= selected_uuids@.len(),
                self.opened_prefab matches Some(p) ==> forall|u: EntityUuid|
                    #![trigger p.cooked_entities@[u]]
                    selected_uuids@.contains(u) && p.cooked_entities@.dom().contains(u)
                        ==> p.prefab_to_world_mappings@.dom().contains(p.cooked_entities@[u]),
                entities@.to_set() == restored_selection(self.opened_prefab, selected_uuids@.take(i as int)),
            decreases selected_uuids@.len() - i,
        {
            let u = selected_uuids[i];
            let ghost before = entities@;
            let ghost t0 = selected_uuids@.take(i as int);
            let ghost t1 = selected_uuids@.take(i + 1);
            proof {
                assert(selected_uuids@.contains(u)) by {
                    assert(selected_uuids@[i as int] == u);
                }
                assert(t1 =~= t0.push(u));
            }
            let ghost mut pushed: Option<Entity> = None;
            match &self.opened_prefab {
                Some(p) => {
                    match p.cooked_entities.get(&u) {
                        Some(prefab_entity) => {
                            let w = *p.prefab_to_world_mappings.get(prefab_entity).unwrap();
                            entities.push(w);
                            proof {
                                pushed = Some(w);
                            }
                        },
                        None => {},
                    }
                },
                None => {},
            }
            proof {
                let opened = self.opened_prefab;
                assert(pushed matches Some(w) ==> entities@ == before.push(w) && restores_to(opened, u, w));
                assert(pushed is None ==> entities@ == before && forall|w: Entity| !restores_to(opened, u, w));
                assert forall|x: Entity| entities@.to_set().contains(x) == restored_selection(opened, t1).contains(x) by {
                    if entities@.contains(x) {
                        let k = choose|k: int| 0 <= k < entities@.len() && entities@[k] == x;
                        if k < before.len() {
                            assert(before[k] == x);
                            assert(before.contains(x));
                            assert(before.to_set().contains(x));
                            assert(restored_selection(opened, t0).contains(x));
                            let v = choose|v: EntityUuid| #[trigger] t0.contains(v) && restores_to(opened, v, x);
                            let kv = choose|kv: int| 0 <= kv < t0.len() && t0[kv] == v;
                            assert(t1[kv] == v);
                            assert(t1.contains(v));
                        } else {
                            assert(t1[i as int] == u);
                            assert(t1.contains(u));
                        }
                    }
                    if restored_selection(opened, t1).contains(x) {
                        let v = choose|v: EntityUuid| #[trigger] t1.contains(v) && restores_to(opened, v, x);
                        let kv = choose|kv: int| 0 <= kv < t1.len() && t1[kv] == v;
                        if kv < i {
                            assert(t0[kv] == v);
                            assert(t0.contains(v));
                            assert(restored_selection(opened, t0).contains(x));
                            assert(before.to_set().contains(x));
                            let k = choose|k: int| 0 <= k < before.len() && before[k] == x;
                            assert(entities@[k] == x);
                        } else {
                            assert(v == u);
                            assert(entities@[entities@.len() - 1] == x);
                        }
                    }
                }
                assert(entities@.to_set() =~= restored_selection(opened, t1));
            }
            i = i + 1;
        }
        proof {
            assert(selected_uuids@.take(selected_uuids@.len() as int) =~= selected_uuids@);
        }
        selection_resource.enqueue_set_selection(entities);
        proof {
            assert(final(selection_resource).pending_selection_ops@.take(old(selection_resource).pending_selection_ops@.len() as int)
                =~= old(selection_resource).pending_selection_ops@);
        }
    }

    /// Starts an editor transaction over the selected world entities `selected` that are spawns
    /// of entities the opened prefab holds by identifier; `None` without an opened prefab.
    pub fn create_transaction_from_selected(&self, selected: &Vec<Entity>) -> (res: Option<EditorTransactionBuilder>)
        ensures
            self.opened_prefab is None ==> res is None,
            self.opened_prefab matches Some(p) ==> res matches Some(b) && builds_transaction_of(p, b.entities@, selected@),
            self.opened_prefab matches Some(p) ==> res matches Some(b) && b.entities@.len() <= selected@.len()
                && forall|k: int| 0 <= k < b.entities@.len() ==> covers_selected(p, #[trigger] b.entities@[k], selected@),
    {
        match &self.opened_prefab {
            None => None,
            Some(p) => Some(transaction_builder_in(p, selected)),
        }
    }

    /// Processes the queued operations in the order they were queued, each once, and hands
    /// back for each what the caller does to the world, in the same order. An operation that
    /// opens a prefab ends the batch: the caller opens the prefab before the operations queued
    /// after it are decided, and they stay queued, in order, for the next call. Where no prefab
    /// is opened the queue is left empty, and a call on an empty queue changes nothing.
    pub fn process_editor_ops(&mut self, time_state: &mut TimeResource) -> (res: Vec<Option<EditorAction>>)
        requires
            old(self).wf(),
        ensures
            final(self).wf(),
            res@.len() <= old(self).pending_editor_ops@.len(),
            ops_done(
                *old(self),
                *old(time_state),
                old(self).pending_editor_ops@.take(res@.len() as int),
                *final(self),
                *final(time_state),
                res@,
            ),
            final(self).pending_editor_ops@ == old(self).pending_editor_ops@.skip(res@.len() as int),
            forall|j: int| 0 <= j < res@.len() - 1 ==> !(#[trigger] old(self).pending_editor_ops@[j] is OpenPrefab),
            res@.len() < old(self).pending_editor_ops@.len() ==> res@.len() > 0
                && old(self).pending_editor_ops@[res@.len() - 1] is OpenPrefab,
    {
        let ghost ops0 = old(self).pending_editor_ops@;
        let mut pending = self.take_pending_editor_ops();
        let mut res: Vec<Option<EditorAction>> = Vec::new();
        let mut done: usize = 0;
        let mut opened = false;
        let ghost mut trace: Seq<(EditorStateResource, TimeResource)> = seq![(*self, *time_state)];
        proof {
            assert(ops0.take(0) =~= Seq::<EditorOp>::empty());
        }
        assert(ops0.len() == pending.len());
        while pending.len() > 0 && !opened
            invariant
                ops0.len() <= usize::MAX,
                self.wf(),
                self.pending_editor_ops@.len() == 0,
                done <= ops0.len(),
                pending@ == ops0.skip(done as int),
                pending@.len() + done == ops0.len(),
                res@.len() == done,
                ops_trace(*old(self), *old(time_state), trace, ops0.take(done as int), res@),
                trace.last() == (*self, *time_state),
                opened ==> done > 0 && ops0[done - 1] is OpenPrefab,
                forall|j: int| 0 <= j < done && !(opened && j == done - 1) ==> !(#[trigger] ops0[j] is OpenPrefab),
            decreases pending.len(),
        {
            let ghost prev_res = res@;
            let ghost prev_trace = trace;
            let op = pending.remove(0);
            proof {
                assert(op == ops0[done as int]);
                assert(pending@ =~= ops0.skip(done + 1));
            }
            let is_open = match op {
                EditorOp::OpenPrefab(_) => true,
                _ => false,
            };
            let action = self.process_editor_op(op, time_state);
            res.push(action);
            proof {
                trace = prev_trace.push((*self, *time_state));
                let taken = ops0.take(done + 1);
                assert forall|i: int| 0 <= i < taken.len() implies op_done(
                    trace[i].0,
                    trace[i].1,
                    #[trigger] taken[i],
                    trace[i + 1].0,
                    trace[i + 1].1,
                    res@[i],
                ) by {
                    if i < done {
                        assert(taken[i] == ops0.take(done as int)[i]);
                        assert(res@[i] == prev_res[i]);
                        assert(trace[i] == prev_trace[i] && trace[i + 1] == prev_trace[i + 1]);
                    } else {
                        assert(prev_trace.last() == prev_trace[i]);
                    }
                }
                assert(trace[0] == prev_trace[0]);
            }
            done = done + 1;
            opened = is_open;
        }
        proof {
            assert(ops_trace(*old(self), *old(time_state), trace, ops0.take(done as int), res@));
        }
        self.pending_editor_ops = pending;
        res
    }

    /// Processes one queued operation. Operations that only change the editor and the pause
    /// state are done here; for the others the result says what the caller does to the world.
    /// Undo and redo move in the undo chain; where they find a step and a prefab is opened, the
    /// caller applies its diffs and respawns, which resets the editor as [`Self::reset`] does.
    pub fn process_editor_op(&mut self, op: EditorOp, time_state: &mut TimeResource) -> (res: Option<EditorAction>)
        requires
            old(self).wf(),
        ensures
            final(self).wf(),
            op_done(*old(self), *old(time_state), op, *final(self), *final(time_state), res),
            final(self).pending_editor_ops@ == old(self).pending_editor_ops@,

    {
        match op {
            EditorOp::Play => {
                self.play(time_state);
                None
            },
            EditorOp::Pause => {
                self.pause(time_state);
                None
            },
            EditorOp::TogglePause => {
                self.toggle_pause(time_state);
                None
            },
            EditorOp::SetActiveEditorTool(editor_tool) => {
                self.set_active_editor_tool(editor_tool);
                None
            },
            EditorOp::Reset => {
                let respawn = self.reset(time_state);
                Some(EditorAction::Reset { respawn })
            },
            EditorOp::OpenPrefab(uuid) => Some(EditorAction::OpenPrefab(uuid)),
            EditorOp::Undo => match self.undo() {
                Some(step) => {
                    if self.opened_prefab.is_some() {
                        self.reset(time_state);
                    }
                    Some(EditorAction::ApplyDiffs { step, undo: true })
                },
                None => None,
            },
            EditorOp::Redo => match self.redo() {
                Some(step) => {
                    if self.opened_prefab.is_some() {
                        self.reset(time_state);
                    }
                    Some(EditorAction::ApplyDiffs { step, undo: false })
                },
                None => None,
            },
        }
    }
}

/// How one component of one selected prefab entity compares between the prefab and the
/// inspector's edited copy, as the caller found it.
#[derive(Debug)]
pub struct InspectorChange {
    pub prefab_entity: Entity,
    pub component_type: ComponentTypeUuid,
    pub has_changes: bool,
    pub data: Vec<u8>,
}

/// `d` is the diff for the inspector change `c` on the prefab `p`.
pub open spec fn diff_for_change(p: OpenedPrefabState, d: ComponentDiff, c: InspectorChange) -> bool {
    &&& p.cooked_entities@.dom().contains(d.entity_uuid)
    &&& p.cooked_entities@[d.entity_uuid] == c.prefab_entity
    &&& d.component_type == c.component_type
    &&& d.op == ComponentDiffOp::Change(c.data)
}

/// The changes among `changes` that found a difference, in order.
pub open spec fn found_changes(changes: Seq<InspectorChange>) -> Seq<InspectorChange>
    decreases changes.len(),
{
    if changes.len() == 0 {
        Seq::empty()
    } else {
        let rest = found_changes(changes.drop_last());
        if changes.last().has_changes {
            rest.push(changes.last())
        } else {
            rest
        }
    }
}

impl EditorStateResource {
    /// The diffs of an edit made in the inspector: one change diff per component that differs,
    /// for the entity of the opened prefab it was made on, in order; `None` without an opened
    /// prefab.
    pub fn generate_diffs_from_changes(&self, changes: Vec<InspectorChange>) -> (res: Option<Vec<ComponentDiff>>)
        requires
            self.opened_prefab matches Some(p) ==> forall|i: int|
                0 <= i < changes@.len() && #[trigger] changes@[i].has_changes ==> exists|u: EntityUuid|
                    p.cooked_entities@.dom().contains(u) && p.cooked_entities@[u] == changes@[i].prefab_entity,
        ensures
            self.opened_prefab is None ==> res is None,
            self.opened_prefab matches Some(p) ==> res matches Some(d) && d@.len() == found_changes(changes@).len()
                && forall|k: int| 0 <= k < d@.len() ==> diff_for_change(p, #[trigger] d@[k], found_changes(changes@)[k]),
    {
        match &self.opened_prefab {
            None => None,
            Some(p) => {
                let ghost all = changes@;
                let total = changes.len();
                let mut pending = changes;
                let mut diffs: Vec<ComponentDiff> = Vec::new();
                let mut done: usize = 0;
                while pending.len() > 0
                    invariant
                        self.opened_prefab == Some(*p),
                        forall|i: int|
                            0 <= i < all.len() && #[trigger] all[i].has_changes ==> exists|u: EntityUuid|
                                p.cooked_entities@.dom().contains(u) && p.cooked_entities@[u] == all[i].prefab_entity,
                        all.len() == total,
                        done <= all.len(),
                        pending@ == all.skip(done as int),
                        pending@.len() + done == all.len(),
                        diffs@.len() == found_changes(all.take(done as int)).len(),
                        forall|k: int| 0 <= k < diffs@.len() ==> diff_for_change(
                            *p,
                            #[trigger] diffs@[k],
                            found_changes(all.take(done as int))[k],
                        ),
                    decreases pending.len(),
                {
                    let change = pending.remove(0);
                    let ghost before = diffs@;
                    let ghost prev = found_changes(all.take(done as int));
                    proof {
                        assert(change == all[done as int]);
                        assert(all.take(done + 1).drop_last() =~= all.take(done as int));
                        assert(all.take(done + 1).last() == change);
                        assert(pending@ =~= all.skip(done + 1));
                    }
                    let ghost cur = change;
                    let InspectorChange { prefab_entity, component_type, has_changes, data } = change;
                    if has_changes {
                        match p.uuid_of_prefab_entity(prefab_entity) {
                            Some(u) => {
                                diffs.push(ComponentDiff::new(u, component_type, ComponentDiffOp::Change(data)));
                                proof {
                                    let d = diffs@[before.len() as int];
                                    assert(d.entity_uuid == u);
                                    assert(p.cooked_entities@.dom().contains(d.entity_uuid));
                                    assert(p.cooked_entities@[d.entity_uuid] == cur.prefab_entity);
                                    assert(d.component_type == cur.component_type);
                                    assert(d.op == ComponentDiffOp::Change(cur.data));
                                }
                            },
                            None => {
                                proof {
                                    assert(all[done as int].has_changes);
                                    let u = choose|u: EntityUuid|
                                        p.cooked_entities@.dom().contains(u) && p.cooked_entities@[u] == all[done as int].prefab_entity;
                                    assert(p.cooked_entities@[u] != prefab_entity);
                                }
                            },
                        }
                    }
                    done = done + 1;
                    proof {
                        let next = found_changes(all.take(done as int));
                        if cur.has_changes {
                            assert(next == prev.push(cur));
                        } else {
                            assert(next == prev);
                        }
                        assert forall|k: int| 0 <= k < diffs@.len() implies diff_for_change(*p, #[trigger] diffs@[k], next[k]) by {
                            if k < before.len() {
                                assert(next[k] == prev[k]);
                                assert(diffs@[k] == before[k]);
                            } else {
                                assert(next[k] == cur);
                            }
                        }
                    }
                }
                proof {
                    assert(all.take(all.len() as int) =~= all);
                }
                Some(diffs)
            },
        }
    }
}

/// With the opened prefab `opened`, the identifier `u` is restored as the world entity `w`.
pub open spec fn restores_to(opened: Option<OpenedPrefabState>, u: EntityUuid, w: Entity) -> bool {
    opened matches Some(p) && p.cooked_entities@.dom().contains(u)
        && p.prefab_to_world_mappings@[p.cooked_entities@[u]] == w
}

/// The world entities that the identifiers `uuids` are restored as.
pub open spec fn restored_selection(opened: Option<OpenedPrefabState>, uuids: Seq<EntityUuid>) -> Set<Entity> {
    Set::new(|w: Entity| exists|u: EntityUuid| #[trigger] uuids.contains(u) && restores_to(opened, u, w))
}

/// `u` is an identifier of the prefab entity that the world entity `e` is a spawn of.
pub open spec fn uuid_for(p: OpenedPrefabState, u: EntityUuid, e: Entity) -> bool {
    &&& p.world_to_prefab_mappings@.dom().contains(e)
    &&& p.cooked_entities@.dom().contains(u)
    &&& p.cooked_entities@[u] == p.world_to_prefab_mappings@[e]
}

proof fn lemma_push_no_duplicates<A>(s: Seq<A>, x: A)
    requires
        s.no_duplicates(),
        !s.contains(x),
    ensures
        s.push(x).no_duplicates(),
{
    let t = s.push(x);
    assert forall|i: int, j: int| 0 <= i < t.len() && 0 <= j < t.len() && i != j implies t[i] != t[j] by {
        if i < s.len() && j < s.len() {
            assert(t[i] == s[i] && t[j] == s[j]);
        } else if i == s.len() {
            assert(t[j] == s[j]);
            assert(s.contains(s[j]));
        } else {
            assert(t[i] == s[i]);
            assert(s.contains(s[i]));
        }
    }
}

/// The identifiers, in the prefab `p`, of the selected world entities `selected`.
fn selected_uuids_in(p: &OpenedPrefabState, selected: &Vec<Entity>) -> (res: Vec<EntityUuid>)
    requires
        forall|e: Entity| #[trigger] selected@.contains(e) && p.world_to_prefab_mappings@.dom().contains(e)
            ==> exists|u: EntityUuid| uuid_for(*p, u, e),
    ensures
        forall|u: EntityUuid| #[trigger] res@.contains(u) ==> exists|e: Entity| selected@.contains(e) && uuid_for(*p, u, e),
        forall|e: Entity| #[trigger] selected@.contains(e) && p.world_to_prefab_mappings@.dom().contains(e)
            ==> exists|u: EntityUuid| res@.contains(u) && uuid_for(*p, u, e),
        res@.no_duplicates(),
{
    let mut res: Vec<EntityUuid> = Vec::new();
    let mut i: usize = 0;
    while i < selected.len()
        invariant
            i <= selected@.len(),
            forall|e: Entity| #[trigger] selected@.contains(e) && p.world_to_prefab_mappings@.dom().contains(e)
                ==> exists|u: EntityUuid| uuid_for(*p, u, e),
            res@.no_duplicates(),
            forall|u: EntityUuid| #[trigger] res@.contains(u) ==> exists|e: Entity| selected@.contains(e) && uuid_for(*p, u, e),
            forall|m: int| 0 <= m < i && p.world_to_prefab_mappings@.dom().contains(#[trigger] selected@[m])
                ==> exists|u: EntityUuid| res@.contains(u) && uuid_for(*p, u, selected@[m]),
        decreases selected@.len() - i,
    {
        let e = selected[i];
        let ghost before = res@;
        proof {
            assert(selected@[i as int] == e);
            assert(selected@.contains(e));
        }
        match p.world_to_prefab_mappings.get(&e) {
            None => {},
            Some(prefab_entity) => {
                match p.uuid_of_prefab_entity(*prefab_entity) {
                    Some(u) => {
                        assert(uuid_for(*p, u, e));
                        if !contains_uuid(&res, &u) {
                            proof {
                                lemma_push_no_duplicates(res@, u);
                            }
                            res.push(u);
                        }
                        proof {
                            assert(res@.contains(u)) by {
                                if !before.contains(u) {
                                    assert(res@[res@.len() - 1] == u);
                                }
                            }
                            assert forall|v: EntityUuid| #[trigger] res@.contains(v) implies exists|x: Entity|
                                selected@.contains(x) && uuid_for(*p, v, x) by {
                                if v != u {
                                    let k = choose|k: int| 0 <= k < res@.len() && res@[k] == v;
                                    if k < before.len() {
                                        assert(before[k] == v);
                                        assert(before.contains(v));
                                    } else {
                                        assert(res@[k] == u);
                                    }
                                }
                            }
                            assert forall|m: int| 0 <= m < i + 1 && p.world_to_prefab_mappings@.dom().contains(#[trigger] selected@[m])
                                implies exists|v: EntityUuid| res@.contains(v) && uuid_for(*p, v, selected@[m]) by {
                                if m < i {
                                    let v = choose|v: EntityUuid| before.contains(v) && uuid_for(*p, v, selected@[m]);
                                    let k = choose|k: int| 0 <= k < before.len() && before[k] == v;
                                    assert(res@[k] == v);
                                    assert(res@.contains(v));
                                } else {
                                    assert(selected@[m] == e);
                                    assert(res@.contains(u));
                                }
                            }
                        }
                    },
                    None => {
                        proof {
                            let u = choose|u: EntityUuid| uuid_for(*p, u, e);
                            assert(p.cooked_entities@[u] == *prefab_entity);
                        }
                    },
                }
            },
        }
        i = i + 1;
    }
    proof {
        assert forall|e: Entity| #[trigger] selected@.contains(e) && p.world_to_prefab_mappings@.dom().contains(e)
            implies exists|u: EntityUuid| res@.contains(u) && uuid_for(*p, u, e) by {
            let m = choose|m: int| 0 <= m < selected@.len() && selected@[m] == e;
            assert(p.world_to_prefab_mappings@.dom().contains(selected@[m]));
        }
    }
    res
}

/// The entity `info` stands for the spawn of one of the selected world entities `selected`,
/// under an identifier the prefab `p` holds it by.
pub open spec fn covers_selected(p: OpenedPrefabState, info: TransactionBuilderEntityInfo, selected: Seq<Entity>) -> bool {
    exists|e: Entity| selected.contains(e) && uuid_for(p, info.entity_uuid, e) && p.world_to_prefab_mappings@[e] == info.entity
}

/// The world entity `e` stands for a prefab entity that the prefab `p` holds under some
/// identifier.
pub open spec fn has_prefab_uuid(p: OpenedPrefabState, e: Entity) -> bool {
    &&& p.world_to_prefab_mappings@.dom().contains(e)
    &&& exists|u: EntityUuid| #[trigger] p.cooked_entities@.dom().contains(u) && p.cooked_entities@[u]
        == p.world_to_prefab_mappings@[e]
}

/// The entities of `selected`, in order, that stand for a prefab entity with an identifier.
pub open spec fn transaction_entities(p: OpenedPrefabState, selected: Seq<Entity>) -> Seq<Entity>
    decreases selected.len(),
{
    if selected.len() == 0 {
        Seq::empty()
    } else {
        let rest = transaction_entities(p, selected.drop_last());
        if has_prefab_uuid(p, selected.last()) {
            rest.push(selected.last())
        } else {
            rest
        }
    }
}

/// The builder holds, for each entity of `transaction_entities(p, selected)` in order, the
/// prefab entity it stands for and an identifier the prefab holds that entity under.
pub open spec fn builds_transaction_of(p: OpenedPrefabState, entities: Seq<TransactionBuilderEntityInfo>, selected: Seq<Entity>) -> bool {
    let covered = transaction_entities(p, selected);
    &&& entities.len() == covered.len()
    &&& forall|k: int| 0 <= k < entities.len() ==> {
        &&& (#[trigger] entities[k]).entity == p.world_to_prefab_mappings@[covered[k]]
        &&& uuid_for(p, entities[k].entity_uuid, covered[k])
    }
}

fn transaction_builder_in(p: &OpenedPrefabState, selected: &Vec<Entity>) -> (res: EditorTransactionBuilder)
    ensures
        builds_transaction_of(*p, res.entities@, selected@),
        res.entities@.len() <= selected@.len(),
        forall|k: int| 0 <= k < res.entities@.len() ==> covers_selected(*p, #[trigger] res.entities@[k], selected@),
{
    let mut builder = EditorTransactionBuilder::new();
    let mut i: usize = 0;
    while i < selected.len()
        invariant
            i <= selected@.len(),
            builder.entities@.len() <= i,
            forall|k: int| 0 <= k < builder.entities@.len() ==> covers_selected(*p, #[trigger] builder.entities@[k], selected@),
            builds_transaction_of(*p, builder.entities@, selected@.take(i as int)),
        decreases selected@.len() - i,
    {
        let e = selected[i];
        proof {
            assert(selected@[i as int] == e);
            assert(selected@.contains(e));
            assert(selected@.take(i + 1).drop_last() =~= selected@.take(i as int));
            assert(selected@.take(i + 1).last() == e);
        }
        let ghost prev = builder.entities@;
        if let Some(prefab_entity) = p.world_to_prefab_mappings.get(&e) {
            if let Some(u) = p.uuid_of_prefab_entity(*prefab_entity) {
                let ghost before = builder.entities@;
                builder = builder.add_entity(*prefab_entity, u);
                proof {
                    assert(uuid_for(*p, u, e));
                    assert(covers_selected(*p, builder.entities@[before.len() as int], selected@));
                    assert forall|k: int| 0 <= k < builder.entities@.len() implies covers_selected(
                        *p,
                        #[trigger] builder.entities@[k],
                        selected@,
                    ) by {
                        if k < before.len() {
                            assert(builder.entities@[k] == before[k]);
                        }
                    }
                }
            }
        }
        proof {
            let covered = transaction_entities(*p, selected@.take(i + 1));
            if has_prefab_uuid(*p, e) {
                assert(builder.entities@.len() == prev.len() + 1);
                assert forall|k: int| 0 <= k < builder.entities@.len() implies {
                    &&& (#[trigger] builder.entities@[k]).entity == p.world_to_prefab_mappings@[covered[k]]
                    &&& uuid_for(*p, builder.entities@[k].entity_uuid, covered[k])
                } by {
                    if k < prev.len() {
                        assert(builder.entities@[k] == prev[k]);
                    }
                }
            } else {
                assert(builder.entities@ == prev);
            }
        }
        i = i + 1;
    }
    assert(selected@.take(selected@.len() as int) =~= selected@);
    builder
}

/// Whether `v` holds `u`.
fn contains_uuid(v: &Vec<EntityUuid>, u: &EntityUuid) -> (res: bool)
    ensures
        res == v@.contains(*u),
{
    let mut i: usize = 0;
    while i < v.len()
        invariant
            i <= v@.len(),
            forall|j: int| 0 <= j < i ==> v@[j] != *u,
        decreases v@.len() - i,
    {
        if crate::uuids::uuid_eq(&v[i], u) {
            return true;
        }
        i = i + 1;
    }
    false
}

/// Collects the prefab entities an editor transaction will cover.
pub struct EditorTransactionBuilder {
    pub entities: Vec<TransactionBuilderEntityInfo>,
}

impl EditorTransactionBuilder {
    pub fn new() -> (res: Self)
        ensures
            res.entities@ == Seq::<TransactionBuilderEntityInfo>::empty(),
    {
        EditorTransactionBuilder { entities: Vec::new() }
    }

    /// Adds `entity`, known as `entity_uuid`, after the entities added so far.
    pub fn add_entity(self, entity: Entity, entity_uuid: EntityUuid) -> (res: Self)
        ensures
            res.entities@ == self.entities@.push(TransactionBuilderEntityInfo { entity_uuid, entity }),
    {
        let mut entities = self.entities;
        entities.push(TransactionBuilderEntityInfo { entity_uuid, entity });
        EditorTransactionBuilder { entities }
    }

    /// Starts the transaction; `copies[i]` holds the entities the copies of the `i`-th added
    /// entity got before and after the edit.
    pub fn begin(self, copies: Vec<(Entity, Entity)>) -> (res: EditorTransaction)
        requires
            copies@.len() == self.entities@.len(),
        ensures
            res.uuid_to_entities@ == begin_map(self.entities@, copies@),
    {
        let tx = super::transactions::TransactionBuilder { entities: self.entities }.begin(copies);
        EditorTransaction { uuid_to_entities: tx.uuid_to_entities }
    }
}

/// An open editor transaction: the prefab entities it covers, by identifier.
pub struct EditorTransaction {
    pub uuid_to_entities: KeyMap<EntityUuid, TransactionEntityInfo>,
}

impl EditorTransaction {
    /// The step for the edit, from the caller's comparison of every covered entity's
    /// components, as [`EditorDiffStep::from_changes`] makes it.
    pub fn create_diff_step(&self, changes: Vec<ComponentChange>) -> (res: EditorDiffStep)
        ensures
            res.diffs@ == change_diffs(changes@),
            res.undo_diffs@ == undo_change_diffs(changes@).reverse(),
            res.commit_changes,
    {
        EditorDiffStep::from_changes(changes)
    }
}

/// Undoing and then redoing comes back to the same position, and the redo applies the step the
/// undo reverted.
pub proof fn lemma_undo_then_redo(chain_len: int, position: int)
    requires
        0 < position <= chain_len,
    ensures
        spec_redo(chain_len, spec_undo(position).0).0 == position,
        spec_redo(chain_len, spec_undo(position).0).1 == spec_undo(position).1,
{
}

/// Redoing and then undoing comes back to the same position, and the undo reverts the step the
/// redo applied.
pub proof fn lemma_redo_then_undo(chain_len: int, position: int)
    requires
        0 <= position < chain_len,
    ensures
        spec_undo(spec_redo(chain_len, position).0).0 == position,
        spec_undo(spec_redo(chain_len, position).0).1 == spec_redo(chain_len, position).1,
{
}

/// After a step is pushed there is nothing to redo, and an undo reverts the pushed step.
pub proof fn lemma_push_then_undo(chain: Seq<EditorDiffStep>, position: int, step: EditorDiffStep)
    requires
        0 <= position <= chain.len(),
    ensures
        spec_redo(chain.take(position).push(step).len() as int, position + 1).1 is None,
        spec_undo(position + 1).1 == Some(position),
        chain.take(position).push(step)[position] == step,
{
}

/// Toggling the pause twice gives back the editor mode and the editor's pause reason one
/// started with.
pub proof fn lemma_toggle_twice(mode: EditorMode, flags: u8)
    requires
        paused_for(flags, SimulationTimePauseReason::Editor) == (mode == EditorMode::Active),
    ensures
        ({
            let m1 = if mode == EditorMode::Active { EditorMode::Inactive } else { EditorMode::Active };
            let f1 = if mode == EditorMode::Active { flags & !1u8 } else { flags | 1u8 };
            let m2 = if m1 == EditorMode::Active { EditorMode::Inactive } else { EditorMode::Active };
            let f2 = if m1 == EditorMode::Active { f1 & !1u8 } else { f1 | 1u8 };
            m2 == mode && paused_for(f2, SimulationTimePauseReason::Editor) == paused_for(flags, SimulationTimePauseReason::Editor)
        }),
{
    assert((flags & 1u8 != 0) ==> ((flags & !1u8) | 1u8) & 1u8 != 0) by (bit_vector);
    assert((flags & 1u8 == 0) ==> ((flags | 1u8) & !1u8) & 1u8 == 0) by (bit_vector);
}

/// Committing loses and repeats nothing: the diffs of the steps waiting to be committed are
/// those of the committed step followed by those of the steps that still wait.
pub proof fn lemma_commit_keeps_diffs(all: Seq<EditorDiffStep>, k: int)
    requires
        0 <= k < all.len(),
    ensures
        flat_diffs(all) == flat_diffs(all.take(k + 1)) + flat_diffs(all.skip(k + 1)),
        flat_undo_diffs(all) == flat_undo_diffs(all.take(k + 1)) + flat_undo_diffs(all.skip(k + 1)),
    decreases all.len(),
{
    if all.len() == k + 1 {
        assert(all.take(k + 1) =~= all);
        assert(all.skip(k + 1) =~= Seq::<EditorDiffStep>::empty());
        assert(flat_diffs(all) + Seq::<ComponentDiff>::empty() =~= flat_diffs(all));
        assert(flat_undo_diffs(all) + Seq::<ComponentDiff>::empty() =~= flat_undo_diffs(all));
    } else {
        lemma_commit_keeps_diffs(all.drop_last(), k);
        assert(all.drop_last().take(k + 1) =~= all.take(k + 1));
        assert(all.skip(k + 1).drop_last() =~= all.drop_last().skip(k + 1));
        assert(all.skip(k + 1).last() == all.last());
        assert(flat_diffs(all.take(k + 1)) + flat_diffs(all.drop_last().skip(k + 1)) + all.last().diffs@
            =~= flat_diffs(all.take(k + 1)) + (flat_diffs(all.drop_last().skip(k + 1)) + all.last().diffs@));
        assert(flat_undo_diffs(all.take(k + 1)) + flat_undo_diffs(all.drop_last().skip(k + 1)) + all.last().undo_diffs@
            =~= flat_undo_diffs(all.take(k + 1)) + (flat_undo_diffs(all.drop_last().skip(k + 1)) + all.last().undo_diffs@));
    }
}

} // verus!

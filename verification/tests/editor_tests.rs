use prefab_editor::editor::diffs::{
    ComponentDiff, ComponentDiffOp, DiffSingleResult, EntityDiff, EntityDiffOp, WorldDiff,
};
use prefab_editor::editor::state::{
    ComponentChange, EditorAction, EditorDiffStep, EditorMode, EditorOp, EditorStateResource,
    EditorTool, WindowOptions,
};
use prefab_editor::editor::time::{SimulationTimePauseReason, TimeResource};
use prefab_editor::editor::Entity;
use prefab_editor::keymap::KeyMap;

const U1: [u8; 16] = [1; 16];
const U2: [u8; 16] = [2; 16];
const T1: [u8; 16] = [7; 16];

fn change(id: [u8; 16], byte: u8) -> ComponentDiff {
    ComponentDiff::new(id, T1, ComponentDiffOp::Change(vec![byte]))
}

fn step(byte: u8, commit: bool) -> EditorDiffStep {
    EditorDiffStep { diffs: vec![change(U1, byte)], undo_diffs: vec![change(U1, byte + 100)], commit_changes: commit }
}

fn diff_byte(d: &ComponentDiff) -> u8 {
    match &d.op {
        ComponentDiffOp::Change(data) => data[0],
        _ => panic!("not a change"),
    }
}

#[test]
fn new_editor_state_is_inactive_with_translate_tool() {
    let state = EditorStateResource::new();
    assert_eq!(state.editor_mode(), EditorMode::Inactive);
    assert!(!state.is_editor_active());
    assert_eq!(state.active_editor_tool(), EditorTool::Translate);
    assert!(state.opened_prefab().is_none());
    assert_eq!(*state.window_options(), WindowOptions::new_runtime());
}

#[test]
fn window_options_presets() {
    let none = WindowOptions::new();
    assert!(!none.show_entity_list && !none.show_inspector && !none.show_imgui_demo);
    let runtime = WindowOptions::new_runtime();
    assert!(runtime.show_entity_list && runtime.show_inspector);
    assert!(!runtime.show_imgui_metrics && !runtime.show_imgui_style_editor && !runtime.show_imgui_demo);
    assert_eq!(WindowOptions::new_editing(), runtime);
}

#[test]
fn window_options_follow_the_mode() {
    let mut state = EditorStateResource::new();
    let mut time = TimeResource::new();
    let mut options = WindowOptions::new();
    options.show_imgui_demo = true;
    state.set_window_options(options);
    assert!(state.window_options().show_imgui_demo);
    state.pause(&mut time);
    assert!(!state.window_options().show_imgui_demo);
}

#[test]
fn toggle_pause_switches_mode_and_editor_pause_flag() {
    let mut state = EditorStateResource::new();
    let mut time = TimeResource::new();
    state.toggle_pause(&mut time);
    assert_eq!(state.editor_mode(), EditorMode::Active);
    assert!(time.is_simulation_paused());
    state.toggle_pause(&mut time);
    assert_eq!(state.editor_mode(), EditorMode::Inactive);
    assert!(!time.is_simulation_paused());
}

#[test]
fn pause_reasons_are_independent() {
    let mut time = TimeResource::new();
    assert_eq!(SimulationTimePauseReason::Editor.flag(), 1);
    assert_eq!(SimulationTimePauseReason::User.flag(), 2);
    time.set_simulation_time_paused(true, SimulationTimePauseReason::Editor);
    time.set_simulation_time_paused(true, SimulationTimePauseReason::User);
    assert_eq!(time.simulation_pause_flags, 3);
    time.set_simulation_time_paused(false, SimulationTimePauseReason::Editor);
    assert!(time.is_simulation_paused());
    assert!(!time.advance_time());
    time.set_simulation_time_paused(false, SimulationTimePauseReason::User);
    assert!(!time.is_simulation_paused());
    assert!(time.advance_time());
}

#[test]
fn play_keeps_the_user_pause() {
    let mut state = EditorStateResource::new();
    let mut time = TimeResource::new();
    time.set_simulation_time_paused(true, SimulationTimePauseReason::User);
    state.pause(&mut time);
    state.play(&mut time);
    assert_eq!(time.simulation_pause_flags, 2);
    assert!(time.is_simulation_paused());
}

#[test]
fn undo_and_redo_walk_the_chain() {
    let mut state = EditorStateResource::new();
    assert_eq!(state.undo(), None);
    assert_eq!(state.redo(), None);
    state.push_to_undo_queue(step(1, true));
    state.push_to_undo_queue(step(2, true));
    assert_eq!(state.undo_chain_position, 2);
    assert_eq!(state.redo(), None);
    assert_eq!(state.undo(), Some(1));
    assert_eq!(diff_byte(&state.undo_step(1).undo_diffs[0]), 102);
    assert_eq!(state.undo(), Some(0));
    assert_eq!(state.undo(), None);
    assert_eq!(state.redo(), Some(0));
    assert_eq!(state.redo(), Some(1));
    assert_eq!(state.redo(), None);
}

#[test]
fn push_after_undo_drops_the_redo_branch() {
    let mut state = EditorStateResource::new();
    state.push_to_undo_queue(step(1, true));
    state.push_to_undo_queue(step(2, true));
    state.undo();
    state.push_to_undo_queue(step(3, true));
    assert_eq!(state.undo_chain.len(), 2);
    assert_eq!(state.undo_chain_position, 2);
    assert_eq!(diff_byte(&state.undo_step(1).diffs[0]), 3);
    assert_eq!(state.redo(), None);
}

#[test]
fn enqueue_transaction_skips_empty_steps() {
    let mut state = EditorStateResource::new();
    state.enqueue_transaction(EditorDiffStep { diffs: vec![], undo_diffs: vec![], commit_changes: true }, true);
    assert_eq!(state.diffs_pending_apply.len(), 0);
    state.enqueue_transaction(step(1, false), false);
    assert_eq!(state.diffs_pending_apply.len(), 1);
    let taken = state.take_diffs_pending_apply();
    assert_eq!(taken.len(), 1);
    assert_eq!(state.diffs_pending_apply.len(), 0);
}

#[test]
fn commit_combines_steps_up_to_the_last_commit() {
    let mut state = EditorStateResource::new();
    state.commit_applied_diffs(vec![step(1, false), step(2, true), step(3, false)]);
    assert_eq!(state.undo_chain.len(), 1);
    assert_eq!(state.undo_chain_position, 1);
    let combined = state.undo_step(0);
    assert!(combined.commit_changes);
    assert_eq!(combined.diffs.iter().map(diff_byte).collect::<Vec<_>>(), vec![1, 2]);
    assert_eq!(combined.undo_diffs.iter().map(diff_byte).collect::<Vec<_>>(), vec![101, 102]);
    assert_eq!(state.diffs_pending_commit.len(), 1);
    assert_eq!(diff_byte(&state.diffs_pending_commit[0].diffs[0]), 3);
}

#[test]
fn commit_without_a_committing_step_waits() {
    let mut state = EditorStateResource::new();
    state.commit_applied_diffs(vec![step(1, false)]);
    assert_eq!(state.undo_chain.len(), 0);
    assert_eq!(state.diffs_pending_commit.len(), 1);
    state.commit_applied_diffs(vec![step(2, true)]);
    assert_eq!(state.undo_chain.len(), 1);
    assert_eq!(state.undo_step(0).diffs.len(), 2);
    assert_eq!(state.diffs_pending_commit.len(), 0);
}

#[test]
fn diff_step_reverses_undo_diffs() {
    let changes = vec![
        ComponentChange { entity_uuid: U1, component_type: T1, has_changes: true, data: vec![1], undo_data: vec![11] },
        ComponentChange { entity_uuid: U2, component_type: T1, has_changes: false, data: vec![2], undo_data: vec![12] },
        ComponentChange { entity_uuid: U2, component_type: T1, has_changes: true, data: vec![3], undo_data: vec![13] },
    ];
    let step = EditorDiffStep::from_changes(changes);
    assert!(step.commit_changes);
    assert_eq!(step.diffs.iter().map(diff_byte).collect::<Vec<_>>(), vec![1, 3]);
    assert_eq!(step.undo_diffs.iter().map(diff_byte).collect::<Vec<_>>(), vec![13, 11]);
    assert_eq!(step.undo_diffs[0].entity_uuid, U2);
}

#[test]
fn editor_ops_queue_and_process() {
    let mut state = EditorStateResource::new();
    let mut time = TimeResource::new();
    state.enqueue_pause();
    state.enqueue_set_active_editor_tool(EditorTool::Scale);
    state.enqueue_reset();
    state.enqueue_open_prefab(U1);
    state.enqueue_undo();
    state.enqueue_redo();
    state.enqueue_toggle_pause();
    state.enqueue_play();
    let ops = state.take_pending_editor_ops();
    assert_eq!(ops.len(), 8);
    assert!(state.pending_editor_ops.is_empty());
    let mut actions = vec![];
    for op in ops {
        actions.push(state.process_editor_op(op, &mut time));
    }
    assert!(actions[0].is_none());
    assert_eq!(state.active_editor_tool(), EditorTool::Scale);
    assert!(matches!(actions[2], Some(EditorAction::Reset { respawn: false })));
    match actions[3] {
        Some(EditorAction::OpenPrefab(uuid)) => assert_eq!(uuid, U1),
        _ => panic!("expected an open"),
    }
    assert!(actions[4].is_none());
    assert!(actions[5].is_none());
    assert!(actions[6].is_none());
    assert_eq!(state.editor_mode(), EditorMode::Inactive);
    assert!(!time.is_simulation_paused());
}

#[test]
fn undo_op_applies_the_step_it_steps_back_over() {
    let mut state = EditorStateResource::new();
    let mut time = TimeResource::new();
    state.push_to_undo_queue(step(1, true));
    match state.process_editor_op(EditorOp::Undo, &mut time) {
        Some(EditorAction::ApplyDiffs { step, undo }) => {
            assert_eq!(step, 0);
            assert!(undo);
        }
        other => panic!("unexpected {:?}", other),
    }
    match state.process_editor_op(EditorOp::Redo, &mut time) {
        Some(EditorAction::ApplyDiffs { step, undo }) => {
            assert_eq!(step, 0);
            assert!(!undo);
        }
        other => panic!("unexpected {:?}", other),
    }
    // No prefab is opened, so nothing resets the editor.
    assert_eq!(state.editor_mode(), EditorMode::Inactive);
}

fn opened_state() -> EditorStateResource {
    let mut state = EditorStateResource::new();
    let mut cooked = KeyMap::new();
    cooked.insert(U1, Entity { index: 0, version: 0 });
    cooked.insert(U2, Entity { index: 1, version: 0 });
    state.set_opened_prefab([9; 16], 3, cooked);
    state.set_world_mappings(vec![
        (Entity { index: 0, version: 0 }, Entity { index: 10, version: 1 }),
        (Entity { index: 1, version: 0 }, Entity { index: 11, version: 1 }),
    ]);
    state
}

#[test]
fn selected_world_entities_map_to_prefab_uuids() {
    let state = opened_state();
    let uuids = state.get_selected_uuids(&vec![Entity { index: 11, version: 1 }, Entity { index: 99, version: 0 }]);
    assert_eq!(uuids, vec![U2]);
    assert!(state.needs_reload(4));
    assert!(!state.needs_reload(3));
    let p = state.opened_prefab().unwrap();
    assert_eq!(*p.world_to_prefab_mappings().get(&Entity { index: 10, version: 1 }).unwrap(), Entity { index: 0, version: 0 });
    assert_eq!(p.uuid_of_prefab_entity(Entity { index: 1, version: 0 }), Some(U2));
}

#[test]
fn restored_selection_is_queued() {
    let state = opened_state();
    let mut selection = prefab_editor::editor::selection::EditorSelectionResource::new();
    state.restore_selected_uuids(&mut selection, &vec![U1, [42; 16]]);
    let changed = selection.process_selection_ops();
    assert!(changed);
    assert_eq!(selection.selected_entities(), vec![Entity { index: 10, version: 1 }]);
}

#[test]
fn transaction_from_selection_covers_selected_prefab_entities() {
    let state = opened_state();
    assert!(EditorStateResource::new().create_transaction_from_selected(&vec![]).is_none());
    let builder = state.create_transaction_from_selected(&vec![Entity { index: 10, version: 1 }]).unwrap();
    assert_eq!(builder.entities.len(), 1);
    assert_eq!(builder.entities[0].entity_uuid, U1);
    assert_eq!(builder.entities[0].entity, Entity { index: 0, version: 0 });
}

#[test]
fn reset_pauses_and_activates() {
    let mut state = opened_state();
    let mut time = TimeResource::new();
    assert!(state.reset(&mut time));
    assert_eq!(state.editor_mode(), EditorMode::Active);
    assert!(time.is_simulation_paused());
    assert!(!EditorStateResource::new().reset(&mut time));
}

#[test]
fn world_diff_reports_changes() {
    let empty = WorldDiff::new(vec![], vec![]);
    assert!(!empty.has_changes());
    let with_entity = WorldDiff::new(vec![EntityDiff::new(U1, EntityDiffOp::Add)], vec![]);
    assert!(with_entity.has_changes());
    assert_eq!(with_entity.entity_diffs()[0].op(), &EntityDiffOp::Add);
    let with_component = WorldDiff::new(vec![], vec![change(U1, 1)]);
    assert!(with_component.has_changes());
}

#[test]
fn diff_single_results_map_to_component_ops() {
    assert!(ComponentDiffOp::from_diff_single_result(DiffSingleResult::NoChange, vec![1]).is_none());
    assert!(matches!(ComponentDiffOp::from_diff_single_result(DiffSingleResult::Remove, vec![1]), Some(ComponentDiffOp::Remove)));
    match ComponentDiffOp::from_diff_single_result(DiffSingleResult::Add, vec![5]) {
        Some(ComponentDiffOp::Add(data)) => assert_eq!(data, vec![5]),
        other => panic!("unexpected {:?}", other),
    }
    let diff = ComponentDiff::new_from_diff_single_result(U1, T1, DiffSingleResult::Change, vec![6]).unwrap();
    assert_eq!(*diff.entity_uuid(), U1);
    assert_eq!(*diff.component_type(), T1);
    assert!(matches!(diff.op(), ComponentDiffOp::Change(d) if d == &vec![6]));
    assert!(ComponentDiff::new_from_diff_single_result(U1, T1, DiffSingleResult::NoChange, vec![6]).is_none());
}

#[test]
fn undo_and_redo_at_the_ends_change_nothing() {
    let mut state = EditorStateResource::new();
    state.enqueue_transaction(step(1, false), false);
    state.enqueue_set_active_editor_tool(EditorTool::Rotate);
    assert_eq!(state.undo(), None);
    assert_eq!(state.redo(), None);
    assert_eq!(state.diffs_pending_apply.len(), 1);
    assert_eq!(state.pending_editor_ops.len(), 1);
    assert_eq!(state.undo_chain_position, 0);
    assert_eq!(state.active_editor_tool(), EditorTool::Translate);
}

#[test]
fn process_editor_ops_runs_queued_ops_in_order() {
    let mut state = EditorStateResource::new();
    let mut time = TimeResource::new();
    state.enqueue_set_active_editor_tool(EditorTool::Scale);
    state.enqueue_set_active_editor_tool(EditorTool::Rotate);
    assert_eq!(state.active_editor_tool(), EditorTool::Translate);
    let actions = state.process_editor_ops(&mut time);
    assert_eq!(actions.len(), 2);
    assert!(actions.iter().all(|a| a.is_none()));
    assert_eq!(state.active_editor_tool(), EditorTool::Rotate);
    assert!(state.pending_editor_ops.is_empty());
    // Nothing queued: nothing happens.
    let again = state.process_editor_ops(&mut time);
    assert!(again.is_empty());
    assert_eq!(state.active_editor_tool(), EditorTool::Rotate);
}

#[test]
fn process_editor_ops_stops_after_opening_a_prefab() {
    let mut state = EditorStateResource::new();
    let mut time = TimeResource::new();
    state.enqueue_pause();
    state.enqueue_open_prefab([5; 16]);
    state.enqueue_set_active_editor_tool(EditorTool::Scale);
    let actions = state.process_editor_ops(&mut time);
    assert_eq!(actions.len(), 2);
    assert!(matches!(actions[1], Some(EditorAction::OpenPrefab(u)) if u == [5; 16]));
    assert_eq!(state.pending_editor_ops.len(), 1);
    assert_eq!(state.active_editor_tool(), EditorTool::Translate);
    let rest = state.process_editor_ops(&mut time);
    assert_eq!(rest.len(), 1);
    assert_eq!(state.active_editor_tool(), EditorTool::Scale);
    assert!(state.pending_editor_ops.is_empty());
}

#[test]
fn toggle_pause_op_pauses_and_resumes_the_simulation() {
    let mut state = EditorStateResource::new();
    let mut time = TimeResource::new();
    assert_eq!(state.editor_mode(), EditorMode::Inactive);
    state.process_editor_op(EditorOp::TogglePause, &mut time);
    assert_eq!(state.editor_mode(), EditorMode::Active);
    assert!(time.is_simulation_paused());
    state.process_editor_op(EditorOp::TogglePause, &mut time);
    assert_eq!(state.editor_mode(), EditorMode::Inactive);
    assert!(!time.is_simulation_paused());
}

use prefab_editor::editor::apply::{
    component_diff_target, plan_entity_diff, record_spawned_entity, remap_entities, EntityDiffAction,
};
use prefab_editor::editor::diffs::{ComponentDiffOp, DiffSingleResult, EntityDiff, EntityDiffOp};
use prefab_editor::editor::gizmo::{
    drag_result, gizmo_transaction_fate, scale_axes, str_eq, translate_axes, GizmoResult,
    GizmoTransactionFate, ScaleAxes,
};
use prefab_editor::editor::input::{
    editor_keyboard_shortcuts, entity_list_click, main_menu_commands, run_menu_command, selection_action,
    tool_button_clicked, tool_button_highlighted, MenuCommand, SelectionAction, ShortcutKeys,
};
use prefab_editor::editor::schedule::{
    create_draw_schedule, create_update_schedule, expected_criteria, get_current_schedule_criteria,
    DemoApp, ScheduleBuilder, ScheduleCriteria, SystemId,
};
use prefab_editor::editor::selection::EditorSelectionResource;
use prefab_editor::editor::state::{EditorMode, EditorOp, EditorStateResource, EditorTool, InspectorChange};
use prefab_editor::editor::time::TimeResource;
use prefab_editor::editor::transactions::{ComponentComparison, TransactionBuilder, TransactionDiffs};
use prefab_editor::editor::diffs::WorldDiff;
use prefab_editor::editor::Entity;
use prefab_editor::fps_text::FpsText;
use prefab_editor::keymap::KeyMap;
use prefab_editor::option_iter::{create_option_iter_from_slice, OptionIter};

fn e(index: u32) -> Entity {
    Entity { index, version: 0 }
}

#[test]
fn fps_text_starts_empty() {
    let t = FpsText::new();
    assert!(t.last_fps_text_change.is_none());
    assert_eq!(t.fps_text, "");
}

#[test]
fn selection_ops_apply_in_order() {
    let mut s = EditorSelectionResource::new();
    s.enqueue_add_to_selection(e(1));
    s.enqueue_add_to_selection(e(2));
    s.enqueue_remove_from_selection(e(1));
    assert!(s.process_selection_ops());
    assert!(!s.is_entity_selected(e(1)));
    assert!(s.is_entity_selected(e(2)));
    // Adding what is selected and removing what is not change nothing.
    s.enqueue_add_to_selection(e(2));
    s.enqueue_remove_from_selection(e(7));
    assert!(!s.process_selection_ops());
    s.enqueue_clear_selection();
    assert!(s.process_selection_ops());
    assert!(s.selected_entities().is_empty());
    s.enqueue_clear_selection();
    assert!(!s.process_selection_ops());
    s.enqueue_set_selection(vec![e(3), e(3), e(4)]);
    assert!(s.process_selection_ops());
    let mut selected = s.selected_entities();
    selected.sort_by_key(|x| x.index);
    assert_eq!(selected, vec![e(3), e(4)]);
}

#[test]
fn update_schedule_runs_physics_only_unpaused() {
    let running = create_update_schedule(&ScheduleCriteria::new(false, EditorMode::Inactive));
    assert_eq!(running.len(), 9);
    assert_eq!(running[4], SystemId::UpdatePhysics);
    assert_eq!(running[5], SystemId::ReadFromPhysics);
    let paused = create_update_schedule(&ScheduleCriteria::new(true, EditorMode::Active));
    assert_eq!(paused.len(), 7);
    assert!(!paused.contains(&SystemId::UpdatePhysics));
    assert_eq!(paused[0], SystemId::AdvanceTime);
    assert_eq!(paused[6], SystemId::InputResetForNextFrame);
    assert_eq!(create_draw_schedule(&ScheduleCriteria::new(true, EditorMode::Active)), vec![SystemId::Draw]);
}

#[test]
fn editor_only_systems_need_the_editor() {
    let editing = ScheduleBuilder::new(ScheduleCriteria::new(true, EditorMode::Active)).editor_only(SystemId::Draw).build();
    assert_eq!(editing, vec![SystemId::Draw]);
    let running = ScheduleBuilder::new(ScheduleCriteria::new(false, EditorMode::Inactive)).editor_only(SystemId::Draw).build();
    assert!(running.is_empty());
}

#[test]
fn schedule_criteria_follow_the_state() {
    let state = EditorStateResource::new();
    let time = TimeResource::new();
    assert_eq!(get_current_schedule_criteria(&time, &state), ScheduleCriteria::new(false, EditorMode::Inactive));
    let expected = expected_criteria();
    assert_eq!(expected, vec![ScheduleCriteria::new(false, EditorMode::Inactive), ScheduleCriteria::new(true, EditorMode::Active)]);
}

#[test]
fn gizmo_results_combine_to_the_larger() {
    assert_eq!(GizmoResult::NoChange.max(GizmoResult::Update), GizmoResult::Update);
    assert_eq!(GizmoResult::Commit.max(GizmoResult::Update), GizmoResult::Commit);
    assert_eq!(GizmoResult::NoChange.max(GizmoResult::NoChange), GizmoResult::NoChange);
    assert_eq!(gizmo_transaction_fate(GizmoResult::NoChange), GizmoTransactionFate::Drop);
    assert_eq!(gizmo_transaction_fate(GizmoResult::Update), GizmoTransactionFate::UpdateAndKeep);
    assert_eq!(gizmo_transaction_fate(GizmoResult::Commit), GizmoTransactionFate::Commit);
}

#[test]
fn gizmo_handles_pick_axes() {
    assert_eq!(translate_axes("x_axis_translate"), (true, false));
    assert_eq!(translate_axes("y_axis_translate"), (false, true));
    assert_eq!(translate_axes("xy_axis_translate"), (true, true));
    assert_eq!(translate_axes("uniform_scale"), (false, false));
    assert_eq!(scale_axes("x_axis_scale"), ScaleAxes { x: true, y: false, uniform: false });
    assert_eq!(scale_axes("uniform_scale").kept_components(), (true, true));
    assert_eq!(scale_axes("y_axis_scale").kept_components(), (false, true));
    assert_eq!(scale_axes("x_axis_translate"), ScaleAxes { x: false, y: false, uniform: false });
    assert!(str_eq("abc", "abc"));
    assert!(!str_eq("abc", "abd"));
    assert!(!str_eq("abc", "ab"));
}

#[test]
fn drags_update_then_commit() {
    assert_eq!(drag_result(false, true, false), GizmoResult::NoChange);
    assert_eq!(drag_result(true, false, true), GizmoResult::NoChange);
    assert_eq!(drag_result(true, true, false), GizmoResult::Update);
    assert_eq!(drag_result(true, true, true), GizmoResult::Commit);
}

#[test]
fn keyboard_shortcuts_queue_ops() {
    let mut state = EditorStateResource::new();
    editor_keyboard_shortcuts(&mut state, &ShortcutKeys { key1: false, key2: true, key3: false, space: true });
    assert_eq!(state.pending_editor_ops.len(), 2);
    assert!(matches!(state.pending_editor_ops[0], EditorOp::SetActiveEditorTool(EditorTool::Scale)));
    assert!(matches!(state.pending_editor_ops[1], EditorOp::TogglePause));
}

#[test]
fn mouse_actions_for_selection() {
    assert_eq!(selection_action(true, true, false, false), SelectionAction::Nothing);
    assert_eq!(selection_action(false, true, true, true), SelectionAction::PickPoint);
    assert_eq!(selection_action(false, false, true, true), SelectionAction::PickArea);
    assert_eq!(selection_action(false, false, false, true), SelectionAction::DrawDragRect);
    assert_eq!(selection_action(false, false, false, false), SelectionAction::Nothing);
}

#[test]
fn transaction_detects_deleted_and_created_entities() {
    let builder = TransactionBuilder::new().add_entity(e(0), [1; 16]).add_entity(e(1), [2; 16]);
    let mut tx = builder.begin(vec![(e(100), e(200)), (e(101), e(201))]);
    // After the edit, entity 201 is gone and 202 is new.
    let changes = tx.detect_entity_changes(&vec![e(200), e(202)]);
    assert_eq!(changes.removed, vec![[2; 16]]);
    assert_eq!(changes.created.len(), 1);
    assert_eq!(changes.created[0].1, e(202));
    let new_uuid = changes.created[0].0;
    assert_eq!(new_uuid[6] >> 4, 4);
    assert_eq!(new_uuid[8] >> 6, 2);
    assert_eq!(changes.apply_entity_diffs.len(), 2);
    assert_eq!(changes.apply_entity_diffs[0].op, EntityDiffOp::Remove);
    assert_eq!(changes.apply_entity_diffs[1].op, EntityDiffOp::Add);
    assert_eq!(changes.apply_entity_diffs[1].entity_uuid, new_uuid);
    assert_eq!(changes.revert_entity_diffs[0].op, EntityDiffOp::Add);
    assert_eq!(changes.revert_entity_diffs[1].op, EntityDiffOp::Remove);
    assert_eq!(tx.uuid_to_entities.get(&new_uuid).unwrap().after_entity(), Some(e(202)));
    assert_eq!(tx.uuid_to_entities.get(&new_uuid).unwrap().before_entity(), None);

    let registered = vec![[7u8; 16]];
    let plan = tx.comparisons_to_make(&registered);
    assert_eq!(plan.len(), 3);
    assert_eq!(plan[0].entity_uuid, [1; 16]);
    assert_eq!(plan[0].before_entity, Some(e(100)));
    assert_eq!(plan[0].after_entity, Some(e(200)));
    assert_eq!(plan[1].entity_uuid, [2; 16]);
    assert_eq!(plan[2].entity_uuid, new_uuid);
    assert_eq!(plan[2].before_entity, None);
    assert_eq!(plan[2].after_entity, Some(e(202)));
    assert!(plan.iter().all(|r| r.component_type == [7; 16]));
    let comparisons: Vec<ComponentComparison> = plan
        .iter()
        .map(|r| {
            let (apply_result, apply_data, revert_result, revert_data) = if r.entity_uuid == [1; 16] {
                (DiffSingleResult::Change, vec![1], DiffSingleResult::Change, vec![2])
            } else if r.entity_uuid == new_uuid {
                (DiffSingleResult::Add, vec![3], DiffSingleResult::Remove, vec![])
            } else {
                (DiffSingleResult::NoChange, vec![], DiffSingleResult::NoChange, vec![])
            };
            ComponentComparison {
                entity_uuid: r.entity_uuid,
                component_type: r.component_type,
                apply_result,
                apply_data,
                revert_result,
                revert_data,
            }
        })
        .collect();
    let diffs = tx.finish_transaction_diffs(changes, &registered, comparisons);
    assert_eq!(diffs.apply_diff().component_diffs().len(), 2);
    assert!(matches!(diffs.apply_diff().component_diffs()[1].op, ComponentDiffOp::Add(_)));
    assert!(matches!(diffs.revert_diff().component_diffs()[1].op, ComponentDiffOp::Remove));
    assert!(tx.uuid_to_entities.get(&[2; 16]).is_none());
    assert!(tx.uuid_to_entities.get(&[1; 16]).is_some());
}

#[test]
fn reversing_transaction_diffs_twice_restores_them() {
    let apply = WorldDiff::new(vec![EntityDiff::new([1; 16], EntityDiffOp::Add)], vec![]);
    let revert = WorldDiff::new(vec![EntityDiff::new([1; 16], EntityDiffOp::Remove)], vec![]);
    let mut diffs = TransactionDiffs::new(apply, revert);
    diffs.reverse();
    assert_eq!(diffs.apply_diff().entity_diffs()[0].op, EntityDiffOp::Remove);
    diffs.reverse();
    assert_eq!(diffs.apply_diff().entity_diffs()[0].op, EntityDiffOp::Add);
    assert_eq!(diffs.revert_diff().entity_diffs()[0].op, EntityDiffOp::Remove);
}

#[test]
fn applying_a_diff_maps_identifiers_to_copies() {
    let mut uuid_to_entity = KeyMap::new();
    uuid_to_entity.insert([1; 16], e(0));
    uuid_to_entity.insert([2; 16], e(1));
    let mut copies = KeyMap::new();
    copies.insert(e(0), e(10));
    copies.insert(e(1), e(11));
    let mut mapped = remap_entities(&uuid_to_entity, &copies);
    assert_eq!(mapped.get(&[2; 16]), Some(&e(11)));

    assert_eq!(plan_entity_diff(&mut mapped, &EntityDiff::new([1; 16], EntityDiffOp::Remove)), EntityDiffAction::Delete(e(10)));
    assert!(!mapped.contains_key(&[1; 16]));
    assert_eq!(plan_entity_diff(&mut mapped, &EntityDiff::new([1; 16], EntityDiffOp::Remove)), EntityDiffAction::Skip);
    assert_eq!(plan_entity_diff(&mut mapped, &EntityDiff::new([3; 16], EntityDiffOp::Add)), EntityDiffAction::Spawn);
    record_spawned_entity(&mut mapped, [3; 16], e(12));

    let registered = vec![[7; 16]];
    assert_eq!(component_diff_target(&mapped, &registered, &[3; 16], &[7; 16]), Some(e(12)));
    assert_eq!(component_diff_target(&mapped, &registered, &[3; 16], &[8; 16]), None);
    assert_eq!(component_diff_target(&mapped, &registered, &[1; 16], &[7; 16]), None);
}

#[test]
fn key_map_insert_get_remove() {
    let mut m: KeyMap<[u8; 16], u32> = KeyMap::new();
    assert_eq!(m.len(), 0);
    m.insert([1; 16], 10);
    m.insert([2; 16], 20);
    m.insert([1; 16], 11);
    assert_eq!(m.len(), 2);
    assert_eq!(m.get(&[1; 16]), Some(&11));
    assert_eq!(m.remove(&[1; 16]), Some(11));
    assert_eq!(m.remove(&[1; 16]), None);
    assert_eq!(m.keys(), vec![[2; 16]]);
}

#[test]
fn option_iter_yields_elements_or_placeholders() {
    let data = [10, 20, 30, 40];
    let mut it = create_option_iter_from_slice(Some(&data[..]), 1, 3);
    assert_eq!(it.next_item(), Some(Some(&20)));
    assert_eq!(it.next_item(), Some(Some(&30)));
    assert_eq!(it.next_item(), None);
    let mut missing: OptionIter<u32> = create_option_iter_from_slice(None, 2, 4);
    assert_eq!(missing.next_item(), Some(None));
    assert_eq!(missing.next_item(), Some(None));
    assert_eq!(missing.next_item(), None);
}

#[test]
fn entity_list_clicks_toggle_or_select() {
    let mut s = EditorSelectionResource::new();
    entity_list_click(&mut s, e(1), false);
    s.process_selection_ops();
    assert_eq!(s.selected_entities(), vec![e(1)]);
    entity_list_click(&mut s, e(2), true);
    s.process_selection_ops();
    assert!(s.is_entity_selected(e(1)) && s.is_entity_selected(e(2)));
    entity_list_click(&mut s, e(1), true);
    s.process_selection_ops();
    assert_eq!(s.selected_entities(), vec![e(2)]);
    entity_list_click(&mut s, e(3), false);
    s.process_selection_ops();
    assert_eq!(s.selected_entities(), vec![e(3)]);
}

#[test]
fn main_menu_offers_play_or_pause() {
    let mut state = EditorStateResource::new();
    let mut time = TimeResource::new();
    assert_eq!(main_menu_commands(&state), vec![MenuCommand::Reset, MenuCommand::Pause]);
    state.pause(&mut time);
    assert_eq!(main_menu_commands(&state), vec![MenuCommand::Reset, MenuCommand::Play]);
    run_menu_command(&mut state, MenuCommand::Play);
    assert!(matches!(state.pending_editor_ops[0], EditorOp::Play));
    assert!(tool_button_highlighted(&state, EditorTool::Translate));
    assert!(!tool_button_highlighted(&state, EditorTool::Rotate));
    tool_button_clicked(&mut state, EditorTool::Rotate);
    assert!(matches!(state.pending_editor_ops[1], EditorOp::SetActiveEditorTool(EditorTool::Rotate)));
}

#[test]
fn inspector_changes_become_diffs_of_prefab_entities() {
    let state = EditorStateResource::new();
    assert!(state.generate_diffs_from_changes(vec![]).is_none());
    let mut state = EditorStateResource::new();
    let mut cooked = KeyMap::new();
    cooked.insert([1; 16], e(0));
    state.set_opened_prefab([9; 16], 1, cooked);
    let diffs = state
        .generate_diffs_from_changes(vec![
            InspectorChange { prefab_entity: e(0), component_type: [7; 16], has_changes: true, data: vec![1] },
            InspectorChange { prefab_entity: e(5), component_type: [7; 16], has_changes: false, data: vec![2] },
        ])
        .unwrap();
    assert_eq!(diffs.len(), 1);
    assert_eq!(diffs[0].entity_uuid, [1; 16]);
    assert!(matches!(&diffs[0].op, ComponentDiffOp::Change(d) if d == &vec![1]));
}

#[test]
fn demo_app_prepares_schedules_for_expected_criteria() {

    let app = DemoApp::new();
    let running = ScheduleCriteria::new(false, EditorMode::Inactive);
    let editing = ScheduleCriteria::new(true, EditorMode::Active);
    assert_eq!(app.update_schedule(&running), &create_update_schedule(&running));
    assert_eq!(app.update_schedule(&editing), &create_update_schedule(&editing));
    assert_eq!(app.draw_schedule(&editing), &vec![SystemId::Draw]);
}

fn no_change(r: &prefab_editor::editor::transactions::ComparisonRequest) -> ComponentComparison {
    ComponentComparison {
        entity_uuid: r.entity_uuid,
        component_type: r.component_type,
        apply_result: DiffSingleResult::NoChange,
        apply_data: vec![],
        revert_result: DiffSingleResult::NoChange,
        revert_data: vec![],
    }
}

#[test]
fn unchanged_transaction_gives_no_diffs() {
    let builder = TransactionBuilder::new().add_entity(e(0), [1; 16]).add_entity(e(1), [2; 16]);
    let mut tx = builder.begin(vec![(e(100), e(200)), (e(101), e(201))]);
    let changes = tx.detect_entity_changes(&vec![e(200), e(201)]);
    assert!(changes.removed.is_empty());
    assert!(changes.created.is_empty());
    let registered = vec![[7u8; 16], [8u8; 16]];
    let plan = tx.comparisons_to_make(&registered);
    assert_eq!(plan.len(), 4);
    let comparisons: Vec<ComponentComparison> = plan.iter().map(no_change).collect();
    let diffs = tx.finish_transaction_diffs(changes, &registered, comparisons);
    assert!(!diffs.apply_diff().has_changes());
    assert!(!diffs.revert_diff().has_changes());
}

#[test]
fn second_detection_reports_nothing() {
    let builder = TransactionBuilder::new().add_entity(e(0), [1; 16]).add_entity(e(1), [2; 16]);
    let mut tx = builder.begin(vec![(e(100), e(200)), (e(101), e(201))]);
    let live = vec![e(200), e(202)];
    let changes = tx.detect_entity_changes(&live);
    assert_eq!(changes.removed.len(), 1);
    assert_eq!(changes.created.len(), 1);
    let registered = vec![[7u8; 16]];
    let plan = tx.comparisons_to_make(&registered);
    let comparisons: Vec<ComponentComparison> = plan.iter().map(no_change).collect();
    tx.finish_transaction_diffs(changes, &registered, comparisons);
    let again = tx.detect_entity_changes(&live);
    assert!(again.removed.is_empty());
    assert!(again.created.is_empty());
    assert!(again.apply_entity_diffs.is_empty());
    assert!(again.revert_entity_diffs.is_empty());
}

#[test]
fn skipped_component_diffs_change_nothing() {
    let mut mapped = KeyMap::new();
    mapped.insert([3u8; 16], e(12));
    let registered = vec![[7u8; 16]];
    let diffs = vec![prefab_editor::editor::diffs::ComponentDiff::new([3; 16], [7; 16], ComponentDiffOp::Remove)];
    let mut more = vec![prefab_editor::editor::diffs::ComponentDiff::new([3; 16], [7; 16], ComponentDiffOp::Remove)];
    more.push(prefab_editor::editor::diffs::ComponentDiff::new([9; 16], [7; 16], ComponentDiffOp::Remove));
    more.push(prefab_editor::editor::diffs::ComponentDiff::new([3; 16], [8; 16], ComponentDiffOp::Remove));
    let planned = prefab_editor::editor::apply::plan_component_diffs(&mapped, &registered, &diffs);
    assert_eq!(planned, vec![(0, e(12))]);
    assert_eq!(prefab_editor::editor::apply::plan_component_diffs(&mapped, &registered, &more), planned);
}

#[test]
fn add_component_choices_filter_and_sort() {
    let names = vec![
        "Position2DComponent".to_string(),
        "DrawSkiaBoxComponent".to_string(),
        "RigidBodyComponent".to_string(),
        "DrawSkiaCircleComponent".to_string(),
    ];
    let all = prefab_editor::editor::inspector::add_component_choices(&names, "");
    assert_eq!(all, vec![1, 3, 0, 2]);
    let skia = prefab_editor::editor::inspector::add_component_choices(&names, "SKIA");
    assert_eq!(skia, vec![1, 3]);
    let body = prefab_editor::editor::inspector::add_component_choices(&names, "body");
    assert_eq!(body, vec![2]);
    assert!(prefab_editor::editor::inspector::add_component_choices(&names, "zzz").is_empty());
}

#[test]
fn fps_text_refresh_decision() {
    let mut text = FpsText::new();
    assert!(text.refresh_due(false));
    let now = std::time::Instant::now();
    text.refresh(now, "Fps: 60.0".to_string());
    assert_eq!(text.fps_text, "Fps: 60.0");
    assert_eq!(text.last_fps_text_change, Some(now));
    assert!(!text.refresh_due(false));
    assert!(text.refresh_due(true));
}

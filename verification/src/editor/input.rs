//! The editor's reading of the keyboard and mouse: which keys queue which operations, and what
//! a click or a drag does to the selection.

use vstd::prelude::*;
use super::Entity;
use super::selection::{EditorSelectionResource, SelectionOp};
use super::state::{EditorAction, EditorMode, EditorOp, EditorStateResource, EditorTool, op_done, same_but_ops};
use super::time::{SimulationTimePauseReason, paused_for};

verus! {

/// The shortcut keys pressed this frame.
#[derive(Clone, Copy, Debug)]
pub struct ShortcutKeys {
    /// `1`: the translate tool.
    pub key1: bool,
    /// `2`: the scale tool.
    pub key2: bool,
    /// `3`: the rotate tool.
    pub key3: bool,
    /// Space: toggle the pause.
    pub space: bool,
}

/// The operations the keys queue, in the order the keys are checked.
pub open spec fn shortcut_ops(keys: ShortcutKeys) -> Seq<EditorOp> {
    (if keys.key1 { seq![EditorOp::SetActiveEditorTool(EditorTool::Translate)] } else { Seq::empty() })
        + (if keys.key2 { seq![EditorOp::SetActiveEditorTool(EditorTool::Scale)] } else { Seq::empty() })
        + (if keys.key3 { seq![EditorOp::SetActiveEditorTool(EditorTool::Rotate)] } else { Seq::empty() })
        + (if keys.space { seq![EditorOp::TogglePause] } else { Seq::empty() })
}

/// Queues the operations of the shortcut keys pressed this frame.
pub fn editor_keyboard_shortcuts(editor_state: &mut EditorStateResource, keys: &ShortcutKeys)
    ensures
        final(editor_state).pending_editor_ops@ == old(editor_state).pending_editor_ops@ + shortcut_ops(*keys),
        same_but_ops(*final(editor_state), *old(editor_state)),
{
    let ghost ops0 = editor_state.pending_editor_ops@;
    let ghost e = Seq::<EditorOp>::empty();
    if keys.key1 {
        editor_state.enqueue_set_active_editor_tool(EditorTool::Translate);
    }
    let ghost after1 = editor_state.pending_editor_ops@;
    if keys.key2 {
        editor_state.enqueue_set_active_editor_tool(EditorTool::Scale);
    }
    let ghost after2 = editor_state.pending_editor_ops@;
    if keys.key3 {
        editor_state.enqueue_set_active_editor_tool(EditorTool::Rotate);
    }
    let ghost after3 = editor_state.pending_editor_ops@;
    if keys.space {
        editor_state.enqueue_toggle_pause();
    }
    proof {
        let s1 = if keys.key1 { seq![EditorOp::SetActiveEditorTool(EditorTool::Translate)] } else { e };
        let s2 = if keys.key2 { seq![EditorOp::SetActiveEditorTool(EditorTool::Scale)] } else { e };
        let s3 = if keys.key3 { seq![EditorOp::SetActiveEditorTool(EditorTool::Rotate)] } else { e };
        let s4 = if keys.space { seq![EditorOp::TogglePause] } else { e };
        assert(after1 =~= ops0 + s1);
        assert(after2 =~= ops0 + s1 + s2);
        assert(after3 =~= ops0 + s1 + s2 + s3);
        assert(editor_state.pending_editor_ops@ =~= ops0 + s1 + s2 + s3 + s4);
        assert(ops0 + s1 + s2 + s3 + s4 =~= ops0 + (s1 + s2 + s3 + s4));
    }
}

/// Each shortcut key queues its own operation and no other key queues it: key 1 the translate
/// tool, key 2 the scale tool, key 3 the rotate tool and space the pause toggle; one operation
/// per key pressed.
pub proof fn lemma_shortcut_keys(keys: ShortcutKeys)
    ensures
        shortcut_ops(keys).contains(EditorOp::SetActiveEditorTool(EditorTool::Translate)) == keys.key1,
        shortcut_ops(keys).contains(EditorOp::SetActiveEditorTool(EditorTool::Scale)) == keys.key2,
        shortcut_ops(keys).contains(EditorOp::SetActiveEditorTool(EditorTool::Rotate)) == keys.key3,
        shortcut_ops(keys).contains(EditorOp::TogglePause) == keys.space,
        shortcut_ops(keys).len() == (if keys.key1 { 1int } else { 0 }) + (if keys.key2 { 1int } else { 0 }) + (if keys.key3 {
            1int
        } else {
            0
        }) + (if keys.space { 1int } else { 0 }),
{
    let ops = shortcut_ops(keys);
        if keys.key1 && keys.key2 && keys.key3 && keys.space {
            let o: Seq<EditorOp> = seq![EditorOp::SetActiveEditorTool(EditorTool::Translate), EditorOp::SetActiveEditorTool(EditorTool::Scale), EditorOp::SetActiveEditorTool(EditorTool::Rotate), EditorOp::TogglePause];
            assert(ops =~= o);
            assert(o[0] == EditorOp::SetActiveEditorTool(EditorTool::Translate));
            assert(o[1] == EditorOp::SetActiveEditorTool(EditorTool::Scale));
            assert(o[2] == EditorOp::SetActiveEditorTool(EditorTool::Rotate));
            assert(o[3] == EditorOp::TogglePause);
        }
        if keys.key1 && keys.key2 && keys.key3 && !keys.space {
            let o: Seq<EditorOp> = seq![EditorOp::SetActiveEditorTool(EditorTool::Translate), EditorOp::SetActiveEditorTool(EditorTool::Scale), EditorOp::SetActiveEditorTool(EditorTool::Rotate)];
            assert(ops =~= o);
            assert(o[0] == EditorOp::SetActiveEditorTool(EditorTool::Translate));
            assert(o[1] == EditorOp::SetActiveEditorTool(EditorTool::Scale));
            assert(o[2] == EditorOp::SetActiveEditorTool(EditorTool::Rotate));
        }
        if keys.key1 && keys.key2 && !keys.key3 && keys.space {
            let o: Seq<EditorOp> = seq![EditorOp::SetActiveEditorTool(EditorTool::Translate), EditorOp::SetActiveEditorTool(EditorTool::Scale), EditorOp::TogglePause];
            assert(ops =~= o);
            assert(o[0] == EditorOp::SetActiveEditorTool(EditorTool::Translate));
            assert(o[1] == EditorOp::SetActiveEditorTool(EditorTool::Scale));
            assert(o[2] == EditorOp::TogglePause);
        }
        if keys.key1 && keys.key2 && !keys.key3 && !keys.space {
            let o: Seq<EditorOp> = seq![EditorOp::SetActiveEditorTool(EditorTool::Translate), EditorOp::SetActiveEditorTool(EditorTool::Scale)];
            assert(ops =~= o);
            assert(o[0] == EditorOp::SetActiveEditorTool(EditorTool::Translate));
            assert(o[1] == EditorOp::SetActiveEditorTool(EditorTool::Scale));
        }
        if keys.key1 && !keys.key2 && keys.key3 && keys.space {
            let o: Seq<EditorOp> = seq![EditorOp::SetActiveEditorTool(EditorTool::Translate), EditorOp::SetActiveEditorTool(EditorTool::Rotate), EditorOp::TogglePause];
            assert(ops =~= o);
            assert(o[0] == EditorOp::SetActiveEditorTool(EditorTool::Translate));
            assert(o[1] == EditorOp::SetActiveEditorTool(EditorTool::Rotate));
            assert(o[2] == EditorOp::TogglePause);
        }
        if keys.key1 && !keys.key2 && keys.key3 && !keys.space {
            let o: Seq<EditorOp> = seq![EditorOp::SetActiveEditorTool(EditorTool::Translate), EditorOp::SetActiveEditorTool(EditorTool::Rotate)];
            assert(ops =~= o);
            assert(o[0] == EditorOp::SetActiveEditorTool(EditorTool::Translate));
            assert(o[1] == EditorOp::SetActiveEditorTool(EditorTool::Rotate));
        }
        if keys.key1 && !keys.key2 && !keys.key3 && keys.space {
            let o: Seq<EditorOp> = seq![EditorOp::SetActiveEditorTool(EditorTool::Translate), EditorOp::TogglePause];
            assert(ops =~= o);
            assert(o[0] == EditorOp::SetActiveEditorTool(EditorTool::Translate));
            assert(o[1] == EditorOp::TogglePause);
        }
        if keys.key1 && !keys.key2 && !keys.key3 && !keys.space {
            let o: Seq<EditorOp> = seq![EditorOp::SetActiveEditorTool(EditorTool::Translate)];
            assert(ops =~= o);
            assert(o[0] == EditorOp::SetActiveEditorTool(EditorTool::Translate));
        }
        if !keys.key1 && keys.key2 && keys.key3 && keys.space {
            let o: Seq<EditorOp> = seq![EditorOp::SetActiveEditorTool(EditorTool::Scale), EditorOp::SetActiveEditorTool(EditorTool::Rotate), EditorOp::TogglePause];
            assert(ops =~= o);
            assert(o[0] == EditorOp::SetActiveEditorTool(EditorTool::Scale));
            assert(o[1] == EditorOp::SetActiveEditorTool(EditorTool::Rotate));
            assert(o[2] == EditorOp::TogglePause);
        }
        if !keys.key1 && keys.key2 && keys.key3 && !keys.space {
            let o: Seq<EditorOp> = seq![EditorOp::SetActiveEditorTool(EditorTool::Scale), EditorOp::SetActiveEditorTool(EditorTool::Rotate)];
            assert(ops =~= o);
            assert(o[0] == EditorOp::SetActiveEditorTool(EditorTool::Scale));
            assert(o[1] == EditorOp::SetActiveEditorTool(EditorTool::Rotate));
        }
        if !keys.key1 && keys.key2 && !keys.key3 && keys.space {
            let o: Seq<EditorOp> = seq![EditorOp::SetActiveEditorTool(EditorTool::Scale), EditorOp::TogglePause];
            assert(ops =~= o);
            assert(o[0] == EditorOp::SetActiveEditorTool(EditorTool::Scale));
            assert(o[1] == EditorOp::TogglePause);
        }
        if !keys.key1 && keys.key2 && !keys.key3 && !keys.space {
            let o: Seq<EditorOp> = seq![EditorOp::SetActiveEditorTool(EditorTool::Scale)];
            assert(ops =~= o);
            assert(o[0] == EditorOp::SetActiveEditorTool(EditorTool::Scale));
        }
        if !keys.key1 && !keys.key2 && keys.key3 && keys.space {
            let o: Seq<EditorOp> = seq![EditorOp::SetActiveEditorTool(EditorTool::Rotate), EditorOp::TogglePause];
            assert(ops =~= o);
            assert(o[0] == EditorOp::SetActiveEditorTool(EditorTool::Rotate));
            assert(o[1] == EditorOp::TogglePause);
        }
        if !keys.key1 && !keys.key2 && keys.key3 && !keys.space {
            let o: Seq<EditorOp> = seq![EditorOp::SetActiveEditorTool(EditorTool::Rotate)];
            assert(ops =~= o);
            assert(o[0] == EditorOp::SetActiveEditorTool(EditorTool::Rotate));
        }
        if !keys.key1 && !keys.key2 && !keys.key3 && keys.space {
            let o: Seq<EditorOp> = seq![EditorOp::TogglePause];
            assert(ops =~= o);
            assert(o[0] == EditorOp::TogglePause);
        }
        if !keys.key1 && !keys.key2 && !keys.key3 && !keys.space {
            let o: Seq<EditorOp> = Seq::<EditorOp>::empty();
            assert(ops =~= o);

        }
}

/// What the mouse does to the selection this frame.
#[derive(PartialEq, Eq, Structural, Debug, Clone, Copy)]
pub enum SelectionAction {
    /// Nothing: a gizmo is being used, or the mouse did nothing.
    Nothing,
    /// Select what is under the clicked point.
    PickPoint,
    /// Select what the finished drag's rectangle overlaps.
    PickArea,
    /// Draw the rectangle of the drag in progress.
    DrawDragRect,
}

/// What the mouse does to the selection: nothing while a gizmo is in use; else a click picks
/// a point, a finished drag picks an area, and a drag in progress shows its rectangle.
pub fn selection_action(interacting: bool, clicked: bool, drag_finished: bool, dragging: bool) -> (res: SelectionAction)
    ensures
        res == if interacting {
            SelectionAction::Nothing
        } else if clicked {
            SelectionAction::PickPoint
        } else if drag_finished {
            SelectionAction::PickArea
        } else if dragging {
            SelectionAction::DrawDragRect
        } else {
            SelectionAction::Nothing
        },
{
    if interacting {
        SelectionAction::Nothing
    } else if clicked {
        SelectionAction::PickPoint
    } else if drag_finished {
        SelectionAction::PickArea
    } else if dragging {
        SelectionAction::DrawDragRect
    } else {
        SelectionAction::Nothing
    }
}

/// A click on an entity of the entity list: with control held it toggles that entity in the
/// selection, else it selects that entity alone.
pub fn entity_list_click(selection: &mut EditorSelectionResource, entity: Entity, control_held: bool)
    ensures
        final(selection).selected_entities == old(selection).selected_entities,
        final(selection).pending_selection_ops@.len() == old(selection).pending_selection_ops@.len() + 1,
        final(selection).pending_selection_ops@.drop_last() == old(selection).pending_selection_ops@,
        control_held && old(selection).selected().contains(entity) ==> final(selection).pending_selection_ops@.last()
            == SelectionOp::Remove(entity),
        control_held && !old(selection).selected().contains(entity) ==> final(selection).pending_selection_ops@.last()
            == SelectionOp::Add(entity),
        !control_held ==> (final(selection).pending_selection_ops@.last() matches SelectionOp::Replace(v) && v@
            == seq![entity]),
{
    if control_held {
        if !selection.is_entity_selected(entity) {
            selection.enqueue_add_to_selection(entity);
        } else {
            selection.enqueue_remove_from_selection(entity);
        }
    } else {
        let mut only: Vec<Entity> = Vec::new();
        only.push(entity);
        selection.enqueue_set_selection(only);
    }
    proof {
        assert(final(selection).pending_selection_ops@.drop_last() =~= old(selection).pending_selection_ops@);
    }
}

/// A command of the main menu.
#[derive(PartialEq, Eq, Structural, Debug, Clone, Copy)]
pub enum MenuCommand {
    Reset,
    Play,
    Pause,
}

/// The commands the main menu offers: reset, and play while editing or pause while running.
pub fn main_menu_commands(editor_state: &EditorStateResource) -> (res: Vec<MenuCommand>)
    ensures
        res@ == if editor_state.editor_mode != EditorMode::Inactive {
            seq![MenuCommand::Reset, MenuCommand::Play]
        } else {
            seq![MenuCommand::Reset, MenuCommand::Pause]
        },
{
    let mut res: Vec<MenuCommand> = Vec::new();
    res.push(MenuCommand::Reset);
    if editor_state.is_editor_active() {
        res.push(MenuCommand::Play);
    } else {
        res.push(MenuCommand::Pause);
    }
    proof {
        assert(res@ =~= if editor_state.editor_mode != EditorMode::Inactive {
            seq![MenuCommand::Reset, MenuCommand::Play]
        } else {
            seq![MenuCommand::Reset, MenuCommand::Pause]
        });
    }
    res
}

/// The operation a menu command queues.
pub open spec fn menu_op(command: MenuCommand) -> EditorOp {
    match command {
        MenuCommand::Reset => EditorOp::Reset,
        MenuCommand::Play => EditorOp::Play,
        MenuCommand::Pause => EditorOp::Pause,
    }
}

/// What a menu command does once its operation is processed: Pause starts editing and holds the
/// simulation for the editor, Play stops editing and releases that hold, and Reset starts
/// editing, holds the simulation and has the caller respawn the opened prefab, if any.
pub proof fn lemma_menu_command_effect(
    command: MenuCommand,
    s0: EditorStateResource,
    t0: super::time::TimeResource,
    s1: EditorStateResource,
    t1: super::time::TimeResource,
    res: Option<EditorAction>,
)
    requires
        op_done(s0, t0, menu_op(command), s1, t1, res),
    ensures
        command == MenuCommand::Pause ==> s1.editor_mode == EditorMode::Active && paused_for(
            t1.simulation_pause_flags,
            SimulationTimePauseReason::Editor,
        ) && res is None,
        command == MenuCommand::Play ==> s1.editor_mode == EditorMode::Inactive && !paused_for(
            t1.simulation_pause_flags,
            SimulationTimePauseReason::Editor,
        ) && res is None,
        command == MenuCommand::Reset ==> s1.editor_mode == EditorMode::Active && paused_for(
            t1.simulation_pause_flags,
            SimulationTimePauseReason::Editor,
        ) && res == Some(EditorAction::Reset { respawn: s0.opened_prefab is Some }),
{
    let f0 = t0.simulation_pause_flags;
    assert((f0 | 1u8) & 1u8 != 0) by (bit_vector);
    assert((f0 & !1u8) & 1u8 == 0) by (bit_vector);
}

/// Queues the operation of a clicked menu command.
pub fn run_menu_command(editor_state: &mut EditorStateResource, command: MenuCommand)
    ensures
        final(editor_state).pending_editor_ops@ == old(editor_state).pending_editor_ops@.push(menu_op(command)),
        same_but_ops(*final(editor_state), *old(editor_state)),
{
    match command {
        MenuCommand::Reset => editor_state.enqueue_reset(),
        MenuCommand::Play => editor_state.enqueue_play(),
        MenuCommand::Pause => editor_state.enqueue_pause(),
    }
}

/// Whether the toolbar shows the button of `tool` as the active one.
pub fn tool_button_highlighted(editor_state: &EditorStateResource, tool: EditorTool) -> (res: bool)
    ensures
        res == (editor_state.active_editor_tool == tool),
{
    editor_state.active_editor_tool() == tool
}

/// A click on the toolbar button of `tool` queues making it the active tool.
pub fn tool_button_clicked(editor_state: &mut EditorStateResource, tool: EditorTool)
    ensures
        final(editor_state).pending_editor_ops@ == old(editor_state).pending_editor_ops@.push(
            EditorOp::SetActiveEditorTool(tool),
        ),
        same_but_ops(*final(editor_state), *old(editor_state)),
{
    editor_state.enqueue_set_active_editor_tool(tool);
}

} // verus!

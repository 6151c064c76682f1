//! The decisions of the gizmos, the handles drawn on selected entities: which handle a drag
//! grabbed, which axes it moves, and what becomes of the open edit.

use vstd::prelude::*;

verus! {

/// What a gizmo did with a drag this frame. The order matters: combining two results keeps
/// the larger.
#[derive(PartialEq, Eq, Structural, Debug, Clone, Copy)]
pub enum GizmoResult {
    NoChange,
    Update,
    Commit,
}

/// The place of a result in the order `NoChange < Update < Commit`.
pub open spec fn gizmo_rank(r: GizmoResult) -> int {
    match r {
        GizmoResult::NoChange => 0,
        GizmoResult::Update => 1,
        GizmoResult::Commit => 2,
    }
}

impl GizmoResult {
    /// The larger of the two results.
    pub fn max(self, other: GizmoResult) -> (res: GizmoResult)
        ensures
            gizmo_rank(res) == if gizmo_rank(self) >= gizmo_rank(other) { gizmo_rank(self) } else { gizmo_rank(other) },
            res == self || res == other,
    {
        match (self, other) {
            (GizmoResult::Commit, _) => GizmoResult::Commit,
            (_, GizmoResult::Commit) => GizmoResult::Commit,
            (GizmoResult::Update, _) => GizmoResult::Update,
            (_, GizmoResult::Update) => GizmoResult::Update,
            _ => GizmoResult::NoChange,
        }
    }
}

/// Whether two texts are the same, character by character.
pub fn str_eq(a: &str, b: &str) -> (res: bool)
    ensures
        res == (a@ == b@),
{
    let n = a.unicode_len();
    if n != b.unicode_len() {
        return false;
    }
    let mut i: usize = 0;
    while i < n
        invariant
            n == a@.len(),
            n == b@.len(),
            i <= n,
            forall|j: int| 0 <= j < i ==> a@[j] == b@[j],
        decreases n - i,
    {
        if a.get_char(i) != b.get_char(i) {
            return false;
        }
        i = i + 1;
    }
    assert(a@ =~= b@);
    true
}

/// The axes a drag on the translate handle `shape_id` moves along: the x arrow moves along x,
/// the y arrow along y, the corner along both; another shape moves nothing.
pub open spec fn spec_translate_axes(shape_id: Seq<char>) -> (bool, bool) {
    if shape_id == "x_axis_translate"@ {
        (true, false)
    } else if shape_id == "y_axis_translate"@ {
        (false, true)
    } else if shape_id == "xy_axis_translate"@ {
        (true, true)
    } else {
        (false, false)
    }
}

/// The axes a drag on the translate handle `shape_id` moves along, x then y.
pub fn translate_axes(shape_id: &str) -> (res: (bool, bool))
    ensures
        res == spec_translate_axes(shape_id@),
{
    if str_eq(shape_id, "x_axis_translate") {
        (true, false)
    } else if str_eq(shape_id, "y_axis_translate") {
        (false, true)
    } else if str_eq(shape_id, "xy_axis_translate") {
        (true, true)
    } else {
        (false, false)
    }
}

/// The axes a drag on a scale handle changes, and whether it scales uniformly.
#[derive(PartialEq, Eq, Structural, Debug, Clone, Copy)]
pub struct ScaleAxes {
    pub x: bool,
    pub y: bool,
    pub uniform: bool,
}

/// The axes a drag on the scale handle `shape_id` changes: the x handle scales along x, the y
/// handle along y, the diagonal scales uniformly; another shape changes nothing.
pub open spec fn spec_scale_axes(shape_id: Seq<char>) -> ScaleAxes {
    if shape_id == "x_axis_scale"@ {
        ScaleAxes { x: true, y: false, uniform: false }
    } else if shape_id == "y_axis_scale"@ {
        ScaleAxes { x: false, y: true, uniform: false }
    } else if shape_id == "uniform_scale"@ {
        ScaleAxes { x: false, y: false, uniform: true }
    } else {
        ScaleAxes { x: false, y: false, uniform: false }
    }
}

/// Each scale handle changes its own part of the scale: only the x handle scales along x, only
/// the y handle along y, and only the diagonal handle scales uniformly, and then along neither
/// axis alone; a shape that is no scale handle changes nothing.
pub proof fn lemma_scale_handles(shape_id: Seq<char>)
    ensures
        spec_scale_axes(shape_id).x == (shape_id == "x_axis_scale"@),
        spec_scale_axes(shape_id).y == (shape_id == "y_axis_scale"@),
        spec_scale_axes(shape_id).uniform == (shape_id == "uniform_scale"@),
        spec_scale_axes(shape_id).uniform ==> !spec_scale_axes(shape_id).x && !spec_scale_axes(shape_id).y,
{
    reveal_strlit("x_axis_scale");
    reveal_strlit("y_axis_scale");
    reveal_strlit("uniform_scale");
    assert("x_axis_scale"@[0] != "y_axis_scale"@[0]);
    assert("x_axis_scale"@.len() != "uniform_scale"@.len());
    assert("y_axis_scale"@.len() != "uniform_scale"@.len());
}

/// The axes a drag on the scale handle `shape_id` changes.
pub fn scale_axes(shape_id: &str) -> (res: ScaleAxes)
    ensures
        res == spec_scale_axes(shape_id@),
{
    if str_eq(shape_id, "x_axis_scale") {
        ScaleAxes { x: true, y: false, uniform: false }
    } else if str_eq(shape_id, "y_axis_scale") {
        ScaleAxes { x: false, y: true, uniform: false }
    } else if str_eq(shape_id, "uniform_scale") {
        ScaleAxes { x: false, y: false, uniform: true }
    } else {
        ScaleAxes { x: false, y: false, uniform: false }
    }
}

impl ScaleAxes {
    /// The components of a drag that a scale keeps: x where it scales along x or uniformly,
    /// y likewise.
    pub fn kept_components(&self) -> (res: (bool, bool))
        ensures
            res == (self.x || self.uniform, self.y || self.uniform),
    {
        (self.x || self.uniform, self.y || self.uniform)
    }
}

/// What a gizmo does with the drag of this frame: nothing without a drag or where the drag is
/// not on one of its handles (`moves` false), a commit when the drag just ended, else an update.
pub fn drag_result(dragging: bool, moves: bool, drag_just_finished: bool) -> (res: GizmoResult)
    ensures
        res == if !dragging || !moves {
            GizmoResult::NoChange
        } else if drag_just_finished {
            GizmoResult::Commit
        } else {
            GizmoResult::Update
        },
{
    if !dragging || !moves {
        GizmoResult::NoChange
    } else if drag_just_finished {
        GizmoResult::Commit
    } else {
        GizmoResult::Update
    }
}

/// What becomes of the open edit of the gizmos after a frame's result.
#[derive(PartialEq, Eq, Structural, Debug, Clone, Copy)]
pub enum GizmoTransactionFate {
    /// The edit is dropped: nothing was dragged.
    Drop,
    /// The edit is applied and kept open for the next frame.
    UpdateAndKeep,
    /// The edit is applied and closed, ending an undo step.
    Commit,
}

/// The fate of the open edit for a frame's combined result.
pub fn gizmo_transaction_fate(result: GizmoResult) -> (res: GizmoTransactionFate)
    ensures
        res == match result {
            GizmoResult::NoChange => GizmoTransactionFate::Drop,
            GizmoResult::Update => GizmoTransactionFate::UpdateAndKeep,
            GizmoResult::Commit => GizmoTransactionFate::Commit,
        },
{
    match result {
        GizmoResult::NoChange => GizmoTransactionFate::Drop,
        GizmoResult::Update => GizmoTransactionFate::UpdateAndKeep,
        GizmoResult::Commit => GizmoTransactionFate::Commit,
    }
}

} // verus!

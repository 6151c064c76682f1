//! Which systems run each frame. The schedule depends on whether simulation time is paused
//! and whether the editor is editing: some systems always run, some only while editing, some
//! only while the simulation runs.

use vstd::prelude::*;
use super::state::{EditorMode, EditorStateResource};
use super::time::TimeResource;

verus! {

/// The state a schedule is chosen for.
#[derive(Debug, PartialEq, Eq, Structural, Hash, Clone, Copy)]
pub struct ScheduleCriteria {
    pub is_simulation_paused: bool,
    pub editor_mode: EditorMode,
}

impl ScheduleCriteria {
    pub fn new(is_simulation_paused: bool, editor_mode: EditorMode) -> (res: Self)
        ensures
            res == (ScheduleCriteria { is_simulation_paused, editor_mode }),
    {
        ScheduleCriteria { is_simulation_paused, editor_mode }
    }
}

/// The systems a schedule can hold.
#[derive(Debug, PartialEq, Eq, Structural, Clone, Copy)]
pub enum SystemId {
    AdvanceTime,
    QuitIfEscapePressed,
    UpdateAssetManager,
    UpdateFpsText,
    UpdatePhysics,
    ReadFromPhysics,
    EditorKeyboardShortcuts,
    EditorImguiMenu,
    InputResetForNextFrame,
    Draw,
}

/// Builds the list of systems of a schedule, in order, for some criteria.
pub struct ScheduleBuilder {
    pub criteria: ScheduleCriteria,
    pub systems: Vec<SystemId>,
}

impl ScheduleBuilder {
    /// An empty schedule for `criteria`.
    pub fn new(criteria: ScheduleCriteria) -> (res: Self)
        ensures
            res.criteria == criteria,
            res.systems@ == Seq::<SystemId>::empty(),
    {
        ScheduleBuilder { criteria, systems: Vec::new() }
    }

    /// The systems, in order.
    pub fn build(self) -> (res: Vec<SystemId>)
        ensures
            res@ == self.systems@,
    {
        self.systems
    }

    /// Adds `system` whatever the criteria.
    pub fn always(self, system: SystemId) -> (res: Self)
        ensures
            res.criteria == self.criteria,
            res.systems@ == self.systems@.push(system),
    {
        let mut systems = self.systems;
        systems.push(system);
        ScheduleBuilder { criteria: self.criteria, systems }
    }

    /// Adds `system` only for a schedule that runs while editing.
    pub fn editor_only(self, system: SystemId) -> (res: Self)
        ensures
            res.criteria == self.criteria,
            res.systems@ == if self.criteria.editor_mode == EditorMode::Active {
                self.systems@.push(system)
            } else {
                self.systems@
            },
    {
        if self.criteria.editor_mode == EditorMode::Active {
            self.always(system)
        } else {
            self
        }
    }

    /// Adds `system` only for a schedule that runs while the simulation is not paused.
    pub fn simulation_unpaused_only(self, system: SystemId) -> (res: Self)
        ensures
            res.criteria == self.criteria,
            res.systems@ == if !self.criteria.is_simulation_paused {
                self.systems@.push(system)
            } else {
                self.systems@
            },
    {
        if !self.criteria.is_simulation_paused {
            self.always(system)
        } else {
            self
        }
    }
}

/// The update schedule for `criteria`: time, input, assets and the frame-rate text always;
/// physics only while the simulation runs; then the editor's systems and the input reset.
pub open spec fn spec_update_schedule(criteria: ScheduleCriteria) -> Seq<SystemId> {
    let head = seq![
        SystemId::AdvanceTime,
        SystemId::QuitIfEscapePressed,
        SystemId::UpdateAssetManager,
        SystemId::UpdateFpsText,
    ];
    let physics = if criteria.is_simulation_paused {
        Seq::<SystemId>::empty()
    } else {
        seq![SystemId::UpdatePhysics, SystemId::ReadFromPhysics]
    };
    head + physics + seq![
        SystemId::EditorKeyboardShortcuts,
        SystemId::EditorImguiMenu,
        SystemId::InputResetForNextFrame,
    ]
}

/// The systems that update a frame under `criteria`, in order.
pub fn create_update_schedule(criteria: &ScheduleCriteria) -> (res: Vec<SystemId>)
    ensures
        res@ == spec_update_schedule(*criteria),
{
    let res = ScheduleBuilder::new(*criteria)
        .always(SystemId::AdvanceTime)
        .always(SystemId::QuitIfEscapePressed)
        .always(SystemId::UpdateAssetManager)
        .always(SystemId::UpdateFpsText)
        .simulation_unpaused_only(SystemId::UpdatePhysics)
        .simulation_unpaused_only(SystemId::ReadFromPhysics)
        .always(SystemId::EditorKeyboardShortcuts)
        .always(SystemId::EditorImguiMenu)
        .always(SystemId::InputResetForNextFrame)
        .build();
    assert(res@ =~= spec_update_schedule(*criteria));
    res
}

/// The systems that draw a frame: drawing alone, whatever the criteria.
pub fn create_draw_schedule(criteria: &ScheduleCriteria) -> (res: Vec<SystemId>)
    ensures
        res@ == seq![SystemId::Draw],
{
    let res = ScheduleBuilder::new(*criteria).always(SystemId::Draw).build();
    assert(res@ =~= seq![SystemId::Draw]);
    res
}

/// The criteria for the current state: whether simulation time is paused and the editor's mode.
pub fn get_current_schedule_criteria(time: &TimeResource, editor_state: &EditorStateResource) -> (res: ScheduleCriteria)
    ensures
        res == (ScheduleCriteria {
            is_simulation_paused: time.simulation_pause_flags != 0,
            editor_mode: editor_state.editor_mode,
        }),
{
    ScheduleCriteria::new(time.is_simulation_paused(), editor_state.editor_mode())
}

/// The criteria schedules are prepared for: running, and editing with the simulation paused.
pub fn expected_criteria() -> (res: Vec<ScheduleCriteria>)
    ensures
        res@ == seq![
            ScheduleCriteria { is_simulation_paused: false, editor_mode: EditorMode::Inactive },
            ScheduleCriteria { is_simulation_paused: true, editor_mode: EditorMode::Active },
        ],
{
    let mut res: Vec<ScheduleCriteria> = Vec::new();
    res.push(ScheduleCriteria::new(false, EditorMode::Inactive));
    res.push(ScheduleCriteria::new(true, EditorMode::Active));
    assert(res@ =~= seq![
        ScheduleCriteria { is_simulation_paused: false, editor_mode: EditorMode::Inactive },
        ScheduleCriteria { is_simulation_paused: true, editor_mode: EditorMode::Active },
    ]);
    res
}

/// The schedules prepared for each expected criteria: the update and the draw schedule.
pub struct DemoApp {
    pub update_schedules: Vec<(ScheduleCriteria, Vec<SystemId>)>,
    pub draw_schedules: Vec<(ScheduleCriteria, Vec<SystemId>)>,
}

/// `criteria` is one of the criteria schedules are prepared for.
pub open spec fn is_expected(criteria: ScheduleCriteria) -> bool {
    ||| criteria == (ScheduleCriteria { is_simulation_paused: false, editor_mode: EditorMode::Inactive })
    ||| criteria == (ScheduleCriteria { is_simulation_paused: true, editor_mode: EditorMode::Active })
}

impl DemoApp {
    /// Prepares the update and draw schedules of every expected criteria.
    pub fn new() -> (res: Self)
        ensures
            res.update_schedules@.len() == 2,
            res.draw_schedules@.len() == 2,
            forall|i: int| 0 <= i < 2 ==> {
                let (c, u) = #[trigger] res.update_schedules@[i];
                is_expected(c) && u@ == spec_update_schedule(c)
            },
            forall|i: int| 0 <= i < 2 ==> {
                let (c, d) = #[trigger] res.draw_schedules@[i];
                is_expected(c) && d@ == seq![SystemId::Draw]
            },
            res.update_schedules@[0].0 != res.update_schedules@[1].0,
            res.draw_schedules@[0].0 != res.draw_schedules@[1].0,
    {
        let expected = expected_criteria();
        let mut update_schedules: Vec<(ScheduleCriteria, Vec<SystemId>)> = Vec::new();
        let mut draw_schedules: Vec<(ScheduleCriteria, Vec<SystemId>)> = Vec::new();
        let mut i: usize = 0;
        while i < expected.len()
            invariant
                expected@ == seq![
                    ScheduleCriteria { is_simulation_paused: false, editor_mode: EditorMode::Inactive },
                    ScheduleCriteria { is_simulation_paused: true, editor_mode: EditorMode::Active },
                ],
                i <= 2,
                update_schedules@.len() == i,
                draw_schedules@.len() == i,
                forall|k: int| 0 <= k < i ==> (#[trigger] update_schedules@[k]).0 == expected@[k]
                    && update_schedules@[k].1@ == spec_update_schedule(expected@[k]),
                forall|k: int| 0 <= k < i ==> (#[trigger] draw_schedules@[k]).0 == expected@[k]
                    && draw_schedules@[k].1@ == seq![SystemId::Draw],
            decreases 2 - i,
        {
            let criteria = expected[i];
            update_schedules.push((criteria, create_update_schedule(&criteria)));
            draw_schedules.push((criteria, create_draw_schedule(&criteria)));
            i = i + 1;
        }
        DemoApp { update_schedules, draw_schedules }
    }

    /// The update schedule for `criteria`, which must be one of the expected criteria.
    pub fn update_schedule(&self, criteria: &ScheduleCriteria) -> (res: &Vec<SystemId>)
        requires
            exists|i: int| 0 <= i < self.update_schedules@.len() && (#[trigger] self.update_schedules@[i]).0 == *criteria,
        ensures
            exists|i: int| 0 <= i < self.update_schedules@.len() && (#[trigger] self.update_schedules@[i]).0 == *criteria
                && self.update_schedules@[i].1 == *res,
    {
        let mut i: usize = 0;
        while i < self.update_schedules.len()
            invariant
                i <= self.update_schedules@.len(),
                exists|j: int| i <= j < self.update_schedules@.len() && (#[trigger] self.update_schedules@[j]).0 == *criteria,
            decreases self.update_schedules@.len() - i,
        {
            if self.update_schedules[i].0 == *criteria {
                return &self.update_schedules[i].1;
            }
            i = i + 1;
        }
        &self.update_schedules[0].1
    }

    /// The draw schedule for `criteria`, which must be one of the expected criteria.
    pub fn draw_schedule(&self, criteria: &ScheduleCriteria) -> (res: &Vec<SystemId>)
        requires
            exists|i: int| 0 <= i < self.draw_schedules@.len() && (#[trigger] self.draw_schedules@[i]).0 == *criteria,
        ensures
            exists|i: int| 0 <= i < self.draw_schedules@.len() && (#[trigger] self.draw_schedules@[i]).0 == *criteria
                && self.draw_schedules@[i].1 == *res,
    {
        let mut i: usize = 0;
        while i < self.draw_schedules.len()
            invariant
                i <= self.draw_schedules@.len(),
                exists|j: int| i <= j < self.draw_schedules@.len() && (#[trigger] self.draw_schedules@[j]).0 == *criteria,
            decreases self.draw_schedules@.len() - i,
        {
            if self.draw_schedules[i].0 == *criteria {
                return &self.draw_schedules[i].1;
            }
            i = i + 1;
        }
        &self.draw_schedules[0].1
    }
}

/// Physics runs in a frame exactly when the simulation is not paused.
pub proof fn lemma_physics_only_unpaused(criteria: ScheduleCriteria)
    ensures
        spec_update_schedule(criteria).contains(SystemId::UpdatePhysics) == !criteria.is_simulation_paused,
{
    let s = spec_update_schedule(criteria);
    if !criteria.is_simulation_paused {
        assert(s[4] == SystemId::UpdatePhysics);
    } else {
        assert(s =~= seq![
            SystemId::AdvanceTime,
            SystemId::QuitIfEscapePressed,
            SystemId::UpdateAssetManager,
            SystemId::UpdateFpsText,
            SystemId::EditorKeyboardShortcuts,
            SystemId::EditorImguiMenu,
            SystemId::InputResetForNextFrame,
        ]);
        assert forall|i: int| 0 <= i < s.len() implies s[i] != SystemId::UpdatePhysics by {}
    }
}

} // verus!

//! Whether simulation time runs: it is paused while any reason to pause it holds.

use vstd::prelude::*;

verus! {

/// Why simulation time is paused. Each reason is one bit of the pause flags.
#[derive(Copy, Clone, PartialEq, Eq, Structural, Debug)]
pub enum SimulationTimePauseReason {
    Editor,
    User,
}

/// The bit of the pause flags that stands for `reason`.
pub open spec fn spec_flag(reason: SimulationTimePauseReason) -> u8 {
    match reason {
        SimulationTimePauseReason::Editor => 1u8,
        SimulationTimePauseReason::User => 2u8,
    }
}

impl SimulationTimePauseReason {
    /// The bit of the pause flags that stands for this reason.
    pub fn flag(self) -> (res: u8)
        ensures
            res == spec_flag(self),
    {
        match self {
            SimulationTimePauseReason::Editor => 1u8,
            SimulationTimePauseReason::User => 2u8,
        }
    }
}

/// `reason` holds in `flags`.
pub open spec fn paused_for(flags: u8, reason: SimulationTimePauseReason) -> bool {
    flags & spec_flag(reason) != 0
}

/// The pause state of simulation time: one bit per reason; no bit set means it runs.
pub struct TimeResource {
    pub simulation_pause_flags: u8,
}

impl TimeResource {
    /// Only the bits of the two reasons are ever set.
    pub open spec fn wf(self) -> bool {
        self.simulation_pause_flags & 0xfcu8 == 0
    }

    /// Simulation time runs: no reason to pause it.
    pub fn new() -> (res: Self)
        ensures
            res.wf(),
            res.simulation_pause_flags == 0,
    {
        assert(0u8 & 0xfcu8 == 0) by (bit_vector);
        TimeResource { simulation_pause_flags: 0 }
    }

    /// Sets or clears `reason`; the other reason is left as it was.
    pub fn set_simulation_time_paused(&mut self, paused: bool, reason: SimulationTimePauseReason)
        ensures
            old(self).wf() ==> final(self).wf(),
            paused_for(final(self).simulation_pause_flags, reason) == paused,
            forall|other: SimulationTimePauseReason|
                other != reason ==> paused_for(final(self).simulation_pause_flags, other) == paused_for(
                    old(self).simulation_pause_flags,
                    other,
                ),
            final(self).simulation_pause_flags == if paused {
                old(self).simulation_pause_flags | spec_flag(reason)
            } else {
                old(self).simulation_pause_flags & !spec_flag(reason)
            },
    {
        let flag = reason.flag();
        let before = self.simulation_pause_flags;
        if paused {
            self.simulation_pause_flags = before | flag;
        } else {
            self.simulation_pause_flags = before & !flag;
        }
        let after = self.simulation_pause_flags;
        proof {
            assert(before & 0xfcu8 == 0 ==> after & 0xfcu8 == 0) by (bit_vector)
                requires
                    flag == 1u8 || flag == 2u8,
                    after == if paused { before | flag } else { before & !flag },
            ;
            assert((after & flag != 0) == paused) by (bit_vector)
                requires
                    flag == 1u8 || flag == 2u8,
                    after == if paused { before | flag } else { before & !flag },
            ;
            assert forall|other: SimulationTimePauseReason| other != reason implies paused_for(after, other)
                == paused_for(before, other) by {
                let o = spec_flag(other);
                assert(o != flag);
                assert((after & o != 0) == (before & o != 0)) by (bit_vector)
                    requires
                        flag == 1u8 || flag == 2u8,
                        o == 1u8 || o == 2u8,
                        o != flag,
                        after == if paused { before | flag } else { before & !flag },
                ;
            }
        }
    }

    /// Simulation time is paused: some reason holds.
    pub fn is_simulation_paused(&self) -> (res: bool)
        ensures
            res == (self.simulation_pause_flags != 0),
    {
        self.simulation_pause_flags != 0
    }

    /// Whether a frame advances simulation time: only while it is not paused.
    pub fn advance_time(&self) -> (res: bool)
        ensures
            res == (self.simulation_pause_flags == 0),
    {
        !self.is_simulation_paused()
    }
}

/// Simulation time is paused exactly while one of the reasons holds.
pub proof fn lemma_paused_iff_some_reason(time: TimeResource)
    requires
        time.wf(),
    ensures
        (time.simulation_pause_flags != 0) <==> (paused_for(time.simulation_pause_flags, SimulationTimePauseReason::Editor)
            || paused_for(time.simulation_pause_flags, SimulationTimePauseReason::User)),
{
    let f = time.simulation_pause_flags;
    assert((f != 0) <==> (f & 1u8 != 0 || f & 2u8 != 0)) by (bit_vector)
        requires
            f & 0xfcu8 == 0,
    ;
}

} // verus!

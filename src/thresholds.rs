//! The threshold table: the scalars that the check battery reads.
use vstd::prelude::*;
use crate::contract::ContractBundle;
use crate::float::Float64;

verus! {

/// Limits taken from the contract, frozen once the table is built.
#[derive(Clone, Debug)]
pub struct Thresholds {
    pub frame: String,
    pub max_speed_mps: Float64,
    pub max_roll_rate_dps: Float64,
    pub max_pitch_rate_dps: Float64,
    pub max_yaw_rate_dps: Float64,
    pub max_climb_rate_mps: Float64,
    pub min_soc_percent: Float64,
    pub max_input_age_ms: u64,
    pub max_tick_interval_ms: u64,
    pub deadline_ms: u64,
    pub min_altitude_m: Float64,
    pub max_bank_deg: Float64,
}

/// `100.0`.
pub open spec fn one_hundred() -> Float64 {
    Float64 { bits: 0x4059_0000_0000_0000 }
}

impl Thresholds {
    /// The ranges that a valid contract guarantees.
    pub open spec fn wf(&self) -> bool {
        &&& self.max_speed_mps.is_positive()
        &&& self.max_roll_rate_dps.is_positive()
        &&& self.max_pitch_rate_dps.is_positive()
        &&& self.max_yaw_rate_dps.is_positive()
        &&& self.max_climb_rate_mps.is_positive()
        &&& crate::float::positive_zero().spec_le(self.min_soc_percent)
        &&& self.min_soc_percent.spec_le(one_hundred())
        &&& 0 < self.deadline_ms <= self.max_tick_interval_ms
        &&& crate::float::positive_zero().spec_le(self.min_altitude_m)
        &&& self.max_bank_deg.is_positive()
    }

    /// Two tables that hold the same limits.
    pub open spec fn same(&self, o: &Thresholds) -> bool {
        &&& self.frame@ == o.frame@
        &&& self.max_speed_mps == o.max_speed_mps
        &&& self.max_roll_rate_dps == o.max_roll_rate_dps
        &&& self.max_pitch_rate_dps == o.max_pitch_rate_dps
        &&& self.max_yaw_rate_dps == o.max_yaw_rate_dps
        &&& self.max_climb_rate_mps == o.max_climb_rate_mps
        &&& self.min_soc_percent == o.min_soc_percent
        &&& self.max_input_age_ms == o.max_input_age_ms
        &&& self.max_tick_interval_ms == o.max_tick_interval_ms
        &&& self.deadline_ms == o.deadline_ms
        &&& self.min_altitude_m == o.min_altitude_m
        &&& self.max_bank_deg == o.max_bank_deg
    }

    /// The limits of the reference `uas-small` profile: frame `NED`, speed
    /// 30 m/s, roll and pitch 60 deg/s, yaw 90 deg/s, climb 5 m/s, state of
    /// charge 20 %, input age 100 ms, tick interval 50 ms, deadline 20 ms,
    /// altitude 5 m, bank 60 deg.
    pub open spec fn is_reference(&self) -> bool {
        &&& self.frame@ == seq!['N', 'E', 'D']
        &&& self.max_speed_mps.bits == 0x403e_0000_0000_0000
        &&& self.max_roll_rate_dps.bits == 0x404e_0000_0000_0000
        &&& self.max_pitch_rate_dps.bits == 0x404e_0000_0000_0000
        &&& self.max_yaw_rate_dps.bits == 0x4056_8000_0000_0000
        &&& self.max_climb_rate_mps.bits == 0x4014_0000_0000_0000
        &&& self.min_soc_percent.bits == 0x4034_0000_0000_0000
        &&& self.max_input_age_ms == 100
        &&& self.max_tick_interval_ms == 50
        &&& self.deadline_ms == 20
        &&& self.min_altitude_m.bits == 0x4014_0000_0000_0000
        &&& self.max_bank_deg.bits == 0x404e_0000_0000_0000
    }

    /// The table of the reference `uas-small` profile.
    pub fn reference() -> (r: Thresholds)
        ensures
            r.wf(),
            r.is_reference(),
    {
        let frame = String::from_str("NED");
        proof {
            reveal_strlit("NED");
            assert(frame@ =~= seq!['N', 'E', 'D']);
        }
        Thresholds {
            frame,
            max_speed_mps: Float64 { bits: 0x403e_0000_0000_0000 },
            max_roll_rate_dps: Float64 { bits: 0x404e_0000_0000_0000 },
            max_pitch_rate_dps: Float64 { bits: 0x404e_0000_0000_0000 },
            max_yaw_rate_dps: Float64 { bits: 0x4056_8000_0000_0000 },
            max_climb_rate_mps: Float64 { bits: 0x4014_0000_0000_0000 },
            min_soc_percent: Float64 { bits: 0x4034_0000_0000_0000 },
            max_input_age_ms: 100,
            max_tick_interval_ms: 50,
            deadline_ms: 20,
            min_altitude_m: Float64 { bits: 0x4014_0000_0000_0000 },
            max_bank_deg: Float64 { bits: 0x404e_0000_0000_0000 },
        }
    }

    /// This table holds the scalars of `bundle` that the battery reads.
    pub open spec fn taken_from(&self, bundle: &ContractBundle) -> bool {
        &&& self.frame@ == bundle.state.frame@
        &&& self.max_speed_mps == bundle.state.max_speed_mps
        &&& self.max_roll_rate_dps == bundle.flow.max_roll_rate_dps
        &&& self.max_pitch_rate_dps == bundle.flow.max_pitch_rate_dps
        &&& self.max_yaw_rate_dps == bundle.flow.max_yaw_rate_dps
        &&& self.max_climb_rate_mps == bundle.flow.max_climb_rate_mps
        &&& self.min_soc_percent == bundle.energy.min_soc_percent
        &&& self.max_input_age_ms == bundle.guarantees.max_input_age_ms
        &&& self.max_tick_interval_ms == bundle.guarantees.max_tick_interval_ms
        &&& self.deadline_ms == bundle.guarantees.deadline_ms
        &&& self.min_altitude_m == bundle.invariants.min_altitude_m
        &&& self.max_bank_deg == bundle.invariants.max_bank_deg
    }

    /// The scalars of a valid contract that the battery reads.
    pub fn from_bundle(bundle: &ContractBundle) -> (r: Thresholds)
        requires
            bundle.wf(),
        ensures
            r.wf(),
            r.taken_from(bundle),
    {
        Thresholds {
            frame: bundle.state.frame.clone(),
            max_speed_mps: bundle.state.max_speed_mps,
            max_roll_rate_dps: bundle.flow.max_roll_rate_dps,
            max_pitch_rate_dps: bundle.flow.max_pitch_rate_dps,
            max_yaw_rate_dps: bundle.flow.max_yaw_rate_dps,
            max_climb_rate_mps: bundle.flow.max_climb_rate_mps,
            min_soc_percent: bundle.energy.min_soc_percent,
            max_input_age_ms: bundle.guarantees.max_input_age_ms,
            max_tick_interval_ms: bundle.guarantees.max_tick_interval_ms,
            deadline_ms: bundle.guarantees.deadline_ms,
            min_altitude_m: bundle.invariants.min_altitude_m,
            max_bank_deg: bundle.invariants.max_bank_deg,
        }
    }
}

} // verus!

//! The mathematical value of the manager's state, and what each operation
//! makes of it.
use vstd::prelude::*;
use crate::level::Level;
use crate::reading::{not_before, within, MoistureData};

verus! {

/// The four pieces of state that the manager owns.
#[verifier::ext_equal]
pub struct Model {
    /// The level of the last update, `0.0` before the first one. It is kept
    /// on its own and not read back from the log, so pruning leaves it alone.
    pub moisture_level: Level,
    /// The readings in the order in which they came in.
    pub moisture_log: Seq<MoistureData>,
    /// `true` while the pump is commanded on.
    pub pump_state: bool,
    /// The level below which an update starts the pump; `None` until set.
    pub moisture_threshold: Option<Level>,
}

impl Model {
    /// The state at start: level `0.0`, no readings, pump off, no threshold.
    pub open spec fn initial() -> Model {
        Model {
            moisture_level: Level::zero(),
            moisture_log: Seq::empty(),
            pump_state: false,
            moisture_threshold: None,
        }
    }

    /// The pump flag becomes `state`; nothing else changes.
    pub open spec fn control_pump(self, state: bool) -> Model {
        Model { pump_state: state, ..self }
    }

    /// Threshold-driven pump control. With a threshold set, the pump runs
    /// exactly if `moisture_level` is below it: a level equal to the
    /// threshold stops the pump, and so does one that cannot be ordered
    /// against it (a NaN on either side). Without a threshold nothing changes.
    pub open spec fn check_and_control_pump(self, moisture_level: Level) -> Model {
        match self.moisture_threshold {
            Some(threshold) => self.control_pump(moisture_level.spec_lt(threshold)),
            None => self,
        }
    }

    /// A reading comes in: it becomes the current level, goes to the end of
    /// the log with its timestamp, and drives the pump if a threshold is set.
    pub open spec fn update_moisture_level(self, moisture_level: Level, timestamp: u64) -> Model {
        Model {
            moisture_level,
            moisture_log: self.moisture_log.push(MoistureData { moisture_level, timestamp }),
            ..self
        }.check_and_control_pump(moisture_level)
    }

    /// The threshold becomes `threshold`, whatever it was; nothing else
    /// changes, the pump flag included.
    pub open spec fn set_moisture_threshold(self, threshold: Level) -> Model {
        Model { moisture_threshold: Some(threshold), ..self }
    }

    /// Pruning: the log keeps, in their order, the readings taken at
    /// `cutoff_timestamp` or later; nothing else changes.
    pub open spec fn remove_old_log_entries(self, cutoff_timestamp: u64) -> Model {
        Model { moisture_log: self.moisture_log.filter(not_before(cutoff_timestamp)), ..self }
    }

    /// The readings of the log, in their order, whose timestamp lies between
    /// `start_timestamp` and `end_timestamp`, both included.
    pub open spec fn readings_in_window(self, start_timestamp: u64, end_timestamp: u64) -> Seq<
        MoistureData,
    > {
        self.moisture_log.filter(within(start_timestamp, end_timestamp))
    }
}

/// The levels of `readings`, in their order.
pub open spec fn levels_of(readings: Seq<MoistureData>) -> Seq<Level> {
    readings.map_values(|entry: MoistureData| entry.moisture_level)
}

} // verus!

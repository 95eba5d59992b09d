//! The state manager itself.
use vstd::prelude::*;
use crate::history::window_is_empty_iff_nothing_matches;
use crate::level::Level;
use crate::model::{levels_of, Model};
use crate::reading::{not_before, within, MoistureData};

verus! {

/// The irrigation state manager. It is made once, with the defaults of
/// [`Model::initial`], and changes only through the methods below.
pub struct Irrigation {
    moisture_level: Level,
    moisture_log: Vec<MoistureData>,
    pump_state: bool,
    moisture_threshold: Option<Level>,
}

impl View for Irrigation {
    type V = Model;

    closed spec fn view(&self) -> Model {
        Model {
            moisture_level: self.moisture_level,
            moisture_log: self.moisture_log@,
            pump_state: self.pump_state,
            moisture_threshold: self.moisture_threshold,
        }
    }
}

impl Irrigation {
    /// A manager in its start state.
    pub fn new() -> (state: Irrigation)
        ensures
            state@ == Model::initial(),
    {
        Irrigation {
            moisture_level: Level::from_bits(0),
            moisture_log: Vec::new(),
            pump_state: false,
            moisture_threshold: None,
        }
    }

    /// Takes in a reading made at `timestamp`. Any level is accepted.
    pub fn update_moisture_level(&mut self, moisture_level: Level, timestamp: u64)
        ensures
            final(self)@ == old(self)@.update_moisture_level(moisture_level, timestamp),
    {
        self.moisture_level = moisture_level;
        self.moisture_log.push(MoistureData { moisture_level, timestamp });
        self.check_and_control_pump(moisture_level);
    }

    /// The level of the last update.
    pub fn get_moisture_level(&self) -> (level: Level)
        ensures
            level == self@.moisture_level,
    {
        self.moisture_level
    }

    /// A copy of the whole log, in insertion order.
    pub fn get_moisture_log(&self) -> (log: Vec<MoistureData>)
        ensures
            log@ == self@.moisture_log,
    {
        self.moisture_log.clone()
    }

    /// Commands the pump on or off.
    pub fn control_pump(&mut self, state: bool)
        ensures
            final(self)@ == old(self)@.control_pump(state),
    {
        self.pump_state = state;
    }

    /// Whether the pump is commanded on.
    pub fn get_pump_state(&self) -> (state: bool)
        ensures
            state == self@.pump_state,
    {
        self.pump_state
    }

    /// Sets the threshold, over any earlier one.
    pub fn set_moisture_threshold(&mut self, threshold: Level)
        ensures
            final(self)@ == old(self)@.set_moisture_threshold(threshold),
    {
        self.moisture_threshold = Some(threshold);
    }

    /// The threshold, if one was set.
    pub fn get_moisture_threshold(&self) -> (threshold: Option<Level>)
        ensures
            threshold == self@.moisture_threshold,
    {
        self.moisture_threshold
    }

    /// Threshold-driven pump control: with a threshold set, starts the pump
    /// if `moisture_level` is below it and stops the pump if not.
    fn check_and_control_pump(&mut self, moisture_level: Level)
        ensures
            final(self)@ == old(self)@.check_and_control_pump(moisture_level),
    {
        if let Some(threshold) = self.moisture_threshold {
            if moisture_level.lt(threshold) {
                self.control_pump(true);
            } else {
                self.control_pump(false);
            }
        }
    }

    /// Discards the readings taken before `cutoff_timestamp`.
    pub fn remove_old_log_entries(&mut self, cutoff_timestamp: u64)
        ensures
            final(self)@ == old(self)@.remove_old_log_entries(cutoff_timestamp),
    {
        let mut kept: Vec<MoistureData> = Vec::new();
        let mut i: usize = 0;
        while i < self.moisture_log.len()
            invariant
                i <= self.moisture_log.len(),
                kept@ == self.moisture_log@.take(i as int).filter(not_before(cutoff_timestamp)),
                *self == *old(self),
            decreases self.moisture_log.len() - i,
        {
            let entry: MoistureData = self.moisture_log[i];
            proof {
                self.moisture_log@.take(i as int).lemma_filter_push(
                    entry,
                    not_before(cutoff_timestamp),
                );
                assert(self.moisture_log@.take(i as int).push(entry) == self.moisture_log@.take(
                    i + 1,
                ));
            }
            if entry.timestamp >= cutoff_timestamp {
                kept.push(entry);
            }
            i += 1;
        }
        assert(self.moisture_log@.take(i as int) == self.moisture_log@);
        self.moisture_log = kept;
    }

    /// The readings whose timestamp lies between `start_timestamp` and
    /// `end_timestamp`, both included, in insertion order.
    pub fn readings_in_window(&self, start_timestamp: u64, end_timestamp: u64) -> (readings: Vec<
        MoistureData,
    >)
        ensures
            readings@ == self@.readings_in_window(start_timestamp, end_timestamp),
    {
        let mut readings: Vec<MoistureData> = Vec::new();
        let mut i: usize = 0;
        while i < self.moisture_log.len()
            invariant
                i <= self.moisture_log.len(),
                readings@ == self.moisture_log@.take(i as int).filter(
                    within(start_timestamp, end_timestamp),
                ),
            decreases self.moisture_log.len() - i,
        {
            let entry: MoistureData = self.moisture_log[i];
            proof {
                self.moisture_log@.take(i as int).lemma_filter_push(
                    entry,
                    within(start_timestamp, end_timestamp),
                );
                assert(self.moisture_log@.take(i as int).push(entry) == self.moisture_log@.take(
                    i + 1,
                ));
            }
            if start_timestamp <= entry.timestamp && entry.timestamp <= end_timestamp {
                readings.push(entry);
            }
            i += 1;
        }
        assert(self.moisture_log@.take(i as int) == self.moisture_log@);
        readings
    }

    /// The average moisture over the window from `start_timestamp` to
    /// `end_timestamp`, both included.
    ///
    /// A window without readings averages to `0.0`; a caller cannot tell
    /// that from readings whose mean is zero. Otherwise the average is what
    /// `mean` returns for the levels of the window's readings, in insertion
    /// order. The manager does no arithmetic on levels itself, so `mean`, the
    /// arithmetic mean of a slice of levels that is not empty, comes from the
    /// caller.
    pub fn get_average_moisture<F: Fn(&[Level]) -> Level>(
        &self,
        start_timestamp: u64,
        end_timestamp: u64,
        mean: F,
    ) -> (average: Level)
        requires
            forall|levels: &[Level]|
                levels@.len() > 0 && levels@ == levels_of(
                    self@.readings_in_window(start_timestamp, end_timestamp),
                ) ==> call_requires(mean, (levels,)),
        ensures
            self@.readings_in_window(start_timestamp, end_timestamp).len() == 0 ==> average
                == Level::zero(),
            (forall|i: int|
                0 <= i < self@.moisture_log.len() ==> !(start_timestamp <= (
                #[trigger] self@.moisture_log[i]).timestamp <= end_timestamp)) ==> average
                == Level::zero(),
            self@.readings_in_window(start_timestamp, end_timestamp).len() > 0 ==> exists|
                levels: &[Level],
            |
                levels@ == levels_of(self@.readings_in_window(start_timestamp, end_timestamp))
                    && call_ensures(mean, (levels,), average),
    {
        proof {
            window_is_empty_iff_nothing_matches(self@, start_timestamp, end_timestamp);
        }
        let readings = self.readings_in_window(start_timestamp, end_timestamp);
        if readings.len() == 0 {
            Level::from_bits(0)
        } else {
            let levels = levels_in(&readings);
            mean(levels.as_slice())
        }
    }
}

/// The levels of `readings`, in their order.
fn levels_in(readings: &Vec<MoistureData>) -> (levels: Vec<Level>)
    ensures
        levels@ == levels_of(readings@),
{
    let mut levels: Vec<Level> = Vec::new();
    let mut i: usize = 0;
    while i < readings.len()
        invariant
            i <= readings.len(),
            levels@ == levels_of(readings@.take(i as int)),
        decreases readings.len() - i,
    {
        levels.push(readings[i].moisture_level);
        i += 1;
        assert(levels@ == levels_of(readings@.take(i as int)));
    }
    assert(readings@.take(i as int) == readings@);
    levels
}

} // verus!

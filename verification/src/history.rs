//! What holds of the state after one operation, and after any history of
//! operations.
use vstd::prelude::*;
use crate::level::Level;
use crate::model::Model;
use crate::reading::{not_before, within, MoistureData};

verus! {

/// A call of one of the four operations that change the state.
pub enum Command {
    Update { moisture_level: Level, timestamp: u64 },
    ControlPump { state: bool },
    SetThreshold { threshold: Level },
    RemoveOld { cutoff_timestamp: u64 },
}

impl Model {
    /// The state after one command.
    pub open spec fn step(self, command: Command) -> Model {
        match command {
            Command::Update { moisture_level, timestamp } => self.update_moisture_level(
                moisture_level,
                timestamp,
            ),
            Command::ControlPump { state } => self.control_pump(state),
            Command::SetThreshold { threshold } => self.set_moisture_threshold(threshold),
            Command::RemoveOld { cutoff_timestamp } => self.remove_old_log_entries(
                cutoff_timestamp,
            ),
        }
    }

    /// The state after a history of commands, run first to last.
    pub open spec fn run(self, history: Seq<Command>) -> Model
        decreases history.len(),
    {
        if history.len() == 0 {
            self
        } else {
            self.run(history.drop_last()).step(history.last())
        }
    }
}

/// The level of the last update in `history`, or `before` if it holds none.
pub open spec fn last_reported(history: Seq<Command>, before: Level) -> Level
    decreases history.len(),
{
    if history.len() == 0 {
        before
    } else {
        match history.last() {
            Command::Update { moisture_level, .. } => moisture_level,
            _ => last_reported(history.drop_last(), before),
        }
    }
}

/// The readings that the updates in `history` bring, in their order.
pub open spec fn reported(history: Seq<Command>) -> Seq<MoistureData>
    decreases history.len(),
{
    if history.len() == 0 {
        Seq::empty()
    } else {
        match history.last() {
            Command::Update { moisture_level, timestamp } => reported(history.drop_last()).push(
                MoistureData { moisture_level, timestamp },
            ),
            _ => reported(history.drop_last()),
        }
    }
}

/// The number of updates in `history`.
pub open spec fn updates_in(history: Seq<Command>) -> nat {
    reported(history).len()
}

/// After an update the current level is the level passed in, whatever the
/// state was and whatever the threshold does to the pump.
pub proof fn update_sets_level(before: Model, moisture_level: Level, timestamp: u64)
    ensures
        before.update_moisture_level(moisture_level, timestamp).moisture_level == moisture_level,
{
}

/// After any history the current level is the level of the most recent
/// update in it; no other operation touches it. A history that ends in an
/// update leaves that update's level.
pub proof fn level_follows_last_update(before: Model, history: Seq<Command>)
    ensures
        before.run(history).moisture_level == last_reported(history, before.moisture_level),
        history.len() > 0 && history.last() is Update ==> before.run(history).moisture_level
            == history.last()->moisture_level,
    decreases history.len(),
{
    if history.len() > 0 {
        level_follows_last_update(before, history.drop_last());
    }
}

/// An update lengthens the log by exactly one reading, the new one, at its
/// end. Commanding the pump and setting the threshold leave the log as it is.
pub proof fn log_grows_by_one_per_update(before: Model, command: Command)
    ensures
        command matches Command::Update { moisture_level, timestamp } ==> {
            &&& before.step(command).moisture_log == before.moisture_log.push(
                MoistureData { moisture_level, timestamp },
            )
            &&& before.step(command).moisture_log.len() == before.moisture_log.len() + 1
        },
        command is ControlPump || command is SetThreshold ==> before.step(command).moisture_log
            == before.moisture_log,
        command is RemoveOld ==> before.step(command).moisture_log.len()
            <= before.moisture_log.len(),
{
    if let Command::RemoveOld { cutoff_timestamp } = command {
        before.moisture_log.lemma_filter_len(not_before(cutoff_timestamp));
    }
}

/// Over a history without pruning the log never shrinks: it is the log from
/// before, followed by the readings of the updates in their order, so its
/// length has grown by the number of updates.
pub proof fn log_shrinks_only_by_pruning(before: Model, history: Seq<Command>)
    requires
        forall|i: int| 0 <= i < history.len() ==> !(#[trigger] history[i] is RemoveOld),
    ensures
        before.run(history).moisture_log == before.moisture_log + reported(history),
        before.run(history).moisture_log.len() == before.moisture_log.len() + updates_in(history),
    decreases history.len(),
{
    if history.len() > 0 {
        let earlier = history.drop_last();
        assert forall|i: int| 0 <= i < earlier.len() implies !(#[trigger] earlier[i]
            is RemoveOld) by {
            assert(earlier[i] == history[i]);
        }
        log_shrinks_only_by_pruning(before, earlier);
        assert(!(history[history.len() - 1] is RemoveOld));
    }
    assert(before.run(history).moisture_log =~= before.moisture_log + reported(history));
}

/// A filter keeps a sequence whole if every element passes it.
proof fn filter_keeps_all(entries: Seq<MoistureData>, pred: spec_fn(MoistureData) -> bool)
    requires
        forall|i: int| 0 <= i < entries.len() ==> pred(#[trigger] entries[i]),
    ensures
        entries.filter(pred) == entries,
    decreases entries.len(),
{
    reveal(Seq::filter);
    if entries.len() > 0 {
        filter_keeps_all(entries.drop_last(), pred);
        assert(entries.drop_last().push(entries.last()) =~= entries);
    }
}

/// Pruning at `cutoff_timestamp` leaves exactly the readings taken at the
/// cutoff or later: every reading that is left has such a timestamp and was
/// in the log before, every reading of the log with such a timestamp is still
/// there, and nothing but the log has changed.
pub proof fn pruning_leaves_exactly_the_recent(before: Model, cutoff_timestamp: u64)
    ensures
        ({
            let after = before.remove_old_log_entries(cutoff_timestamp);
            &&& forall|i: int|
                0 <= i < after.moisture_log.len() ==> {
                    &&& (#[trigger] after.moisture_log[i]).timestamp >= cutoff_timestamp
                    &&& before.moisture_log.contains(after.moisture_log[i])
                }
            &&& forall|j: int|
                0 <= j < before.moisture_log.len() && (#[trigger] before.moisture_log[j]).timestamp
                    >= cutoff_timestamp ==> after.moisture_log.contains(before.moisture_log[j])
            &&& after.moisture_log.len() <= before.moisture_log.len()
            &&& after.moisture_level == before.moisture_level
            &&& after.pump_state == before.pump_state
            &&& after.moisture_threshold == before.moisture_threshold
        }),
{
    let keep = not_before(cutoff_timestamp);
    let log = before.moisture_log;
    let left = log.filter(keep);
    log.lemma_filter_len(keep);
    assert forall|i: int| 0 <= i < left.len() implies (#[trigger] left[i]).timestamp
        >= cutoff_timestamp && log.contains(left[i]) by {
        log.lemma_filter_pred(keep, i);
        assert(left.contains(left[i]));
        log.lemma_filter_contains_rev(keep, left[i]);
    }
    assert forall|j: int|
        0 <= j < log.len() && (#[trigger] log[j]).timestamp >= cutoff_timestamp implies left.contains(
        log[j],
    ) by {
        assert(keep(log[j]));
        log.lemma_filter_contains(keep, j);
    }
}

/// Pruning again, at the same cutoff or at an earlier one, changes nothing.
pub proof fn pruning_again_changes_nothing(before: Model, cutoff_timestamp: u64, again: u64)
    requires
        again <= cutoff_timestamp,
    ensures
        before.remove_old_log_entries(cutoff_timestamp).remove_old_log_entries(again)
            == before.remove_old_log_entries(cutoff_timestamp),
{
    let left = before.moisture_log.filter(not_before(cutoff_timestamp));
    assert forall|i: int| 0 <= i < left.len() implies not_before(again)(#[trigger] left[i]) by {
        before.moisture_log.lemma_filter_pred(not_before(cutoff_timestamp), i);
    }
    filter_keeps_all(left, not_before(again));
}

/// Whether the timestamps of `log` never go back, as with readings stamped
/// by a clock that never goes back.
pub open spec fn in_clock_order(log: Seq<MoistureData>) -> bool {
    forall|i: int, j: int|
        0 <= i <= j < log.len() ==> (#[trigger] log[i]).timestamp <= (#[trigger] log[j]).timestamp
}

/// A log in clock order stays in clock order: under an update whose
/// timestamp is not before that of the last reading, and under every other
/// command.
pub proof fn clock_order_is_kept(before: Model, command: Command)
    requires
        in_clock_order(before.moisture_log),
        command matches Command::Update { timestamp, .. } ==> before.moisture_log.len() == 0
            || before.moisture_log.last().timestamp <= timestamp,
    ensures
        in_clock_order(before.step(command).moisture_log),
{
    let log = before.moisture_log;
    let after = before.step(command).moisture_log;
    match command {
        Command::Update { moisture_level, timestamp } => {
            assert forall|i: int, j: int| 0 <= i <= j < after.len() implies (
            #[trigger] after[i]).timestamp <= (#[trigger] after[j]).timestamp by {
                if j < log.len() {
                    assert(log[i].timestamp <= log[j].timestamp);
                } else if i < log.len() {
                    assert(log[i].timestamp <= log[log.len() - 1].timestamp);
                }
            }
        },
        Command::RemoveOld { cutoff_timestamp } => {
            pruning_in_clock_order_drops_a_prefix(before, cutoff_timestamp);
            let k = choose|k: int|
                0 <= k <= log.len() && after == log.skip(k) && forall|i: int|
                    0 <= i < k ==> (#[trigger] log[i]).timestamp < cutoff_timestamp;
            assert forall|i: int, j: int| 0 <= i <= j < after.len() implies (
            #[trigger] after[i]).timestamp <= (#[trigger] after[j]).timestamp by {
                assert(log[i + k].timestamp <= log[j + k].timestamp);
            }
        },
        _ => {},
    }
}

/// Pruning a log in clock order drops a prefix of it: the readings before
/// the first one taken at the cutoff or later.
pub proof fn pruning_in_clock_order_drops_a_prefix(before: Model, cutoff_timestamp: u64)
    requires
        in_clock_order(before.moisture_log),
    ensures
        exists|k: int|
            0 <= k <= before.moisture_log.len() && before.remove_old_log_entries(
                cutoff_timestamp,
            ).moisture_log == before.moisture_log.skip(k) && forall|i: int|
                0 <= i < k ==> (#[trigger] before.moisture_log[i]).timestamp < cutoff_timestamp,
    decreases before.moisture_log.len(),
{
    let log = before.moisture_log;
    let keep = not_before(cutoff_timestamp);
    if log.len() == 0 {
        reveal(Seq::filter);
        assert(log.filter(keep) == log.skip(0));
    } else {
        let earlier = log.drop_last();
        let newest = log.last();
        assert(log == earlier.push(newest));
        earlier.lemma_filter_push(newest, keep);
        if newest.timestamp >= cutoff_timestamp {
            assert forall|i: int, j: int| 0 <= i <= j < earlier.len() implies (
            #[trigger] earlier[i]).timestamp <= (#[trigger] earlier[j]).timestamp by {
                assert(log[i].timestamp <= log[j].timestamp);
            }
            pruning_in_clock_order_drops_a_prefix(
                Model { moisture_log: earlier, ..before },
                cutoff_timestamp,
            );
            let k = choose|k: int|
                0 <= k <= earlier.len() && earlier.filter(keep) == earlier.skip(k) && forall|
                    i: int,
                | 0 <= i < k ==> (#[trigger] earlier[i]).timestamp < cutoff_timestamp;
            assert(earlier.skip(k).push(newest) == log.skip(k));
            assert forall|i: int| 0 <= i < k implies (#[trigger] log[i]).timestamp
                < cutoff_timestamp by {
                assert(earlier[i] == log[i]);
            }
        } else {
            assert forall|i: int| 0 <= i < earlier.len() implies !keep(#[trigger] earlier[i]) by {
                assert(log[i].timestamp <= log[log.len() - 1].timestamp);
            }
            filter_drops_all(earlier, keep);
            assert(log.filter(keep) == log.skip(log.len() as int));
            assert forall|i: int| 0 <= i < log.len() implies (#[trigger] log[i]).timestamp
                < cutoff_timestamp by {
                assert(log[i].timestamp <= log[log.len() - 1].timestamp);
            }
        }
    }
}

/// A filter leaves nothing of a sequence if no element passes it.
proof fn filter_drops_all(entries: Seq<MoistureData>, pred: spec_fn(MoistureData) -> bool)
    requires
        forall|i: int| 0 <= i < entries.len() ==> !pred(#[trigger] entries[i]),
    ensures
        entries.filter(pred).len() == 0,
    decreases entries.len(),
{
    reveal(Seq::filter);
    if entries.len() > 0 {
        filter_drops_all(entries.drop_last(), pred);
    }
}

/// A window holds no reading exactly if no reading of the log has its
/// timestamp between the two ends.
pub proof fn window_is_empty_iff_nothing_matches(
    state: Model,
    start_timestamp: u64,
    end_timestamp: u64,
)
    ensures
        state.readings_in_window(start_timestamp, end_timestamp).len() == 0 <==> forall|i: int|
            0 <= i < state.moisture_log.len() ==> !(start_timestamp <= (
            #[trigger] state.moisture_log[i]).timestamp <= end_timestamp),
{
    let inside = within(start_timestamp, end_timestamp);
    let log = state.moisture_log;
    if log.filter(inside).len() == 0 {
        assert forall|i: int| 0 <= i < log.len() implies !(start_timestamp <= (
        #[trigger] log[i]).timestamp <= end_timestamp) by {
            if inside(log[i]) {
                log.lemma_filter_contains(inside, i);
            }
        }
    }
    if forall|i: int|
        0 <= i < log.len() ==> !(start_timestamp <= (#[trigger] log[i]).timestamp
            <= end_timestamp) {
        if log.filter(inside).len() > 0 {
            log.lemma_filter_pred(inside, 0);
            assert(log.filter(inside).contains(log.filter(inside)[0]));
            log.lemma_filter_contains_rev(inside, log.filter(inside)[0]);
        }
    }
}

/// With the threshold set to `threshold`, an update with a level below it
/// leaves the pump on, and one with a level at or above it leaves the pump
/// off, whatever the pump did before. (A level that cannot be ordered against
/// the threshold leaves it off too.)
pub proof fn threshold_drives_pump(
    before: Model,
    threshold: Level,
    moisture_level: Level,
    timestamp: u64,
)
    requires
        before.moisture_threshold == Some(threshold),
    ensures
        moisture_level.spec_lt(threshold) ==> before.update_moisture_level(
            moisture_level,
            timestamp,
        ).pump_state,
        moisture_level.spec_ge(threshold) ==> !before.update_moisture_level(
            moisture_level,
            timestamp,
        ).pump_state,
        before.update_moisture_level(moisture_level, timestamp).pump_state
            == moisture_level.spec_lt(threshold),
{
}

/// Without a threshold an update leaves the pump as it was.
pub proof fn update_without_threshold_keeps_pump(
    before: Model,
    moisture_level: Level,
    timestamp: u64,
)
    requires
        before.moisture_threshold is None,
    ensures
        before.update_moisture_level(moisture_level, timestamp).pump_state == before.pump_state,
{
}

/// A pump command decides the pump state, whether or not a threshold is set
/// and whatever the current level is: the threshold acts during updates only.
pub proof fn pump_command_overrides(before: Model, state: bool)
    ensures
        before.control_pump(state).pump_state == state,
        before.control_pump(state).moisture_threshold == before.moisture_threshold,
        before.control_pump(state).moisture_level == before.moisture_level,
        before.control_pump(state).moisture_log == before.moisture_log,
{
}

/// The pump never moves by itself: one command changes the pump state only
/// if it is a pump command, or an update while a threshold is set.
pub proof fn pump_moves_only_on_command_or_threshold(before: Model, command: Command)
    ensures
        before.step(command).pump_state != before.pump_state ==> command is ControlPump || (
        command is Update && before.moisture_threshold is Some),
{
}

/// A threshold cannot be unset: once there is one, there is one after any
/// history, and it has changed only if the history sets it.
pub proof fn threshold_stays_set(before: Model, history: Seq<Command>)
    ensures
        before.moisture_threshold is Some ==> before.run(history).moisture_threshold is Some,
        (forall|i: int| 0 <= i < history.len() ==> !(#[trigger] history[i] is SetThreshold))
            ==> before.run(history).moisture_threshold == before.moisture_threshold,
    decreases history.len(),
{
    if history.len() > 0 {
        let earlier = history.drop_last();
        threshold_stays_set(before, earlier);
        if forall|i: int| 0 <= i < history.len() ==> !(#[trigger] history[i] is SetThreshold) {
            assert forall|i: int| 0 <= i < earlier.len() implies !(#[trigger] earlier[i]
                is SetThreshold) by {
                assert(earlier[i] == history[i]);
            }
            assert(!(history[history.len() - 1] is SetThreshold));
        }
    }
}

} // verus!

//! The activities that a first run starts with.

use crate::activities_manager::{
    add_store, ActivityDetails, ActivityRecord, AllActivities, FrequencyType,
};
use crate::time_utils::Clock;
use vstd::prelude::*;
use vstd::string::StringExecFns;

verus! {

/// The record of an activity created at the clock's instant, due every day.
pub open spec fn daily_record(clock: Clock) -> ActivityRecord {
    ActivityRecord { start: clock.now, frequency: FrequencyType::AllWeek, completions: Set::empty() }
}

/// The store of a first run.
pub open spec fn initial_store(clock: Clock) -> Map<Seq<char>, ActivityRecord> {
    let record = daily_record(clock);
    let first = add_store(Map::empty(), "Go for a 2 km run"@, record);
    let second = add_store(first, "Study Marxism"@, record);
    let third = add_store(second, "Complete 1 task on Exercism"@, record);
    let fourth = add_store(third, "Play Tennis"@, record);
    add_store(fourth, "Practice a foreign language"@, record)
}

/// The store of a first run: five activities due every day, created at
/// the clock's instant, each under the upper-case form of its name.
pub fn initialize_activities(clock: &Clock) -> (store: AllActivities)
    ensures
        store.wf(),
        store@ == initial_store(*clock),
{
    let mut initial_activities = AllActivities::new();
    let _ = initial_activities.add_activity(
        String::from_str("Go for a 2 km run"),
        ActivityDetails::new_activity(FrequencyType::AllWeek, clock),
    );
    let _ = initial_activities.add_activity(
        String::from_str("Study Marxism"),
        ActivityDetails::new_activity(FrequencyType::AllWeek, clock),
    );
    let _ = initial_activities.add_activity(
        String::from_str("Complete 1 task on Exercism"),
        ActivityDetails::new_activity(FrequencyType::AllWeek, clock),
    );
    let _ = initial_activities.add_activity(
        String::from_str("Play Tennis"),
        ActivityDetails::new_activity(FrequencyType::AllWeek, clock),
    );
    let _ = initial_activities.add_activity(
        String::from_str("Practice a foreign language"),
        ActivityDetails::new_activity(FrequencyType::AllWeek, clock),
    );
    initial_activities
}

} // verus!

use yacht::activities_manager::{ActivityDetails, ActivityError, AllActivities, Day, FrequencyType};
use yacht::init::initialize_activities;
use yacht::time_utils::{
    current_date, current_time_timestamp, is_same_date, is_timestamp_on_day, todays_weekday, Clock,
};

// Wednesday 24 January 2024, 12:00 UTC.
const WEDNESDAY_NOON: i64 = 1_706_097_600;
const DAY: i64 = 86_400;

fn wednesday() -> Clock {
    Clock::new(WEDNESDAY_NOON, 0)
}

fn store_with(name: &str, frequency: FrequencyType, clock: &Clock) -> AllActivities {
    let mut store = AllActivities::new();
    let activity = ActivityDetails::new_activity(frequency, clock);
    assert_eq!(store.add_activity(String::from(name), activity), Ok(()));
    store
}

fn listing(day: &Day) -> Vec<(String, String)> {
    let (names, marks) = day.today_activities_list();
    names.into_iter().zip(marks).collect()
}

fn line(name: &str, mark: &str) -> (String, String) {
    (String::from(name), String::from(mark))
}

#[test]
fn add_then_contains_for_every_valid_rule() {
    let clock = wednesday();
    for frequency in [FrequencyType::AllWeek, FrequencyType::WorkingDays, FrequencyType::WeekEnds] {
        let store = store_with("Read a book", frequency, &clock);
        assert!(store.is_in_activities(String::from("READ A BOOK")));
        assert!(!store.is_in_activities(String::from("Read a book")));
        assert_eq!(store.len(), 1);
        assert_eq!(store.details_at(0).frequency(), frequency);
        assert_eq!(store.details_at(0).start(), WEDNESDAY_NOON);
        assert!(store.details_at(0).completions().is_empty());
    }
}

#[test]
fn add_existing_name_is_refused_and_changes_nothing() {
    let clock = wednesday();
    let mut store = store_with("run", FrequencyType::AllWeek, &clock);
    let later = Clock::new(WEDNESDAY_NOON + 5, 0);
    let again = ActivityDetails::new_activity(FrequencyType::WeekEnds, &later);
    assert_eq!(
        store.add_activity(String::from("Run"), again),
        Err(ActivityError::AlreadyExists)
    );
    assert_eq!(store.len(), 1);
    assert_eq!(store.name_at(0), "RUN");
    assert_eq!(store.details_at(0).frequency(), FrequencyType::AllWeek);
    assert_eq!(store.details_at(0).start(), WEDNESDAY_NOON);
}

#[test]
fn add_with_invalid_rule_is_refused() {
    let clock = wednesday();
    let mut store = AllActivities::new();
    let activity = ActivityDetails::new_activity(FrequencyType::Invalid, &clock);
    assert_eq!(
        store.add_activity(String::from("RUN"), activity),
        Err(ActivityError::InvalidRecurrence)
    );
    assert_eq!(store.len(), 0);
    assert!(!store.is_in_activities(String::from("RUN")));
    // the invalid rule is refused before the name is looked at
    let mut store = store_with("RUN", FrequencyType::AllWeek, &clock);
    let activity = ActivityDetails::new_activity(FrequencyType::Invalid, &clock);
    assert_eq!(
        store.add_activity(String::from("RUN"), activity),
        Err(ActivityError::InvalidRecurrence)
    );
    assert_eq!(store.len(), 1);
}

#[test]
fn complete_twice_on_one_day_is_refused() {
    let clock = wednesday();
    let mut store = store_with("RUN", FrequencyType::AllWeek, &clock);
    assert_eq!(store.set_activity_done(&clock, String::from("RUN")), Ok(()));
    let evening = Clock::new(WEDNESDAY_NOON + 6 * 3600, 0);
    assert_eq!(
        store.set_activity_done(&evening, String::from("RUN")),
        Err(ActivityError::AlreadyDone)
    );
    assert_eq!(store.details_at(0).completions(), vec![WEDNESDAY_NOON]);
    let thursday = Clock::new(WEDNESDAY_NOON + DAY, 0);
    assert_eq!(store.set_activity_done(&thursday, String::from("RUN")), Ok(()));
    assert_eq!(
        store.details_at(0).completions(),
        vec![WEDNESDAY_NOON, WEDNESDAY_NOON + DAY]
    );
}

#[test]
fn complete_unknown_activity_is_not_found() {
    let clock = wednesday();
    let mut store = store_with("RUN", FrequencyType::AllWeek, &clock);
    assert_eq!(
        store.set_activity_done(&clock, String::from("run")),
        Err(ActivityError::NotFound)
    );
    assert!(store.details_at(0).completions().is_empty());
}

#[test]
fn remove_is_idempotent() {
    let clock = wednesday();
    let mut store = store_with("RUN", FrequencyType::AllWeek, &clock);
    assert_eq!(store.remove_activity(String::from("SWIM")), Ok(()));
    assert_eq!(store.len(), 1);
    assert_eq!(store.remove_activity(String::from("RUN")), Ok(()));
    assert_eq!(store.len(), 0);
    assert_eq!(store.remove_activity(String::from("RUN")), Ok(()));
    assert_eq!(store.len(), 0);
}

#[test]
fn remove_keeps_the_others() {
    let clock = wednesday();
    let mut store = AllActivities::new();
    for name in ["A", "B", "C"] {
        let activity = ActivityDetails::new_activity(FrequencyType::AllWeek, &clock);
        assert_eq!(store.add_activity(String::from(name), activity), Ok(()));
    }
    assert_eq!(store.remove_activity(String::from("B")), Ok(()));
    assert_eq!(store.len(), 2);
    assert!(store.is_in_activities(String::from("A")));
    assert!(!store.is_in_activities(String::from("B")));
    assert!(store.is_in_activities(String::from("C")));
}

#[test]
fn empty_day_is_not_perfect() {
    let clock = wednesday();
    let store = AllActivities::new();
    let day = Day::today(&store, &clock);
    assert!(!day.is_perfect_day());
    assert_eq!(day.remaining_count(), 0);
    assert!(listing(&day).is_empty());
}

#[test]
fn day_is_perfect_only_when_all_are_done() {
    let clock = wednesday();
    let mut store = AllActivities::new();
    for name in ["A", "B"] {
        let activity = ActivityDetails::new_activity(FrequencyType::AllWeek, &clock);
        assert_eq!(store.add_activity(String::from(name), activity), Ok(()));
    }
    assert_eq!(store.set_activity_done(&clock, String::from("B")), Ok(()));
    let day = Day::today(&store, &clock);
    assert!(!day.is_perfect_day());
    assert_eq!(day.remaining_count(), 1);
    assert_eq!(listing(&day), vec![line("A", "[-]"), line("B", "[+]")]);
    assert_eq!(store.set_activity_done(&clock, String::from("A")), Ok(()));
    let day = Day::today(&store, &clock);
    assert!(day.is_perfect_day());
    assert_eq!(day.remaining_count(), 0);
}

#[test]
fn scenario_one_activity_not_done() {
    let clock = wednesday();
    let store = store_with("RUN", FrequencyType::AllWeek, &clock);
    let day = Day::get_day(&store, &clock, 0);
    assert_eq!(listing(&day), vec![line("RUN", "[-]")]);
    assert!(!day.is_perfect_day());
    assert_eq!(day.remaining_count(), 1);
}

#[test]
fn scenario_one_activity_done_today() {
    let clock = wednesday();
    let mut store = store_with("RUN", FrequencyType::AllWeek, &clock);
    assert_eq!(store.set_activity_done(&clock, String::from("RUN")), Ok(()));
    let day = Day::get_day(&store, &clock, 0);
    assert_eq!(listing(&day), vec![line("RUN", "[+]")]);
    assert!(day.is_perfect_day());
    assert_eq!(day.remaining_count(), 0);
    assert!(store.is_activity_completed_on_day(&clock, String::from("RUN"), 0));
    assert!(!store.is_activity_completed_on_day(&clock, String::from("RUN"), -1));
    assert!(!store.is_activity_completed_on_day(&clock, String::from("SWIM"), 0));
}

#[test]
fn scenario_working_days_absent_on_saturday() {
    let clock = wednesday();
    let mut store = store_with("WORK", FrequencyType::WorkingDays, &clock);
    let rest = ActivityDetails::new_activity(FrequencyType::WeekEnds, &clock);
    assert_eq!(store.add_activity(String::from("REST"), rest), Ok(()));
    // Saturday 27 January 2024
    assert_eq!(listing(&Day::get_day(&store, &clock, 3)), vec![line("REST", "[-]")]);
    // Sunday
    assert_eq!(listing(&Day::get_day(&store, &clock, 4)), vec![line("REST", "[-]")]);
    // Wednesday, Friday and Monday
    assert_eq!(listing(&Day::get_day(&store, &clock, 0)), vec![line("WORK", "[-]")]);
    assert_eq!(listing(&Day::get_day(&store, &clock, 2)), vec![line("WORK", "[-]")]);
    assert_eq!(listing(&Day::get_day(&store, &clock, 5)), vec![line("WORK", "[-]")]);
}

#[test]
fn day_types_follow_the_weekday() {
    let clock = wednesday();
    assert_eq!(
        Day::day_types_to_show(&clock, 0),
        Some((FrequencyType::AllWeek, FrequencyType::WorkingDays))
    );
    assert_eq!(
        Day::day_types_to_show(&clock, 3),
        Some((FrequencyType::AllWeek, FrequencyType::WeekEnds))
    );
    assert_eq!(
        Day::day_types_to_show(&clock, -3),
        Some((FrequencyType::AllWeek, FrequencyType::WeekEnds))
    );
    assert_eq!(Day::day_types_to_show(&clock, i64::MAX), None);
}

#[test]
fn scenario_window_counts_two_perfect_days() {
    let two_days_ago = Clock::new(WEDNESDAY_NOON - 2 * DAY, 0);
    let today = wednesday();
    let mut store = store_with("RUN", FrequencyType::AllWeek, &two_days_ago);
    assert_eq!(store.set_activity_done(&two_days_ago, String::from("RUN")), Ok(()));
    assert_eq!(store.set_activity_done(&today, String::from("RUN")), Ok(()));
    assert_eq!(store.perfect_days_in_window(&today, -2, 0), 2);
    assert_eq!(store.perfect_days_in_window(&today, -1, -1), 0);
    assert_eq!(store.perfect_days_in_window(&today, -30, 0), 2);
    assert_eq!(store.perfect_days_in_window(&today, 0, -2), 0);
    assert!(store.is_perfect_on(&today, -2));
    assert!(!store.is_perfect_on(&today, -1));
}

#[test]
fn listing_is_in_ordinal_order() {
    let clock = wednesday();
    let mut store = AllActivities::new();
    for name in ["ZEBRA", "ÄPFEL", "APPLE PIE", "APPLE", "B"] {
        let activity = ActivityDetails::new_activity(FrequencyType::AllWeek, &clock);
        assert_eq!(store.add_activity(String::from(name), activity), Ok(()));
    }
    let (names, marks) = Day::today(&store, &clock).today_activities_list();
    assert_eq!(names, vec!["APPLE", "APPLE PIE", "B", "ZEBRA", "ÄPFEL"]);
    assert_eq!(marks, vec!["[-]"; 5]);
}

#[test]
fn names_are_stored_in_upper_case() {
    let clock = wednesday();
    let store = store_with("Bücher lesen", FrequencyType::AllWeek, &clock);
    assert_eq!(store.name_at(0), "BÜCHER LESEN");
    assert!(store.is_in_activities(String::from("BÜCHER LESEN")));
}

#[test]
fn restore_keeps_the_name_as_it_is() {
    let mut store = AllActivities::new();
    let details = ActivityDetails::from_parts(7, FrequencyType::WeekEnds, &vec![30, 10, 30, 20]);
    assert_eq!(details.completions(), vec![30, 10, 20]);
    assert!(store.restore(String::from("Quiet"), details));
    assert!(store.is_in_activities(String::from("Quiet")));
    assert_eq!(store.details_at(0).start(), 7);
    assert_eq!(store.details_at(0).frequency(), FrequencyType::WeekEnds);
    let twice = ActivityDetails::from_parts(8, FrequencyType::AllWeek, &vec![]);
    assert!(!store.restore(String::from("Quiet"), twice));
    let invalid = ActivityDetails::from_parts(8, FrequencyType::Invalid, &vec![]);
    assert!(!store.restore(String::from("Other"), invalid));
    assert_eq!(store.len(), 1);
    assert_eq!(store.details_at(0).start(), 7);
}

#[test]
fn copy_of_a_store_is_equivalent() {
    let clock = wednesday();
    let mut store = store_with("RUN", FrequencyType::AllWeek, &clock);
    let rest = ActivityDetails::new_activity(FrequencyType::WeekEnds, &clock);
    assert_eq!(store.add_activity(String::from("REST"), rest), Ok(()));
    assert_eq!(store.set_activity_done(&clock, String::from("RUN")), Ok(()));
    let copy = store.duplicate();
    assert_eq!(copy.len(), 2);
    for i in 0..store.len() {
        let name = store.name_at(i).clone();
        assert!(copy.is_in_activities(name.clone()));
        assert_eq!(copy.name_at(i), &name);
        assert_eq!(copy.is_activity_completed_on_day(&clock, name.clone(), 0), name == "RUN");
        assert_eq!(copy.details_at(i).start(), store.details_at(i).start());
        assert_eq!(copy.details_at(i).frequency(), store.details_at(i).frequency());
        assert_eq!(copy.details_at(i).completions(), store.details_at(i).completions());
    }
}

#[test]
fn error_messages() {
    assert_eq!(ActivityError::InvalidRecurrence.message(), "Wrong Frequency Type");
    assert_eq!(ActivityError::AlreadyExists.message(), "Activity Already Exists");
    assert_eq!(ActivityError::NotFound.message(), "Activity not found.");
    assert_eq!(ActivityError::AlreadyDone.message(), "Already Done!");
}

#[test]
fn first_run_store_holds_five_daily_activities() {
    let clock = wednesday();
    let store = initialize_activities(&clock);
    assert_eq!(store.len(), 5);
    for name in [
        "GO FOR A 2 KM RUN",
        "STUDY MARXISM",
        "COMPLETE 1 TASK ON EXERCISM",
        "PLAY TENNIS",
        "PRACTICE A FOREIGN LANGUAGE",
    ] {
        assert!(store.is_in_activities(String::from(name)));
    }
    for i in 0..5 {
        assert_eq!(store.details_at(i).frequency(), FrequencyType::AllWeek);
        assert_eq!(store.details_at(i).start(), WEDNESDAY_NOON);
    }
}

#[test]
fn day_numbers_and_weekdays() {
    let clock = wednesday();
    assert_eq!(current_time_timestamp(&clock), WEDNESDAY_NOON);
    // 1 January 1970 is day 719163; 24 January 2024 is 19746 days later.
    assert_eq!(current_date(&clock), Some(719_163 + 19_746));
    assert_eq!(clock.local_date(0), Some(719_163));
    assert_eq!(clock.local_date(-1), Some(719_162));
    assert_eq!(clock.local_date(86_399), Some(719_163));
    assert_eq!(clock.local_date(86_400), Some(719_164));
    assert_eq!(clock.local_date(i64::MAX), None);
    assert_eq!(clock.date_at(-30), Some(719_163 + 19_716));
    assert!(is_same_date(&clock, 738_909));
    assert!(!is_same_date(&clock, 738_910));
    assert_eq!(todays_weekday(&clock, 0), Some(3));
    assert_eq!(todays_weekday(&clock, 3), Some(6));
    assert_eq!(todays_weekday(&clock, 4), Some(7));
    assert_eq!(todays_weekday(&clock, 5), Some(1));
    assert_eq!(todays_weekday(&clock, -2), Some(1));
    assert_eq!(todays_weekday(&clock, i64::MAX), None);
    assert_eq!(todays_weekday(&clock, 4_000_000_000), None);
}

#[test]
fn instants_fall_on_local_days() {
    let clock = wednesday();
    let midnight = WEDNESDAY_NOON - 12 * 3600;
    assert!(is_timestamp_on_day(&clock, midnight, 0));
    assert!(is_timestamp_on_day(&clock, midnight + DAY - 1, 0));
    assert!(!is_timestamp_on_day(&clock, midnight - 1, 0));
    assert!(is_timestamp_on_day(&clock, midnight - 1, -1));
    assert!(is_timestamp_on_day(&clock, midnight + DAY, 1));
    assert!(!is_timestamp_on_day(&clock, i64::MAX, 0));
    // two hours east of UTC, half an hour before midnight UTC: already Thursday
    let east = Clock::new(midnight + DAY - 1800, 7200);
    assert_eq!(todays_weekday(&east, 0), Some(4));
    assert!(is_timestamp_on_day(&east, midnight + DAY - 1800, 0));
    assert!(is_timestamp_on_day(&east, midnight + DAY - 7200, 0));
    assert!(!is_timestamp_on_day(&east, midnight + DAY - 7201, 0));
    // five hours west of UTC, two hours after midnight UTC: still Tuesday
    let west = Clock::new(midnight + 7200, -5 * 3600);
    assert_eq!(todays_weekday(&west, 0), Some(2));
    assert!(is_timestamp_on_day(&west, midnight, 0));
}

#[test]
fn day_numbers_end_where_the_calendar_ends() {
    let clock = wednesday();
    assert_eq!(clock.local_date(8_210_266_876_799), Some(95_745_399));
    assert_eq!(clock.local_date(8_210_266_876_800), None);
    assert_eq!(clock.local_date(-8_334_601_228_800), Some(-95_746_129));
    assert_eq!(clock.local_date(-8_334_601_228_801), None);
    assert_eq!(clock.date_at(95_006_491), Some(95_745_400));
    assert!(todays_weekday(&clock, 95_006_490).is_some());
    assert_eq!(todays_weekday(&clock, 95_006_491), None);
    assert!(todays_weekday(&clock, -96_485_038).is_some());
    assert_eq!(todays_weekday(&clock, -96_485_039), None);
    assert_eq!(Day::day_types_to_show(&clock, 95_006_491), None);
    let late = Clock::new(8_210_266_876_800, 0);
    assert_eq!(current_date(&late), None);
    assert_eq!(todays_weekday(&late, 0), None);
    assert!(!is_timestamp_on_day(&late, 8_210_266_876_800, 0));
}

#[test]
fn nothing_is_due_on_a_day_without_a_weekday() {
    let clock = wednesday();
    let store = store_with("RUN", FrequencyType::AllWeek, &clock);
    let day = Day::get_day(&store, &clock, 95_006_491);
    assert!(listing(&day).is_empty());
    assert!(!day.is_perfect_day());
    assert!(!store.is_perfect_on(&clock, i64::MIN));
}

#[test]
fn second_completion_on_an_undated_clock_adds_nothing() {
    let late = Clock::new(8_210_266_876_800, 0);
    let mut store = store_with("RUN", FrequencyType::AllWeek, &late);
    assert_eq!(store.set_activity_done(&late, String::from("RUN")), Ok(()));
    assert_eq!(store.set_activity_done(&late, String::from("RUN")), Ok(()));
    assert_eq!(store.details_at(0).completions(), vec![8_210_266_876_800]);
}

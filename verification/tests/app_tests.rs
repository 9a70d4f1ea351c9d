use yacht::activities_manager::{AllActivities, FrequencyType};
use yacht::app::{App, InputMode};
use yacht::handler::{handle_key_events, Key};
use yacht::time_utils::Clock;

// Wednesday 24 January 2024, 12:00 UTC.
const WEDNESDAY_NOON: i64 = 1_706_097_600;

fn session() -> App {
    App::new(AllActivities::new(), Clock::new(WEDNESDAY_NOON, 0))
}

#[test]
fn test_default_app() {
    let app = App::default();
    // Verify default values
    assert_eq!(app.running, true);
    assert_eq!(app.input, String::new());
    assert_eq!(app.input_mode, InputMode::Inactive);
}

#[test]
fn test_enter_char_inserts_new_char_at_cursor_position() {
    let mut app = App::default();
    app.input = String::from("Hello");
    app.cursor_position = 3;

    app.enter_char('X');

    // Ensure that 'X' is inserted at cursor position
    assert_eq!(app.input, "HelXlo");
    // Ensure that cursor position is moved to the right
    assert_eq!(app.cursor_position, 4);
}

#[test]
fn test_enter_non_ascii_char_inserts_new_char_at_cursor_position() {
    let mut app = App::default();
    app.input = String::from("Veräderung");
    app.cursor_position = 5;

    app.enter_char('N');

    // Ensure that 'X' is inserted at cursor position
    assert_eq!(app.input, "VeräNderung");
    // Ensure that cursor position is moved to the right
    assert_eq!(app.cursor_position, 6);
}

fn check_remove_added_activity(app: &mut App, activity_name: String) {
    let activity_name = String::from(activity_name);
    // Remove the activity
    if let Some(index) = app
        .todays_activities
        .iter()
        .position(|x| *x == activity_name)
    {
        app.remove_activity(index);
        assert!(!app.all_activities.is_in_activities(activity_name));
        assert_eq!(app.logs, "Activity is removed!");
    } else {
        panic!("Activity not found in todays_activities");
    }
}

fn check_add_new_activity(app: &mut App, name: String) {
    let frequency = FrequencyType::AllWeek;

    app.input = name.clone();
    app.input_mode = InputMode::ActiveName;
    app.add_new_activity_name();
    app.new_activity_frequency = frequency;

    app.add_new_activity();

    // Ensure that activity is added to all_activities
    assert!(app.all_activities.is_in_activities(name.clone()));
    // Ensure that new_activity_name is cleared after adding activity
    assert_eq!(app.new_activity_name, "");
    // Ensure that new_activity_frequency is set correctly after adding activity
    assert_eq!(app.new_activity_frequency, FrequencyType::Invalid);
    // Ensure that logs indicate successful activity addition
    assert_eq!(app.logs, "Activity is added!");
    // Ensure that global status is refreshed after adding activity
    assert_eq!(app.day_status, false); // As it's not a perfect day yet
    assert_eq!(app.total_perfect_days, 0); // As it's not a perfect day yet
}

#[test]
fn test_add_new_activity_and_remove_ascii_and_not() {
    let mut app = session();
    check_add_new_activity(&mut app, String::from("THINK"));
    check_remove_added_activity(&mut app, String::from("THINK"));
    check_add_new_activity(&mut app, String::from("BÜCHER LESEN"));
    check_remove_added_activity(&mut app, String::from("BÜCHER LESEN"));
}

#[test]
fn new_session_lists_today_and_counts() {
    let clock = Clock::new(WEDNESDAY_NOON, 0);
    let mut store = AllActivities::new();
    let run = yacht::activities_manager::ActivityDetails::new_activity(FrequencyType::AllWeek, &clock);
    let rest = yacht::activities_manager::ActivityDetails::new_activity(FrequencyType::WeekEnds, &clock);
    let work = yacht::activities_manager::ActivityDetails::new_activity(FrequencyType::WorkingDays, &clock);
    assert!(store.add_activity(String::from("run"), run).is_ok());
    assert!(store.add_activity(String::from("rest"), rest).is_ok());
    assert!(store.add_activity(String::from("Work"), work).is_ok());
    let app = App::new(store, clock);
    assert_eq!(app.todays_activities, vec![String::from("RUN"), String::from("WORK")]);
    assert_eq!(app.activities_status, vec![String::from("[-]"), String::from("[-]")]);
    assert!(!app.day_status);
    assert_eq!(app.activities_till_perfect_day, 2);
    assert_eq!(app.total_perfect_days, 0);
    assert_eq!(app.selected, 0);
    assert_eq!(app.logs, "");
}

#[test]
fn typed_characters_are_upper_cased() {
    let mut app = App::default();
    app.enter_char('a');
    app.enter_char('ü');
    app.enter_char('1');
    assert_eq!(app.input, "AÜ1");
    assert_eq!(app.cursor_position, 4);
}

#[test]
fn enter_char_inside_a_character_types_nothing() {
    let mut app = App::default();
    app.input = String::from("Ä");
    app.cursor_position = 1;
    app.enter_char('x');
    assert_eq!(app.input, "Ä");
    assert_eq!(app.cursor_position, 1);
}

#[test]
fn delete_char_removes_the_character_before_the_cursor() {
    let mut app = App::default();
    app.input = String::from("VeräNderung");
    app.cursor_position = 6;
    app.delete_char();
    assert_eq!(app.input, "Veräderung");
    assert_eq!(app.cursor_position, 5);
    app.delete_char();
    assert_eq!(app.input, "Verderung");
    assert_eq!(app.cursor_position, 3);
}

#[test]
fn delete_char_at_start_does_nothing() {
    let mut app = App::default();
    app.input = String::from("AB");
    app.cursor_position = 0;
    app.delete_char();
    assert_eq!(app.input, "AB");
    assert_eq!(app.cursor_position, 0);
    assert_eq!(app.logs, "");
}

#[test]
fn delete_char_without_text_logs_a_note() {
    let mut app = App::default();
    app.cursor_position = 2;
    app.delete_char();
    assert_eq!(app.input, "");
    assert_eq!(app.logs, "No char at this position!");
}

#[test]
fn delete_char_with_cursor_beyond_text_removes_the_last_character() {
    let mut app = App::default();
    app.input = String::from("AÄ");
    app.cursor_position = 10;
    app.delete_char();
    assert_eq!(app.input, "A");
    assert_eq!(app.cursor_position, 1);
}

#[test]
fn frequency_codes_are_converted() {
    let mut app = App::default();
    app.input = String::from("AW");
    app.convert_activity_frequency();
    assert_eq!(app.new_activity_frequency, FrequencyType::AllWeek);
    app.input = String::from("WD");
    app.convert_activity_frequency();
    assert_eq!(app.new_activity_frequency, FrequencyType::WorkingDays);
    app.input = String::from("WE");
    app.convert_activity_frequency();
    assert_eq!(app.new_activity_frequency, FrequencyType::WeekEnds);
    assert_eq!(app.logs, "");
    app.input = String::from("aw");
    app.convert_activity_frequency();
    assert_eq!(app.new_activity_frequency, FrequencyType::Invalid);
    assert_eq!(app.logs, "Invalid frequency. Please enter AW, WD, or WE.");
}

#[test]
fn adding_with_invalid_rule_is_logged() {
    let mut app = session();
    app.new_activity_name = String::from("THINK");
    app.new_activity_frequency = FrequencyType::Invalid;
    assert!(!app.add_new_activity());
    assert_eq!(app.logs, "Error: Wrong Frequency Type");
    assert!(!app.all_activities.is_in_activities(String::from("THINK")));
    assert_eq!(app.new_activity_name, "THINK");
}

#[test]
fn adding_twice_is_logged() {
    let mut app = session();
    app.new_activity_name = String::from("think");
    app.new_activity_frequency = FrequencyType::AllWeek;
    assert!(app.add_new_activity());
    app.new_activity_name = String::from("Think");
    app.new_activity_frequency = FrequencyType::WeekEnds;
    assert!(!app.add_new_activity());
    assert_eq!(app.logs, "Error: Activity Already Exists");
    assert_eq!(app.todays_activities, vec![String::from("THINK")]);
}

#[test]
fn marking_done_updates_listing_and_status() {
    let mut app = session();
    app.new_activity_name = String::from("RUN");
    app.new_activity_frequency = FrequencyType::AllWeek;
    assert!(app.add_new_activity());
    assert_eq!(app.activities_till_perfect_day, 1);
    assert!(app.set_activity_done(0));
    assert_eq!(app.logs, "Activity is set done!");
    assert_eq!(app.activities_status, vec![String::from("[+]")]);
    assert!(app.day_status);
    assert_eq!(app.activities_till_perfect_day, 0);
    assert_eq!(app.total_perfect_days, 1);
    assert!(!app.set_activity_done(0));
    assert_eq!(app.logs, "Error: Already Done!");
    assert!(!app.set_activity_done(7));
    assert_eq!(app.logs, "Error: Already Done!");
}

#[test]
fn marking_a_removed_activity_is_logged() {
    let mut app = session();
    app.todays_activities = vec![String::from("GONE")];
    assert!(!app.set_activity_done(0));
    assert_eq!(app.logs, "Error: Activity not found.");
}

#[test]
fn quit_and_tick() {
    let mut app = session();
    app.tick();
    assert!(app.running);
    app.quit();
    assert!(!app.running);
}

#[test]
fn keys_drive_an_addition() {
    let mut app = session();
    assert!(!handle_key_events(Key::Char('n'), &mut app));
    assert_eq!(app.input_mode, InputMode::ActiveName);
    for c in ['r', 'u', 'n'] {
        assert!(!handle_key_events(Key::Char(c), &mut app));
    }
    assert_eq!(app.input, "RUN");
    assert!(!handle_key_events(Key::Backspace, &mut app));
    assert_eq!(app.input, "RU");
    assert!(!handle_key_events(Key::Enter, &mut app));
    assert_eq!(app.input_mode, InputMode::ActiveFrequency);
    assert_eq!(app.new_activity_name, "RU");
    assert_eq!(app.input, "");
    assert_eq!(app.cursor_position, 0);
    // only the letters of the codes are taken
    assert!(!handle_key_events(Key::Char('x'), &mut app));
    assert_eq!(app.input, "");
    assert!(!handle_key_events(Key::Char('a'), &mut app));
    assert!(!handle_key_events(Key::Char('w'), &mut app));
    assert_eq!(app.input, "AW");
    assert!(handle_key_events(Key::Enter, &mut app));
    assert_eq!(app.input_mode, InputMode::Inactive);
    assert_eq!(app.input, "");
    assert_eq!(app.logs, "Activity is added!");
    assert_eq!(app.todays_activities, vec![String::from("RU")]);
}

#[test]
fn keys_select_mark_remove_and_quit() {
    let mut app = session();
    for name in ["B", "A", "C"] {
        app.new_activity_name = String::from(name);
        app.new_activity_frequency = FrequencyType::AllWeek;
        assert!(app.add_new_activity());
    }
    assert_eq!(
        app.todays_activities,
        vec![String::from("A"), String::from("B"), String::from("C")]
    );
    assert!(!handle_key_events(Key::Up, &mut app));
    assert_eq!(app.selected, 0);
    assert!(!handle_key_events(Key::Down, &mut app));
    assert!(!handle_key_events(Key::Down, &mut app));
    assert!(!handle_key_events(Key::Down, &mut app));
    assert_eq!(app.selected, 2);
    assert!(!handle_key_events(Key::Up, &mut app));
    assert_eq!(app.selected, 1);
    assert!(handle_key_events(Key::Char('D'), &mut app));
    assert_eq!(
        app.activities_status,
        vec![String::from("[-]"), String::from("[+]"), String::from("[-]")]
    );
    assert!(!handle_key_events(Key::Char('d'), &mut app));
    assert_eq!(app.logs, "Error: Already Done!");
    assert!(handle_key_events(Key::Char('r'), &mut app));
    assert_eq!(app.todays_activities, vec![String::from("A"), String::from("C")]);
    assert!(!handle_key_events(Key::Other, &mut app));
    assert!(!handle_key_events(Key::Esc, &mut app));
    assert!(app.running);
    assert!(!handle_key_events(Key::Char('q'), &mut app));
    assert!(!app.running);
}

#[test]
fn escape_leaves_the_input_mode() {
    let mut app = session();
    handle_key_events(Key::Char('N'), &mut app);
    handle_key_events(Key::Char('q'), &mut app);
    assert_eq!(app.input, "Q");
    assert!(app.running);
    handle_key_events(Key::Esc, &mut app);
    assert_eq!(app.input_mode, InputMode::Inactive);
    assert_eq!(app.input, "");
    assert_eq!(app.cursor_position, 0);
    handle_key_events(Key::Enter, &mut app);
    handle_key_events(Key::Backspace, &mut app);
    assert_eq!(app.input_mode, InputMode::Inactive);
}

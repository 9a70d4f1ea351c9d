//! What a key does to the session.

use crate::activities_manager::{
    add_outcome, add_store, done_outcome, done_store, ActivityRecord, FrequencyType,
};
use crate::app::{frequency_of_code, App, InputMode};
use vstd::prelude::*;

verus! {

/// A key as the session reads it.
#[derive(Debug, PartialEq, Eq, Structural, Clone, Copy)]
pub enum Key {
    Char(char),
    Esc,
    Up,
    Down,
    Backspace,
    Enter,
    Other,
}

/// What a key asks of the session.
pub enum Command {
    Quit,
    Cancel,
    MarkDone,
    Remove,
    SelectUp,
    SelectDown,
    StartName,
    Type(char),
    Erase,
    ConfirmName,
    ConfirmFrequency,
    Nothing,
}

/// The command that a key stands for, given the input mode and whether
/// today's listing is empty. The first rule that fits decides.
pub open spec fn command_of(key: Key, mode: InputMode, listing_is_empty: bool) -> Command {
    let inactive = mode == InputMode::Inactive;
    match key {
        Key::Char(c) => if inactive && (c == 'q' || c == 'Q') {
            Command::Quit
        } else if inactive && (c == 'd' || c == 'D') {
            Command::MarkDone
        } else if inactive && (c == 'r' || c == 'R') {
            Command::Remove
        } else if inactive && (c == 'n' || c == 'N') {
            Command::StartName
        } else if mode == InputMode::ActiveName {
            Command::Type(c)
        } else if mode == InputMode::ActiveFrequency && (c == 'a' || c == 'w' || c == 'd' || c
            == 'e') {
            Command::Type(c)
        } else {
            Command::Nothing
        },
        Key::Esc => if inactive {
            Command::Nothing
        } else {
            Command::Cancel
        },
        Key::Up => if listing_is_empty {
            Command::Nothing
        } else {
            Command::SelectUp
        },
        Key::Down => if listing_is_empty {
            Command::Nothing
        } else {
            Command::SelectDown
        },
        Key::Backspace => if inactive {
            Command::Nothing
        } else {
            Command::Erase
        },
        Key::Enter => match mode {
            InputMode::ActiveName => Command::ConfirmName,
            InputMode::ActiveFrequency => Command::ConfirmFrequency,
            InputMode::Inactive => Command::Nothing,
        },
        Key::Other => Command::Nothing,
    }
}

/// The record of the activity that confirming the typed code would add.
pub open spec fn confirmed_record(app: App) -> ActivityRecord {
    ActivityRecord {
        start: app.clock.now,
        frequency: frequency_of_code(app.input@),
        completions: Set::empty(),
    }
}

/// The store after a command.
pub open spec fn store_after(app: App, command: Command) -> Map<Seq<char>, ActivityRecord> {
    let store = app.all_activities@;
    let listed = app.selected < app.todays_activities@.len();
    match command {
        Command::MarkDone => if listed {
            done_store(store, app.clock, app.todays_activities@[app.selected as int]@)
        } else {
            store
        },
        Command::Remove => if listed {
            store.remove(app.todays_activities@[app.selected as int]@)
        } else {
            store
        },
        Command::ConfirmFrequency => add_store(store, app.new_activity_name@, confirmed_record(app)),
        _ => store,
    }
}

/// Whether a command changes the store, so that the store has to be saved.
pub open spec fn changes_store(app: App, command: Command) -> bool {
    let store = app.all_activities@;
    let listed = app.selected < app.todays_activities@.len();
    match command {
        Command::MarkDone => listed && done_outcome(
            store,
            app.clock,
            app.todays_activities@[app.selected as int]@,
        ) is Ok,
        Command::Remove => listed,
        Command::ConfirmFrequency => add_outcome(
            store,
            app.new_activity_name@,
            confirmed_record(app),
        ) is Ok,
        _ => false,
    }
}

/// The input mode after a command.
pub open spec fn mode_after(mode: InputMode, command: Command) -> InputMode {
    match command {
        Command::Cancel | Command::ConfirmFrequency => InputMode::Inactive,
        Command::StartName => InputMode::ActiveName,
        Command::ConfirmName => InputMode::ActiveFrequency,
        _ => mode,
    }
}

/// The selection after a command.
pub open spec fn selected_after(selected: usize, listing_len: nat, command: Command) -> usize {
    match command {
        Command::SelectUp => if selected > 0 {
            (selected - 1) as usize
        } else {
            selected
        },
        Command::SelectDown => if selected < listing_len - 1 {
            (selected + 1) as usize
        } else {
            selected
        },
        _ => selected,
    }
}

/// The session as confirming the typed code leaves it before the addition
/// is made: the pending rule is the one that the code stands for.
pub open spec fn code_taken(app: App, mid: App) -> bool {
    &&& mid.new_activity_frequency == frequency_of_code(app.input@)
    &&& mid.logs@ == if frequency_of_code(app.input@) == FrequencyType::Invalid {
        "Invalid frequency. Please enter AW, WD, or WE."@
    } else {
        app.logs@
    }
    &&& mid.all_activities == app.all_activities
    &&& mid.same_typing(&app)
    &&& mid.todays_activities == app.todays_activities
    &&& mid.activities_status == app.activities_status
    &&& mid.new_activity_name == app.new_activity_name
    &&& mid.total_perfect_days == app.total_perfect_days
    &&& mid.day_status == app.day_status
    &&& mid.activities_till_perfect_day == app.activities_till_perfect_day
}

/// What a command does to the session, and whether the store changed.
pub open spec fn command_done(app: App, after: App, command: Command, changed: bool) -> bool {
    match command {
        Command::Quit => after == (App { running: false, ..app }) && !changed,
        Command::Cancel => after.input@ == Seq::<char>::empty() && after == (App {
            input_mode: InputMode::Inactive,
            input: after.input,
            cursor_position: 0,
            ..app
        }) && !changed,
        Command::MarkDone => app.marked_done(&after, app.selected, changed),
        Command::Remove => app.removed(&after, app.selected, changed),
        Command::SelectUp => after == (App {
            selected: selected_after(app.selected, app.todays_activities@.len(), command),
            ..app
        }) && !changed,
        Command::SelectDown => after == (App {
            selected: selected_after(app.selected, app.todays_activities@.len(), command),
            ..app
        }) && !changed,
        Command::StartName => after == (App { input_mode: InputMode::ActiveName, ..app })
            && !changed,
        Command::Type(c) => app.typed(&after, c) && !changed,
        Command::Erase => app.erased(&after) && !changed,
        Command::ConfirmName => after.input@ == Seq::<char>::empty() && after == (App {
            new_activity_name: app.input,
            input_mode: InputMode::ActiveFrequency,
            input: after.input,
            cursor_position: 0,
            ..app
        }) && !changed,
        Command::ConfirmFrequency => exists|mid: App, added: App|
            {
                &&& code_taken(app, mid)
                &&& #[trigger] mid.added(&added, changed)
                &&& after.input@ == Seq::<char>::empty()
                &&& after == (App {
                    input_mode: InputMode::Inactive,
                    input: after.input,
                    cursor_position: 0,
                    ..added
                })
            },
        Command::Nothing => after == app && !changed,
    }
}

/// Handles a key and says whether the store changed and has to be saved.
pub fn handle_key_events(key_event: Key, app: &mut App) -> (changed: bool)
    requires
        old(app).wf(),
    ensures
        final(app).wf(),
        command_done(
            *old(app),
            *final(app),
            command_of(key_event, old(app).input_mode, old(app).todays_activities@.len() == 0),
            changed,
        ),
        changed == changes_store(
            *old(app),
            command_of(key_event, old(app).input_mode, old(app).todays_activities@.len() == 0),
        ),
        final(app).all_activities@ == store_after(
            *old(app),
            command_of(key_event, old(app).input_mode, old(app).todays_activities@.len() == 0),
        ),
        final(app).input_mode == mode_after(
            old(app).input_mode,
            command_of(key_event, old(app).input_mode, old(app).todays_activities@.len() == 0),
        ),
        changed ==> final(app).listed() && final(app).status_current(),
{
    let inactive = app.input_mode == InputMode::Inactive;
    match key_event {
        Key::Char(c) => {
            if inactive && (c == 'q' || c == 'Q') {
                app.quit();
                false
            } else if inactive && (c == 'd' || c == 'D') {
                app.set_activity_done(app.selected)
            } else if inactive && (c == 'r' || c == 'R') {
                app.remove_activity(app.selected)
            } else if inactive && (c == 'n' || c == 'N') {
                app.input_mode = InputMode::ActiveName;
                false
            } else if app.input_mode == InputMode::ActiveName {
                app.enter_char(c);
                false
            } else if app.input_mode == InputMode::ActiveFrequency && (c == 'a' || c == 'w' || c
                == 'd' || c == 'e') {
                app.enter_char(c);
                false
            } else {
                false
            }
        },
        Key::Esc => {
            if !inactive {
                app.input_mode = InputMode::Inactive;
                app.input = String::new();
                app.cursor_position = 0;
            }
            false
        },
        Key::Up => {
            if app.todays_activities.len() != 0 && app.selected > 0 {
                app.selected = app.selected - 1;
            }
            false
        },
        Key::Down => {
            if app.todays_activities.len() != 0 && app.selected < app.todays_activities.len() - 1 {
                app.selected = app.selected + 1;
            }
            false
        },
        Key::Backspace => {
            if !inactive {
                app.delete_char();
            }
            false
        },
        Key::Enter => {
            match app.input_mode {
                InputMode::ActiveName => {
                    app.add_new_activity_name();
                    app.input_mode = InputMode::ActiveFrequency;
                    app.input = String::new();
                    app.cursor_position = 0;
                    false
                },
                InputMode::ActiveFrequency => {
                    app.convert_activity_frequency();
                    let ghost mid = *app;
                    let changed = app.add_new_activity();
                    let ghost added = *app;
                    app.input = String::new();
                    app.cursor_position = 0;
                    app.input_mode = InputMode::Inactive;
                    assert(code_taken(*old(app), mid) && mid.added(&added, changed));
                    changed
                },
                InputMode::Inactive => false,
            }
        },
        Key::Other => false,
    }
}

} // verus!

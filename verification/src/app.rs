//! The state of an interactive session over the store: the text being
//! typed, the selection, today's listing and the status of the day.

use crate::activities_manager::{
    add_outcome, add_store, day_view, done_outcome, done_store, is_listing, perfect, perfect_days,
    ActivityDetails, ActivityError, ActivityRecord, AllActivities, Day, FrequencyType,
};
use crate::text::{
    char_len, char_start, char_uppercase_head, insert_char, inserted_bytes, remove_char,
    uppercase_head,
};
use crate::time_utils::Clock;
use vstd::prelude::*;
use vstd::string::StringExecFns;
use vstd::utf8::{encode_scalar, encode_utf8, is_char_boundary};

verus! {

/// What the typed text is for.
#[derive(Debug, PartialEq, Eq, Structural, Clone, Copy)]
pub enum InputMode {
    Inactive,
    ActiveName,
    ActiveFrequency,
}

/// The session.
#[derive(Debug)]
pub struct App {
    /// Is the session running?
    pub running: bool,
    pub input: String,
    pub cursor_position: usize,
    pub input_mode: InputMode,
    pub selected: usize,
    pub todays_activities: Vec<String>,
    pub activities_status: Vec<String>,
    pub all_activities: AllActivities,
    pub new_activity_name: String,
    pub new_activity_frequency: FrequencyType,
    pub total_perfect_days: i64,
    pub logs: String,
    pub counter: i64,
    pub day_status: bool,
    pub activities_till_perfect_day: usize,
    /// The latest reading of the host clock.
    pub clock: Clock,
}

/// How many of the marks say "not done".
pub open spec fn pending_marks(marks: Seq<String>) -> nat
    decreases marks.len(),
{
    if marks.len() == 0 {
        0
    } else {
        pending_marks(marks.drop_last()) + if marks.last()@ == "[-]"@ {
            1nat
        } else {
            0nat
        }
    }
}

/// The rule that a two-letter code stands for.
pub open spec fn frequency_of_code(code: Seq<char>) -> FrequencyType {
    if code == "AW"@ {
        FrequencyType::AllWeek
    } else if code == "WD"@ {
        FrequencyType::WorkingDays
    } else if code == "WE"@ {
        FrequencyType::WeekEnds
    } else {
        FrequencyType::Invalid
    }
}

/// The character that is typed for a key: the head of its upper-case form.
pub open spec fn typed_char(c: char) -> char {
    match uppercase_head(c) {
        Some(u) => u,
        None => c,
    }
}

/// A cursor moved to `pos`, kept within the machine's integers and within the text.
pub open spec fn clamped(pos: int, text: Seq<char>) -> int {
    let bound = encode_utf8(text).len() as usize as int;
    let capped = if pos > usize::MAX {
        usize::MAX as int
    } else if pos < 0 {
        0
    } else {
        pos
    };
    if capped > bound {
        bound
    } else {
        capped
    }
}

/// Where the character starts that a deletion with the cursor at byte
/// `cursor` takes out of a text that is not empty: the last character that
/// begins before the cursor.
pub open spec fn deleted_start(text: Seq<char>, cursor: int) -> int {
    let len = encode_utf8(text).len() as usize as int;
    char_start(
        encode_utf8(text),
        if cursor - 1 >= len {
            len - 1
        } else {
            cursor - 1
        },
    )
}

/// The text shown when an operation was refused.
pub open spec fn error_log(e: ActivityError) -> Seq<char> {
    "Error: "@ + e.message_text()
}

impl Default for App {
    fn default() -> (app: Self)
        ensures
            app.wf(),
            app.running,
            app.input@ == Seq::<char>::empty(),
            app.input_mode == InputMode::Inactive,
            app.cursor_position == 0,
            app.selected == 0,
            app.todays_activities@.len() == 1 && app.todays_activities@[0]@ == "..."@,
            app.activities_status@.len() == 1 && app.activities_status@[0]@ == "..."@,
            app.all_activities@ == Map::<Seq<char>, ActivityRecord>::empty(),
            app.new_activity_name@ == Seq::<char>::empty(),
            app.new_activity_frequency == FrequencyType::Invalid,
            app.total_perfect_days == 0,
            app.logs@ == Seq::<char>::empty(),
            app.counter == 0,
            !app.day_status,
            app.activities_till_perfect_day == 0,
            app.clock == (Clock { now: 0, utc_offset: 0 }),
    {
        let mut names: Vec<String> = Vec::new();
        names.push(String::from_str("..."));
        let mut marks: Vec<String> = Vec::new();
        marks.push(String::from_str("..."));
        App {
            running: true,
            input: String::new(),
            input_mode: InputMode::Inactive,
            cursor_position: 0,
            selected: 0,
            todays_activities: names,
            activities_status: marks,
            all_activities: AllActivities::new(),
            new_activity_name: String::new(),
            new_activity_frequency: FrequencyType::Invalid,
            total_perfect_days: 0,
            logs: String::new(),
            counter: 0,
            day_status: false,
            activities_till_perfect_day: 0,
            clock: Clock { now: 0, utc_offset: 0 },
        }
    }
}

impl App {
    /// The store is well formed.
    pub open spec fn wf(&self) -> bool {
        self.all_activities.wf()
    }

    /// The view of the clock's today.
    pub open spec fn today_view(&self) -> Map<Seq<char>, bool> {
        day_view(self.all_activities@, self.clock, 0)
    }

    /// The listing shows today as the store and the clock have it.
    pub open spec fn listed(&self) -> bool {
        is_listing(self.todays_activities@, self.activities_status@, self.today_view())
    }

    /// The status of the day is what the store, the clock and the listing give.
    pub open spec fn status_current(&self) -> bool {
        &&& self.day_status == perfect(self.today_view())
        &&& self.activities_till_perfect_day == if self.day_status {
            0
        } else {
            pending_marks(self.activities_status@)
        }
        &&& self.total_perfect_days == perfect_days(self.all_activities@, self.clock, -30, 0)
    }

    /// Whether two sessions agree on what typing and navigation have set.
    pub open spec fn same_typing(&self, other: &App) -> bool {
        &&& self.running == other.running
        &&& self.input == other.input
        &&& self.cursor_position == other.cursor_position
        &&& self.input_mode == other.input_mode
        &&& self.selected == other.selected
        &&& self.counter == other.counter
        &&& self.clock == other.clock
    }

    /// Whether two sessions agree on the listing, the status and the pending addition.
    pub open spec fn same_board(&self, other: &App) -> bool {
        &&& self.todays_activities == other.todays_activities
        &&& self.activities_status == other.activities_status
        &&& self.new_activity_name == other.new_activity_name
        &&& self.new_activity_frequency == other.new_activity_frequency
        &&& self.total_perfect_days == other.total_perfect_days
        &&& self.day_status == other.day_status
        &&& self.activities_till_perfect_day == other.activities_till_perfect_day
    }

    /// A session over `store`, with today's listing and status as of `clock`.
    pub fn new(store: AllActivities, clock: Clock) -> (app: App)
        requires
            store.wf(),
        ensures
            app.wf(),
            app.all_activities == store,
            app.clock == clock,
            app.running,
            app.input@ == Seq::<char>::empty(),
            app.input_mode == InputMode::Inactive,
            app.cursor_position == 0,
            app.selected == 0,
            app.new_activity_name@ == Seq::<char>::empty(),
            app.new_activity_frequency == FrequencyType::Invalid,
            app.logs@ == Seq::<char>::empty(),
            app.counter == 0,
            app.listed(),
            app.status_current(),
    {
        let mut app = App::default();
        app.all_activities = store;
        app.clock = clock;
        app.refresh_listing();
        app.refresh_global_status();
        app
    }

    /// Handles the tick event: nothing changes.
    pub fn tick(&mut self)
        ensures
            *final(self) == *old(self),
    {
    }

    /// Stops the session.
    pub fn quit(&mut self)
        ensures
            *final(self) == (App { running: false, ..*old(self) }),
    {
        self.running = false;
    }

    fn move_cursor_left(&mut self, adjustment: usize)
        ensures
            *final(self) == (App {
                cursor_position: clamped(
                    old(self).cursor_position - adjustment,
                    old(self).input@,
                ) as usize,
                ..*old(self)
            }),
    {
        let cursor_moved_left = if self.cursor_position < adjustment {
            0
        } else {
            self.cursor_position - adjustment
        };
        self.cursor_position = self.clamp_cursor(cursor_moved_left);
    }

    fn move_cursor_right(&mut self, adjustment: usize)
        ensures
            *final(self) == (App {
                cursor_position: clamped(
                    old(self).cursor_position + adjustment,
                    old(self).input@,
                ) as usize,
                ..*old(self)
            }),
    {
        let cursor_moved_right = if self.cursor_position > usize::MAX - adjustment {
            usize::MAX
        } else {
            self.cursor_position + adjustment
        };
        self.cursor_position = self.clamp_cursor(cursor_moved_right);
    }

    fn clamp_cursor(&self, new_cursor_pos: usize) -> (pos: usize)
        ensures
            pos == clamped(new_cursor_pos as int, self.input@),
    {
        let bound = self.input.as_str().len();
        if new_cursor_pos > bound {
            bound
        } else {
            new_cursor_pos
        }
    }

    /// Whether `after` is this session with `new_char` typed at the cursor:
    /// the character goes in in its upper-case form and the cursor moves
    /// behind it; a cursor that stands inside a character types nothing.
    pub open spec fn typed(&self, after: &App, new_char: char) -> bool {
        let bytes = encode_utf8(self.input@);
        let cursor = self.cursor_position as int;
        &&& after.all_activities == self.all_activities
        &&& after.same_board(self)
        &&& after.logs == self.logs
        &&& after.running == self.running
        &&& after.input_mode == self.input_mode
        &&& after.selected == self.selected
        &&& after.counter == self.counter
        &&& after.clock == self.clock
        &&& if is_char_boundary(bytes, cursor) {
            &&& encode_utf8(after.input@) == inserted_bytes(bytes, cursor, typed_char(new_char))
            &&& after.cursor_position == clamped(
                cursor + encode_scalar(typed_char(new_char) as u32).len(),
                after.input@,
            )
        } else {
            after.input == self.input && after.cursor_position == self.cursor_position
        }
    }

    /// Types a character at the cursor, in its upper-case form, and moves
    /// the cursor behind it. A cursor that stands inside a character types nothing.
    pub fn enter_char(&mut self, new_char: char)
        ensures
            old(self).typed(final(self), new_char),
    {
        let uppercased_char = match char_uppercase_head(new_char) {
            Some(u) => u,
            None => new_char,
        };
        if self.input.as_str().is_char_boundary(self.cursor_position) {
            insert_char(&mut self.input, self.cursor_position, uppercased_char);
            self.move_cursor_right(char_len(uppercased_char));
        }
    }

    /// Whether `after` is this session with the last character that begins
    /// before the cursor deleted and the cursor moved back by its length.
    /// With the cursor at the start nothing happens; with no text a note is logged.
    pub open spec fn erased(&self, after: &App) -> bool {
        let bytes = encode_utf8(self.input@);
        &&& after.all_activities == self.all_activities
        &&& after.same_board(self)
        &&& after.running == self.running
        &&& after.input_mode == self.input_mode
        &&& after.selected == self.selected
        &&& after.counter == self.counter
        &&& after.clock == self.clock
        &&& if self.cursor_position == 0 {
            *after == *self
        } else if bytes.len() as usize == 0 {
            &&& after.logs@ == "No char at this position!"@
            &&& after.input == self.input
            &&& after.cursor_position == self.cursor_position
        } else {
            exists|c: char|
                {
                    &&& after.logs == self.logs
                    &&& bytes == #[trigger] inserted_bytes(
                        encode_utf8(after.input@),
                        deleted_start(self.input@, self.cursor_position as int),
                        c,
                    )
                    &&& after.cursor_position == clamped(
                        self.cursor_position - encode_scalar(c as u32).len(),
                        after.input@,
                    )
                }
        }
    }

    /// Deletes the last character that begins before the cursor and moves
    /// the cursor back by its length. With the cursor at the start nothing
    /// happens; with no text a note is logged.
    pub fn delete_char(&mut self)
        ensures
            old(self).erased(final(self)),
    {
        if self.cursor_position != 0 {
            let len = self.input.as_str().len();
            if len == 0 {
                self.logs = String::from_str("No char at this position!");
                return ;
            }
            let from_left_to_current_index = self.cursor_position - 1;
            let mut idx: usize = if from_left_to_current_index >= len {
                len - 1
            } else {
                from_left_to_current_index
            };
            let ghost bytes = encode_utf8(self.input@);
            let ghost top = idx as int;
            proof {
                vstd::utf8::encode_utf8_valid_utf8(self.input@);
                vstd::utf8::is_char_boundary_start_end_of_seq(bytes);
            }
            while idx > 0 && !self.input.as_str().is_char_boundary(idx)
                invariant
                    bytes == encode_utf8(self.input@),
                    idx <= top,
                    char_start(bytes, top) == char_start(bytes, idx as int),
                decreases idx,
            {
                idx = idx - 1;
            }
            assert(idx as int == char_start(bytes, top));
            assert(is_char_boundary(bytes, idx as int));
            assert(idx as int == deleted_start(old(self).input@, old(self).cursor_position as int));
            let ch = remove_char(&mut self.input, idx);
            let ghost shorter = self.input@;
            self.move_cursor_left(char_len(ch));
            assert(bytes == inserted_bytes(encode_utf8(shorter), idx as int, ch));
            assert(self.input@ == shorter);
        }
    }

    fn refresh_listing(&mut self)
        requires
            old(self).wf(),
        ensures
            final(self).listed(),
            final(self).all_activities == old(self).all_activities,
            final(self).same_typing(old(self)),
            final(self).logs == old(self).logs,
            final(self).new_activity_name == old(self).new_activity_name,
            final(self).new_activity_frequency == old(self).new_activity_frequency,
            final(self).total_perfect_days == old(self).total_perfect_days,
            final(self).day_status == old(self).day_status,
            final(self).activities_till_perfect_day == old(self).activities_till_perfect_day,
    {
        let today = Day::today(&self.all_activities, &self.clock);
        let (names, marks) = today.today_activities_list();
        self.todays_activities = names;
        self.activities_status = marks;
    }

    /// Brings the status of the day up to date with the store, the clock and the listing.
    pub fn refresh_global_status(&mut self)
        requires
            old(self).wf(),
        ensures
            final(self).status_current(),
            final(self).all_activities == old(self).all_activities,
            final(self).same_typing(old(self)),
            final(self).logs == old(self).logs,
            final(self).todays_activities == old(self).todays_activities,
            final(self).activities_status == old(self).activities_status,
            final(self).new_activity_name == old(self).new_activity_name,
            final(self).new_activity_frequency == old(self).new_activity_frequency,
    {
        self.is_perfect_day_today();
        self.activities_till_perfect_day();
        self.total_perfect_days(-30);
    }

    /// Sets the day's status to whether the clock's today is perfect.
    pub fn is_perfect_day_today(&mut self)
        requires
            old(self).wf(),
        ensures
            *final(self) == (App { day_status: perfect(old(self).today_view()), ..*old(self) }),
    {
        let today = Day::today(&self.all_activities, &self.clock);
        self.day_status = today.is_perfect_day();
    }

    /// Sets the number of activities still to do: none on a perfect day,
    /// else the number of marks in the listing that say "not done".
    pub fn activities_till_perfect_day(&mut self)
        ensures
            *final(self) == (App {
                activities_till_perfect_day: if old(self).day_status {
                    0usize
                } else {
                    pending_marks(old(self).activities_status@) as usize
                },
                ..*old(self)
            }),
            !old(self).day_status ==> final(self).activities_till_perfect_day == pending_marks(
                old(self).activities_status@,
            ),
    {
        if self.day_status {
            self.activities_till_perfect_day = 0;
        } else {
            let pending = String::from_str("[-]");
            let mut count: usize = 0;
            let mut i: usize = 0;
            while i < self.activities_status.len()
                invariant
                    i <= self.activities_status@.len(),
                    count <= i,
                    count == pending_marks(self.activities_status@.take(i as int)),
                    pending@ == "[-]"@,
                decreases self.activities_status@.len() - i,
            {
                assert(self.activities_status@.take(i + 1).drop_last()
                    =~= self.activities_status@.take(i as int));
                if self.activities_status[i] == pending {
                    count = count + 1;
                }
                i = i + 1;
            }
            assert(self.activities_status@.take(i as int) =~= self.activities_status@);
            self.activities_till_perfect_day = count;
        }
    }

    /// Sets the number of perfect days among the days `period`, .., 0 away from today.
    pub fn total_perfect_days(&mut self, period: i64)
        requires
            old(self).wf(),
        ensures
            *final(self) == (App {
                total_perfect_days: perfect_days(
                    old(self).all_activities@,
                    old(self).clock,
                    period as int,
                    0,
                ) as i64,
                ..*old(self)
            }),
            final(self).total_perfect_days == perfect_days(
                old(self).all_activities@,
                old(self).clock,
                period as int,
                0,
            ),
    {
        let count = self.all_activities.perfect_days_in_window(&self.clock, period, 0);
        self.total_perfect_days = count as i64;
    }

    /// Takes the typed text as the name of the activity to add.
    pub fn add_new_activity_name(&mut self)
        ensures
            *final(self) == (App { new_activity_name: old(self).input, ..*old(self) }),
    {
        self.new_activity_name = self.input.clone();
    }

    /// Takes the typed text as the code of the rule of the activity to add;
    /// a text that is no code gives the invalid rule and a note in the log.
    pub fn convert_activity_frequency(&mut self)
        ensures
            final(self).new_activity_frequency == frequency_of_code(old(self).input@),
            final(self).logs@ == if frequency_of_code(old(self).input@) == FrequencyType::Invalid {
                "Invalid frequency. Please enter AW, WD, or WE."@
            } else {
                old(self).logs@
            },
            final(self).all_activities == old(self).all_activities,
            final(self).same_typing(old(self)),
            final(self).todays_activities == old(self).todays_activities,
            final(self).activities_status == old(self).activities_status,
            final(self).new_activity_name == old(self).new_activity_name,
            final(self).total_perfect_days == old(self).total_perfect_days,
            final(self).day_status == old(self).day_status,
            final(self).activities_till_perfect_day == old(self).activities_till_perfect_day,
    {
        if self.input == String::from_str("AW") {
            self.new_activity_frequency = FrequencyType::AllWeek;
        } else if self.input == String::from_str("WD") {
            self.new_activity_frequency = FrequencyType::WorkingDays;
        } else if self.input == String::from_str("WE") {
            self.new_activity_frequency = FrequencyType::WeekEnds;
        } else {
            self.logs = String::from_str("Invalid frequency. Please enter AW, WD, or WE.");
            self.new_activity_frequency = FrequencyType::Invalid;
        }
    }

    /// The record of an activity created now with the pending rule.
    pub open spec fn pending_record(&self) -> ActivityRecord {
        ActivityRecord {
            start: self.clock.now,
            frequency: self.new_activity_frequency,
            completions: Set::empty(),
        }
    }

    /// Whether `after` is this session with the pending activity added to
    /// the store, and `changed` says whether the store changed. On success
    /// the pending name and rule are cleared and the listing and the status
    /// are up to date; a refusal is logged.
    pub open spec fn added(&self, after: &App, changed: bool) -> bool {
        let outcome = add_outcome(
            self.all_activities@,
            self.new_activity_name@,
            self.pending_record(),
        );
        &&& after.wf()
        &&& after.same_typing(self)
        &&& changed == outcome is Ok
        &&& after.all_activities@ == add_store(
            self.all_activities@,
            self.new_activity_name@,
            self.pending_record(),
        )
        &&& match outcome {
            Ok(_) => {
                &&& after.logs@ == "Activity is added!"@
                &&& after.new_activity_name@ == Seq::<char>::empty()
                &&& after.new_activity_frequency == FrequencyType::Invalid
                &&& after.listed()
                &&& after.status_current()
            },
            Err(e) => after.logs@ == error_log(e) && after.same_board(self),
        }
    }

    /// Adds the pending activity to the store and says whether the store
    /// changed. On success the pending name and rule are cleared and the
    /// listing and the status are brought up to date; a refusal is logged.
    pub fn add_new_activity(&mut self) -> (changed: bool)
        requires
            old(self).wf(),
        ensures
            old(self).added(final(self), changed),
    {
        let activity_details = ActivityDetails::new_activity(
            self.new_activity_frequency,
            &self.clock,
        );
        match self.all_activities.add_activity(self.new_activity_name.clone(), activity_details) {
            Ok(_) => {
                self.clear_new_activity_data();
                self.refresh_global_status();
                self.logs = String::from_str("Activity is added!");
                true
            },
            Err(e) => {
                self.logs = String::from_str("Error: ").concat(e.message().as_str());
                false
            },
        }
    }

    fn clear_new_activity_data(&mut self)
        requires
            old(self).wf(),
        ensures
            final(self).listed(),
            final(self).new_activity_name@ == Seq::<char>::empty(),
            final(self).new_activity_frequency == FrequencyType::Invalid,
            final(self).all_activities == old(self).all_activities,
            final(self).same_typing(old(self)),
            final(self).logs == old(self).logs,
            final(self).total_perfect_days == old(self).total_perfect_days,
            final(self).day_status == old(self).day_status,
            final(self).activities_till_perfect_day == old(self).activities_till_perfect_day,
    {
        self.new_activity_name = String::new();
        self.new_activity_frequency = FrequencyType::Invalid;
        self.refresh_listing();
    }

    /// Whether `after` is this session with the listed activity at
    /// `activity_index` marked as done now, and `changed` says whether the
    /// store changed. An index beyond the listing does nothing; a refusal is logged.
    pub open spec fn marked_done(&self, after: &App, activity_index: usize, changed: bool) -> bool {
        &&& after.wf()
        &&& if activity_index >= self.todays_activities@.len() {
            !changed && *after == *self
        } else {
            let name = self.todays_activities@[activity_index as int]@;
            let outcome = done_outcome(self.all_activities@, self.clock, name);
            &&& changed == outcome is Ok
            &&& after.all_activities@ == done_store(self.all_activities@, self.clock, name)
            &&& after.same_typing(self)
            &&& after.new_activity_name == self.new_activity_name
            &&& after.new_activity_frequency == self.new_activity_frequency
            &&& match outcome {
                Ok(_) => {
                    &&& after.logs@ == "Activity is set done!"@
                    &&& after.listed()
                    &&& after.status_current()
                },
                Err(e) => after.logs@ == error_log(e) && after.same_board(self),
            }
        }
    }

    /// Marks the listed activity at `activity_index` as done now and says
    /// whether the store changed. An index beyond the listing does nothing;
    /// a refusal is logged.
    pub fn set_activity_done(&mut self, activity_index: usize) -> (changed: bool)
        requires
            old(self).wf(),
        ensures
            old(self).marked_done(final(self), activity_index, changed),
    {
        if activity_index < self.todays_activities.len() {
            let activity = self.todays_activities[activity_index].clone();
            match self.all_activities.set_activity_done(&self.clock, activity) {
                Ok(_) => {
                    self.logs = String::from_str("Activity is set done!");
                    self.refresh_listing();
                    self.refresh_global_status();
                    true
                },
                Err(e) => {
                    self.logs = String::from_str("Error: ").concat(e.message().as_str());
                    false
                },
            }
        } else {
            false
        }
    }

    /// Whether `after` is this session with the listed activity at
    /// `activity_index` removed from the store, and `changed` says whether a
    /// removal was made. An index beyond the listing does nothing.
    pub open spec fn removed(&self, after: &App, activity_index: usize, changed: bool) -> bool {
        &&& after.wf()
        &&& changed == (activity_index < self.todays_activities@.len())
        &&& if changed {
            &&& after.all_activities@ == self.all_activities@.remove(
                self.todays_activities@[activity_index as int]@,
            )
            &&& after.logs@ == "Activity is removed!"@
            &&& after.listed()
            &&& after.status_current()
            &&& after.same_typing(self)
            &&& after.new_activity_name == self.new_activity_name
            &&& after.new_activity_frequency == self.new_activity_frequency
        } else {
            *after == *self
        }
    }

    /// Removes the listed activity at `activity_index` from the store and
    /// says whether a removal was made. An index beyond the listing does nothing.
    pub fn remove_activity(&mut self, activity_index: usize) -> (changed: bool)
        requires
            old(self).wf(),
        ensures
            old(self).removed(final(self), activity_index, changed),
    {
        if activity_index < self.todays_activities.len() {
            let activity = self.todays_activities[activity_index].clone();
            let _ = self.all_activities.remove_activity(activity);
            self.logs = String::from_str("Activity is removed!");
            self.refresh_listing();
            self.refresh_global_status();
            true
        } else {
            false
        }
    }
}

} // verus!

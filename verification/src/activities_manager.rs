//! The store of activities, and the view of one calendar day that is derived from it.

use crate::text::{
    lemma_lex_lt_total, lemma_lex_lt_transitive, lex_lt, string_lt, to_uppercase, uppercase_of,
};
use crate::time_utils::{
    is_timestamp_on_day, MAX_DAY_NUMBER, MIN_DAY_NUMBER, on_day, target_day, todays_weekday,
    weekday_at, Clock,
};
use vstd::prelude::*;
use vstd::string::StringExecFns;

verus! {

/// The days of the week on which an activity is due.
#[derive(Debug, PartialEq, Eq, Structural, Hash, Clone, Copy)]
pub enum FrequencyType {
    AllWeek,
    WorkingDays,
    WeekEnds,
    Invalid,
}

/// Why the store refused an operation.
#[derive(Debug, PartialEq, Eq, Structural, Clone, Copy)]
pub enum ActivityError {
    InvalidRecurrence,
    AlreadyExists,
    NotFound,
    AlreadyDone,
}

/// What the store holds of one activity.
pub struct ActivityRecord {
    pub start: i64,
    pub frequency: FrequencyType,
    pub completions: Set<i64>,
}

/// Whether an activity with this rule is due on a day with this ISO weekday
/// number. Nothing is due on a day that has no weekday.
pub open spec fn scheduled(frequency: FrequencyType, weekday: Option<u32>) -> bool {
    match weekday {
        Some(w) => frequency == FrequencyType::AllWeek || (w >= 6 && frequency
            == FrequencyType::WeekEnds) || (w < 6 && frequency == FrequencyType::WorkingDays),
        None => false,
    }
}

/// Whether some completion of the record falls on the day `adjustment` days away from today.
pub open spec fn completed_on_day(record: ActivityRecord, clock: Clock, adjustment: i64) -> bool {
    exists|t: i64| #[trigger] record.completions.contains(t) && on_day(clock, t, adjustment)
}

/// The record after one more completion at instant `t`.
pub open spec fn with_completion(record: ActivityRecord, t: i64) -> ActivityRecord {
    ActivityRecord {
        start: record.start,
        frequency: record.frequency,
        completions: record.completions.insert(t),
    }
}

/// What adding an activity under `name` answers.
pub open spec fn add_outcome(
    store: Map<Seq<char>, ActivityRecord>,
    name: Seq<char>,
    activity: ActivityRecord,
) -> Result<(), ActivityError> {
    if activity.frequency == FrequencyType::Invalid {
        Err(ActivityError::InvalidRecurrence)
    } else if store.dom().contains(uppercase_of(name)) {
        Err(ActivityError::AlreadyExists)
    } else {
        Ok(())
    }
}

/// The store after adding an activity under `name`.
pub open spec fn add_store(
    store: Map<Seq<char>, ActivityRecord>,
    name: Seq<char>,
    activity: ActivityRecord,
) -> Map<Seq<char>, ActivityRecord> {
    if add_outcome(store, name, activity) is Ok {
        store.insert(uppercase_of(name), activity)
    } else {
        store
    }
}

/// What marking the activity `name` as done at the clock's instant answers.
pub open spec fn done_outcome(
    store: Map<Seq<char>, ActivityRecord>,
    clock: Clock,
    name: Seq<char>,
) -> Result<(), ActivityError> {
    if !store.dom().contains(name) {
        Err(ActivityError::NotFound)
    } else if completed_on_day(store[name], clock, 0) {
        Err(ActivityError::AlreadyDone)
    } else {
        Ok(())
    }
}

/// The store after marking the activity `name` as done at the clock's instant.
pub open spec fn done_store(
    store: Map<Seq<char>, ActivityRecord>,
    clock: Clock,
    name: Seq<char>,
) -> Map<Seq<char>, ActivityRecord> {
    if done_outcome(store, clock, name) is Ok {
        store.insert(name, with_completion(store[name], clock.now))
    } else {
        store
    }
}

/// The view of the day `adjustment` days away from today: the activities due
/// on it, each with whether it was completed on it.
pub open spec fn day_view(
    store: Map<Seq<char>, ActivityRecord>,
    clock: Clock,
    adjustment: i64,
) -> Map<Seq<char>, bool> {
    Map::new(
        |k: Seq<char>|
            store.dom().contains(k) && scheduled(store[k].frequency, weekday_at(clock, adjustment)),
        |k: Seq<char>| completed_on_day(store[k], clock, adjustment),
    )
}

/// A day is perfect when something is due on it and all that is due is done.
pub open spec fn perfect(day: Map<Seq<char>, bool>) -> bool {
    (exists|k: Seq<char>| day.dom().contains(k)) && (forall|k: Seq<char>|
        day.dom().contains(k) ==> day[k])
}

/// The activities of a day that are due and not done.
pub open spec fn pending(day: Map<Seq<char>, bool>) -> Set<Seq<char>> {
    Set::new(|k: Seq<char>| day.dom().contains(k) && !day[k])
}

/// How many of the days `start`, .., `end` away from today are perfect.
pub open spec fn perfect_days(
    store: Map<Seq<char>, ActivityRecord>,
    clock: Clock,
    start: int,
    end: int,
) -> nat
    decreases end - start + 1,
{
    if start > end || !(i64::MIN <= end <= i64::MAX) {
        0
    } else {
        perfect_days(store, clock, start, end - 1) + if perfect(
            day_view(store, clock, end as i64),
        ) {
            1nat
        } else {
            0nat
        }
    }
}

/// The place of a name in a list of names.
spec fn position(names: Seq<Seq<char>>, k: Seq<char>) -> int {
    choose|i: int| 0 <= i < names.len() && names[i] == k
}

proof fn lemma_position(names: Seq<Seq<char>>, i: int)
    requires
        names.no_duplicates(),
        0 <= i < names.len(),
    ensures
        position(names, names[i]) == i,
{
}

impl ActivityError {
    /// The text shown for this refusal.
    pub open spec fn message_text(self) -> Seq<char> {
        match self {
            ActivityError::InvalidRecurrence => "Wrong Frequency Type"@,
            ActivityError::AlreadyExists => "Activity Already Exists"@,
            ActivityError::NotFound => "Activity not found."@,
            ActivityError::AlreadyDone => "Already Done!"@,
        }
    }

    /// The text shown for this refusal.
    pub fn message(&self) -> (text: String)
        ensures
            text@ == self.message_text(),
    {
        match self {
            ActivityError::InvalidRecurrence => String::from_str("Wrong Frequency Type"),
            ActivityError::AlreadyExists => String::from_str("Activity Already Exists"),
            ActivityError::NotFound => String::from_str("Activity not found."),
            ActivityError::AlreadyDone => String::from_str("Already Done!"),
        }
    }
}

/// One tracked activity: its rule, when it was created, and the instants at
/// which it was completed, none of them twice.
#[derive(Debug)]
pub struct ActivityDetails {
    start: i64,
    frequency: FrequencyType,
    completion_timestamps: Vec<i64>,
}

impl View for ActivityDetails {
    type V = ActivityRecord;

    closed spec fn view(&self) -> ActivityRecord {
        ActivityRecord {
            start: self.start,
            frequency: self.frequency,
            completions: Set::new(|t: i64| self.completion_timestamps@.contains(t)),
        }
    }
}

fn holds_timestamp(timestamps: &Vec<i64>, t: i64) -> (r: bool)
    ensures
        r == timestamps@.contains(t),
{
    let mut i: usize = 0;
    while i < timestamps.len()
        invariant
            i <= timestamps.len(),
            forall|j: int| 0 <= j < i ==> timestamps@[j] != t,
        decreases timestamps.len() - i,
    {
        if timestamps[i] == t {
            return true;
        }
        i = i + 1;
    }
    false
}

impl ActivityDetails {
    /// No completion instant is held twice.
    pub closed spec fn wf(&self) -> bool {
        self.completion_timestamps@.no_duplicates()
    }

    /// An activity created at the clock's instant, never completed yet.
    pub fn new_activity(frequency: FrequencyType, clock: &Clock) -> (activity: ActivityDetails)
        ensures
            activity.wf(),
            activity@ == (ActivityRecord {
                start: clock.now,
                frequency,
                completions: Set::empty(),
            }),
    {
        let activity = ActivityDetails {
            start: clock.now,
            frequency,
            completion_timestamps: Vec::new(),
        };
        assert(activity@.completions =~= Set::empty());
        activity
    }

    /// An activity with the given history; an instant listed twice counts once.
    pub fn from_parts(start: i64, frequency: FrequencyType, completions: &Vec<i64>) -> (activity:
        ActivityDetails)
        ensures
            activity.wf(),
            activity@.start == start,
            activity@.frequency == frequency,
            forall|t: i64| activity@.completions.contains(t) == completions@.contains(t),
    {
        let mut kept: Vec<i64> = Vec::new();
        let mut i: usize = 0;
        while i < completions.len()
            invariant
                i <= completions.len(),
                kept@.no_duplicates(),
                forall|t: i64|
                    kept@.contains(t) == (exists|j: int| 0 <= j < i && completions@[j] == t),
            decreases completions.len() - i,
        {
            let t: i64 = completions[i];
            let ghost before = kept@;
            if !holds_timestamp(&kept, t) {
                kept.push(t);
                assert(kept@[before.len() as int] == t);
            }
            assert forall|u: i64|
                kept@.contains(u) == (exists|j: int| 0 <= j < i + 1 && completions@[j] == u) by {
                if kept@.contains(u) {
                    let p = choose|p: int| 0 <= p < kept@.len() && kept@[p] == u;
                    if p < before.len() {
                        assert(before[p] == u);
                        assert(before.contains(u));
                    } else {
                        assert(completions@[i as int] == u);
                    }
                }
                if exists|j: int| 0 <= j < i + 1 && completions@[j] == u {
                    let j = choose|j: int| 0 <= j < i + 1 && completions@[j] == u;
                    if j < i {
                        assert(before.contains(u));
                        let p = choose|p: int| 0 <= p < before.len() && before[p] == u;
                        assert(kept@[p] == u);
                    } else if before.contains(u) {
                        let p = choose|p: int| 0 <= p < before.len() && before[p] == u;
                        assert(kept@[p] == u);
                    }
                }
            }
            i = i + 1;
        }
        ActivityDetails { start, frequency, completion_timestamps: kept }
    }

    /// The instant at which the activity was created.
    pub fn start(&self) -> (start: i64)
        ensures
            start == self@.start,
    {
        self.start
    }

    /// The rule of the activity.
    pub fn frequency(&self) -> (frequency: FrequencyType)
        ensures
            frequency == self@.frequency,
    {
        self.frequency
    }

    /// The instants at which the activity was completed, each once.
    pub fn completions(&self) -> (list: Vec<i64>)
        requires
            self.wf(),
        ensures
            list@.no_duplicates(),
            forall|t: i64| list@.contains(t) == self@.completions.contains(t),
    {
        let mut list: Vec<i64> = Vec::new();
        let mut i: usize = 0;
        while i < self.completion_timestamps.len()
            invariant
                i <= self.completion_timestamps.len(),
                list@ == self.completion_timestamps@.take(i as int),
            decreases self.completion_timestamps.len() - i,
        {
            list.push(self.completion_timestamps[i]);
            assert(list@ =~= self.completion_timestamps@.take(i + 1));
            i = i + 1;
        }
        assert(list@ =~= self.completion_timestamps@);
        list
    }

    /// A copy made from the activity's plain values: it stands for the same record.
    pub fn duplicate(&self) -> (copy: ActivityDetails)
        requires
            self.wf(),
        ensures
            copy.wf(),
            copy@ == self@,
    {
        let list = self.completions();
        let copy = ActivityDetails::from_parts(self.start(), self.frequency(), &list);
        assert forall|t: i64| copy@.completions.contains(t) == self@.completions.contains(t) by {
            assert(copy@.completions.contains(t) == list@.contains(t));
            assert(list@.contains(t) == self@.completions.contains(t));
        }
        assert(copy@.completions =~= self@.completions);
        copy
    }

    /// Whether the activity was completed on the day `adjustment` days away from today.
    pub fn completed_on(&self, clock: &Clock, adjustment: i64) -> (done: bool)
        ensures
            done == completed_on_day(self@, *clock, adjustment),
    {
        let mut i: usize = 0;
        while i < self.completion_timestamps.len()
            invariant
                i <= self.completion_timestamps.len(),
                forall|j: int|
                    0 <= j < i ==> !on_day(*clock, #[trigger] self.completion_timestamps@[j], adjustment),
            decreases self.completion_timestamps.len() - i,
        {
            if is_timestamp_on_day(clock, self.completion_timestamps[i], adjustment) {
                assert(self@.completions.contains(self.completion_timestamps@[i as int]));
                return true;
            }
            i = i + 1;
        }
        false
    }

    fn record(&mut self, t: i64)
        requires
            old(self).wf(),
        ensures
            final(self).wf(),
            final(self)@ == with_completion(old(self)@, t),
    {
        let ghost before = self.completion_timestamps@;
        if !holds_timestamp(&self.completion_timestamps, t) {
            self.completion_timestamps.push(t);
            assert(self.completion_timestamps@[before.len() as int] == t);
        }
        assert forall|u: i64|
            self.completion_timestamps@.contains(u) == (before.contains(u) || u == t) by {
            if before.contains(u) {
                let p = choose|p: int| 0 <= p < before.len() && before[p] == u;
                assert(self.completion_timestamps@[p] == u);
            }
        }
        assert(self@.completions =~= old(self)@.completions.insert(t));
    }
}

/// One entry of the store: an activity under its name.
#[derive(Debug)]
struct Activity {
    name: String,
    details: ActivityDetails,
}

/// The store: activities by name, no name twice.
#[derive(Debug)]
pub struct AllActivities {
    activities: Vec<Activity>,
}

impl View for AllActivities {
    type V = Map<Seq<char>, ActivityRecord>;

    closed spec fn view(&self) -> Map<Seq<char>, ActivityRecord> {
        Map::new(
            |k: Seq<char>| self.names().contains(k),
            |k: Seq<char>| self.activities@[position(self.names(), k)].details@,
        )
    }
}

impl AllActivities {
    /// The names in the store, in the order in which it holds them.
    pub closed spec fn names(&self) -> Seq<Seq<char>> {
        Seq::new(self.activities@.len(), |i: int| self.activities@[i].name@)
    }

    /// No name occurs twice, every activity is well formed, and none has the invalid rule.
    pub closed spec fn wf(&self) -> bool {
        &&& self.names().no_duplicates()
        &&& forall|i: int|
            0 <= i < self.activities@.len() ==> (#[trigger] self.activities@[i]).details.wf()
                && self.activities@[i].details@.frequency != FrequencyType::Invalid
    }

    /// A well-formed store holds no activity with the invalid rule.
    pub proof fn lemma_rules_valid(&self, name: Seq<char>)
        requires
            self.wf(),
            self@.dom().contains(name),
        ensures
            self@[name].frequency != FrequencyType::Invalid,
    {
        self.lemma_key(name);
    }

    proof fn lemma_entry(&self, i: int)
        requires
            self.wf(),
            0 <= i < self.activities@.len(),
        ensures
            self@.dom().contains(self.activities@[i].name@),
            self@[self.activities@[i].name@] == self.activities@[i].details@,
            position(self.names(), self.activities@[i].name@) == i,
    {
        assert(self.names()[i] == self.activities@[i].name@);
        lemma_position(self.names(), i);
    }

    proof fn lemma_key(&self, k: Seq<char>)
        requires
            self@.dom().contains(k),
        ensures
            0 <= position(self.names(), k) < self.activities@.len(),
            self.activities@[position(self.names(), k)].name@ == k,
            self@[k] == self.activities@[position(self.names(), k)].details@,
    {
        let i = choose|i: int| 0 <= i < self.names().len() && self.names()[i] == k;
        assert(self.names()[i] == k);
    }

    /// A store with no activity in it.
    pub fn new() -> (store: AllActivities)
        ensures
            store.wf(),
            store@ == Map::<Seq<char>, ActivityRecord>::empty(),
            store.names() == Seq::<Seq<char>>::empty(),
    {
        let store = AllActivities { activities: Vec::new() };
        assert(store@ =~= Map::<Seq<char>, ActivityRecord>::empty());
        assert(store.names() =~= Seq::<Seq<char>>::empty());
        store
    }

    fn find(&self, name: &String) -> (found: Option<usize>)
        ensures
            match found {
                Some(i) => i < self.activities@.len() && self.activities@[i as int].name@ == name@
                    && self.names().contains(name@),
                None => !self.names().contains(name@),
            },
    {
        let mut i: usize = 0;
        while i < self.activities.len()
            invariant
                i <= self.activities.len(),
                forall|j: int| 0 <= j < i ==> self.names()[j] != name@,
            decreases self.activities.len() - i,
        {
            if self.activities[i].name == *name {
                assert(self.names()[i as int] == name@);
                return Some(i);
            }
            assert(self.names()[i as int] == self.activities@[i as int].name@);
            i = i + 1;
        }
        None
    }

    /// Whether an activity is stored under exactly this name.
    pub fn is_in_activities(&self, name: String) -> (found: bool)
        ensures
            found == self@.dom().contains(name@),
    {
        self.find(&name).is_some()
    }

    /// How many activities the store holds.
    pub fn len(&self) -> (n: usize)
        ensures
            n == self.names().len(),
    {
        self.activities.len()
    }

    /// The name of the `i`-th activity.
    pub fn name_at(&self, i: usize) -> (name: &String)
        requires
            i < self.names().len(),
        ensures
            name@ == self.names()[i as int],
            self@.dom().contains(name@),
    {
        assert(self.names()[i as int] == self.activities@[i as int].name@);
        &self.activities[i].name
    }

    /// The `i`-th activity.
    pub fn details_at(&self, i: usize) -> (details: &ActivityDetails)
        requires
            self.wf(),
            i < self.names().len(),
        ensures
            details.wf(),
            details@ == self@[self.names()[i as int]],
    {
        proof {
            self.lemma_entry(i as int);
        }
        &self.activities[i].details
    }

    /// Puts an activity into the store under exactly this name, unless the
    /// name is taken or the rule is invalid; says whether it did.
    pub fn restore(&mut self, name: String, activity: ActivityDetails) -> (stored: bool)
        requires
            old(self).wf(),
            activity.wf(),
        ensures
            final(self).wf(),
            stored == (activity@.frequency != FrequencyType::Invalid && !old(self)@.dom().contains(
                name@,
            )),
            final(self)@ == if stored {
                old(self)@.insert(name@, activity@)
            } else {
                old(self)@
            },
    {
        match activity.frequency {
            FrequencyType::Invalid => {
                return false;
            },
            _ => {},
        }
        if self.find(&name).is_some() {
            return false;
        }
        let ghost key = name@;
        let ghost record = activity@;
        self.activities.push(Activity { name, details: activity });
        proof {
            let n = old(self).activities@.len() as int;
            assert(self.names() =~= old(self).names().push(key));
            assert(self.names().no_duplicates());
            assert(self.wf());
            assert forall|k: Seq<char>|
                self@.dom().contains(k) == old(self)@.insert(key, record).dom().contains(k) by {
                if old(self)@.dom().contains(k) {
                    old(self).lemma_key(k);
                    assert(self.names()[position(old(self).names(), k)] == k);
                }
                if k == key {
                    assert(self.names()[n] == k);
                }
            }
            assert forall|k: Seq<char>| self@.dom().contains(k) implies self@[k] == old(
                self,
            )@.insert(key, record)[k] by {
                if k == key {
                    self.lemma_entry(n);
                } else {
                    old(self).lemma_key(k);
                    self.lemma_entry(position(old(self).names(), k));
                }
            }
            assert(self@ =~= old(self)@.insert(key, record));
        }
        true
    }

    /// Adds an activity under the upper-case form of `activity_name`. An
    /// invalid rule is refused first, then a name that is already taken.
    pub fn add_activity(&mut self, activity_name: String, activity: ActivityDetails) -> (res:
        Result<(), ActivityError>)
        requires
            old(self).wf(),
            activity.wf(),
        ensures
            final(self).wf(),
            res == add_outcome(old(self)@, activity_name@, activity@),
            final(self)@ == add_store(old(self)@, activity_name@, activity@),
    {
        match activity.frequency {
            FrequencyType::Invalid => {
                return Err(ActivityError::InvalidRecurrence);
            },
            _ => {},
        }
        let key = to_uppercase(activity_name.as_str());
        if self.restore(key, activity) {
            Ok(())
        } else {
            Err(ActivityError::AlreadyExists)
        }
    }

    /// Removes the activity stored under exactly this name, if there is one.
    pub fn remove_activity(&mut self, activity_name: String) -> (res: Result<(), ActivityError>)
        requires
            old(self).wf(),
        ensures
            final(self).wf(),
            res is Ok,
            final(self)@ == old(self)@.remove(activity_name@),
    {
        match self.find(&activity_name) {
            Some(i) => {
                self.activities.remove(i);
                proof {
                    let at = i as int;
                    assert(self.names() =~= old(self).names().remove(at));
                    assert(old(self).names()[at] == activity_name@);
                    assert forall|a: int, b: int|
                        0 <= a < self.names().len() && 0 <= b < self.names().len() && a
                            != b implies self.names()[a] != self.names()[b] by {
                        let a0 = if a < at { a } else { a + 1 };
                        let b0 = if b < at { b } else { b + 1 };
                        assert(self.names()[a] == old(self).names()[a0]);
                        assert(self.names()[b] == old(self).names()[b0]);
                    }
                    assert forall|j: int| 0 <= j < self.activities@.len() implies (
                    #[trigger] self.activities@[j]).details.wf() && self.activities@[j].details@.frequency
                        != FrequencyType::Invalid by {
                        let j0 = if j < at { j } else { j + 1 };
                        assert(self.activities@[j] == old(self).activities@[j0]);
                    }
                    assert(self.wf());
                    assert forall|k: Seq<char>|
                        self@.dom().contains(k) == old(self)@.remove(activity_name@).dom().contains(
                            k,
                        ) by {
                        if self@.dom().contains(k) {
                            self.lemma_key(k);
                            let j = position(self.names(), k);
                            let j0 = if j < at { j } else { j + 1 };
                            assert(old(self).names()[j0] == k);
                        }
                        if old(self)@.dom().contains(k) && k != activity_name@ {
                            old(self).lemma_key(k);
                            let j0 = position(old(self).names(), k);
                            let j = if j0 < at { j0 } else { j0 - 1 };
                            assert(self.names()[j] == k);
                        }
                    }
                    assert forall|k: Seq<char>| self@.dom().contains(k) implies self@[k] == old(
                        self,
                    )@.remove(activity_name@)[k] by {
                        self.lemma_key(k);
                        let j = position(self.names(), k);
                        let j0 = if j < at { j } else { j + 1 };
                        assert(self.activities@[j] == old(self).activities@[j0]);
                        old(self).lemma_entry(j0);
                    }
                    assert(self@ =~= old(self)@.remove(activity_name@));
                }
            },
            None => {
                assert(self@ =~= old(self)@.remove(activity_name@));
            },
        }
        Ok(())
    }

    /// Whether the activity stored under this name was completed on the day
    /// `adjustment` days away from today; false where no such activity is stored.
    pub fn is_activity_completed_on_day(
        &self,
        clock: &Clock,
        activity_name: String,
        adjustment: i64,
    ) -> (done: bool)
        requires
            self.wf(),
        ensures
            done == (self@.dom().contains(activity_name@) && completed_on_day(
                self@[activity_name@],
                *clock,
                adjustment,
            )),
    {
        match self.find(&activity_name) {
            Some(i) => {
                proof {
                    self.lemma_entry(i as int);
                }
                self.activities[i].details.completed_on(clock, adjustment)
            },
            None => false,
        }
    }

    /// Records a completion of the activity at the clock's instant, unless
    /// the activity is unknown or already has a completion on the clock's today.
    pub fn set_activity_done(&mut self, clock: &Clock, activity_name: String) -> (res: Result<
        (),
        ActivityError,
    >)
        requires
            old(self).wf(),
        ensures
            final(self).wf(),
            res == done_outcome(old(self)@, *clock, activity_name@),
            final(self)@ == done_store(old(self)@, *clock, activity_name@),
    {
        match self.find(&activity_name) {
            None => Err(ActivityError::NotFound),
            Some(i) => {
                proof {
                    self.lemma_entry(i as int);
                }
                if self.activities[i].details.completed_on(clock, 0) {
                    return Err(ActivityError::AlreadyDone);
                }
                let mut entry = self.activities.remove(i);
                entry.details.record(clock.now);
                let ghost updated = entry.details@;
                self.activities.insert(i, entry);
                proof {
                    let at = i as int;
                    assert(self.names() =~= old(self).names());
                    assert forall|j: int| 0 <= j < self.activities@.len() implies (
                    #[trigger] self.activities@[j]).details.wf() && self.activities@[j].details@.frequency
                        != FrequencyType::Invalid by {
                        if j != at {
                            assert(self.activities@[j] == old(self).activities@[j]);
                        }
                    }
                    assert(self.wf());
                    assert forall|k: Seq<char>| self@.dom().contains(k) implies self@[k] == old(
                        self,
                    )@.insert(activity_name@, updated)[k] by {
                        self.lemma_key(k);
                        let j = position(self.names(), k);
                        if j != at {
                            assert(self.activities@[j] == old(self).activities@[j]);
                            old(self).lemma_entry(j);
                        }
                    }
                    assert(self@ =~= old(self)@.insert(activity_name@, updated));
                }
                Ok(())
            },
        }
    }
}

/// One line of a day: an activity that is due, and whether it is done.
#[derive(Debug)]
struct DayEntry {
    name: String,
    done: bool,
}

/// The view of one calendar day: the activities due on it, no name twice,
/// each with whether it was completed on that day.
#[derive(Debug)]
pub struct Day {
    activities: Vec<DayEntry>,
}

/// The mark shown beside an activity of a day.
pub open spec fn status_text(done: bool) -> Seq<char> {
    if done {
        "[+]"@
    } else {
        "[-]"@
    }
}

/// Whether `names` lists the activities of `day`, each once and in ascending
/// ordinal order, and `marks` holds beside each name the mark of its activity.
pub open spec fn is_listing(names: Seq<String>, marks: Seq<String>, day: Map<Seq<char>, bool>) -> bool {
    &&& names.len() == marks.len()
    &&& forall|a: int, b: int| 0 <= a < b < names.len() ==> lex_lt(names[a]@, names[b]@)
    &&& forall|j: int|
        0 <= j < names.len() ==> day.dom().contains((#[trigger] names[j])@) && marks[j]@
            == status_text(day[names[j]@])
    &&& forall|k: Seq<char>|
        day.dom().contains(k) ==> exists|j: int| 0 <= j < names.len() && (#[trigger] names[j])@ == k
}

spec fn entry_names(list: Seq<DayEntry>) -> Seq<Seq<char>> {
    Seq::new(list.len(), |i: int| list[i].name@)
}

spec fn text_views(list: Seq<String>) -> Seq<Seq<char>> {
    Seq::new(list.len(), |i: int| list[i]@)
}

impl View for Day {
    type V = Map<Seq<char>, bool>;

    closed spec fn view(&self) -> Map<Seq<char>, bool> {
        Map::new(
            |k: Seq<char>| self.names().contains(k),
            |k: Seq<char>| self.activities@[position(self.names(), k)].done,
        )
    }
}

impl Day {
    /// The names of the day, in the order in which it holds them.
    pub closed spec fn names(&self) -> Seq<Seq<char>> {
        entry_names(self.activities@)
    }

    /// No name occurs twice.
    pub closed spec fn wf(&self) -> bool {
        self.names().no_duplicates()
    }

    proof fn lemma_entry(&self, i: int)
        requires
            self.wf(),
            0 <= i < self.activities@.len(),
        ensures
            self@.dom().contains(self.activities@[i].name@),
            self@[self.activities@[i].name@] == self.activities@[i].done,
            position(self.names(), self.activities@[i].name@) == i,
    {
        assert(self.names()[i] == self.activities@[i].name@);
        lemma_position(self.names(), i);
    }

    proof fn lemma_key(&self, k: Seq<char>)
        requires
            self@.dom().contains(k),
        ensures
            0 <= position(self.names(), k) < self.activities@.len(),
            self.activities@[position(self.names(), k)].name@ == k,
            self@[k] == self.activities@[position(self.names(), k)].done,
    {
        let i = choose|i: int| 0 <= i < self.names().len() && self.names()[i] == k;
        assert(self.names()[i] == k);
    }

    /// The view of the clock's today.
    pub fn today(store: &AllActivities, clock: &Clock) -> (day: Day)
        requires
            store.wf(),
        ensures
            day.wf(),
            day@ == day_view(store@, *clock, 0),
    {
        Self::get_day(store, clock, 0)
    }

    /// The two rules whose activities are due on the day `adjustment` days
    /// away from today; none where that day has no weekday.
    pub fn day_types_to_show(clock: &Clock, adjustment: i64) -> (types: Option<
        (FrequencyType, FrequencyType),
    >)
        ensures
            types == match weekday_at(*clock, adjustment) {
                Some(w) => Some(
                    (
                        FrequencyType::AllWeek,
                        if w >= 6 {
                            FrequencyType::WeekEnds
                        } else {
                            FrequencyType::WorkingDays
                        },
                    ),
                ),
                None => None,
            },
            types is Some <==> (target_day(*clock, adjustment) matches Some(d) && MIN_DAY_NUMBER
                <= d <= MAX_DAY_NUMBER),
            forall|f: FrequencyType|
                scheduled(f, weekday_at(*clock, adjustment)) == (types matches Some(t) && (f == t.0
                    || f == t.1)),
    {
        match todays_weekday(clock, adjustment) {
            Some(weekday) => {
                if weekday >= 6 {
                    Some((FrequencyType::AllWeek, FrequencyType::WeekEnds))
                } else {
                    Some((FrequencyType::AllWeek, FrequencyType::WorkingDays))
                }
            },
            None => None,
        }
    }

    /// The view of the day `adjustment` days away from today.
    pub fn get_day(store: &AllActivities, clock: &Clock, adjustment: i64) -> (day: Day)
        requires
            store.wf(),
        ensures
            day.wf(),
            day@ == day_view(store@, *clock, adjustment),
    {
        let mut list: Vec<DayEntry> = Vec::new();
        let ghost weekday = weekday_at(*clock, adjustment);
        match Self::day_types_to_show(clock, adjustment) {
            Some(types) => {
                let mut i: usize = 0;
                while i < store.activities.len()
                    invariant
                        store.wf(),
                        i <= store.activities@.len(),
                        weekday == weekday_at(*clock, adjustment),
                        forall|f: FrequencyType|
                            scheduled(f, weekday) == (f == types.0 || f == types.1),
                        entry_names(list@).no_duplicates(),
                        forall|j: int|
                            0 <= j < list@.len() ==> {
                                let p = position(store.names(), (#[trigger] list@[j]).name@);
                                &&& 0 <= p < i
                                &&& store.activities@[p].name@ == list@[j].name@
                                &&& scheduled(store.activities@[p].details@.frequency, weekday)
                                &&& list@[j].done == completed_on_day(
                                    store.activities@[p].details@,
                                    *clock,
                                    adjustment,
                                )
                            },
                        forall|p: int|
                            0 <= p < i && scheduled(
                                (#[trigger] store.activities@[p]).details@.frequency,
                                weekday,
                            ) ==> entry_names(list@).contains(store.activities@[p].name@),
                    decreases store.activities@.len() - i,
                {
                    let entry = &store.activities[i];
                    let frequency = entry.details.frequency;
                    let ghost before = list@;
                    proof {
                        store.lemma_entry(i as int);
                    }
                    if frequency == types.0 || frequency == types.1 {
                        let done = entry.details.completed_on(clock, adjustment);
                        list.push(DayEntry { name: entry.name.clone(), done });
                        proof {
                            let n = before.len() as int;
                            assert(list@[n].name@ == entry.name@);
                            assert(entry_names(list@) =~= entry_names(before).push(entry.name@));
                            assert forall|j: int| 0 <= j < n implies entry_names(before)[j]
                                != entry.name@ by {
                                assert(before[j] == list@[j]);
                                let p = position(store.names(), before[j].name@);
                                assert(store.names()[p] == before[j].name@);
                                assert(store.names()[i as int] == entry.name@);
                            }
                            assert(entry_names(list@).no_duplicates());
                            assert forall|j: int| 0 <= j < list@.len() implies {
                                let p = position(store.names(), (#[trigger] list@[j]).name@);
                                &&& 0 <= p < i + 1
                                &&& store.activities@[p].name@ == list@[j].name@
                                &&& scheduled(store.activities@[p].details@.frequency, weekday)
                                &&& list@[j].done == completed_on_day(
                                    store.activities@[p].details@,
                                    *clock,
                                    adjustment,
                                )
                            } by {
                                if j < n {
                                    assert(before[j] == list@[j]);
                                }
                            }
                            assert forall|p: int|
                                0 <= p < i + 1 && scheduled(
                                    (#[trigger] store.activities@[p]).details@.frequency,
                                    weekday,
                                ) implies entry_names(list@).contains(
                                store.activities@[p].name@,
                            ) by {
                                if p < i {
                                    let k = store.activities@[p].name@;
                                    assert(entry_names(before).contains(k));
                                    let j = choose|j: int|
                                        0 <= j < entry_names(before).len() && entry_names(before)[j]
                                            == k;
                                    assert(entry_names(list@)[j] == k);
                                } else {
                                    assert(entry_names(list@)[n] == entry.name@);
                                }
                            }
                        }
                    }
                    i = i + 1;
                }
                let day = Day { activities: list };
                proof {
                    let want = day_view(store@, *clock, adjustment);
                    assert forall|k: Seq<char>| day@.dom().contains(k) == want.dom().contains(
                        k,
                    ) by {
                        if day@.dom().contains(k) {
                            day.lemma_key(k);
                            let j = position(day.names(), k);
                            let p = position(store.names(), list@[j].name@);
                            store.lemma_entry(p);
                        }
                        if want.dom().contains(k) {
                            store.lemma_key(k);
                        }
                    }
                    assert forall|k: Seq<char>| day@.dom().contains(k) implies day@[k]
                        == want[k] by {
                        day.lemma_key(k);
                        let j = position(day.names(), k);
                        let p = position(store.names(), list@[j].name@);
                        store.lemma_entry(p);
                    }
                    assert(day@ =~= want);
                }
                day
            },
            None => {
                let day = Day { activities: list };
                assert(day@ =~= day_view(store@, *clock, adjustment));
                day
            },
        }
    }

    /// Whether something is due on the day and all that is due is done.
    pub fn is_perfect_day(&self) -> (res: bool)
        requires
            self.wf(),
        ensures
            res == perfect(self@),
    {
        if self.activities.len() == 0 {
            assert forall|k: Seq<char>| !self@.dom().contains(k) by {
                if self@.dom().contains(k) {
                    self.lemma_key(k);
                }
            }
            return false;
        }
        let mut i: usize = 0;
        while i < self.activities.len()
            invariant
                self.wf(),
                i <= self.activities@.len(),
                forall|j: int| 0 <= j < i ==> (#[trigger] self.activities@[j]).done,
            decreases self.activities@.len() - i,
        {
            if !self.activities[i].done {
                proof {
                    self.lemma_entry(i as int);
                }
                return false;
            }
            i = i + 1;
        }
        proof {
            self.lemma_entry(0);
            assert forall|k: Seq<char>| self@.dom().contains(k) implies self@[k] by {
                self.lemma_key(k);
            }
        }
        true
    }

    /// How many activities of the day are not done.
    pub fn remaining_count(&self) -> (count: usize)
        requires
            self.wf(),
        ensures
            pending(self@).finite(),
            count == pending(self@).len(),
    {
        let mut count: usize = 0;
        let mut i: usize = 0;
        let ghost mut seen: Set<Seq<char>> = Set::empty();
        while i < self.activities.len()
            invariant
                self.wf(),
                i <= self.activities@.len(),
                count <= i,
                seen.finite(),
                count == seen.len(),
                forall|k: Seq<char>|
                    seen.contains(k) == (self@.dom().contains(k) && position(self.names(), k) < i
                        && !self@[k]),
            decreases self.activities@.len() - i,
        {
            let ghost before = seen;
            proof {
                self.lemma_entry(i as int);
            }
            if !self.activities[i].done {
                count = count + 1;
                proof {
                    seen = seen.insert(self.activities@[i as int].name@);
                }
            }
            proof {
                assert forall|k: Seq<char>|
                    seen.contains(k) == (self@.dom().contains(k) && position(self.names(), k) < i
                        + 1 && !self@[k]) by {
                    if self@.dom().contains(k) {
                        self.lemma_key(k);
                    }
                }
            }
            i = i + 1;
        }
        proof {
            assert forall|k: Seq<char>| seen.contains(k) == pending(self@).contains(k) by {
                if self@.dom().contains(k) {
                    self.lemma_key(k);
                }
            }
            assert(seen =~= pending(self@));
        }
        count
    }

    /// The names of the day in ascending ordinal order, and beside each its mark.
    pub fn today_activities_list(&self) -> (lists: (Vec<String>, Vec<String>))
        requires
            self.wf(),
        ensures
            is_listing(lists.0@, lists.1@, self@),
    {
        let mut names: Vec<String> = Vec::new();
        let mut marks: Vec<String> = Vec::new();
        let mut i: usize = 0;
        while i < self.activities.len()
            invariant
                self.wf(),
                i <= self.activities@.len(),
                names@.len() == marks@.len(),
                forall|a: int, b: int|
                    0 <= a < b < names@.len() ==> lex_lt(names@[a]@, names@[b]@),
                forall|j: int|
                    0 <= j < names@.len() ==> {
                        let q = position(self.names(), (#[trigger] names@[j])@);
                        &&& 0 <= q < i
                        &&& self.activities@[q].name@ == names@[j]@
                        &&& marks@[j]@ == status_text(self.activities@[q].done)
                    },
                forall|q: int|
                    0 <= q < i ==> text_views(names@).contains(
                        (#[trigger] self.activities@[q]).name@,
                    ),
            decreases self.activities@.len() - i,
        {
            let entry = &self.activities[i];
            proof {
                self.lemma_entry(i as int);
            }
            let mut p: usize = 0;
            while p < names.len() && string_lt(&names[p], &entry.name)
                invariant
                    p <= names@.len(),
                    forall|a: int| 0 <= a < p ==> lex_lt(names@[a]@, entry.name@),
                decreases names@.len() - p,
            {
                p = p + 1;
            }
            let ghost before = names@;
            let ghost marks_before = marks@;
            proof {
                assert forall|b: int| p <= b < before.len() implies lex_lt(
                    entry.name@,
                    before[b]@,
                ) by {
                    let q = position(self.names(), before[p as int]@);
                    assert(self.names()[q] == before[p as int]@);
                    assert(self.names()[i as int] == entry.name@);
                    lemma_lex_lt_total(entry.name@, before[p as int]@);
                    if p < b {
                        lemma_lex_lt_transitive(entry.name@, before[p as int]@, before[b]@);
                    }
                }
            }
            let mark = if entry.done {
                String::from_str("[+]")
            } else {
                String::from_str("[-]")
            };
            names.insert(p, entry.name.clone());
            marks.insert(p, mark);
            proof {
                let at = p as int;
                assert forall|a: int, b: int| 0 <= a < b < names@.len() implies lex_lt(
                    names@[a]@,
                    names@[b]@,
                ) by {
                    let a0 = if a < at { a } else { a - 1 };
                    let b0 = if b < at { b } else { b - 1 };
                    if a != at && b != at {
                        assert(names@[a] == before[a0]);
                        assert(names@[b] == before[b0]);
                    } else if a == at {
                        assert(names@[b] == before[b0]);
                    } else {
                        assert(names@[a] == before[a0]);
                    }
                }
                assert forall|j: int| 0 <= j < names@.len() implies {
                    let q = position(self.names(), (#[trigger] names@[j])@);
                    &&& 0 <= q < i + 1
                    &&& self.activities@[q].name@ == names@[j]@
                    &&& marks@[j]@ == status_text(self.activities@[q].done)
                } by {
                    let j0 = if j < at { j } else { j - 1 };
                    if j != at {
                        assert(names@[j] == before[j0]);
                        assert(marks@[j] == marks_before[j0]);
                    }
                }
                assert forall|q: int| 0 <= q < i + 1 implies text_views(names@).contains(
                    (#[trigger] self.activities@[q]).name@,
                ) by {
                    if q < i {
                        let k = self.activities@[q].name@;
                        assert(text_views(before).contains(k));
                        let j0 = choose|j0: int|
                            0 <= j0 < text_views(before).len() && text_views(before)[j0] == k;
                        let j = if j0 < at { j0 } else { j0 + 1 };
                        assert(names@[j] == before[j0]);
                        assert(text_views(names@)[j] == k);
                    } else {
                        assert(text_views(names@)[at] == entry.name@);
                    }
                }
            }
            i = i + 1;
        }
        proof {
            assert forall|j: int| 0 <= j < names@.len() implies self@.dom().contains(
                (#[trigger] names@[j])@,
            ) && marks@[j]@ == status_text(self@[names@[j]@]) by {
                let q = position(self.names(), names@[j]@);
                self.lemma_entry(q);
            }
            assert forall|k: Seq<char>| self@.dom().contains(k) implies exists|j: int|
                0 <= j < names@.len() && (#[trigger] names@[j])@ == k by {
                self.lemma_key(k);
                let q = position(self.names(), k);
                assert(text_views(names@).contains(self.activities@[q].name@));
                let j = choose|j: int|
                    0 <= j < text_views(names@).len() && text_views(names@)[j] == k;
                assert(names@[j]@ == k);
            }
        }
        (names, marks)
    }
}

impl AllActivities {
    /// A copy rebuilt entry by entry from the names and the plain values of
    /// the activities, as a saved store is read back: it is the same store.
    pub fn duplicate(&self) -> (copy: AllActivities)
        requires
            self.wf(),
        ensures
            copy.wf(),
            copy@ == self@,
    {
        let mut copy = AllActivities::new();
        let mut i: usize = 0;
        while i < self.len()
            invariant
                self.wf(),
                copy.wf(),
                i <= self.names().len(),
                forall|k: Seq<char>| #[trigger]
                    copy@.dom().contains(k) ==> self@.dom().contains(k) && position(self.names(), k)
                        < i && copy@[k] == self@[k],
                forall|j: int| 0 <= j < i ==> copy@.dom().contains(#[trigger] self.names()[j]),
            decreases self.names().len() - i,
        {
            let name = self.name_at(i).clone();
            let details = self.details_at(i).duplicate();
            let ghost before = copy@;
            proof {
                self.lemma_entry(i as int);
                self.lemma_rules_valid(name@);
                if before.dom().contains(name@) {
                    assert(position(self.names(), name@) < i);
                }
            }
            let stored = copy.restore(name, details);
            proof {
                assert(copy@ == before.insert(name@, details@));
                assert forall|k: Seq<char>| #[trigger]
                    copy@.dom().contains(k) implies self@.dom().contains(k) && position(
                    self.names(),
                    k,
                ) < i + 1 && copy@[k] == self@[k] by {
                    if k != name@ {
                        assert(before.dom().contains(k));
                    }
                }
                assert forall|j: int| 0 <= j < i + 1 implies copy@.dom().contains(
                    #[trigger] self.names()[j],
                ) by {
                    if j < i {
                        assert(before.dom().contains(self.names()[j]));
                    }
                }
            }
            i = i + 1;
        }
        proof {
            assert forall|k: Seq<char>| self@.dom().contains(k) implies copy@.dom().contains(k) by {
                self.lemma_key(k);
                let j = position(self.names(), k);
                assert(self.names()[j] == k);
            }
            assert forall|k: Seq<char>| #[trigger]
                copy@.dom().contains(k) implies self@.dom().contains(k) && copy@[k] == self@[k] by {
            }
            assert(copy@ =~= self@);
        }
        copy
    }

    /// Whether the day `adjustment` days away from today is perfect.
    pub fn is_perfect_on(&self, clock: &Clock, adjustment: i64) -> (res: bool)
        requires
            self.wf(),
        ensures
            res == perfect(day_view(self@, *clock, adjustment)),
    {
        Day::get_day(self, clock, adjustment).is_perfect_day()
    }

    /// How many of the days `start_offset`, .., `end_offset` away from today are perfect.
    pub fn perfect_days_in_window(&self, clock: &Clock, start_offset: i64, end_offset: i64) -> (count:
        u64)
        requires
            self.wf(),
        ensures
            count == perfect_days(self@, *clock, start_offset as int, end_offset as int),
            count <= 2 * MAX_DAY_DISTANCE + 1,
    {
        if start_offset > end_offset {
            return 0;
        }
        let mut count: u64 = 0;
        let mut i: i64 = start_offset;
        while i < end_offset
            invariant
                self.wf(),
                start_offset <= i <= end_offset,
                count <= dated_offset(i as int) - dated_offset(start_offset as int),
                count == perfect_days(self@, *clock, start_offset as int, i - 1),
            decreases end_offset - i,
        {
            if self.is_perfect_on(clock, i) {
                proof {
                    lemma_perfect_offset_bounded(self@, *clock, i);
                }
                count = count + 1;
            }
            i = i + 1;
        }
        if self.is_perfect_on(clock, i) {
            proof {
                lemma_perfect_offset_bounded(self@, *clock, i);
            }
            count = count + 1;
        }
        count
    }
}

/// The largest distance in days between two days that have a weekday.
pub const MAX_DAY_DISTANCE: i64 = 4_294_967_296;

/// An offset moved into the range of the offsets at which a day can be perfect.
spec fn dated_offset(offset: int) -> int {
    if offset < -MAX_DAY_DISTANCE {
        -MAX_DAY_DISTANCE as int
    } else if offset > MAX_DAY_DISTANCE + 1 {
        MAX_DAY_DISTANCE + 1
    } else {
        offset
    }
}

/// A perfect day has a weekday, so it lies within a bounded distance of today.
pub proof fn lemma_perfect_offset_bounded(
    store: Map<Seq<char>, ActivityRecord>,
    clock: Clock,
    adjustment: i64,
)
    requires
        perfect(day_view(store, clock, adjustment)),
    ensures
        weekday_at(clock, adjustment) is Some,
        -MAX_DAY_DISTANCE <= adjustment <= MAX_DAY_DISTANCE,
{
    let k = choose|k: Seq<char>| day_view(store, clock, adjustment).dom().contains(k);
    assert(scheduled(store[k].frequency, weekday_at(clock, adjustment)));
}

/// After an activity with a valid rule was added, the store holds the
/// upper-case form of its name.
pub proof fn lemma_added_is_contained(
    store: Map<Seq<char>, ActivityRecord>,
    name: Seq<char>,
    activity: ActivityRecord,
)
    requires
        activity.frequency != FrequencyType::Invalid,
    ensures
        add_store(store, name, activity).dom().contains(uppercase_of(name)),
{
}

/// Adding under a name whose upper-case form is taken is refused as a
/// duplicate and leaves the store as it was.
pub proof fn lemma_add_existing_refused(
    store: Map<Seq<char>, ActivityRecord>,
    name: Seq<char>,
    activity: ActivityRecord,
)
    requires
        activity.frequency != FrequencyType::Invalid,
        store.dom().contains(uppercase_of(name)),
    ensures
        add_outcome(store, name, activity) == Err::<(), ActivityError>(ActivityError::AlreadyExists),
        add_store(store, name, activity) == store,
{
}

/// Adding with the invalid rule is always refused as such, and the store
/// stays as it was.
pub proof fn lemma_invalid_rule_refused(
    store: Map<Seq<char>, ActivityRecord>,
    name: Seq<char>,
    activity: ActivityRecord,
)
    requires
        activity.frequency == FrequencyType::Invalid,
    ensures
        add_outcome(store, name, activity) == Err::<(), ActivityError>(
            ActivityError::InvalidRecurrence,
        ),
        add_store(store, name, activity) == store,
{
}

/// Once an activity was marked done, marking it again under any clock for
/// which the first instant falls on today is refused, and the store, with
/// it the set of completions, stays as it was.
pub proof fn lemma_second_completion_refused(
    store: Map<Seq<char>, ActivityRecord>,
    first: Clock,
    second: Clock,
    name: Seq<char>,
)
    requires
        done_outcome(store, first, name) is Ok,
        on_day(second, first.now, 0),
    ensures
        done_outcome(done_store(store, first, name), second, name) == Err::<(), ActivityError>(
            ActivityError::AlreadyDone,
        ),
        done_store(done_store(store, first, name), second, name) == done_store(store, first, name),
{
    let after = done_store(store, first, name);
    assert(after[name].completions.contains(first.now));
}

/// Removing a name that the store does not hold leaves the store as it was.
pub proof fn lemma_remove_absent(store: Map<Seq<char>, ActivityRecord>, name: Seq<char>)
    requires
        !store.dom().contains(name),
    ensures
        store.remove(name) == store,
{
    assert(store.remove(name) =~= store);
}

/// A day on which nothing is due is not perfect.
pub proof fn lemma_empty_day_not_perfect(day: Map<Seq<char>, bool>)
    requires
        forall|k: Seq<char>| !day.dom().contains(k),
    ensures
        !perfect(day),
{
}

/// A day is perfect exactly when something is due on it and nothing is pending.
pub proof fn lemma_perfect_iff_nothing_pending(day: Map<Seq<char>, bool>)
    ensures
        perfect(day) == ((exists|k: Seq<char>| day.dom().contains(k)) && pending(day)
            == Set::<Seq<char>>::empty()),
{
    if pending(day) == Set::<Seq<char>>::empty() {
        assert forall|k: Seq<char>| day.dom().contains(k) implies day[k] by {
            assert(!pending(day).contains(k));
        }
    }
    if forall|k: Seq<char>| day.dom().contains(k) ==> day[k] {
        assert(pending(day) =~= Set::<Seq<char>>::empty());
    }
}

/// A day on which something is due is perfect exactly when every activity due is done.
pub proof fn lemma_perfect_iff_all_done(day: Map<Seq<char>, bool>, due: Seq<char>)
    requires
        day.dom().contains(due),
    ensures
        perfect(day) == (forall|k: Seq<char>| day.dom().contains(k) ==> day[k]),
{
}

} // verus!

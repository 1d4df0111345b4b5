//! The records that the tracker keeps: projects, their tasks, time entries and settings.
use vstd::prelude::*;
use crate::clock::{clock_text, get_clock_format};
use crate::text::padded2;

verus! {

/// A project; it owns tasks through their `project_id`.
#[derive(Debug)]
pub struct Project {
    pub id: i64,
    pub name: String,
    pub description: String,
}

/// A task under a project; it owns time entries through their `task_id`.
#[derive(Debug)]
pub struct ProjectTask {
    pub id: i64,
    pub project_id: i64,
    pub name: String,
    pub description: String,
}

/// Time spent on a task, with start and end in seconds since the Unix epoch.
///
/// `duration` is a stored copy that may be stale; what is shown is always
/// computed from `start_time` and `end_time`.
#[derive(Debug)]
pub struct TimeEntry {
    pub id: i64,
    pub project_id: i64,
    pub task_id: i64,
    pub description: String,
    pub start_time: i64,
    pub end_time: i64,
    pub duration: i64,
    pub created_at: i64,
}

/// The person using the tracker.
#[derive(Debug)]
pub struct User {
    pub name: String,
    pub email: String,
}

/// Where the records are kept, and who keeps them.
#[derive(Debug)]
pub struct Settings {
    pub database_path: String,
    pub user: User,
}

/// `HH:MM:SS` of a signed number of seconds; a negative one is shown as `-`
/// followed by the clock text of its magnitude.
pub open spec fn signed_clock_text(total: int) -> Seq<char> {
    if total >= 0 {
        clock_text(total as nat)
    } else {
        seq!['-'] + clock_text((-total) as nat)
    }
}

impl Project {
    /// A project that the store has not numbered yet.
    pub fn new(name: String, description: String) -> (r: Project)
        ensures
            r.id == 0,
            r.name == name,
            r.description == description,
    {
        Project { id: 0, name, description }
    }
}

impl ProjectTask {
    /// A task of `project_id` that the store has not numbered yet.
    pub fn new(project_id: i64, name: String, description: String) -> (r: ProjectTask)
        ensures
            r.id == 0,
            r.project_id == project_id,
            r.name == name,
            r.description == description,
    {
        ProjectTask { id: 0, project_id, name, description }
    }
}

impl TimeEntry {
    /// An entry that the store has not numbered yet; its stored duration is
    /// `end_time - start_time`, and `created_at` is the time it is made.
    pub fn new(
        project_id: i64,
        task_id: i64,
        description: String,
        start_time: i64,
        end_time: i64,
        created_at: i64,
    ) -> (r: TimeEntry)
        requires
            i64::MIN <= end_time - start_time <= i64::MAX,
        ensures
            r.id == 0,
            r.project_id == project_id,
            r.task_id == task_id,
            r.description == description,
            r.start_time == start_time,
            r.end_time == end_time,
            r.duration == end_time - start_time,
            r.created_at == created_at,
    {
        TimeEntry {
            id: 0,
            project_id,
            task_id,
            description,
            start_time,
            end_time,
            duration: end_time - start_time,
            created_at,
        }
    }

    /// The seconds from start to end, negative where the end comes first.
    pub open spec fn spec_duration(&self) -> int {
        self.end_time - self.start_time
    }

    /// The seconds from start to end, recomputed from the two times.
    pub fn duration(&self) -> (r: i64)
        requires
            i64::MIN <= self.spec_duration() <= i64::MAX,
        ensures
            r == self.spec_duration(),
    {
        self.end_time - self.start_time
    }

    /// The duration as `HH:MM:SS`: whole hours, then the minutes and seconds
    /// left over, each at least two digits.
    pub fn duration_string(&self) -> (r: String)
        ensures
            r@ == signed_clock_text(self.spec_duration()),
    {
        if self.end_time >= self.start_time {
            let d = (self.end_time as i128 - self.start_time as i128) as u64;
            get_clock_format(d)
        } else {
            let d = (self.start_time as i128 - self.end_time as i128) as u64;
            let mut out = String::new();
            proof { reveal_strlit("-"); }
            out.append("-");
            let c = get_clock_format(d);
            out.append(c.as_str());
            out
        }
    }
}

/// For an entry that does not end before it starts, the duration text is
/// `HH:MM:SS` of `end_time - start_time`: whole hours, then the minutes and the
/// seconds left over, each zero-padded to two digits.
pub proof fn lemma_duration_text_of_ordered_entry(e: TimeEntry)
    requires
        e.start_time <= e.end_time,
    ensures
        signed_clock_text(e.spec_duration()) == padded2(((e.end_time - e.start_time) / 3600) as nat)
            + seq![':'] + padded2((((e.end_time - e.start_time) % 3600) / 60) as nat) + seq![':']
            + padded2(((e.end_time - e.start_time) % 60) as nat),
{
}

impl Settings {
    /// The database path of the default settings.
    pub open spec fn default_settings_view() -> Seq<char> {
        seq!['t', 'i', 'm', 'e', 't', 'r', 'a', 'c', 'k', 'e', 'r', '.', 'd', 'b']
    }

    /// The settings used while none have been saved.
    pub fn default_settings() -> (r: Settings)
        ensures
            r.database_path@ == Settings::default_settings_view(),
            r.user.name@ == Seq::<char>::empty(),
            r.user.email@ == Seq::<char>::empty(),
    {
        proof { reveal_strlit("timetracker.db"); }
        Settings {
            database_path: String::from_str("timetracker.db"),
            user: User { name: String::new(), email: String::new() },
        }
    }
}

} // verus!

//! The tracker's state machine: the page stack, the selection, the records
//! on screen, and what each key or typed line does to them.
use vstd::prelude::*;
use crate::model::{signed_clock_text, Project, ProjectTask, TimeEntry};
use crate::pages::{
    clamp_selection, clamped, floor_held, key_step, Page, PageStack,
};
use crate::hours::{hours_seconds, parse_hours};
use crate::store::{lemma_id_unique, lemma_without_id_at, Record, Store, StoreError};
use crate::text::{join_lines, lines_text, push_signed_decimal, signed_decimal};

verus! {

/// A line of text that the current page waits for.
#[derive(Clone, Copy, Debug, PartialEq, Eq, Structural)]
pub enum Prompt {
    /// The name of a project being made or edited.
    ProjectName,
    /// Its description, which completes it.
    ProjectDescription,
    /// The name of a task being made.
    TaskName,
    /// Its description, which completes it.
    TaskDescription,
    /// A new description for the selected time entry.
    EntryDescription,
    /// A new duration, in hours, for the selected time entry.
    EntryHours,
}

/// Why handling an input failed.
#[derive(Clone, Copy, Debug, PartialEq, Eq, Structural)]
pub enum NavError {
    /// The store refused an operation.
    Store(StoreError),
    /// A typed number could not be read.
    ParseError,
}

/// A rendered page: its text, and the row where the cursor goes.
pub struct Screen {
    pub text: String,
    pub cursor_row: usize,
}

/// The largest number of time entries the Time page adds up.
pub const MAX_ENTRIES: u64 = 0x7fff_ffff_ffff_ffff;

/// The tracker's state: the pages visited, the selection, and the records on screen.
pub struct Navigator {
    /// The pages visited, the active one on top.
    pub stack: PageStack,
    /// The selected row, held to the list on screen when shown.
    pub selection: usize,
    /// Set once the quit key was pressed.
    pub quit: bool,
    /// The line that the current page waits for, if any.
    pub prompt: Option<Prompt>,
    /// The name typed for a project or task that is being made.
    pub draft_name: String,
    /// Whether the project being edited replaces the selected one.
    pub editing: bool,
    /// The project whose tasks are shown.
    pub current_project: i64,
    /// The records.
    pub store: Store,
    /// The projects on screen, as the store holds them.
    pub projects: Vec<Project>,
    /// The tasks of the current project.
    pub tasks: Vec<ProjectTask>,
    /// The time entries on screen, as the store holds them.
    pub entries: Vec<TimeEntry>,
}

/// The sum of the durations of entries.
pub open spec fn total_duration(entries: Seq<TimeEntry>) -> int
    decreases entries.len(),
{
    if entries.len() == 0 {
        0
    } else {
        total_duration(entries.drop_last()) + entries.last().spec_duration()
    }
}

/// A time entry's row: its description and its duration.
pub open spec fn entry_line(e: TimeEntry) -> Seq<char> {
    e.description@ + seq![' '] + signed_clock_text(e.spec_duration())
}

/// A project's row: its name and description.
pub open spec fn project_line(p: Project) -> Seq<char> {
    p.name@ + seq![':', ' '] + p.description@
}

/// A task's row: its name and description.
pub open spec fn task_line(t: ProjectTask) -> Seq<char> {
    t.name@ + seq![':', ' '] + t.description@
}

/// `entry_line` as a function value.
pub open spec fn entry_lines() -> spec_fn(TimeEntry) -> Seq<char> {
    |e: TimeEntry| entry_line(e)
}

/// `project_line` as a function value.
pub open spec fn project_lines() -> spec_fn(Project) -> Seq<char> {
    |p: Project| project_line(p)
}

/// `task_line` as a function value.
pub open spec fn task_lines() -> spec_fn(ProjectTask) -> Seq<char> {
    |t: ProjectTask| task_line(t)
}

/// The rows of a list, or the one line `none` where it is empty.
pub open spec fn rows_or<A>(items: Seq<A>, line: spec_fn(A) -> Seq<char>, none: Seq<char>) -> Seq<
    Seq<char>,
> {
    if items.len() == 0 {
        seq![none]
    } else {
        items.map_values(line)
    }
}

/// The lines of the Time page.
pub open spec fn time_page_lines(entries: Seq<TimeEntry>) -> Seq<Seq<char>> {
    seq!["Time entries"@] + rows_or(entries, entry_lines(), "No time entries"@)
        + seq![
        "Total time: "@ + signed_decimal(total_duration(entries)),
        "c: create, e: edit, d: delete, p: projects, s: settings, q: quit"@,
    ]
}

/// The lines of the Projects page.
pub open spec fn projects_page_lines(projects: Seq<Project>) -> Seq<Seq<char>> {
    seq!["Projects"@] + rows_or(projects, project_lines(), "No projects"@) + seq![
        "c: create, e: edit, d: delete, t: tasks, s: settings, b: back, q: quit"@,
    ]
}

/// The lines of the Settings page for a user name, email and database path.
pub open spec fn settings_page_lines(s: (Seq<char>, Seq<char>, Seq<char>)) -> Seq<Seq<char>> {
    seq![
        "Settings"@,
        "Name: "@ + s.0,
        "Email: "@ + s.1,
        "Database: "@ + s.2,
        "b: back, q: quit"@,
    ]
}

/// The lines of a project's task page.
pub open spec fn detail_page_lines(tasks: Seq<ProjectTask>) -> Seq<Seq<char>> {
    seq!["Tasks"@] + rows_or(tasks, task_lines(), "No tasks"@) + seq![
        "c: create, b: back, q: quit"@,
    ]
}

/// The lines of the page that edits the selected time entry.
pub open spec fn entry_page_lines(entries: Seq<TimeEntry>, selection: nat) -> Seq<Seq<char>> {
    seq![
        "Time entry"@,
        if entries.len() == 0 {
            "No time entries"@
        } else {
            entry_line(entries[clamped(selection, entries.len()) as int])
        },
        "e: description, t: duration in hours, d: delete, b: back, q: quit"@,
    ]
}

/// The page on which a prompt is asked.
pub open spec fn prompt_page(p: Prompt) -> Page {
    match p {
        Prompt::ProjectName | Prompt::ProjectDescription => Page::ProjectCreateOrEdit,
        Prompt::TaskName | Prompt::TaskDescription => Page::TaskCreateOrEdit,
        Prompt::EntryDescription | Prompt::EntryHours => Page::TimeEntryCreateOrEdit,
    }
}

/// What a prompt asks for.
pub open spec fn prompt_text(p: Prompt) -> Seq<char> {
    match p {
        Prompt::ProjectName => "Project name:"@,
        Prompt::ProjectDescription => "Project description:"@,
        Prompt::TaskName => "Task name:"@,
        Prompt::TaskDescription => "Task description:"@,
        Prompt::EntryDescription => "Description:"@,
        Prompt::EntryHours => "Duration in hours:"@,
    }
}

fn prompt_str(p: Prompt) -> (r: &'static str)
    ensures
        r@ == prompt_text(p),
{
    match p {
        Prompt::ProjectName => "Project name:",
        Prompt::ProjectDescription => "Project description:",
        Prompt::TaskName => "Task name:",
        Prompt::TaskDescription => "Task description:",
        Prompt::EntryDescription => "Description:",
        Prompt::EntryHours => "Duration in hours:",
    }
}

fn entry_text(e: &TimeEntry) -> (r: String)
    ensures
        r@ == entry_line(*e),
{
    let mut out = e.description.clone();
    proof { reveal_strlit(" "); }
    out.append(" ");
    let d = e.duration_string();
    out.append(d.as_str());
    out
}

fn name_text(name: &String, description: &String) -> (r: String)
    ensures
        r@ == name@ + seq![':', ' '] + description@,
{
    let mut out = name.clone();
    proof { reveal_strlit(": "); }
    out.append(": ");
    out.append(description.as_str());
    out
}

fn labelled(label: &str, value: &String) -> (r: String)
    ensures
        r@ == label@ + value@,
{
    let mut out = String::from_str(label);
    out.append(value.as_str());
    out
}

proof fn lemma_push_view(v: Seq<String>, t: String)
    ensures
        v.push(t).map_values(|l: String| l@) == v.map_values(|l: String| l@).push(t@),
{
    assert(v.push(t).map_values(|l: String| l@) =~= v.map_values(|l: String| l@).push(t@));
}

fn push_line(lines: &mut Vec<String>, t: String)
    ensures
        final(lines)@.map_values(|l: String| l@) == old(lines)@.map_values(|l: String| l@).push(t@),
{
    proof { lemma_push_view(lines@, t); }
    lines.push(t);
}

impl Navigator {
    /// The pages visited, the active one last.
    pub open spec fn stack(&self) -> Seq<Page> {
        self.stack@
    }

    /// The page stack keeps the Time page at its bottom, the store is well
    /// formed, the entries and projects on screen are those of the store, and
    /// a prompt waits only on the page that asks it.
    pub open spec fn wf(&self) -> bool {
        &&& floor_held(self.stack())
        &&& self.store.wf()
        &&& self.entries@ == self.store.entries.rows()
        &&& self.projects@ == self.store.projects.rows()
        &&& self.prompt matches Some(p) ==> prompt_page(p) == self.spec_top()
    }

    /// The page at the top of the stack.
    pub open spec fn spec_top(&self) -> Page {
        self.stack().last()
    }

    /// The length of the list that the active page shows.
    pub open spec fn list_len(&self) -> nat {
        match self.spec_top() {
            Page::Time => self.entries@.len(),
            Page::Projects => self.projects@.len(),
            Page::ProjectDetail => self.tasks@.len(),
            _ => 0,
        }
    }

    /// The lines of the active page, and the prompt where one waits.
    pub open spec fn page_lines(&self) -> Seq<Seq<char>> {
        let body = self.body_lines();
        match self.prompt {
            Some(p) => body.push(prompt_text(p)),
            None => body,
        }
    }

    /// The row of the cursor: the selected row of the list on screen, under
    /// the page's title.
    pub open spec fn spec_cursor_row(&self) -> nat {
        1 + clamped(self.selection as nat, self.list_len())
    }

    /// The pages visited, the active one last.
    pub fn pages(&self) -> (r: Vec<Page>)
        ensures
            r@ == self.stack(),
    {
        self.stack.to_vec()
    }

    /// The active page.
    pub fn top(&self) -> (r: Page)
        requires
            self.wf(),
        ensures
            r == self.spec_top(),
    {
        self.stack.top()
    }

    /// A navigator on the Time page over the records of `store`.
    pub fn new(store: Store) -> (r: Navigator)
        requires
            store.wf(),
        ensures
            r.wf(),
            r.stack() == seq![Page::Time],
            r.selection == 0,
            !r.quit,
            r.prompt.is_none(),
            r.entries@ == store.entries.rows(),
            r.projects@ == store.projects.rows(),
            r.tasks@ == Seq::<ProjectTask>::empty(),
            r.store == store,
    {
        let entries = store.list_time_entries();
        let projects = store.list_projects();
        Navigator {
            stack: PageStack::new(),
            selection: 0,
            quit: false,
            prompt: None,
            draft_name: String::new(),
            editing: false,
            current_project: 0,
            store,
            projects,
            tasks: Vec::new(),
            entries,
        }
    }

    fn total_seconds(&self) -> (r: i128)
        requires
            self.entries@.len() <= MAX_ENTRIES,
        ensures
            r == total_duration(self.entries@),
            r > i128::MIN,
    {
        let mut acc: i128 = 0;
        let mut i: usize = 0;
        while i < self.entries.len()
            invariant
                i <= self.entries@.len() <= MAX_ENTRIES,
                acc == total_duration(self.entries@.take(i as int)),
                -(i as int) * 0x1_0000_0000_0000_0000 <= acc <= (i as int) * 0x1_0000_0000_0000_0000,
            decreases self.entries@.len() - i,
        {
            let e = &self.entries[i];
            assert(self.entries@.take(i as int + 1).drop_last() =~= self.entries@.take(i as int));
            acc = acc + (e.end_time as i128 - e.start_time as i128);
            i = i + 1;
        }
        assert(self.entries@.take(i as int) =~= self.entries@);
        acc
    }

    fn push_rows_entries(&self, lines: &mut Vec<String>)
        ensures
            final(lines)@.map_values(|l: String| l@) == old(lines)@.map_values(|l: String| l@)
                + rows_or(self.entries@, entry_lines(), "No time entries"@),
    {
        let ghost start = lines@.map_values(|l: String| l@);
        let ghost f = entry_lines();
        if self.entries.len() == 0 {
            lines.push(String::from_str("No time entries"));
            assert(lines@.map_values(|l: String| l@) =~= start + seq!["No time entries"@]);
            return;
        }
        let mut i: usize = 0;
        while i < self.entries.len()
            invariant
                i <= self.entries@.len(),
                f == entry_lines(),
                lines@.map_values(|l: String| l@) == start + self.entries@.take(i as int).map_values(f),
            decreases self.entries@.len() - i,
        {
            let t = entry_text(&self.entries[i]);
            proof { lemma_push_view(lines@, t); }
            lines.push(t);
            assert(self.entries@.take(i as int + 1).map_values(f) =~= self.entries@.take(
                i as int,
            ).map_values(f).push(entry_line(self.entries@[i as int])));
            assert(start + self.entries@.take(i as int).map_values(f).push(entry_line(self.entries@[i as int]))
                =~= start + self.entries@.take(i as int + 1).map_values(f));
            i = i + 1;
        }
        assert(self.entries@.take(i as int) =~= self.entries@);
    }

    fn push_rows_projects(&self, lines: &mut Vec<String>)
        ensures
            final(lines)@.map_values(|l: String| l@) == old(lines)@.map_values(|l: String| l@)
                + rows_or(self.projects@, project_lines(), "No projects"@),
    {
        let ghost start = lines@.map_values(|l: String| l@);
        let ghost f = project_lines();
        if self.projects.len() == 0 {
            lines.push(String::from_str("No projects"));
            assert(lines@.map_values(|l: String| l@) =~= start + seq!["No projects"@]);
            return;
        }
        let mut i: usize = 0;
        while i < self.projects.len()
            invariant
                i <= self.projects@.len(),
                f == project_lines(),
                lines@.map_values(|l: String| l@) == start + self.projects@.take(i as int).map_values(f),
            decreases self.projects@.len() - i,
        {
            let t = name_text(&self.projects[i].name, &self.projects[i].description);
            proof { lemma_push_view(lines@, t); }
            lines.push(t);
            assert(self.projects@.take(i as int + 1).map_values(f) =~= self.projects@.take(
                i as int,
            ).map_values(f).push(project_line(self.projects@[i as int])));
            assert(start + self.projects@.take(i as int).map_values(f).push(project_line(self.projects@[i as int]))
                =~= start + self.projects@.take(i as int + 1).map_values(f));
            i = i + 1;
        }
        assert(self.projects@.take(i as int) =~= self.projects@);
    }

    fn push_rows_tasks(&self, lines: &mut Vec<String>)
        ensures
            final(lines)@.map_values(|l: String| l@) == old(lines)@.map_values(|l: String| l@)
                + rows_or(self.tasks@, task_lines(), "No tasks"@),
    {
        let ghost start = lines@.map_values(|l: String| l@);
        let ghost f = task_lines();
        if self.tasks.len() == 0 {
            lines.push(String::from_str("No tasks"));
            assert(lines@.map_values(|l: String| l@) =~= start + seq!["No tasks"@]);
            return;
        }
        let mut i: usize = 0;
        while i < self.tasks.len()
            invariant
                i <= self.tasks@.len(),
                f == task_lines(),
                lines@.map_values(|l: String| l@) == start + self.tasks@.take(i as int).map_values(f),
            decreases self.tasks@.len() - i,
        {
            let t = name_text(&self.tasks[i].name, &self.tasks[i].description);
            proof { lemma_push_view(lines@, t); }
            lines.push(t);
            assert(self.tasks@.take(i as int + 1).map_values(f) =~= self.tasks@.take(
                i as int,
            ).map_values(f).push(task_line(self.tasks@[i as int])));
            assert(start + self.tasks@.take(i as int).map_values(f).push(task_line(self.tasks@[i as int]))
                =~= start + self.tasks@.take(i as int + 1).map_values(f));
            i = i + 1;
        }
        assert(self.tasks@.take(i as int) =~= self.tasks@);
    }

    /// The lines of the active page, without any prompt.
    pub open spec fn body_lines(&self) -> Seq<Seq<char>> {
        match self.spec_top() {
            Page::Time => time_page_lines(self.entries@),
            Page::Projects => projects_page_lines(self.projects@),
            Page::Settings => settings_page_lines(self.store.current_settings()),
            Page::ProjectDetail => detail_page_lines(self.tasks@),
            Page::TimeEntryCreateOrEdit => entry_page_lines(self.entries@, self.selection as nat),
            Page::ProjectCreateOrEdit => seq!["Project"@],
            Page::TaskCreateOrEdit => seq!["Task"@],
        }
    }

    fn body(&self) -> (r: Vec<String>)
        requires
            self.wf(),
        ensures
            r@.map_values(|l: String| l@) == self.body_lines(),
    {
        let mut lines: Vec<String> = Vec::new();
        assert(lines@.map_values(|l: String| l@) =~= Seq::<Seq<char>>::empty());
        match self.top() {
            Page::Time => {
                push_line(&mut lines, String::from_str("Time entries"));
                self.push_rows_entries(&mut lines);
                proof { self.store.entries.lemma_len_below_next_id(); }
                let mut total = String::from_str("Total time: ");
                push_signed_decimal(&mut total, self.total_seconds());
                push_line(&mut lines, total);
                push_line(
                    &mut lines,
                    String::from_str("c: create, e: edit, d: delete, p: projects, s: settings, q: quit"),
                );
            },
            Page::Projects => {
                push_line(&mut lines, String::from_str("Projects"));
                self.push_rows_projects(&mut lines);
                push_line(
                    &mut lines,
                    String::from_str(
                        "c: create, e: edit, d: delete, t: tasks, s: settings, b: back, q: quit",
                    ),
                );
            },
            Page::Settings => {
                let s = self.store.load_settings();
                push_line(&mut lines, String::from_str("Settings"));
                push_line(&mut lines, labelled("Name: ", &s.user.name));
                push_line(&mut lines, labelled("Email: ", &s.user.email));
                push_line(&mut lines, labelled("Database: ", &s.database_path));
                push_line(&mut lines, String::from_str("b: back, q: quit"));
            },
            Page::ProjectDetail => {
                push_line(&mut lines, String::from_str("Tasks"));
                self.push_rows_tasks(&mut lines);
                push_line(&mut lines, String::from_str("c: create, b: back, q: quit"));
            },
            Page::TimeEntryCreateOrEdit => {
                push_line(&mut lines, String::from_str("Time entry"));
                if self.entries.len() == 0 {
                    push_line(&mut lines, String::from_str("No time entries"));
                } else {
                    let i = clamp_selection(self.selection, self.entries.len());
                    push_line(&mut lines, entry_text(&self.entries[i]));
                }
                push_line(
                    &mut lines,
                    String::from_str(
                        "e: description, t: duration in hours, d: delete, b: back, q: quit",
                    ),
                );
            },
            Page::ProjectCreateOrEdit => {
                push_line(&mut lines, String::from_str("Project"));
            },
            Page::TaskCreateOrEdit => {
                push_line(&mut lines, String::from_str("Task"));
            },
        }
        assert(lines@.map_values(|l: String| l@) =~= self.body_lines());
        lines
    }

    /// Renders the active page: its lines joined by line breaks, and the cursor
    /// on the selected row.
    pub fn render(&self) -> (r: Screen)
        requires
            self.wf(),
        ensures
            r.text@ == lines_text(self.page_lines()),
            r.cursor_row == self.spec_cursor_row(),
    {
        let mut lines = self.body();
        match self.prompt {
            Some(p) => {
                push_line(&mut lines, String::from_str(prompt_str(p)));
            },
            None => {},
        }
        assert(lines@.map_values(|l: String| l@) =~= self.page_lines());
        let text = join_lines(&lines);
        let len = match self.top() {
            Page::Time => self.entries.len(),
            Page::Projects => self.projects.len(),
            Page::ProjectDetail => self.tasks.len(),
            _ => 0,
        };
        Screen { text, cursor_row: 1 + clamp_selection(self.selection, len) }
    }

    /// The row of the list of `len` rows that the selection points at.
    pub open spec fn selected(&self, len: nat) -> int {
        clamped(self.selection as nat, len) as int
    }

    fn delete_selected_entry(&mut self)
        requires
            old(self).wf(),
        ensures
            final(self).wf(),
            final(self).stack == old(self).stack,
            final(self).prompt == old(self).prompt,
            final(self).quit == old(self).quit,
            final(self).selection == old(self).selection,
            final(self).projects == old(self).projects,
            final(self).tasks == old(self).tasks,
            old(self).entries@.len() == 0 ==> final(self).entries@ == old(self).entries@,
            old(self).entries@.len() > 0 ==> final(self).entries@ == old(self).entries@.remove(
                old(self).selected(old(self).entries@.len()),
            ),
    {
        let n = self.entries.len();
        if n > 0 {
            let i = clamp_selection(self.selection, n);
            let id = self.entries[i].id;
            proof { lemma_without_id_at(self.store.entries.rows(), i as int); }
            self.store.delete_time_entry(id);
            self.entries.remove(i);
        }
    }

    fn delete_selected_project(&mut self)
        requires
            old(self).wf(),
        ensures
            final(self).wf(),
            final(self).stack == old(self).stack,
            final(self).prompt == old(self).prompt,
            final(self).quit == old(self).quit,
            final(self).selection == old(self).selection,
            final(self).entries == old(self).entries,
            final(self).tasks == old(self).tasks,
            final(self).store.tasks == old(self).store.tasks,
            old(self).projects@.len() == 0 ==> final(self).projects@ == old(self).projects@,
            old(self).projects@.len() > 0 ==> final(self).projects@ == old(self).projects@.remove(
                old(self).selected(old(self).projects@.len()),
            ),
    {
        let n = self.projects.len();
        if n > 0 {
            let i = clamp_selection(self.selection, n);
            let id = self.projects[i].id;
            proof { lemma_without_id_at(self.store.projects.rows(), i as int); }
            self.store.delete_project(id);
            self.projects.remove(i);
        }
    }

    fn create_entry(&mut self, now: i64) -> (r: Result<(), NavError>)
        requires
            old(self).wf(),
        ensures
            final(self).wf(),
            final(self).stack == old(self).stack,
            final(self).prompt == old(self).prompt,
            final(self).quit == old(self).quit,
            final(self).projects == old(self).projects,
            final(self).tasks == old(self).tasks,
            old(self).store.entries.next_id() < i64::MAX <==> r is Ok,
            r is Ok ==> final(self).entries@.len() == old(self).entries@.len() + 1
                && final(self).entries@.drop_last() == old(self).entries@
                && final(self).entries@.last().start_time == now
                && final(self).entries@.last().end_time == now
                && final(self).entries@.last().description@ == Seq::<char>::empty()
                && final(self).selection == old(self).entries@.len(),
            r is Err ==> r == Err::<(), NavError>(NavError::Store(StoreError::StorageError))
                && final(self).entries == old(self).entries,
    {
        let e = TimeEntry::new(0, 0, String::new(), now, now, now);
        match self.store.create_time_entry(e) {
            Ok(stored) => {
                self.entries.push(stored);
                assert(self.entries@.drop_last() =~= old(self).entries@);
                self.selection = self.entries.len() - 1;
                Ok(())
            },
            Err(err) => Err(NavError::Store(err)),
        }
    }

    /// Handles a key pressed while no prompt waits: the quit key sets the quit
    /// flag; other keys move the page stack as the active page says, and
    /// delete, create or start editing records on the way.
    pub fn handle_key(&mut self, key: char, now: i64) -> (r: Result<(), NavError>)
        requires
            old(self).wf(),
            old(self).prompt is None,
        ensures
            final(self).wf(),
            key == 'q' ==> r is Ok && final(self).quit && final(self).stack() == old(self).stack()
                && final(self).entries == old(self).entries && final(self).projects == old(
                self).projects,
            key != 'q' ==> final(self).quit == old(self).quit,
            !(key == 'd' || (key == 'c' && old(self).spec_top() == Page::Time)) ==> final(
                self).entries == old(self).entries && final(self).projects == old(self).projects
                && final(self).store == old(self).store,
            key != 'q' && r is Ok ==> final(self).stack() == key_step(old(self).stack(), key),
            r is Err ==> final(self).stack() == old(self).stack(),
            r is Err ==> key == 'c' && old(self).spec_top() == Page::Time,
            // deleting
            key == 'd' && (old(self).spec_top() == Page::Time || old(self).spec_top()
                == Page::TimeEntryCreateOrEdit) ==> r is Ok && if old(self).entries@.len() == 0 {
                final(self).entries@ == old(self).entries@
            } else {
                final(self).entries@ == old(self).entries@.remove(
                    old(self).selected(old(self).entries@.len()),
                )
            },
            key == 'd' && old(self).spec_top() == Page::Projects ==> r is Ok && final(
                self).store.tasks == old(self).store.tasks && if old(self).projects@.len() == 0 {
                final(self).projects@ == old(self).projects@
            } else {
                final(self).projects@ == old(self).projects@.remove(
                    old(self).selected(old(self).projects@.len()),
                )
            },
            // creating a time entry
            key == 'c' && old(self).spec_top() == Page::Time ==> (old(
                self).store.entries.next_id() < i64::MAX <==> r is Ok) && (r is Ok ==> final(
                self).entries@.len() == old(self).entries@.len() + 1 && final(
                self).entries@.drop_last() == old(self).entries@ && final(
                self).entries@.last().start_time == now && final(self).entries@.last().end_time
                == now && final(self).selection == old(self).entries@.len()),
            // asking for fields
            (key == 'c' || key == 'e') && old(self).spec_top() == Page::Projects ==> r is Ok
                && final(self).prompt == Some(Prompt::ProjectName) && final(self).editing == (key
                == 'e' && old(self).projects@.len() > 0),
            key == 'c' && old(self).spec_top() == Page::ProjectDetail ==> r is Ok && final(
                self).prompt == Some(Prompt::TaskName),
            key == 'e' && old(self).spec_top() == Page::TimeEntryCreateOrEdit ==> r is Ok && final(
                self).prompt == Some(Prompt::EntryDescription),
            key == 't' && old(self).spec_top() == Page::TimeEntryCreateOrEdit ==> r is Ok && final(
                self).prompt == Some(Prompt::EntryHours),
            // opening a project's tasks
            key == 't' && old(self).spec_top() == Page::Projects ==> r is Ok && final(
                self).current_project == (if old(self).projects@.len() == 0 {
                0
            } else {
                old(self).projects@[old(self).selected(old(self).projects@.len())].id
            }) && final(self).tasks@ == old(self).store.tasks.rows().filter(
                |t: ProjectTask| t.project_id == final(self).current_project,
            ) && final(self).selection == 0,
    {
        if key == 'q' {
            self.quit = true;
            return Ok(());
        }
        let top = self.stack.top();
        match top {
            Page::Time => {
                if key == 'd' {
                    self.delete_selected_entry();
                } else if key == 'c' {
                    let created = self.create_entry(now);
                    if created.is_err() {
                        return created;
                    }
                }
            },
            Page::Projects => {
                if key == 'd' {
                    self.delete_selected_project();
                } else if key == 'c' || key == 'e' {
                    self.prompt = Some(Prompt::ProjectName);
                    self.editing = key == 'e' && self.projects.len() > 0;
                } else if key == 't' {
                    let n = self.projects.len();
                    self.current_project = if n == 0 {
                        0
                    } else {
                        self.projects[clamp_selection(self.selection, n)].id
                    };
                    self.tasks = self.store.list_tasks(self.current_project);
                    self.selection = 0;
                }
            },
            Page::ProjectDetail => {
                if key == 'c' {
                    self.prompt = Some(Prompt::TaskName);
                }
            },
            Page::TimeEntryCreateOrEdit => {
                if key == 'd' {
                    self.delete_selected_entry();
                } else if key == 'e' {
                    self.prompt = Some(Prompt::EntryDescription);
                } else if key == 't' {
                    self.prompt = Some(Prompt::EntryHours);
                }
            },
            _ => {},
        }
        self.stack.step(key);
        Ok(())
    }

    fn set_selected_entry(&mut self, entry: TimeEntry) -> (r: Result<(), NavError>)
        requires
            old(self).wf(),
            old(self).entries@.len() > 0,
            entry.id == old(self).entries@[old(self).selected(old(self).entries@.len())].id,
        ensures
            final(self).wf(),
            r is Ok,
            final(self).stack == old(self).stack,
            final(self).prompt == old(self).prompt,
            final(self).quit == old(self).quit,
            final(self).selection == old(self).selection,
            final(self).projects == old(self).projects,
            final(self).tasks == old(self).tasks,
            final(self).entries@ == old(self).entries@.update(
                old(self).selected(old(self).entries@.len()),
                entry,
            ),
    {
        let i = clamp_selection(self.selection, self.entries.len());
        let ghost rows = self.store.entries.rows();
        let stored = entry.duplicate();
        assert(rows[i as int].key() == stored.id);
        let updated = self.store.update_time_entry(stored);
        proof {
            let j = choose|j: int|
                0 <= j < rows.len() && rows[j].id == entry.id && self.store.entries.rows()
                    == rows.update(j, entry);
            lemma_id_unique(rows, i as int, j);
        }
        self.entries.set(i, entry);
        match updated {
            Ok(()) => Ok(()),
            Err(e) => Err(NavError::Store(e)),
        }
    }

    /// Handles a line typed for the waiting prompt: a name is kept for the
    /// description that follows; a description completes the project or task,
    /// which is added (or replaces the selected project when editing), becomes
    /// the selection, and closes the page; an entry's description or hours
    /// replace those of the selected entry.
    pub fn handle_line(&mut self, line: String) -> (r: Result<(), NavError>)
        requires
            old(self).wf(),
            old(self).prompt is Some,
        ensures
            final(self).wf(),
            final(self).quit == old(self).quit,
            old(self).prompt == Some(Prompt::ProjectName) ==> r is Ok && final(self).draft_name
                == line && final(self).prompt == Some(Prompt::ProjectDescription) && final(
                self).stack() == old(self).stack(),
            old(self).prompt == Some(Prompt::TaskName) ==> r is Ok && final(self).draft_name
                == line && final(self).prompt == Some(Prompt::TaskDescription) && final(
                self).stack() == old(self).stack(),
            old(self).prompt == Some(Prompt::ProjectName) || old(self).prompt == Some(
                Prompt::TaskName,
            ) ==> final(self).store == old(self).store && final(self).entries == old(
                self).entries && final(self).projects == old(self).projects && final(self).tasks
                == old(self).tasks && final(self).selection == old(self).selection && final(
                self).editing == old(self).editing && final(self).current_project == old(
                self).current_project,
            old(self).prompt == Some(Prompt::ProjectDescription) && !(old(self).editing && old(
                self).projects@.len() > 0) ==> (old(self).store.projects.next_id() < i64::MAX
                <==> r is Ok) && (r is Ok ==> final(self).projects@.len() == old(
                self).projects@.len() + 1 && final(self).projects@.drop_last() == old(
                self).projects@ && final(self).projects@.last().name == old(self).draft_name
                && final(self).projects@.last().description == line && final(self).selection
                == old(self).projects@.len() && final(self).stack() == old(
                self).stack().drop_last() && final(self).prompt is None),
            old(self).prompt == Some(Prompt::ProjectDescription) && old(self).editing && old(
                self).projects@.len() > 0 ==> r is Ok && final(self).projects@ == old(
                self).projects@.update(
                old(self).selected(old(self).projects@.len()),
                Project {
                    id: old(self).projects@[old(self).selected(old(self).projects@.len())].id,
                    name: old(self).draft_name,
                    description: line,
                },
            ) && final(self).stack() == old(self).stack().drop_last() && final(self).prompt is None,
            old(self).prompt == Some(Prompt::TaskDescription) ==> (old(self).store.tasks.next_id()
                < i64::MAX <==> r is Ok) && (r is Ok ==> final(self).tasks@.len() == old(
                self).tasks@.len() + 1 && final(self).tasks@.drop_last() == old(self).tasks@
                && final(self).tasks@.last().project_id == old(self).current_project && final(
                self).tasks@.last().name == old(self).draft_name && final(
                self).tasks@.last().description == line && final(self).selection == old(
                self).tasks@.len() && final(self).stack() == old(self).stack().drop_last()
                && final(self).prompt is None),
            old(self).prompt == Some(Prompt::EntryDescription) ==> r is Ok && final(self).prompt
                is None && final(self).stack() == old(self).stack() && if old(
                self).entries@.len() == 0 {
                final(self).entries@ == old(self).entries@
            } else {
                final(self).entries@ == old(self).entries@.update(
                    old(self).selected(old(self).entries@.len()),
                    TimeEntry {
                        description: line,
                        ..old(self).entries@[old(self).selected(old(self).entries@.len())]
                    },
                )
            },
            old(self).prompt == Some(Prompt::EntryHours) ==> final(self).prompt is None && final(
                self).stack() == old(self).stack() && (hours_seconds(line@) is None <==> r is Err)
                && (r is Err ==> r == Err::<(), NavError>(NavError::ParseError) && final(
                self).entries == old(self).entries) && (r is Ok ==> if old(self).entries@.len()
                == 0 {
                final(self).entries@ == old(self).entries@
            } else {
                final(self).entries@ == old(self).entries@.update(
                    old(self).selected(old(self).entries@.len()),
                    TimeEntry {
                        duration: hours_seconds(line@).unwrap(),
                        ..old(self).entries@[old(self).selected(old(self).entries@.len())]
                    },
                )
            }),
    {
        let prompt = self.prompt.unwrap();
        match prompt {
            Prompt::ProjectName => {
                self.draft_name = line;
                self.prompt = Some(Prompt::ProjectDescription);
                Ok(())
            },
            Prompt::TaskName => {
                self.draft_name = line;
                self.prompt = Some(Prompt::TaskDescription);
                Ok(())
            },
            Prompt::ProjectDescription => {
                let n = self.projects.len();
                if self.editing && n > 0 {
                    let i = clamp_selection(self.selection, n);
                    let p = Project { id: self.projects[i].id, name: self.draft_name.clone(), description: line };
                    let ghost rows = self.store.projects.rows();
                    let stored = p.duplicate();
                    assert(rows[i as int].key() == stored.id);
                    let updated = self.store.update_project(stored);
                    proof {
                        let j = choose|j: int|
                            0 <= j < rows.len() && rows[j].id == p.id && self.store.projects.rows()
                                == rows.update(j, p);
                        lemma_id_unique(rows, i as int, j);
                    }
                    self.projects.set(i, p);
                    self.prompt = None;
                    self.editing = false;
                    self.stack.pop();
                    match updated {
                        Ok(()) => Ok(()),
                        Err(e) => Err(NavError::Store(e)),
                    }
                } else {
                    let name = self.draft_name.clone();
                    match self.store.create_project(name, line) {
                        Ok(p) => {
                            self.projects.push(p);
                            assert(self.projects@.drop_last() =~= old(self).projects@);
                            self.selection = self.projects.len() - 1;
                            self.prompt = None;
                            self.editing = false;
                            self.stack.pop();
                            Ok(())
                        },
                        Err(e) => Err(NavError::Store(e)),
                    }
                }
            },
            Prompt::TaskDescription => {
                let name = self.draft_name.clone();
                match self.store.create_task(self.current_project, name, line) {
                    Ok(t) => {
                        self.tasks.push(t);
                        assert(self.tasks@.drop_last() =~= old(self).tasks@);
                        self.selection = self.tasks.len() - 1;
                        self.prompt = None;
                        self.stack.pop();
                        Ok(())
                    },
                    Err(e) => Err(NavError::Store(e)),
                }
            },
            Prompt::EntryDescription => {
                self.prompt = None;
                let n = self.entries.len();
                if n > 0 {
                    let i = clamp_selection(self.selection, n);
                    let old_entry = self.entries[i].duplicate();
                    let e = TimeEntry { description: line, ..old_entry };
                    self.set_selected_entry(e)
                } else {
                    Ok(())
                }
            },
            Prompt::EntryHours => {
                self.prompt = None;
                match parse_hours(line.as_str()) {
                    None => Err(NavError::ParseError),
                    Some(secs) => {
                        let n = self.entries.len();
                        if n > 0 {
                            let i = clamp_selection(self.selection, n);
                            let old_entry = self.entries[i].duplicate();
                            let e = TimeEntry { duration: secs, ..old_entry };
                            self.set_selected_entry(e)
                        } else {
                            Ok(())
                        }
                    },
                }
            },
        }
    }
}

} // verus!

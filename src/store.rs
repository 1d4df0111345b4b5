//! Keeping records: numbered tables of projects, tasks and time entries,
//! and the saved settings.
use vstd::prelude::*;
use crate::clock::SECONDS_PER_DAY;
use crate::model::{Project, ProjectTask, Settings, TimeEntry, User};

verus! {

/// Why a store operation failed.
#[derive(Clone, Copy, Debug, PartialEq, Eq, Structural)]
pub enum StoreError {
    /// No record has the id asked for.
    NotFound,
    /// The record could not be written: the table has no id left to give.
    StorageError,
}

/// A record that a table numbers.
pub trait Record: Sized {
    /// The record's id.
    spec fn key(&self) -> i64;

    /// The record with its id replaced by `id`.
    spec fn with_key(&self, id: i64) -> Self;

    /// The record's id.
    fn id(&self) -> (r: i64)
        ensures
            r == self.key(),
    ;

    /// Gives the record the id `id`, leaving its other fields.
    fn set_id(&mut self, id: i64)
        ensures
            *final(self) == old(self).with_key(id),
            final(self).key() == id,
    ;

    /// A copy of the record.
    fn duplicate(&self) -> (r: Self)
        ensures
            r == *self,
    ;
}

impl Record for Project {
    open spec fn key(&self) -> i64 {
        self.id
    }

    open spec fn with_key(&self, id: i64) -> Project {
        Project { id, ..*self }
    }

    fn id(&self) -> (r: i64) {
        self.id
    }

    fn set_id(&mut self, id: i64) {
        self.id = id;
    }

    fn duplicate(&self) -> (r: Project) {
        Project { id: self.id, name: self.name.clone(), description: self.description.clone() }
    }
}

impl Record for ProjectTask {
    open spec fn key(&self) -> i64 {
        self.id
    }

    open spec fn with_key(&self, id: i64) -> ProjectTask {
        ProjectTask { id, ..*self }
    }

    fn id(&self) -> (r: i64) {
        self.id
    }

    fn set_id(&mut self, id: i64) {
        self.id = id;
    }

    fn duplicate(&self) -> (r: ProjectTask) {
        ProjectTask {
            id: self.id,
            project_id: self.project_id,
            name: self.name.clone(),
            description: self.description.clone(),
        }
    }
}

impl Record for TimeEntry {
    open spec fn key(&self) -> i64 {
        self.id
    }

    open spec fn with_key(&self, id: i64) -> TimeEntry {
        TimeEntry { id, ..*self }
    }

    fn id(&self) -> (r: i64) {
        self.id
    }

    fn set_id(&mut self, id: i64) {
        self.id = id;
    }

    fn duplicate(&self) -> (r: TimeEntry) {
        TimeEntry {
            id: self.id,
            project_id: self.project_id,
            task_id: self.task_id,
            description: self.description.clone(),
            start_time: self.start_time,
            end_time: self.end_time,
            duration: self.duration,
            created_at: self.created_at,
        }
    }
}

fn duplicate_settings(s: &Settings) -> (r: Settings)
    ensures
        r == *s,
{
    Settings {
        database_path: s.database_path.clone(),
        user: User { name: s.user.name.clone(), email: s.user.email.clone() },
    }
}

/// Ids that rise strictly from first row to last.
pub open spec fn ids_rising<R: Record>(rows: Seq<R>) -> bool {
    forall|i: int, j: int| 0 <= i < j < rows.len() ==> #[trigger] rows[i].key() < #[trigger] rows[j].key()
}

/// Whether some row has the id.
pub open spec fn has_id<R: Record>(rows: Seq<R>, id: i64) -> bool {
    exists|i: int| #![trigger rows[i]] 0 <= i < rows.len() && rows[i].key() == id
}

/// Holds of a record whose id is not `id`.
pub open spec fn other_id<R: Record>(id: i64) -> spec_fn(R) -> bool {
    |r: R| r.key() != id
}

/// The rows whose id is not `id`.
pub open spec fn without_id<R: Record>(rows: Seq<R>, id: i64) -> Seq<R> {
    rows.filter(other_id(id))
}

proof fn lemma_filter_keeps_all<A>(s: Seq<A>, pred: spec_fn(A) -> bool)
    requires
        forall|i: int| 0 <= i < s.len() ==> pred(#[trigger] s[i]),
    ensures
        s.filter(pred) == s,
    decreases s.len(),
{
    reveal(Seq::filter);
    if s.len() > 0 {
        lemma_filter_keeps_all(s.drop_last(), pred);
        assert(s.drop_last().push(s.last()) =~= s);
    }
}

proof fn lemma_filter_drops_one<A>(a: A, pred: spec_fn(A) -> bool)
    requires
        !pred(a),
    ensures
        seq![a].filter(pred) == Seq::<A>::empty(),
{
    reveal_with_fuel(Seq::filter, 2);
    assert(seq![a].drop_last() =~= Seq::<A>::empty());
}

proof fn lemma_filter_step<A>(s: Seq<A>, pred: spec_fn(A) -> bool, i: int)
    requires
        0 <= i < s.len(),
    ensures
        s.take(i + 1).filter(pred) == if pred(s[i]) {
            s.take(i).filter(pred).push(s[i])
        } else {
            s.take(i).filter(pred)
        },
{
    reveal(Seq::filter);
    assert(s.take(i + 1).drop_last() =~= s.take(i));
}

proof fn lemma_ids_from_position<R: Record>(rows: Seq<R>, k: int)
    requires
        ids_rising(rows),
        forall|i: int| 0 <= i < rows.len() ==> 1 <= #[trigger] rows[i].key(),
        0 <= k < rows.len(),
    ensures
        rows[k].key() >= k + 1,
    decreases k,
{
    if k > 0 {
        lemma_ids_from_position(rows, k - 1);
        assert(rows[k - 1].key() < rows[k].key());
    }
}

/// A table of records, numbered by the table from 1 upwards in the order
/// they are added.
pub struct Table<R> {
    rows: Vec<R>,
    next_id: i64,
}

impl<R: Record> Table<R> {
    /// The records, in the order they were added.
    pub closed spec fn rows(&self) -> Seq<R> {
        self.rows@
    }

    /// The id that the next record added will get.
    pub closed spec fn next_id(&self) -> i64 {
        self.next_id
    }

    /// Ids are positive, rise with each row, and lie below the next id to give.
    pub open spec fn wf(&self) -> bool {
        &&& self.next_id() >= 1
        &&& ids_rising(self.rows())
        &&& forall|i: int|
            0 <= i < self.rows().len() ==> 1 <= #[trigger] self.rows()[i].key() < self.next_id()
    }

    /// A well-formed table has fewer rows than the next id to give.
    pub proof fn lemma_len_below_next_id(&self)
        requires
            self.wf(),
        ensures
            self.rows().len() < self.next_id(),
    {
        let rows = self.rows();
        if rows.len() > 0 {
            lemma_ids_from_position(rows, rows.len() - 1);
        }
    }

    /// An empty table.
    pub fn new() -> (r: Table<R>)
        ensures
            r.wf(),
            r.rows() == Seq::<R>::empty(),
            r.next_id() == 1,
    {
        Table { rows: Vec::new(), next_id: 1 }
    }

    /// A table holding `rows` that gives `next_id` next, where that makes a
    /// well-formed table; `None` where it does not.
    pub fn restore(rows: Vec<R>, next_id: i64) -> (r: Option<Table<R>>)
        ensures
            r is Some <==> (next_id >= 1 && ids_rising(rows@) && forall|i: int|
                0 <= i < rows@.len() ==> 1 <= #[trigger] rows@[i].key() < next_id),
            r matches Some(t) ==> t.rows() == rows@ && t.next_id() == next_id,
    {
        if next_id < 1 {
            return None;
        }
        let n = rows.len();
        let mut i: usize = 0;
        while i < n
            invariant
                n == rows@.len(),
                i <= n,
                next_id >= 1,
                forall|a: int, b: int| 0 <= a < b < i ==> #[trigger] rows@[a].key() < #[trigger] rows@[b].key(),
                forall|k: int| 0 <= k < i ==> 1 <= #[trigger] rows@[k].key() < next_id,
            decreases n - i,
        {
            let id = rows[i].id();
            if id < 1 || id >= next_id {
                return None;
            }
            if i > 0 && rows[i - 1].id() >= id {
                return None;
            }
            assert forall|a: int, b: int| 0 <= a < b < i + 1 implies #[trigger] rows@[a].key()
                < #[trigger] rows@[b].key() by {
                if b == i && a < i - 1 {
                    assert(rows@[a].key() < rows@[i - 1].key());
                }
            }
            i = i + 1;
        }
        Some(Table { rows, next_id })
    }

    /// Adds `record` under the next id and returns it as stored.
    pub fn insert(&mut self, record: R) -> (r: Result<R, StoreError>)
        requires
            old(self).wf(),
        ensures
            final(self).wf(),
            old(self).next_id() < i64::MAX ==> r == Ok::<R, StoreError>(
                record.with_key(old(self).next_id()),
            ),
            old(self).next_id() == i64::MAX ==> r == Err::<R, StoreError>(StoreError::StorageError),
            r matches Ok(x) ==> final(self).rows() == old(self).rows().push(x) && final(self).next_id() == old(self).next_id() + 1,
            r is Err ==> *final(self) == *old(self),
    {
        if self.next_id == i64::MAX {
            return Err(StoreError::StorageError);
        }
        let mut record = record;
        record.set_id(self.next_id);
        let stored = record.duplicate();
        self.rows.push(record);
        self.next_id = self.next_id + 1;
        Ok(stored)
    }

    fn position(&self, id: i64) -> (r: Option<usize>)
        ensures
            r matches Some(i) ==> i < self.rows().len() && self.rows()[i as int].key() == id,
            r is None ==> !has_id(self.rows(), id),
    {
        let mut i: usize = 0;
        while i < self.rows.len()
            invariant
                i <= self.rows@.len(),
                forall|j: int| 0 <= j < i ==> #[trigger] self.rows@[j].key() != id,
            decreases self.rows@.len() - i,
        {
            if self.rows[i].id() == id {
                return Some(i);
            }
            i = i + 1;
        }
        None
    }

    /// The record with the given id.
    pub fn get(&self, id: i64) -> (r: Result<R, StoreError>)
        requires
            self.wf(),
        ensures
            has_id(self.rows(), id) <==> r is Ok,
            r matches Ok(x) ==> x.key() == id && self.rows().contains(x),
            r matches Err(e) ==> e == StoreError::NotFound,
    {
        match self.position(id) {
            Some(i) => Ok(self.rows[i].duplicate()),
            None => Err(StoreError::NotFound),
        }
    }

    /// All records, in the order they were added.
    pub fn list(&self) -> (r: Vec<R>)
        ensures
            r@ == self.rows(),
    {
        let mut out: Vec<R> = Vec::new();
        let mut i: usize = 0;
        while i < self.rows.len()
            invariant
                i <= self.rows@.len(),
                out@ == self.rows@.take(i as int),
            decreases self.rows@.len() - i,
        {
            out.push(self.rows[i].duplicate());
            assert(self.rows@.take(i as int + 1) =~= self.rows@.take(i as int).push(self.rows@[i as int]));
            i = i + 1;
        }
        assert(self.rows@.take(i as int) =~= self.rows@);
        out
    }

    /// The records that `keep` holds of, in the order they were added.
    fn select(&self, keep: Ghost<spec_fn(R) -> bool>, test: impl Fn(&R) -> bool) -> (r: Vec<R>)
        requires
            forall|x: &R| #[trigger] test.requires((x,)),
            forall|x: &R, b: bool| test.ensures((x,), b) ==> b == keep@(*x),
        ensures
            r@ == self.rows().filter(keep@),
    {
        let mut out: Vec<R> = Vec::new();
        let mut i: usize = 0;
        while i < self.rows.len()
            invariant
                i <= self.rows@.len(),
                out@ == self.rows@.take(i as int).filter(keep@),
                forall|x: &R| #[trigger] test.requires((x,)),
                forall|x: &R, b: bool| test.ensures((x,), b) ==> b == keep@(*x),
            decreases self.rows@.len() - i,
        {
            proof { lemma_filter_step(self.rows@, keep@, i as int); }
            if test(&self.rows[i]) {
                out.push(self.rows[i].duplicate());
            }
            i = i + 1;
        }
        assert(self.rows@.take(i as int) =~= self.rows@);
        out
    }

    /// Replaces every field of the record that has `record`'s id.
    pub fn replace(&mut self, record: R) -> (r: Result<(), StoreError>)
        requires
            old(self).wf(),
        ensures
            final(self).wf(),
            final(self).next_id() == old(self).next_id(),
            has_id(old(self).rows(), record.key()) <==> r is Ok,
            r is Err ==> r == Err::<(), StoreError>(StoreError::NotFound) && *final(self) == *old(self),
            r is Ok ==> exists|i: int|
                0 <= i < old(self).rows().len() && old(self).rows()[i].key() == record.key()
                    && final(self).rows() == old(self).rows().update(i, record),
    {
        match self.position(record.id()) {
            Some(i) => {
                let ghost before = self.rows@;
                self.rows.set(i, record);
                assert(self.rows@ == before.update(i as int, record));
                Ok(())
            },
            None => Err(StoreError::NotFound),
        }
    }

    /// Removes the record with the given id; nothing happens where there is none.
    pub fn remove(&mut self, id: i64)
        requires
            old(self).wf(),
        ensures
            final(self).wf(),
            final(self).next_id() == old(self).next_id(),
            final(self).rows() == without_id(old(self).rows(), id),
    {
        let ghost before = self.rows@;
        match self.position(id) {
            Some(i) => {
                self.rows.remove(i);
                proof {
                    lemma_without_id_at(before, i as int);
                    assert forall|a: int, b: int|
                        0 <= a < b < self.rows@.len() implies #[trigger] self.rows@[a].key()
                        < #[trigger] self.rows@[b].key() by {
                        let a0 = if a < i { a } else { a + 1 };
                        let b0 = if b < i { b } else { b + 1 };
                        assert(self.rows@[a] == before[a0] && self.rows@[b] == before[b0]);
                    }
                    assert forall|k: int| 0 <= k < self.rows@.len() implies 1
                        <= #[trigger] self.rows@[k].key() < self.next_id by {
                        let k0 = if k < i { k } else { k + 1 };
                        assert(self.rows@[k] == before[k0]);
                    }
                }
            },
            None => {
                proof {
                    let pred = other_id::<R>(id);
                    assert forall|k: int| 0 <= k < before.len() implies pred(#[trigger] before[k]) by {
                        if before[k].key() == id {
                            assert(has_id(before, id));
                        }
                    }
                    lemma_filter_keeps_all(before, pred);
                }
            },
        }
    }
}

/// In rows whose ids rise, taking out the rows with the id of row `i` takes out row `i` alone.
pub proof fn lemma_without_id_at<R: Record>(rows: Seq<R>, i: int)
    requires
        ids_rising(rows),
        0 <= i < rows.len(),
    ensures
        without_id(rows, rows[i].key()) == rows.remove(i),
{
    let id = rows[i].key();
    let pred = other_id::<R>(id);
    assert(rows =~= rows.take(i) + seq![rows[i]] + rows.skip(i + 1));
    assert(rows.remove(i) =~= rows.take(i) + rows.skip(i + 1));
    let head = rows.take(i);
    let tail = rows.skip(i + 1);
    assert forall|k: int| 0 <= k < head.len() implies pred(#[trigger] head[k]) by {
        assert(head[k] == rows[k]);
        assert(rows[k].key() < rows[i].key());
    }
    assert forall|k: int| 0 <= k < tail.len() implies pred(#[trigger] tail[k]) by {
        assert(tail[k] == rows[k + i + 1]);
        assert(rows[i].key() < rows[k + i + 1].key());
    }
    lemma_filter_keeps_all(head, pred);
    lemma_filter_keeps_all(tail, pred);
    lemma_filter_drops_one(rows[i], pred);
    Seq::filter_distributes_over_add(head + seq![rows[i]], tail, pred);
    Seq::filter_distributes_over_add(head, seq![rows[i]], pred);
    assert(without_id(rows, id) =~= rows.remove(i));
}

/// In rows whose ids rise, one row at most has a given id.
pub proof fn lemma_id_unique<R: Record>(rows: Seq<R>, i: int, j: int)
    requires
        ids_rising(rows),
        0 <= i < rows.len(),
        0 <= j < rows.len(),
        rows[i].key() == rows[j].key(),
    ensures
        i == j,
{
    if i < j {
        assert(rows[i].key() < rows[j].key());
    } else if j < i {
        assert(rows[j].key() < rows[i].key());
    }
}

/// The records of a time tracker: projects, tasks, time entries, and the
/// settings saved so far.
pub struct Store {
    pub projects: Table<Project>,
    pub tasks: Table<ProjectTask>,
    pub entries: Table<TimeEntry>,
    pub saved_settings: Vec<Settings>,
}

/// `after` is `before` with project `p` added under the next project id.
pub open spec fn project_created(before: Store, after: Store, p: Project) -> bool {
    &&& p.id == before.projects.next_id()
    &&& after.projects.rows() == before.projects.rows().push(p)
    &&& after.projects.next_id() == before.projects.next_id() + 1
    &&& after.tasks == before.tasks
    &&& after.entries == before.entries
}

/// `after` is `before` with task `t` added under the next task id.
pub open spec fn task_created(before: Store, after: Store, t: ProjectTask) -> bool {
    &&& t.id == before.tasks.next_id()
    &&& after.tasks.rows() == before.tasks.rows().push(t)
    &&& after.tasks.next_id() == before.tasks.next_id() + 1
    &&& after.projects == before.projects
    &&& after.entries == before.entries
}

/// `after` is `before` without the project that has id `id`; tasks and
/// entries stay as they were.
pub open spec fn project_deleted(before: Store, after: Store, id: i64) -> bool {
    &&& after.projects.rows() == without_id(before.projects.rows(), id)
    &&& after.projects.next_id() == before.projects.next_id()
    &&& after.tasks == before.tasks
    &&& after.entries == before.entries
}

/// Whether an entry starts within the day that begins at `day_start`.
pub open spec fn starts_on_day(e: TimeEntry, day_start: i64) -> bool {
    day_start <= e.start_time < day_start + 86400
}

impl Store {
    /// Every table is well formed.
    pub open spec fn wf(&self) -> bool {
        self.projects.wf() && self.tasks.wf() && self.entries.wf()
    }

    /// The settings saved so far, oldest first.
    pub open spec fn settings_rows(&self) -> Seq<Settings> {
        self.saved_settings@
    }

    /// An empty store.
    pub fn new() -> (r: Store)
        ensures
            r.wf(),
            r.projects.rows() == Seq::<Project>::empty(),
            r.tasks.rows() == Seq::<ProjectTask>::empty(),
            r.entries.rows() == Seq::<TimeEntry>::empty(),
            r.settings_rows() == Seq::<Settings>::empty(),
            r.projects.next_id() == 1,
            r.tasks.next_id() == 1,
            r.entries.next_id() == 1,
    {
        Store {
            projects: Table::new(),
            tasks: Table::new(),
            entries: Table::new(),
            saved_settings: Vec::new(),
        }
    }

    /// Adds a project with the given fields and returns it with its id.
    pub fn create_project(&mut self, name: String, description: String) -> (r: Result<
        Project,
        StoreError,
    >)
        requires
            old(self).wf(),
        ensures
            final(self).wf(),
            final(self).tasks == old(self).tasks,
            final(self).entries == old(self).entries,
            old(self).projects.next_id() < i64::MAX <==> r is Ok,
            r matches Ok(p) ==> p.id == old(self).projects.next_id() && p.id >= 1 && p.name
                == name && p.description == description && final(self).projects.rows() == old(self).projects.rows().push(p),
            r is Err ==> r == Err::<Project, StoreError>(StoreError::StorageError)
                && final(self).projects == old(self).projects,
            r matches Ok(p) ==> project_created(*old(self), *final(self), p),
    {
        self.projects.insert(Project::new(name, description))
    }

    /// The project with the given id.
    pub fn get_project(&self, id: i64) -> (r: Result<Project, StoreError>)
        requires
            self.wf(),
        ensures
            has_id(self.projects.rows(), id) <==> r is Ok,
            r matches Ok(p) ==> p.id == id && self.projects.rows().contains(p),
            r is Err ==> r == Err::<Project, StoreError>(StoreError::NotFound),
    {
        self.projects.get(id)
    }

    /// All projects, in the order they were added.
    pub fn list_projects(&self) -> (r: Vec<Project>)
        ensures
            r@ == self.projects.rows(),
    {
        self.projects.list()
    }

    /// Replaces every field of the project that has `project`'s id.
    pub fn update_project(&mut self, project: Project) -> (r: Result<(), StoreError>)
        requires
            old(self).wf(),
        ensures
            final(self).wf(),
            final(self).tasks == old(self).tasks,
            final(self).entries == old(self).entries,
            has_id(old(self).projects.rows(), project.id) <==> r is Ok,
            r is Err ==> r == Err::<(), StoreError>(StoreError::NotFound)
                && final(self).projects == old(self).projects,
            r is Ok ==> exists|i: int|
                0 <= i < old(self).projects.rows().len() && old(self).projects.rows()[i].id
                    == project.id && final(self).projects.rows() == old(self).projects.rows().update(i, project),
    {
        self.projects.replace(project)
    }

    /// Removes the project with the given id, if any; its tasks and entries stay.
    pub fn delete_project(&mut self, id: i64)
        requires
            old(self).wf(),
        ensures
            final(self).wf(),
            final(self).tasks == old(self).tasks,
            final(self).entries == old(self).entries,
            final(self).projects.rows() == without_id(old(self).projects.rows(), id),
            project_deleted(*old(self), *final(self), id),
    {
        self.projects.remove(id)
    }

    /// Adds a task with the given fields and returns it with its id.
    pub fn create_task(&mut self, project_id: i64, name: String, description: String) -> (r:
        Result<ProjectTask, StoreError>)
        requires
            old(self).wf(),
        ensures
            final(self).wf(),
            final(self).projects == old(self).projects,
            final(self).entries == old(self).entries,
            old(self).tasks.next_id() < i64::MAX <==> r is Ok,
            r matches Ok(t) ==> t.id == old(self).tasks.next_id() && t.id >= 1 && t.project_id
                == project_id && t.name == name && t.description == description && final(self).tasks.rows() == old(self).tasks.rows().push(t),
            r is Err ==> r == Err::<ProjectTask, StoreError>(StoreError::StorageError)
                && final(self).tasks == old(self).tasks,
            r matches Ok(t) ==> task_created(*old(self), *final(self), t),
    {
        self.tasks.insert(ProjectTask::new(project_id, name, description))
    }

    /// The task with the given id.
    pub fn get_task(&self, id: i64) -> (r: Result<ProjectTask, StoreError>)
        requires
            self.wf(),
        ensures
            has_id(self.tasks.rows(), id) <==> r is Ok,
            r matches Ok(t) ==> t.id == id && self.tasks.rows().contains(t),
            r is Err ==> r == Err::<ProjectTask, StoreError>(StoreError::NotFound),
    {
        self.tasks.get(id)
    }

    /// The tasks of a project, in the order they were added.
    pub fn list_tasks(&self, project_id: i64) -> (r: Vec<ProjectTask>)
        ensures
            r@ == self.tasks.rows().filter(|t: ProjectTask| t.project_id == project_id),
    {
        self.tasks.select(
            Ghost(|t: ProjectTask| t.project_id == project_id),
            (|t: &ProjectTask| -> (b: bool)
                ensures
                    b == (t.project_id == project_id),
                { t.project_id == project_id }),
        )
    }

    /// Replaces every field of the task that has `task`'s id.
    pub fn update_task(&mut self, task: ProjectTask) -> (r: Result<(), StoreError>)
        requires
            old(self).wf(),
        ensures
            final(self).wf(),
            final(self).projects == old(self).projects,
            final(self).entries == old(self).entries,
            has_id(old(self).tasks.rows(), task.id) <==> r is Ok,
            r is Err ==> r == Err::<(), StoreError>(StoreError::NotFound) && final(self).tasks
                == old(self).tasks,
            r is Ok ==> exists|i: int|
                0 <= i < old(self).tasks.rows().len() && old(self).tasks.rows()[i].id == task.id
                    && final(self).tasks.rows() == old(self).tasks.rows().update(i, task),
    {
        self.tasks.replace(task)
    }

    /// Removes the task with the given id, if any; its entries stay.
    pub fn delete_task(&mut self, id: i64)
        requires
            old(self).wf(),
        ensures
            final(self).wf(),
            final(self).projects == old(self).projects,
            final(self).entries == old(self).entries,
            final(self).tasks.rows() == without_id(old(self).tasks.rows(), id),
    {
        self.tasks.remove(id)
    }

    /// Adds a time entry with the fields of `entry` and returns it with its id.
    pub fn create_time_entry(&mut self, entry: TimeEntry) -> (r: Result<TimeEntry, StoreError>)
        requires
            old(self).wf(),
        ensures
            final(self).wf(),
            final(self).projects == old(self).projects,
            final(self).tasks == old(self).tasks,
            old(self).entries.next_id() < i64::MAX <==> r is Ok,
            r matches Ok(e) ==> e == (TimeEntry { id: old(self).entries.next_id(), ..entry })
                && e.id >= 1 && final(self).entries.rows() == old(self).entries.rows().push(e),
            r is Err ==> r == Err::<TimeEntry, StoreError>(StoreError::StorageError)
                && final(self).entries == old(self).entries,
    {
        self.entries.insert(entry)
    }

    /// The time entry with the given id.
    pub fn get_time_entry(&self, id: i64) -> (r: Result<TimeEntry, StoreError>)
        requires
            self.wf(),
        ensures
            has_id(self.entries.rows(), id) <==> r is Ok,
            r matches Ok(e) ==> e.id == id && self.entries.rows().contains(e),
            r is Err ==> r == Err::<TimeEntry, StoreError>(StoreError::NotFound),
    {
        self.entries.get(id)
    }

    /// All time entries, in the order they were added.
    pub fn list_time_entries(&self) -> (r: Vec<TimeEntry>)
        ensures
            r@ == self.entries.rows(),
    {
        self.entries.list()
    }

    /// The time entries of a task, in the order they were added.
    pub fn list_time_entries_for_task(&self, task_id: i64) -> (r: Vec<TimeEntry>)
        ensures
            r@ == self.entries.rows().filter(|e: TimeEntry| e.task_id == task_id),
    {
        self.entries.select(
            Ghost(|e: TimeEntry| e.task_id == task_id),
            (|e: &TimeEntry| -> (b: bool)
                ensures
                    b == (e.task_id == task_id),
                { e.task_id == task_id }),
        )
    }

    /// The time entries that start within the day beginning at `day_start`
    /// (epoch seconds), in the order they were added.
    pub fn list_time_entries_for_date(&self, day_start: i64) -> (r: Vec<TimeEntry>)
        ensures
            r@ == self.entries.rows().filter(|e: TimeEntry| starts_on_day(e, day_start)),
    {
        self.entries.select(
            Ghost(|e: TimeEntry| starts_on_day(e, day_start)),
            (|e: &TimeEntry| -> (b: bool)
                ensures
                    b == starts_on_day(*e, day_start),
                {
                    day_start as i128 <= e.start_time as i128 && (e.start_time as i128) < day_start
                        as i128 + SECONDS_PER_DAY as i128
                }),
        )
    }

    /// Replaces every field of the time entry that has `entry`'s id.
    pub fn update_time_entry(&mut self, entry: TimeEntry) -> (r: Result<(), StoreError>)
        requires
            old(self).wf(),
        ensures
            final(self).wf(),
            final(self).projects == old(self).projects,
            final(self).tasks == old(self).tasks,
            has_id(old(self).entries.rows(), entry.id) <==> r is Ok,
            r is Err ==> r == Err::<(), StoreError>(StoreError::NotFound) && final(self).entries
                == old(self).entries,
            r is Ok ==> exists|i: int|
                0 <= i < old(self).entries.rows().len() && old(self).entries.rows()[i].id
                    == entry.id && final(self).entries.rows() == old(self).entries.rows().update(
                    i,
                    entry,
                ),
    {
        self.entries.replace(entry)
    }

    /// Removes the time entry with the given id, if any.
    pub fn delete_time_entry(&mut self, id: i64)
        requires
            old(self).wf(),
        ensures
            final(self).wf(),
            final(self).projects == old(self).projects,
            final(self).tasks == old(self).tasks,
            final(self).entries.rows() == without_id(old(self).entries.rows(), id),
    {
        self.entries.remove(id)
    }

    /// Saves new settings after those saved before; none is changed in place.
    pub fn save_settings(&mut self, name: String, email: String, database_path: String)
        ensures
            final(self).projects == old(self).projects,
            final(self).tasks == old(self).tasks,
            final(self).entries == old(self).entries,
            final(self).settings_rows() == old(self).settings_rows().push(
                Settings { database_path, user: User { name, email } },
            ),
    {
        self.saved_settings.push(Settings { database_path, user: User { name, email } });
    }

    /// The user name, email and database path of the settings in force: those
    /// saved last, or the defaults where none were saved.
    pub open spec fn current_settings(&self) -> (Seq<char>, Seq<char>, Seq<char>) {
        if self.settings_rows().len() > 0 {
            let s = self.settings_rows().last();
            (s.user.name@, s.user.email@, s.database_path@)
        } else {
            (Seq::empty(), Seq::empty(), Settings::default_settings_view())
        }
    }

    /// The settings saved last, or the default settings where none were saved.
    pub fn load_settings(&self) -> (r: Settings)
        ensures
            self.settings_rows().len() > 0 ==> r == self.settings_rows().last(),
            (r.user.name@, r.user.email@, r.database_path@) == self.current_settings(),
            self.settings_rows().len() == 0 ==> r.database_path@ == Settings::default_settings_view()
                && r.user.name@ == Seq::<char>::empty() && r.user.email@ == Seq::<char>::empty(),
    {
        let n = self.saved_settings.len();
        if n > 0 {
            duplicate_settings(&self.saved_settings[n - 1])
        } else {
            Settings::default_settings()
        }
    }
}

/// A project just created has a positive id and is the one project with that
/// id, so fetching by the id gives back its fields; once it is deleted, no
/// project has that id, so fetching by it finds nothing.
pub proof fn lemma_project_round_trip(s0: Store, s1: Store, s2: Store, p: Project)
    requires
        s0.wf(),
        project_created(s0, s1, p),
        project_deleted(s1, s2, p.id),
    ensures
        p.id >= 1,
        has_id(s1.projects.rows(), p.id),
        forall|i: int|
            0 <= i < s1.projects.rows().len() && s1.projects.rows()[i].id == p.id
                ==> #[trigger] s1.projects.rows()[i] == p,
        !has_id(s2.projects.rows(), p.id),
{
    let rows = s1.projects.rows();
    let n = s0.projects.rows().len();
    assert(rows[n as int] == p);
    assert forall|i: int| 0 <= i < rows.len() && rows[i].id == p.id implies #[trigger] rows[i] == p by {
        if i < n {
            assert(rows[i] == s0.projects.rows()[i]);
            assert(s0.projects.rows()[i].key() < s0.projects.next_id());
        }
    }
    assert(ids_rising(rows)) by {
        assert forall|a: int, b: int| 0 <= a < b < rows.len() implies #[trigger] rows[a].key()
            < #[trigger] rows[b].key() by {
            if b == n {
                assert(rows[a] == s0.projects.rows()[a]);
                assert(s0.projects.rows()[a].key() < s0.projects.next_id());
            } else {
                assert(rows[a] == s0.projects.rows()[a] && rows[b] == s0.projects.rows()[b]);
            }
        }
    }
    lemma_without_id_at(rows, n as int);
    assert(s2.projects.rows() =~= s0.projects.rows()) by {
        assert(rows.remove(n as int) =~= s0.projects.rows());
    }
    if has_id(s2.projects.rows(), p.id) {
        let i = choose|i: int| #![trigger s2.projects.rows()[i]]
            0 <= i < s2.projects.rows().len() && s2.projects.rows()[i].key() == p.id;
        assert(s0.projects.rows()[i].key() < s0.projects.next_id());
    }
}

/// Deleting a project leaves the tasks made under it: a task created under a
/// project can still be fetched by its id after the project is deleted.
pub proof fn lemma_project_delete_keeps_tasks(
    s0: Store,
    s1: Store,
    s2: Store,
    s3: Store,
    p: Project,
    t: ProjectTask,
)
    requires
        s0.wf(),
        project_created(s0, s1, p),
        task_created(s1, s2, t),
        t.project_id == p.id,
        project_deleted(s2, s3, p.id),
    ensures
        has_id(s3.tasks.rows(), t.id),
        s3.tasks.rows().contains(t),
{
    let rows = s3.tasks.rows();
    assert(rows[rows.len() - 1] == t);
}

} // verus!

use crate::error::TaskError;
use crate::model::{
    has_status, lemma_added, lemma_described, lemma_index_of, lemma_loaded, lemma_marked,
    lemma_removed, loadable, max_id, TaskListView,
};
use crate::task::{Status, Task, TaskRecord, TaskView};
use crate::timestamp::Timestamp;
use vstd::prelude::*;

verus! {

/// The mathematical values of a run of tasks, in the same order.
pub open spec fn views(tasks: Seq<Task>) -> Seq<TaskView> {
    tasks.map_values(|task: Task| task@)
}

/// The mathematical values of a run of borrowed tasks, in the same order.
pub open spec fn ref_views(tasks: Seq<&Task>) -> Seq<TaskView> {
    tasks.map_values(|task: &Task| task@)
}

/// The mathematical values of a run of stored tasks, in the same order.
pub open spec fn record_views(records: Seq<TaskRecord>) -> Seq<TaskView> {
    records.map_values(|record: TaskRecord| record@)
}

/// The place of the first of `tasks` that carries `id`.
fn first_with_id(tasks: &Vec<Task>, id: u32) -> (r: Option<usize>)
    ensures
        match r {
            Some(i) => i < tasks.len() && views(tasks@)[i as int].id == id && forall|k: int|
                0 <= k < i ==> (#[trigger] views(tasks@)[k]).id != id,
            None => forall|k: int| 0 <= k < tasks.len() ==> (#[trigger] views(tasks@)[k]).id != id,
        },
{
    let mut i: usize = 0;
    while i < tasks.len()
        invariant
            0 <= i <= tasks.len(),
            forall|k: int| 0 <= k < i ==> (#[trigger] views(tasks@)[k]).id != id,
        decreases tasks.len() - i,
    {
        if tasks[i].id() == id {
            return Some(i);
        }
        i += 1;
    }
    None
}

/// What reading the store brought.
pub enum Stored {
    /// There is no store yet.
    Absent,
    /// The store is there and could not be read.
    Unreadable,
    /// The store was read and does not hold a sequence of tasks.
    Malformed,
    /// The tasks that the store holds, in its order.
    Records(Vec<TaskRecord>),
}

/// The tasks of one run of the tracker, with the identifier that the next new
/// task gets.
pub struct TaskList {
    tasks: Vec<Task>,
    next_id: u32,
}

/// A collection as it comes from the store, and whether the store has to be
/// made first, holding no task.
pub struct Loaded {
    pub list: TaskList,
    pub create_store: bool,
}

impl View for TaskList {
    type V = TaskListView;

    closed spec fn view(&self) -> TaskListView {
        TaskListView { tasks: views(self.tasks@), next_id: self.next_id as nat }
    }
}

impl TaskList {
    #[verifier::type_invariant]
    pub open spec fn inv(&self) -> bool {
        self@.wf()
    }

    /// The empty collection, whose first task will get the identifier 1.
    pub fn new() -> (list: TaskList)
        ensures
            list@ == TaskListView::empty(),
    {
        let list = TaskList { tasks: Vec::new(), next_id: 1 };
        assert(list@.tasks =~= Seq::empty());
        list
    }

    /// The collection that stored tasks make: the tasks as they are stored,
    /// and one more than their largest identifier for the next new task.
    /// Stored tasks that do not make a collection are refused.
    pub fn build(records: &Vec<TaskRecord>) -> (r: Result<TaskList, TaskError>)
        ensures
            match r {
                Ok(list) => loadable(record_views(records@)) && list@ == TaskListView::loaded(
                    record_views(records@),
                ),
                Err(e) => !loadable(record_views(records@)) && e == TaskError::CorruptState,
            },
    {
        let ghost stored = record_views(records@);
        let mut tasks: Vec<Task> = Vec::new();
        let mut largest: u32 = 0;
        let mut i: usize = 0;
        assert(stored.take(0) =~= views(tasks@));
        while i < records.len()
            invariant
                0 <= i <= records.len(),
                stored == record_views(records@),
                views(tasks@) == stored.take(i as int),
                loadable(stored.take(i as int)),
                largest == max_id(stored.take(i as int)),
            decreases records.len() - i,
        {
            let record = &records[i];
            let ghost seen = stored.take(i as int);
            assert(stored.take(i + 1) =~= seen.push(record@));
            assert(stored.take(i + 1).drop_last() =~= seen);
            assert(stored[i as int] == record@);
            if record.id == 0 || record.id == u32::MAX {
                return Err(TaskError::CorruptState);
            }
            match first_with_id(&tasks, record.id) {
                Some(k) => {
                    assert(stored[k as int].id == stored[i as int].id) by {
                        assert(seen[k as int] == stored[k as int]);
                    }
                    return Err(TaskError::CorruptState);
                },
                None => {},
            }
            match Task::from_record(record) {
                Ok(task) => {
                    tasks.push(task);
                },
                Err(_) => {
                    return Err(TaskError::CorruptState);
                },
            }
            if record.id > largest {
                largest = record.id;
            }
            proof {
                assert(views(tasks@) =~= seen.push(record@));
                let next = stored.take(i + 1);
                assert forall|a: int, b: int| 0 <= a < b < next.len() implies (
                #[trigger] next[a]).id != (#[trigger] next[b]).id by {
                    if b < i {
                        assert(seen[a].id != seen[b].id);
                    } else {
                        assert(views(tasks@)[a].id != record.id);
                    }
                }
                assert forall|a: int| 0 <= a < next.len() implies (#[trigger] next[a]).wf() && 1
                    <= next[a].id < u32::MAX by {
                    if a < i {
                        assert(seen[a].wf());
                    }
                }
            }
            i += 1;
        }
        proof {
            assert(stored.take(i as int) =~= stored);
            lemma_loaded(stored);
        }
        Ok(TaskList { tasks, next_id: largest + 1 })
    }

    /// Decides what a run starts from, given what reading the store brought.
    /// Without a store it starts from the empty collection, and the store is
    /// to be made. With one it starts from the tasks that the store holds. A
    /// store that cannot be read, that holds no sequence of tasks or whose
    /// tasks make no collection ends the run.
    pub fn read_task_list(stored: &Stored) -> (r: Result<Loaded, TaskError>)
        ensures
            match *stored {
                Stored::Absent => r matches Ok(loaded) && loaded.list@ == TaskListView::empty()
                    && loaded.create_store,
                Stored::Unreadable => r matches Err(e) && e == TaskError::IoFailure,
                Stored::Malformed => r matches Err(e) && e == TaskError::CorruptState,
                Stored::Records(records) => match r {
                    Ok(loaded) => loadable(record_views(records@)) && loaded.list@
                        == TaskListView::loaded(record_views(records@)) && !loaded.create_store,
                    Err(e) => !loadable(record_views(records@)) && e == TaskError::CorruptState,
                },
            },
    {
        match stored {
            Stored::Absent => Ok(Loaded { list: TaskList::new(), create_store: true }),
            Stored::Unreadable => Err(TaskError::IoFailure),
            Stored::Malformed => Err(TaskError::CorruptState),
            Stored::Records(records) => match TaskList::build(records) {
                Ok(list) => Ok(Loaded { list, create_store: false }),
                Err(e) => Err(e),
            },
        }
    }

    /// The identifier that the next new task gets.
    pub fn next_id(&self) -> (id: u32)
        ensures
            id == self@.next_id,
            id >= 1,
    {
        proof {
            use_type_invariant(self);
        }
        self.next_id
    }

    /// The tasks, in the order in which they were added.
    pub fn tasks(&self) -> (tasks: &Vec<Task>)
        ensures
            views(tasks@) == self@.tasks,
            self@.wf(),
    {
        proof {
            use_type_invariant(self);
        }
        &self.tasks
    }

    /// The place of the task that carries `id`.
    pub fn position(&self, id: u32) -> (r: Option<usize>)
        ensures
            match r {
                Some(i) => self@.holds(id as nat) && i == self@.index_of(id as nat),
                None => !self@.holds(id as nat),
            },
    {
        proof {
            use_type_invariant(self);
        }
        let found = first_with_id(&self.tasks, id);
        proof {
            match found {
                Some(i) => lemma_index_of(self@, id as nat, i as int),
                None => {
                    if self@.holds(id as nat) {
                        let k = self@.index_of(id as nat);
                        assert(views(self.tasks@)[k].id != id);
                    }
                },
            }
        }
        found
    }

    /// The task that carries `id`.
    pub fn get(&self, id: u32) -> (r: Option<&Task>)
        ensures
            match r {
                Some(task) => self@.holds(id as nat) && task@ == self@.task_of(id as nat),
                None => !self@.holds(id as nat),
            },
    {
        match self.position(id) {
            Some(i) => Some(&self.tasks[i]),
            None => None,
        }
    }

    /// Adds a task made at the time `now` and returns its identifier. An
    /// empty description is refused, and the collection stays as it was.
    pub fn add_at(&mut self, description: &str, now: Timestamp) -> (r: Result<u32, TaskError>)
        requires
            old(self)@.next_id < u32::MAX,
        ensures
            match r {
                Ok(id) => description@.len() > 0 && id == old(self)@.next_id && final(self)@ == old(
                    self,
                )@.added(description@, now),
                Err(e) => description@.len() == 0 && e == TaskError::InvalidInput && final(self)@
                    == old(self)@,
            },
    {
        proof {
            use_type_invariant(&*self);
        }
        let id: u32 = self.next_id;
        match Task::new_at(id, description, now) {
            Ok(task) => {
                let mut tasks: Vec<Task> = Vec::new();
                std::mem::swap(&mut tasks, &mut self.tasks);
                tasks.push(task);
                proof {
                    lemma_added(old(self)@, description@, now);
                    assert(views(tasks@) =~= old(self)@.added(description@, now).tasks);
                }
                self.next_id = id + 1;
                self.tasks = tasks;
                Ok(id)
            },
            Err(e) => Err(e),
        }
    }

    /// Adds a task made at the time that the system clock shows and returns
    /// its identifier. An empty description is refused, and the collection
    /// stays as it was.
    pub fn add(&mut self, description: &str) -> (r: Result<u32, TaskError>)
        requires
            old(self)@.next_id < u32::MAX,
        ensures
            match r {
                Ok(id) => description@.len() > 0 && id == old(self)@.next_id && final(self)@ == old(
                    self,
                )@.added(description@, final(self)@.tasks.last().created_at),
                Err(e) => description@.len() == 0 && e == TaskError::InvalidInput && final(self)@
                    == old(self)@,
            },
    {
        proof {
            use_type_invariant(&*self);
        }
        let now = Timestamp::now();
        proof {
            lemma_added(old(self)@, description@, now);
        }
        self.add_at(description, now)
    }

    /// Gives the task that carries `id` the description `description` and
    /// refreshes the time of its last change from the clock's time `now`.
    /// Returns whether such a task was there; where none was, nothing
    /// changes. An empty description is refused, and nothing changes.
    pub fn update_at(&mut self, id: u32, description: &str, now: Timestamp) -> (r: Result<
        bool,
        TaskError,
    >)
        ensures
            match r {
                Ok(found) => description@.len() > 0 && found == old(self)@.holds(id as nat)
                    && final(self)@ == old(self)@.described(id as nat, description@, now),
                Err(e) => description@.len() == 0 && e == TaskError::InvalidInput && final(self)@
                    == old(self)@,
            },
    {
        proof {
            use_type_invariant(&*self);
        }
        if description.is_empty() {
            return Err(TaskError::InvalidInput);
        }
        match self.position(id) {
            Some(i) => {
                let mut tasks: Vec<Task> = Vec::new();
                std::mem::swap(&mut tasks, &mut self.tasks);
                let _ = tasks[i].set_description_at(description, now);
                proof {
                    lemma_described(old(self)@, id as nat, description@, now);
                    assert(views(tasks@) =~= old(self)@.described(
                        id as nat,
                        description@,
                        now,
                    ).tasks);
                }
                self.tasks = tasks;
                Ok(true)
            },
            None => Ok(false),
        }
    }

    /// Gives the task that carries `id` the description `description` and
    /// refreshes the time of its last change from the system clock. Returns
    /// whether such a task was there; where none was, nothing changes. An
    /// empty description is refused, and nothing changes.
    pub fn update(&mut self, id: u32, description: &str) -> (r: Result<bool, TaskError>)
        ensures
            match r {
                Ok(found) => description@.len() > 0 && found == old(self)@.holds(id as nat)
                    && final(self)@ == old(self)@.described(
                    id as nat,
                    description@,
                    final(self)@.task_of(id as nat).updated_at,
                ),
                Err(e) => description@.len() == 0 && e == TaskError::InvalidInput && final(self)@
                    == old(self)@,
            },
    {
        proof {
            use_type_invariant(&*self);
        }
        let now = Timestamp::now();
        proof {
            lemma_described(old(self)@, id as nat, description@, now);
        }
        self.update_at(id, description, now)
    }

    /// Gives the task that carries `id` the status `status` and refreshes the
    /// time of its last change from the clock's time `now`. Returns whether
    /// such a task was there; where none was, nothing changes.
    pub fn toggle_status_at(&mut self, status: Status, id: u32, now: Timestamp) -> (found: bool)
        ensures
            found == old(self)@.holds(id as nat),
            final(self)@ == old(self)@.marked(id as nat, status, now),
    {
        proof {
            use_type_invariant(&*self);
        }
        match self.position(id) {
            Some(i) => {
                let mut tasks: Vec<Task> = Vec::new();
                std::mem::swap(&mut tasks, &mut self.tasks);
                tasks[i].set_status_at(status, now);
                proof {
                    lemma_marked(old(self)@, id as nat, status, now);
                    assert(views(tasks@) =~= old(self)@.marked(id as nat, status, now).tasks);
                }
                self.tasks = tasks;
                true
            },
            None => false,
        }
    }

    /// Gives the task that carries `id` the status `status` and refreshes the
    /// time of its last change from the system clock. Returns whether such a
    /// task was there; where none was, nothing changes.
    pub fn toggle_status(&mut self, status: Status, id: u32) -> (found: bool)
        ensures
            found == old(self)@.holds(id as nat),
            final(self)@ == old(self)@.marked(
                id as nat,
                status,
                final(self)@.task_of(id as nat).updated_at,
            ),
    {
        proof {
            use_type_invariant(&*self);
        }
        let now = Timestamp::now();
        proof {
            lemma_marked(old(self)@, id as nat, status, now);
        }
        self.toggle_status_at(status, id, now)
    }

    /// Removes the task that carries `id`; the others keep their order.
    /// Returns whether such a task was there; where none was, nothing
    /// changes. The identifier that the next new task gets stays as it is.
    pub fn delete(&mut self, id: u32) -> (found: bool)
        ensures
            found == old(self)@.holds(id as nat),
            final(self)@ == old(self)@.removed(id as nat),
    {
        proof {
            use_type_invariant(&*self);
        }
        match self.position(id) {
            Some(i) => {
                let mut tasks: Vec<Task> = Vec::new();
                std::mem::swap(&mut tasks, &mut self.tasks);
                let _ = tasks.remove(i);
                proof {
                    lemma_removed(old(self)@, id as nat);
                    assert(views(tasks@) =~= old(self)@.removed(id as nat).tasks);
                }
                self.tasks = tasks;
                true
            },
            None => false,
        }
    }

    /// The tasks that a listing shows: all of them without a filter, those
    /// whose status is the filter's with one, in the order of the collection.
    pub fn list(&self, option: Option<&Status>) -> (shown: Vec<&Task>)
        ensures
            ref_views(shown@) == self@.listed(
                match option {
                    Some(status) => Some(*status),
                    None => None,
                },
            ),
    {
        let mut shown: Vec<&Task> = Vec::new();
        let mut i: usize = 0;
        match option {
            Some(status) => {
                let ghost keep = has_status(*status);
                assert(views(self.tasks@).take(0) =~= Seq::<TaskView>::empty());
                proof {
                    reveal(Seq::filter);
                }
                while i < self.tasks.len()
                    invariant
                        0 <= i <= self.tasks.len(),
                        keep == has_status(*status),
                        ref_views(shown@) == views(self.tasks@).take(i as int).filter(keep),
                    decreases self.tasks.len() - i,
                {
                    let task = &self.tasks[i];
                    proof {
                        let seen = views(self.tasks@).take(i as int);
                        assert(views(self.tasks@).take(i + 1) =~= seen.push(task@));
                        seen.lemma_filter_push(task@, keep);
                    }
                    if *task.status() == *status {
                        let ghost before = ref_views(shown@);
                        shown.push(task);
                        assert(ref_views(shown@) =~= before.push(task@));
                    }
                    i += 1;
                }
                assert(views(self.tasks@).take(i as int) =~= views(self.tasks@));
            },
            None => {
                while i < self.tasks.len()
                    invariant
                        0 <= i <= self.tasks.len(),
                        ref_views(shown@) == views(self.tasks@).take(i as int),
                    decreases self.tasks.len() - i,
                {
                    let task = &self.tasks[i];
                    let ghost before = ref_views(shown@);
                    shown.push(task);
                    assert(ref_views(shown@) =~= before.push(task@));
                    assert(views(self.tasks@).take(i + 1) =~= before.push(task@));
                    i += 1;
                }
                assert(views(self.tasks@).take(i as int) =~= views(self.tasks@));
            },
        }
        shown
    }

    /// The tasks as they are stored, in the order of the collection.
    pub fn records(&self) -> (records: Vec<TaskRecord>)
        ensures
            record_views(records@) == self@.tasks,
            loadable(record_views(records@)),
    {
        proof {
            use_type_invariant(self);
        }
        let mut records: Vec<TaskRecord> = Vec::new();
        let mut i: usize = 0;
        while i < self.tasks.len()
            invariant
                0 <= i <= self.tasks.len(),
                record_views(records@) == views(self.tasks@).take(i as int),
            decreases self.tasks.len() - i,
        {
            let record = self.tasks[i].to_record();
            let ghost before = record_views(records@);
            records.push(record);
            assert(record_views(records@) =~= before.push(record@));
            assert(views(self.tasks@).take(i + 1) =~= before.push(record@));
            i += 1;
        }
        assert(views(self.tasks@).take(i as int) =~= views(self.tasks@));
        assert(self@.next_id <= u32::MAX);
        records
    }
}

} // verus!
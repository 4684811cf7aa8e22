use crate::task::{Status, TaskView};
use crate::timestamp::Timestamp;
use vstd::prelude::*;

verus! {

/// What a collection of tasks is, as a mathematical value: the tasks in the
/// order in which they were added, and the identifier that the next one gets.
pub struct TaskListView {
    pub tasks: Seq<TaskView>,
    pub next_id: nat,
}

/// The test that keeps the tasks of one status.
pub open spec fn has_status(status: Status) -> spec_fn(TaskView) -> bool {
    |task: TaskView| task.status == status
}

/// The largest identifier among the tasks; 0 where there is none.
pub open spec fn max_id(tasks: Seq<TaskView>) -> nat
    decreases tasks.len(),
{
    if tasks.len() == 0 {
        0
    } else if max_id(tasks.drop_last()) >= tasks.last().id {
        max_id(tasks.drop_last())
    } else {
        tasks.last().id
    }
}

/// No two of the tasks carry the same identifier.
pub open spec fn distinct_ids(tasks: Seq<TaskView>) -> bool {
    forall|i: int, j: int|
        0 <= i < j < tasks.len() ==> (#[trigger] tasks[i]).id != (#[trigger] tasks[j]).id
}

/// Stored tasks that make a collection: each is valid and carries a positive
/// identifier that leaves room for a next one, and no two carry the same.
pub open spec fn loadable(tasks: Seq<TaskView>) -> bool {
    &&& forall|i: int|
        0 <= i < tasks.len() ==> (#[trigger] tasks[i]).wf() && 1 <= tasks[i].id < u32::MAX
    &&& distinct_ids(tasks)
}

impl TaskListView {
    /// Every task is valid and carries a positive identifier below `next_id`,
    /// and no two tasks carry the same one.
    pub open spec fn wf(self) -> bool {
        &&& self.next_id >= 1
        &&& forall|i: int|
            0 <= i < self.tasks.len() ==> (#[trigger] self.tasks[i]).wf() && 1 <= self.tasks[i].id
                < self.next_id
        &&& distinct_ids(self.tasks)
    }

    /// The collection with no task in it.
    pub open spec fn empty() -> TaskListView {
        TaskListView { tasks: Seq::empty(), next_id: 1 }
    }

    /// The collection that stored tasks make: the tasks as they are stored,
    /// and one more than their largest identifier for the next.
    pub open spec fn loaded(tasks: Seq<TaskView>) -> TaskListView {
        TaskListView { tasks, next_id: max_id(tasks) + 1 }
    }

    /// Some task carries the identifier `id`.
    pub open spec fn holds(self, id: nat) -> bool {
        exists|i: int| 0 <= i < self.tasks.len() && (#[trigger] self.tasks[i]).id == id
    }

    /// The place of the task that carries `id`, where there is one.
    pub open spec fn index_of(self, id: nat) -> int {
        choose|i: int| 0 <= i < self.tasks.len() && (#[trigger] self.tasks[i]).id == id
    }

    /// The task that carries `id`, where there is one.
    pub open spec fn task_of(self, id: nat) -> TaskView {
        self.tasks[self.index_of(id)]
    }

    /// The collection with `task` in the place of the task that carries `id`;
    /// the collection itself where none carries it.
    pub open spec fn revised(self, id: nat, task: TaskView) -> TaskListView {
        if self.holds(id) {
            TaskListView { tasks: self.tasks.update(self.index_of(id), task), ..self }
        } else {
            self
        }
    }

    /// The collection after a task with the given description was added at
    /// the time `now`.
    pub open spec fn added(self, description: Seq<char>, now: Timestamp) -> TaskListView {
        TaskListView {
            tasks: self.tasks.push(TaskView::created(self.next_id, description, now)),
            next_id: self.next_id + 1,
        }
    }

    /// The collection after the task that carries `id` got the description
    /// `description` at the time `now`.
    pub open spec fn described(
        self,
        id: nat,
        description: Seq<char>,
        now: Timestamp,
    ) -> TaskListView {
        self.revised(id, self.task_of(id).with_description(description, now))
    }

    /// The collection after the task that carries `id` got the status
    /// `status` at the time `now`.
    pub open spec fn marked(self, id: nat, status: Status, now: Timestamp) -> TaskListView {
        self.revised(id, self.task_of(id).with_status(status, now))
    }

    /// The collection without the task that carries `id`, the others in the
    /// order they had; the collection itself where none carries it.
    pub open spec fn removed(self, id: nat) -> TaskListView {
        if self.holds(id) {
            TaskListView { tasks: self.tasks.remove(self.index_of(id)), ..self }
        } else {
            self
        }
    }

    /// The tasks that a listing shows: all of them without a filter, those of
    /// the given status with one, in the order of the collection either way.
    pub open spec fn listed(self, filter: Option<Status>) -> Seq<TaskView> {
        match filter {
            None => self.tasks,
            Some(status) => self.tasks.filter(has_status(status)),
        }
    }
}

/// Where no two tasks carry the same identifier, the task that carries one
/// is found at its one place.
pub proof fn lemma_index_of(list: TaskListView, id: nat, i: int)
    requires
        distinct_ids(list.tasks),
        0 <= i < list.tasks.len(),
        list.tasks[i].id == id,
    ensures
        list.holds(id),
        list.index_of(id) == i,
        list.task_of(id) == list.tasks[i],
{
    let k = list.index_of(id);
    if k < i {
        assert(list.tasks[k].id != list.tasks[i].id);
    } else if i < k {
        assert(list.tasks[i].id != list.tasks[k].id);
    }
}

/// Adding a task keeps a collection valid, puts the new task last under the
/// identifier that was next, and moves the next identifier on by one.
pub proof fn lemma_added(list: TaskListView, description: Seq<char>, now: Timestamp)
    requires
        list.wf(),
    ensures
        list.added(description, now).wf(),
        list.added(description, now).next_id == list.next_id + 1,
        list.added(description, now).tasks.len() == list.tasks.len() + 1,
        list.added(description, now).tasks.last() == TaskView::created(
            list.next_id,
            description,
            now,
        ),
        list.added(description, now).holds(list.next_id),
        !list.holds(list.next_id),
{
    let after = list.added(description, now);
    assert(after.tasks[list.tasks.len() as int].id == list.next_id);
    if list.holds(list.next_id) {
        let k = list.index_of(list.next_id);
        assert(list.tasks[k].id < list.next_id);
    }
}

/// Putting a valid task in the place of the one that carries the same
/// identifier keeps a collection valid and touches no other task.
pub proof fn lemma_revised(list: TaskListView, id: nat, task: TaskView)
    requires
        list.wf(),
        task.wf(),
        task.id == id,
    ensures
        list.revised(id, task).wf(),
        list.revised(id, task).next_id == list.next_id,
        list.revised(id, task).tasks.len() == list.tasks.len(),
        list.revised(id, task).holds(id) == list.holds(id),
        list.holds(id) ==> list.revised(id, task).task_of(id) == task,
        forall|i: int|
            0 <= i < list.tasks.len() && (#[trigger] list.tasks[i]).id != id ==> list.revised(
                id,
                task,
            ).tasks[i] == list.tasks[i],
{
    let after = list.revised(id, task);
    if list.holds(id) {
        let k = list.index_of(id);
        assert forall|i: int| 0 <= i < after.tasks.len() implies (#[trigger] after.tasks[i]).id
            == list.tasks[i].id by {}
        assert forall|i: int| 0 <= i < after.tasks.len() implies (#[trigger] after.tasks[i]).wf()
            && 1 <= after.tasks[i].id < after.next_id by {
            assert(list.tasks[i].wf());
        }
        assert forall|i: int, j: int| 0 <= i < j < after.tasks.len() implies (
        #[trigger] after.tasks[i]).id != (#[trigger] after.tasks[j]).id by {
            assert(list.tasks[i].id != list.tasks[j].id);
        }
        assert(after.tasks[k].id == id);
        lemma_index_of(after, id, k);
        assert forall|i: int|
            0 <= i < list.tasks.len() && (#[trigger] list.tasks[i]).id != id implies after.tasks[i]
            == list.tasks[i] by {}
    }
}

/// Giving a task a description keeps a collection valid and touches no other
/// task. The task keeps its identifier, its status and the time of its
/// creation, and the time of its last change does not move back.
pub proof fn lemma_described(list: TaskListView, id: nat, description: Seq<char>, now: Timestamp)
    requires
        list.wf(),
    ensures
        list.described(id, description, now).wf(),
        list.described(id, description, now).next_id == list.next_id,
        list.described(id, description, now).tasks.len() == list.tasks.len(),
        list.described(id, description, now).holds(id) == list.holds(id),
        !list.holds(id) ==> list.described(id, description, now) == list,
        list.holds(id) ==> {
            let before = list.task_of(id);
            let after = list.described(id, description, now).task_of(id);
            &&& after == before.with_description(description, now)
            &&& after.id == id
            &&& after.status == before.status
            &&& after.created_at == before.created_at
            &&& before.updated_at.at_or_before(after.updated_at)
        },
        forall|i: int|
            0 <= i < list.tasks.len() && (#[trigger] list.tasks[i]).id != id ==> list.described(
                id,
                description,
                now,
            ).tasks[i] == list.tasks[i],
{
    if list.holds(id) {
        let k = list.index_of(id);
        assert(list.tasks[k].wf());
        lemma_revised(list, id, list.task_of(id).with_description(description, now));
    }
}

/// Giving a task a status keeps a collection valid and touches no other
/// task. The task keeps its identifier, its description and the time of its
/// creation, and the time of its last change does not move back.
pub proof fn lemma_marked(list: TaskListView, id: nat, status: Status, now: Timestamp)
    requires
        list.wf(),
    ensures
        list.marked(id, status, now).wf(),
        list.marked(id, status, now).next_id == list.next_id,
        list.marked(id, status, now).tasks.len() == list.tasks.len(),
        list.marked(id, status, now).holds(id) == list.holds(id),
        !list.holds(id) ==> list.marked(id, status, now) == list,
        list.holds(id) ==> {
            let before = list.task_of(id);
            let after = list.marked(id, status, now).task_of(id);
            &&& after == before.with_status(status, now)
            &&& after.id == id
            &&& after.description == before.description
            &&& after.created_at == before.created_at
            &&& before.updated_at.at_or_before(after.updated_at)
        },
        forall|i: int|
            0 <= i < list.tasks.len() && (#[trigger] list.tasks[i]).id != id ==> list.marked(
                id,
                status,
                now,
            ).tasks[i] == list.tasks[i],
{
    if list.holds(id) {
        let k = list.index_of(id);
        assert(list.tasks[k].wf());
        lemma_revised(list, id, list.task_of(id).with_status(status, now));
    }
}

/// Removing a task keeps a collection valid and keeps the next identifier,
/// so that the identifier of the removed task is not given out again.
pub proof fn lemma_removed(list: TaskListView, id: nat)
    requires
        list.wf(),
    ensures
        list.removed(id).wf(),
        list.removed(id).next_id == list.next_id,
        !list.removed(id).holds(id),
        list.holds(id) ==> list.removed(id).tasks.len() == list.tasks.len() - 1,
        !list.holds(id) ==> list.removed(id) == list,
{
    let after = list.removed(id);
    if list.holds(id) {
        let k = list.index_of(id);
        assert forall|i: int| 0 <= i < after.tasks.len() implies (#[trigger] after.tasks[i])
            == list.tasks[if i < k {
            i
        } else {
            i + 1
        }] by {}
        assert forall|i: int| 0 <= i < after.tasks.len() implies (#[trigger] after.tasks[i]).wf()
            && 1 <= after.tasks[i].id < after.next_id && after.tasks[i].id != id by {
            let from = if i < k {
                i
            } else {
                i + 1
            };
            assert(list.tasks[from].wf());
            if from < k {
                assert(list.tasks[from].id != list.tasks[k].id);
            } else {
                assert(list.tasks[k].id != list.tasks[from].id);
            }
        }
        assert forall|i: int, j: int| 0 <= i < j < after.tasks.len() implies (
        #[trigger] after.tasks[i]).id != (#[trigger] after.tasks[j]).id by {
            let from_i = if i < k {
                i
            } else {
                i + 1
            };
            let from_j = if j < k {
                j
            } else {
                j + 1
            };
            assert(list.tasks[from_i].id != list.tasks[from_j].id);
        }
        if after.holds(id) {
            let w = after.index_of(id);
            assert(after.tasks[w].id != id);
        }
    }
}

/// The largest identifier is carried by one of the tasks, where there is
/// any, and no task carries a larger one.
pub proof fn lemma_max_id(tasks: Seq<TaskView>)
    ensures
        forall|i: int| 0 <= i < tasks.len() ==> (#[trigger] tasks[i]).id <= max_id(tasks),
        tasks.len() > 0 ==> exists|i: int|
            0 <= i < tasks.len() && (#[trigger] tasks[i]).id == max_id(tasks),
        tasks.len() == 0 ==> max_id(tasks) == 0,
    decreases tasks.len(),
{
    if tasks.len() > 0 {
        let rest = tasks.drop_last();
        let n = tasks.len() - 1;
        lemma_max_id(rest);
        assert forall|i: int| 0 <= i < tasks.len() implies (#[trigger] tasks[i]).id <= max_id(
            tasks,
        ) by {
            if i < n {
                assert(rest[i].id <= max_id(rest));
            }
        }
        if max_id(rest) >= tasks.last().id && rest.len() > 0 {
            let k = choose|i: int| 0 <= i < rest.len() && (#[trigger] rest[i]).id == max_id(rest);
            assert(tasks[k].id == max_id(tasks));
        } else {
            assert(tasks[n].id == max_id(tasks));
        }
    }
}

/// Stored tasks that make a collection make a valid one, whose next
/// identifier is one more than the largest that is stored.
pub proof fn lemma_loaded(tasks: Seq<TaskView>)
    requires
        loadable(tasks),
    ensures
        TaskListView::loaded(tasks).wf(),
        TaskListView::loaded(tasks).tasks == tasks,
        TaskListView::loaded(tasks).next_id == max_id(tasks) + 1,
        TaskListView::loaded(tasks).next_id <= u32::MAX,
        tasks.len() == 0 ==> TaskListView::loaded(tasks) == TaskListView::empty(),
{
    lemma_max_id(tasks);
    if tasks.len() > 0 {
        let k = choose|i: int| 0 <= i < tasks.len() && (#[trigger] tasks[i]).id == max_id(tasks);
        assert(tasks[k].id < u32::MAX);
    } else {
        assert(tasks =~= Seq::empty());
    }
}

/// Storing a valid collection and loading what was stored brings back the
/// same tasks in the same order, and one more than their largest identifier
/// for the next, which is not beyond the one that the collection had.
pub proof fn lemma_reload(list: TaskListView)
    requires
        list.wf(),
        list.next_id <= u32::MAX,
    ensures
        loadable(list.tasks),
        TaskListView::loaded(list.tasks).wf(),
        TaskListView::loaded(list.tasks).tasks == list.tasks,
        TaskListView::loaded(list.tasks).next_id == max_id(list.tasks) + 1,
        TaskListView::loaded(list.tasks).next_id <= list.next_id,
{
    lemma_max_id(list.tasks);
    assert forall|i: int| 0 <= i < list.tasks.len() implies (#[trigger] list.tasks[i]).wf() && 1
        <= list.tasks[i].id < u32::MAX by {}
    lemma_loaded(list.tasks);
    if list.tasks.len() > 0 {
        let k = choose|i: int|
            0 <= i < list.tasks.len() && (#[trigger] list.tasks[i]).id == max_id(list.tasks);
        assert(list.tasks[k].id < list.next_id);
    }
}

/// A task that was added is found again as it was added, under the same
/// identifier, in the collection that the stored tasks make, and the next
/// identifier is the same as before the tasks were stored.
pub proof fn lemma_add_then_reload(list: TaskListView, description: Seq<char>, now: Timestamp)
    requires
        list.wf(),
        list.next_id < u32::MAX,
    ensures
        loadable(list.added(description, now).tasks),
        ({
            let back = TaskListView::loaded(list.added(description, now).tasks);
            &&& back == list.added(description, now)
            &&& back.holds(list.next_id)
            &&& back.task_of(list.next_id) == TaskView::created(list.next_id, description, now)
        }),
{
    let after = list.added(description, now);
    lemma_added(list, description, now);
    lemma_reload(after);
    lemma_max_id(after.tasks);
    let n = list.tasks.len() as int;
    assert(after.tasks[n].id == list.next_id);
    lemma_index_of(after, list.next_id, n);
}

} // verus!

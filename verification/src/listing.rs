use crate::task::{Status, TaskView};
use crate::model::{distinct_ids, has_status, lemma_index_of, lemma_marked, TaskListView};
use crate::timestamp::Timestamp;
use vstd::prelude::*;

verus! {

/// How many of the tasks have the status `status`.
pub open spec fn count(tasks: Seq<TaskView>, status: Status) -> nat {
    tasks.filter(has_status(status)).len()
}

/// The collection after each of the tasks that carry `ids` got the status
/// `status`, one after the other, the n-th at the n-th of `times`.
pub open spec fn marked_all(
    list: TaskListView,
    ids: Seq<nat>,
    status: Status,
    times: Seq<Timestamp>,
) -> TaskListView
    decreases ids.len(),
{
    if ids.len() == 0 {
        list
    } else {
        marked_all(list, ids.drop_last(), status, times).marked(
            ids.last(),
            status,
            times[ids.len() - 1],
        )
    }
}

/// What keeping the tasks of one status does to a run of tasks, one task at
/// a time: a task of that status is kept behind those kept before it, and
/// any other task is left out.
pub proof fn lemma_kept(tasks: Seq<TaskView>, status: Status)
    requires
        tasks.len() > 0,
    ensures
        tasks.filter(has_status(status)) == if tasks.last().status == status {
            tasks.drop_last().filter(has_status(status)).push(tasks.last())
        } else {
            tasks.drop_last().filter(has_status(status))
        },
{
    reveal(Seq::filter);
}

/// Out of no tasks none is kept.
pub proof fn lemma_kept_none(status: Status)
    ensures
        Seq::<TaskView>::empty().filter(has_status(status)) == Seq::<TaskView>::empty(),
{
    reveal(Seq::filter);
}

/// A listing by status shows tasks of that status only, shows every task of
/// that status, and shows them in the order of the collection.
pub proof fn lemma_listed(list: TaskListView, status: Status)
    requires
        distinct_ids(list.tasks),
    ensures
        list.listed(None) == list.tasks,
        forall|i: int|
            0 <= i < list.listed(Some(status)).len() ==> {
                let task = #[trigger] list.listed(Some(status))[i];
                &&& task.status == status
                &&& list.holds(task.id)
                &&& list.task_of(task.id) == task
            },
        forall|k: int|
            0 <= k < list.tasks.len() && (#[trigger] list.tasks[k]).status == status
                ==> list.listed(Some(status)).contains(list.tasks[k]),
        forall|i: int, j: int|
            0 <= i < j < list.listed(Some(status)).len() ==> list.index_of(
                (#[trigger] list.listed(Some(status))[i]).id,
            ) < list.index_of((#[trigger] list.listed(Some(status))[j]).id),
    decreases list.tasks.len(),
{
    let shown = list.listed(Some(status));
    if list.tasks.len() == 0 {
        lemma_kept_none(status);
        assert(list.tasks =~= Seq::<TaskView>::empty());
    } else {
        let n = list.tasks.len() - 1;
        let last = list.tasks.last();
        let rest = TaskListView { tasks: list.tasks.drop_last(), ..list };
        let before = rest.listed(Some(status));
        lemma_kept(list.tasks, status);
        lemma_listed(rest, status);
        lemma_index_of(list, last.id, n);
        assert forall|i: int| 0 <= i < before.len() implies {
            let task = #[trigger] before[i];
            &&& list.holds(task.id)
            &&& list.task_of(task.id) == task
            &&& list.index_of(task.id) == rest.index_of(task.id)
            &&& list.index_of(task.id) < n
        } by {
            let task = before[i];
            let k = rest.index_of(task.id);
            assert(rest.holds(task.id));
            assert(rest.tasks[k] == list.tasks[k]);
            lemma_index_of(list, task.id, k);
        }
        assert forall|i: int| 0 <= i < shown.len() implies {
            let task = #[trigger] shown[i];
            &&& task.status == status
            &&& list.holds(task.id)
            &&& list.task_of(task.id) == task
        } by {
            if i < before.len() {
                assert(shown[i] == before[i]);
            }
        }
        assert forall|k: int|
            0 <= k < list.tasks.len() && (#[trigger] list.tasks[k]).status
                == status implies shown.contains(list.tasks[k]) by {
            if k < n {
                assert(rest.tasks[k] == list.tasks[k]);
                assert(before.contains(rest.tasks[k]));
                let w = choose|w: int| 0 <= w < before.len() && before[w] == rest.tasks[k];
                assert(shown[w] == list.tasks[k]);
            } else {
                assert(shown[shown.len() - 1] == last);
            }
        }
        assert forall|i: int, j: int| 0 <= i < j < shown.len() implies list.index_of(
            (#[trigger] shown[i]).id,
        ) < list.index_of((#[trigger] shown[j]).id) by {
            assert(shown[i] == before[i]);
            if j < before.len() {
                assert(shown[j] == before[j]);
            }
        }
    }
}

/// Putting a task in the place of another changes the number of tasks of a
/// status by what the new task adds to it and the old one took from it.
pub proof fn lemma_count_update(tasks: Seq<TaskView>, k: int, task: TaskView, status: Status)
    requires
        0 <= k < tasks.len(),
    ensures
        count(tasks.update(k, task), status) + (if tasks[k].status == status {
            1nat
        } else {
            0nat
        }) == count(tasks, status) + (if task.status == status {
            1nat
        } else {
            0nat
        }),
    decreases tasks.len(),
{
    let after = tasks.update(k, task);
    lemma_kept(tasks, status);
    lemma_kept(after, status);
    if k == tasks.len() - 1 {
        assert(after.drop_last() =~= tasks.drop_last());
    } else {
        assert(after.drop_last() =~= tasks.drop_last().update(k, task));
        lemma_count_update(tasks.drop_last(), k, task, status);
    }
}

/// Giving a status to a task that did not have it makes the listing by that
/// status one task longer; giving it to a task that had it, or to none,
/// leaves the listing as long as it was.
pub proof fn lemma_marked_count(list: TaskListView, id: nat, status: Status, now: Timestamp)
    requires
        list.wf(),
    ensures
        list.marked(id, status, now).listed(Some(status)).len() == list.listed(Some(status)).len()
            + (if list.holds(id) && list.task_of(id).status != status {
            1nat
        } else {
            0nat
        }),
{
    if list.holds(id) {
        lemma_count_update(
            list.tasks,
            list.index_of(id),
            list.task_of(id).with_status(status, now),
            status,
        );
    }
}

/// After exactly k tasks that did not have a status were given it, the
/// listing by that status is k tasks longer: out of tasks of which none was
/// done, marking k as done makes a listing of exactly k done tasks.
pub proof fn lemma_marked_all_count(
    list: TaskListView,
    ids: Seq<nat>,
    status: Status,
    times: Seq<Timestamp>,
)
    requires
        list.wf(),
        ids.no_duplicates(),
        times.len() >= ids.len(),
        forall|n: int|
            0 <= n < ids.len() ==> list.holds(#[trigger] ids[n]) && list.task_of(ids[n]).status
                != status,
    ensures
        marked_all(list, ids, status, times).wf(),
        marked_all(list, ids, status, times).listed(Some(status)).len() == list.listed(
            Some(status),
        ).len() + ids.len(),
        forall|id: nat|
            list.holds(id) && !ids.contains(id) ==> #[trigger] marked_all(
                list,
                ids,
                status,
                times,
            ).holds(id) && marked_all(list, ids, status, times).task_of(id) == list.task_of(id),
    decreases ids.len(),
{
    if ids.len() > 0 {
        let head = ids.drop_last();
        let id = ids.last();
        let now = times[ids.len() - 1];
        let before = marked_all(list, head, status, times);
        assert forall|n: int| 0 <= n < head.len() implies list.holds(#[trigger] head[n])
            && list.task_of(head[n]).status != status by {
            assert(head[n] == ids[n]);
        }
        lemma_marked_all_count(list, head, status, times);
        assert(!head.contains(id)) by {
            if head.contains(id) {
                let n = choose|n: int| 0 <= n < head.len() && head[n] == id;
                assert(ids[n] == ids[ids.len() - 1]);
            }
        }
        assert(list.holds(id) && list.task_of(id).status != status) by {
            assert(ids[ids.len() - 1] == id);
        }
        assert(before.holds(id) && before.task_of(id) == list.task_of(id));
        lemma_marked(before, id, status, now);
        lemma_marked_count(before, id, status, now);
        let after = before.marked(id, status, now);
        assert forall|other: nat| list.holds(other) && !ids.contains(other) implies after.holds(
            other,
        ) && after.task_of(other) == list.task_of(other) by {
            assert(!head.contains(other)) by {
                if head.contains(other) {
                    let n = choose|n: int| 0 <= n < head.len() && head[n] == other;
                    assert(ids[n] == other);
                }
            }
            assert(other != id) by {
                assert(ids[ids.len() - 1] == id);
            }
            assert(list.holds(other) && !head.contains(other));
            assert(before.holds(other));
            assert(before.task_of(other) == list.task_of(other));
            let k = before.index_of(other);
            assert(after.tasks[k] == before.tasks[k]);
            lemma_index_of(after, other, k);
        }
    }
}

} // verus!

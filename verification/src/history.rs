use crate::command::{CommandView, OutcomeView};
use crate::model::{lemma_added, lemma_described, lemma_marked, lemma_removed, TaskListView};
use crate::task::Status;
use crate::timestamp::Timestamp;
use vstd::prelude::*;

verus! {

/// A request and the time at which it is carried out.
pub struct Step {
    pub command: CommandView,
    pub now: Timestamp,
}

/// The collection after the steps were carried out on it, one after the
/// other.
pub open spec fn run(list: TaskListView, steps: Seq<Step>) -> TaskListView
    decreases steps.len(),
{
    if steps.len() == 0 {
        list
    } else {
        steps.last().command.applied(run(list, steps.drop_last()), steps.last().now)
    }
}

/// The identifiers that the steps gave to the tasks they added, in the order
/// in which they gave them.
pub open spec fn given_ids(list: TaskListView, steps: Seq<Step>) -> Seq<nat>
    decreases steps.len(),
{
    if steps.len() == 0 {
        Seq::empty()
    } else {
        let before = given_ids(list, steps.drop_last());
        match steps.last().command.answer(run(list, steps.drop_last())) {
            Ok(OutcomeView::Added(id)) => before.push(id),
            _ => before,
        }
    }
}

/// A request keeps a collection valid. One that adds a task gives it the
/// identifier that was next and moves the next identifier on by one; any
/// other leaves the next identifier where it was. One that is refused, and
/// one that only shows tasks, leaves the whole collection as it was, so that
/// nothing has to be stored.
pub proof fn lemma_step(list: TaskListView, command: CommandView, now: Timestamp)
    requires
        list.wf(),
    ensures
        command.applied(list, now).wf(),
        match command.answer(list) {
            Ok(OutcomeView::Added(id)) => id == list.next_id && command.applied(list, now).next_id
                == list.next_id + 1,
            Ok(outcome) => command.applied(list, now).next_id == list.next_id && (
            !outcome.persists() ==> command.applied(list, now) == list),
            Err(_) => command.applied(list, now) == list,
        },
{
    match command {
        CommandView::Add { description } => {
            lemma_added(list, description, now);
        },
        CommandView::Update { id, description } => {
            lemma_described(list, id, description, now);
        },
        CommandView::Delete { id } => {
            lemma_removed(list, id);
        },
        CommandView::List { filter } => {},
        CommandView::MarkInProgress { id } => {
            lemma_marked(list, id, Status::InProgress, now);
        },
        CommandView::MarkDone { id } => {
            lemma_marked(list, id, Status::Done, now);
        },
    }
}

/// Whatever requests are carried out, in whatever order, the tasks that are
/// added get the identifiers from the next one on, counting up by one: each
/// is larger than every one given before, and removing tasks in between
/// gives none of them out again. From the empty collection they are 1, 2, 3
/// and so on.
pub proof fn lemma_given_ids(list: TaskListView, steps: Seq<Step>)
    requires
        list.wf(),
    ensures
        run(list, steps).wf(),
        run(list, steps).next_id == list.next_id + given_ids(list, steps).len(),
        forall|n: int|
            0 <= n < given_ids(list, steps).len() ==> #[trigger] given_ids(list, steps)[n]
                == list.next_id + n,
        forall|m: int, n: int|
            0 <= m < n < given_ids(list, steps).len() ==> (#[trigger] given_ids(list, steps)[m])
                < (#[trigger] given_ids(list, steps)[n]),
        list == TaskListView::empty() ==> forall|n: int|
            0 <= n < given_ids(list, steps).len() ==> #[trigger] given_ids(list, steps)[n] == n
                + 1,
    decreases steps.len(),
{
    if steps.len() > 0 {
        let head = steps.drop_last();
        lemma_given_ids(list, head);
        lemma_step(run(list, head), steps.last().command, steps.last().now);
    }
}

} // verus!

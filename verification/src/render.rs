use crate::task::{Task, TaskView};
use crate::task_list::views;
use crate::text::{decimal, decimal_text};
use crate::timestamp::{display_pattern, formatted, Timestamp};
use vstd::prelude::*;
use vstd::string::*;

verus! {

/// The line that opens and closes the block of a task.
pub open spec fn rule() -> Seq<char> {
    "============================================================"@
}

/// The characters of each line, in the same order.
pub open spec fn texts(lines: Seq<String>) -> Seq<Seq<char>> {
    lines.map_values(|line: String| line@)
}

/// The line that reports the identifier of a task that was added.
pub open spec fn added_text(id: nat) -> Seq<char> {
    "Task added successfully (ID: "@ + decimal_text(id) + ")"@
}

/// The block of lines that shows a task, given the texts of its two times.
pub open spec fn block(task: TaskView, created: Seq<char>, updated: Seq<char>) -> Seq<Seq<char>> {
    seq![
        rule(),
        "ID: "@ + decimal_text(task.id),
        "Description: "@ + task.description,
        "Status: "@ + task.status.label_text(),
        "Created At: "@ + created,
        "Updated At: "@ + updated,
        rule(),
    ]
}

/// The text under which the tracker shows a moment.
pub open spec fn moment_text(t: Timestamp) -> Option<Seq<char>> {
    formatted(t.secs as int, t.nanos as int, display_pattern())
}

/// The block of lines that shows a task; none where one of its two times
/// cannot be shown.
pub open spec fn shown(task: TaskView) -> Option<Seq<Seq<char>>> {
    match (moment_text(task.created_at), moment_text(task.updated_at)) {
        (Some(created), Some(updated)) => Some(block(task, created, updated)),
        _ => None,
    }
}

/// The blocks of the tasks, one after the other; none where one of the
/// tasks cannot be shown.
pub open spec fn listing(tasks: Seq<TaskView>) -> Option<Seq<Seq<char>>>
    decreases tasks.len(),
{
    if tasks.len() == 0 {
        Some(Seq::empty())
    } else {
        match (listing(tasks.drop_last()), shown(tasks.last())) {
            (Some(head), Some(last)) => Some(head + last),
            _ => None,
        }
    }
}

/// A label and the value behind it, in one line.
fn labelled(label: &str, value: &str) -> (line: String)
    ensures
        line@ == label@ + value@,
{
    let mut line = label.to_owned();
    line.append(value);
    line
}

/// The line that reports the identifier of a task that was added.
pub fn added_line(id: u32) -> (line: String)
    ensures
        line@ == added_text(id as nat),
{
    let number = decimal(id);
    let mut line = labelled("Task added successfully (ID: ", number.as_str());
    line.append(")");
    line
}

/// The block of lines that shows `task`, given the texts of its two times.
pub fn task_block(task: &Task, created: &str, updated: &str) -> (lines: Vec<String>)
    ensures
        texts(lines@) == block(task@, created@, updated@),
{
    let number = decimal(task.id());
    let label = task.status().label();
    let mut lines: Vec<String> = Vec::new();
    lines.push("============================================================".to_owned());
    lines.push(labelled("ID: ", number.as_str()));
    lines.push(labelled("Description: ", task.description()));
    lines.push(labelled("Status: ", label.as_str()));
    lines.push(labelled("Created At: ", created));
    lines.push(labelled("Updated At: ", updated));
    lines.push("============================================================".to_owned());
    assert(texts(lines@) =~= block(task@, created@, updated@));
    lines
}

/// The block of lines that shows `task`; none where one of its two times
/// cannot be shown.
pub fn render_task(task: &Task) -> (r: Option<Vec<String>>)
    ensures
        match r {
            Some(lines) => shown(task@) == Some(texts(lines@)),
            None => shown(task@) is None,
        },
{
    let created = match task.created_at().display() {
        Some(text) => text,
        None => {
            return None;
        },
    };
    let updated = match task.updated_at().display() {
        Some(text) => text,
        None => {
            return None;
        },
    };
    Some(task_block(task, created.as_str(), updated.as_str()))
}

/// The blocks of `tasks`, one after the other; none where one of the tasks
/// cannot be shown.
pub fn render_listing(tasks: &Vec<Task>) -> (r: Option<Vec<String>>)
    ensures
        match r {
            Some(lines) => listing(views(tasks@)) == Some(texts(lines@)),
            None => listing(views(tasks@)) is None,
        },
{
    let mut lines: Vec<String> = Vec::new();
    let mut i: usize = 0;
    assert(views(tasks@).take(0) =~= Seq::<TaskView>::empty());
    assert(texts(lines@) =~= Seq::<Seq<char>>::empty());
    while i < tasks.len()
        invariant
            0 <= i <= tasks.len(),
            listing(views(tasks@).take(i as int)) == Some(texts(lines@)),
        decreases tasks.len() - i,
    {
        let ghost seen = views(tasks@).take(i as int);
        let ghost next = views(tasks@).take(i + 1);
        assert(next.drop_last() =~= seen);
        assert(next.last() == tasks[i as int]@);
        match render_task(&tasks[i]) {
            Some(mut more) => {
                let ghost before = texts(lines@);
                let ghost added = texts(more@);
                lines.append(&mut more);
                assert(texts(lines@) =~= before + added);
            },
            None => {
                proof {
                    lemma_listing_fails(views(tasks@), i as int);
                }
                return None;
            },
        }
        i += 1;
    }
    assert(views(tasks@).take(i as int) =~= views(tasks@));
    Some(lines)
}

/// A listing that holds a task that cannot be shown cannot be shown.
pub proof fn lemma_listing_fails(tasks: Seq<TaskView>, i: int)
    requires
        0 <= i < tasks.len(),
        shown(tasks[i]) is None,
    ensures
        listing(tasks) is None,
    decreases tasks.len(),
{
    if i < tasks.len() - 1 {
        lemma_listing_fails(tasks.drop_last(), i);
    }
}

} // verus!

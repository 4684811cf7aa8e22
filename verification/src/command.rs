use crate::error::TaskError;
use crate::render::texts;
use crate::task::{Status, Task, TaskView};
use crate::model::TaskListView;
use crate::task_list::{ref_views, views, TaskList};
use crate::text::{number_of, parse_id, same_text};
use crate::timestamp::Timestamp;
use vstd::prelude::*;

verus! {

/// One request to the tracker.
#[derive(Debug, PartialEq, Eq)]
pub enum Command {
    /// Add a task with this description.
    Add { description: String },
    /// Give the task with this identifier this description.
    Update { id: u32, description: String },
    /// Remove the task with this identifier.
    Delete { id: u32 },
    /// Show the tasks: all of them, or those of one status.
    List { filter: Option<Status> },
    /// Mark the task with this identifier as in progress.
    MarkInProgress { id: u32 },
    /// Mark the task with this identifier as done.
    MarkDone { id: u32 },
}

/// What a request is, as a mathematical value.
pub enum CommandView {
    Add { description: Seq<char> },
    Update { id: nat, description: Seq<char> },
    Delete { id: nat },
    List { filter: Option<Status> },
    MarkInProgress { id: nat },
    MarkDone { id: nat },
}

impl View for Command {
    type V = CommandView;

    open spec fn view(&self) -> CommandView {
        match *self {
            Command::Add { description } => CommandView::Add { description: description@ },
            Command::Update { id, description } => CommandView::Update {
                id: id as nat,
                description: description@,
            },
            Command::Delete { id } => CommandView::Delete { id: id as nat },
            Command::List { filter } => CommandView::List { filter },
            Command::MarkInProgress { id } => CommandView::MarkInProgress { id: id as nat },
            Command::MarkDone { id } => CommandView::MarkDone { id: id as nat },
        }
    }
}

impl Clone for Command {
    fn clone(&self) -> (r: Command)
        ensures
            r == *self,
    {
        match self {
            Command::Add { description } => Command::Add { description: description.clone() },
            Command::Update { id, description } => Command::Update {
                id: *id,
                description: description.clone(),
            },
            Command::Delete { id } => Command::Delete { id: *id },
            Command::List { filter } => Command::List { filter: *filter },
            Command::MarkInProgress { id } => Command::MarkInProgress { id: *id },
            Command::MarkDone { id } => Command::MarkDone { id: *id },
        }
    }
}

/// What the tracker answers to a request that it carried out.
#[derive(Debug, PartialEq, Eq)]
pub enum Outcome {
    /// A task was added under this identifier.
    Added(u32),
    /// A task was changed or removed.
    Changed,
    /// These tasks are to be shown, in this order.
    Listed(Vec<Task>),
}

/// What an answer is, as a mathematical value.
pub enum OutcomeView {
    Added(nat),
    Changed,
    Listed(Seq<TaskView>),
}

impl View for Outcome {
    type V = OutcomeView;

    open spec fn view(&self) -> OutcomeView {
        match *self {
            Outcome::Added(id) => OutcomeView::Added(id as nat),
            Outcome::Changed => OutcomeView::Changed,
            Outcome::Listed(tasks) => OutcomeView::Listed(views(tasks@)),
        }
    }
}

impl OutcomeView {
    /// After this answer the collection has to be stored again.
    pub open spec fn persists(self) -> bool {
        !(self is Listed)
    }
}

impl Outcome {
    /// Whether the collection has to be stored again after this answer.
    pub fn persists(&self) -> (r: bool)
        ensures
            r == self@.persists(),
    {
        match self {
            Outcome::Listed(_) => false,
            _ => true,
        }
    }
}

/// The request that a word for an identifier and what follows it make.
pub open spec fn with_id(
    args: Seq<Seq<char>>,
    make: spec_fn(nat) -> CommandView,
) -> Result<CommandView, TaskError> {
    if args.len() >= 2 {
        match number_of(args[1]) {
            Some(id) => Ok(make(id)),
            None => Err(TaskError::InvalidInput),
        }
    } else {
        Err(TaskError::InvalidInput)
    }
}

impl CommandView {
    /// The request that the words of a command line make, the name of the
    /// command first. Words after those that the command takes are passed
    /// over. A line without a command, with a command that the tracker does
    /// not know, without a word that the command needs or with a word that
    /// spells no identifier or no status makes none.
    pub open spec fn parsed(args: Seq<Seq<char>>) -> Result<CommandView, TaskError> {
        if args.len() == 0 {
            Err(TaskError::InvalidInput)
        } else if args[0] == "add"@ {
            if args.len() >= 2 {
                Ok(CommandView::Add { description: args[1] })
            } else {
                Err(TaskError::InvalidInput)
            }
        } else if args[0] == "update"@ {
            if args.len() >= 3 {
                with_id(args, |id: nat| CommandView::Update { id, description: args[2] })
            } else {
                Err(TaskError::InvalidInput)
            }
        } else if args[0] == "delete"@ {
            with_id(args, |id: nat| CommandView::Delete { id })
        } else if args[0] == "list"@ {
            if args.len() >= 2 {
                match Status::of_word(args[1]) {
                    Some(status) => Ok(CommandView::List { filter: Some(status) }),
                    None => Err(TaskError::InvalidInput),
                }
            } else {
                Ok(CommandView::List { filter: None })
            }
        } else if args[0] == "mark-in-progress"@ {
            with_id(args, |id: nat| CommandView::MarkInProgress { id })
        } else if args[0] == "mark-done"@ {
            with_id(args, |id: nat| CommandView::MarkDone { id })
        } else {
            Err(TaskError::InvalidInput)
        }
    }

    /// The collection after the request was carried out at the time `now`.
    /// A request that is refused leaves the collection as it was.
    pub open spec fn applied(self, list: TaskListView, now: Timestamp) -> TaskListView {
        match self {
            CommandView::Add { description } => if description.len() > 0 {
                list.added(description, now)
            } else {
                list
            },
            CommandView::Update { id, description } => if description.len() > 0 {
                list.described(id, description, now)
            } else {
                list
            },
            CommandView::Delete { id } => list.removed(id),
            CommandView::List { filter } => list,
            CommandView::MarkInProgress { id } => list.marked(id, Status::InProgress, now),
            CommandView::MarkDone { id } => list.marked(id, Status::Done, now),
        }
    }

    /// What the tracker answers to the request: the identifier of the task
    /// that it added, that it changed or removed a task, or the tasks to
    /// show. An empty description is an input error, and an identifier that
    /// no task carries is not found; the description is looked at first.
    pub open spec fn answer(self, list: TaskListView) -> Result<OutcomeView, TaskError> {
        match self {
            CommandView::Add { description } => if description.len() > 0 {
                Ok(OutcomeView::Added(list.next_id))
            } else {
                Err(TaskError::InvalidInput)
            },
            CommandView::Update { id, description } => if description.len() == 0 {
                Err(TaskError::InvalidInput)
            } else if list.holds(id) {
                Ok(OutcomeView::Changed)
            } else {
                Err(TaskError::NotFound)
            },
            CommandView::Delete { id } => if list.holds(id) {
                Ok(OutcomeView::Changed)
            } else {
                Err(TaskError::NotFound)
            },
            CommandView::List { filter } => Ok(OutcomeView::Listed(list.listed(filter))),
            CommandView::MarkInProgress { id } => if list.holds(id) {
                Ok(OutcomeView::Changed)
            } else {
                Err(TaskError::NotFound)
            },
            CommandView::MarkDone { id } => if list.holds(id) {
                Ok(OutcomeView::Changed)
            } else {
                Err(TaskError::NotFound)
            },
        }
    }
}

/// Reads the identifier that the second word of a command line spells.
fn id_word(args: &Vec<String>) -> (r: Result<u32, TaskError>)
    ensures
        match r {
            Ok(id) => args.len() >= 2 && number_of(texts(args@)[1]) == Some(id as nat),
            Err(e) => e == TaskError::InvalidInput && (args.len() < 2 || number_of(
                texts(args@)[1],
            ) is None),
        },
{
    if args.len() < 2 {
        return Err(TaskError::InvalidInput);
    }
    match parse_id(args[1].as_str()) {
        Some(id) => Ok(id),
        None => Err(TaskError::InvalidInput),
    }
}

impl Command {
    /// Reads a request from the words of a command line, the name of the
    /// command first.
    pub fn parse(args: &Vec<String>) -> (r: Result<Command, TaskError>)
        ensures
            match r {
                Ok(command) => CommandView::parsed(texts(args@)) == Ok::<CommandView, TaskError>(
                    command@,
                ),
                Err(e) => CommandView::parsed(texts(args@)) == Err::<CommandView, TaskError>(e),
            },
    {
        if args.len() == 0 {
            return Err(TaskError::InvalidInput);
        }
        let name = args[0].as_str();
        assert(texts(args@)[0] == name@);
        if same_text(name, "add") {
            if args.len() >= 2 {
                Ok(Command::Add { description: args[1].clone() })
            } else {
                Err(TaskError::InvalidInput)
            }
        } else if same_text(name, "update") {
            if args.len() >= 3 {
                match id_word(args) {
                    Ok(id) => Ok(Command::Update { id, description: args[2].clone() }),
                    Err(e) => Err(e),
                }
            } else {
                Err(TaskError::InvalidInput)
            }
        } else if same_text(name, "delete") {
            match id_word(args) {
                Ok(id) => Ok(Command::Delete { id }),
                Err(e) => Err(e),
            }
        } else if same_text(name, "list") {
            if args.len() >= 2 {
                match Status::parse(args[1].as_str()) {
                    Ok(status) => Ok(Command::List { filter: Some(status) }),
                    Err(e) => Err(e),
                }
            } else {
                Ok(Command::List { filter: None })
            }
        } else if same_text(name, "mark-in-progress") {
            match id_word(args) {
                Ok(id) => Ok(Command::MarkInProgress { id }),
                Err(e) => Err(e),
            }
        } else if same_text(name, "mark-done") {
            match id_word(args) {
                Ok(id) => Ok(Command::MarkDone { id }),
                Err(e) => Err(e),
            }
        } else {
            Err(TaskError::InvalidInput)
        }
    }

    /// Carries the request out on `list` at the time `now`, and answers it.
    /// A request that is refused leaves the collection as it was.
    pub fn execute_at(&self, list: &mut TaskList, now: Timestamp) -> (r: Result<
        Outcome,
        TaskError,
    >)
        requires
            self is Add ==> old(list)@.next_id < u32::MAX,
        ensures
            final(list)@ == self@.applied(old(list)@, now),
            match r {
                Ok(outcome) => self@.answer(old(list)@) == Ok::<OutcomeView, TaskError>(outcome@),
                Err(e) => self@.answer(old(list)@) == Err::<OutcomeView, TaskError>(e),
            },
    {
        match self {
            Command::Add { description } => {
                match list.add_at(description.as_str(), now) {
                    Ok(id) => Ok(Outcome::Added(id)),
                    Err(e) => Err(e),
                }
            },
            Command::Update { id, description } => {
                match list.update_at(*id, description.as_str(), now) {
                    Ok(found) => if found {
                        Ok(Outcome::Changed)
                    } else {
                        Err(TaskError::NotFound)
                    },
                    Err(e) => Err(e),
                }
            },
            Command::Delete { id } => {
                if list.delete(*id) {
                    Ok(Outcome::Changed)
                } else {
                    Err(TaskError::NotFound)
                }
            },
            Command::List { filter } => {
                let shown = match filter {
                    Some(status) => list.list(Some(status)),
                    None => list.list(None),
                };
                let mut tasks: Vec<Task> = Vec::new();
                let mut i: usize = 0;
                while i < shown.len()
                    invariant
                        0 <= i <= shown.len(),
                        views(tasks@) == ref_views(shown@).take(i as int),
                    decreases shown.len() - i,
                {
                    let task = Task::clone(shown[i]);
                    let ghost before = views(tasks@);
                    tasks.push(task);
                    assert(views(tasks@) =~= before.push(task@));
                    assert(ref_views(shown@).take(i + 1) =~= before.push(task@));
                    i += 1;
                }
                assert(ref_views(shown@).take(i as int) =~= ref_views(shown@));
                Ok(Outcome::Listed(tasks))
            },
            Command::MarkInProgress { id } => {
                if list.toggle_status_at(Status::InProgress, *id, now) {
                    Ok(Outcome::Changed)
                } else {
                    Err(TaskError::NotFound)
                }
            },
            Command::MarkDone { id } => {
                if list.toggle_status_at(Status::Done, *id, now) {
                    Ok(Outcome::Changed)
                } else {
                    Err(TaskError::NotFound)
                }
            },
        }
    }

    /// Carries the request out on `list` at the time that the system clock
    /// shows, and answers it.
    pub fn execute(&self, list: &mut TaskList) -> (r: Result<Outcome, TaskError>)
        requires
            self is Add ==> old(list)@.next_id < u32::MAX,
        ensures
            exists|now: Timestamp| final(list)@ == #[trigger] self@.applied(old(list)@, now),
            match r {
                Ok(outcome) => self@.answer(old(list)@) == Ok::<OutcomeView, TaskError>(outcome@),
                Err(e) => self@.answer(old(list)@) == Err::<OutcomeView, TaskError>(e),
            },
    {
        self.execute_at(list, Timestamp::now())
    }
}

} // verus!

use crate::error::TaskError;
use crate::text::same_text;
use crate::timestamp::Timestamp;
use vstd::prelude::*;

verus! {

/// The stage of its life that a task is in.
#[derive(Clone, Copy, Debug, PartialEq, Eq, Structural)]
pub enum Status {
    Todo,
    InProgress,
    Done,
}

impl Status {
    /// The status that a filter word stands for: `todo`, `in-progress` or
    /// `done`, spelled exactly so. Any other word stands for none.
    pub open spec fn of_word(word: Seq<char>) -> Option<Status> {
        if word == "todo"@ {
            Some(Status::Todo)
        } else if word == "in-progress"@ {
            Some(Status::InProgress)
        } else if word == "done"@ {
            Some(Status::Done)
        } else {
            None
        }
    }

    /// The text that shows a status to the reader.
    pub open spec fn label_text(self) -> Seq<char> {
        match self {
            Status::Todo => "Todo"@,
            Status::InProgress => "In Progress"@,
            Status::Done => "Done"@,
        }
    }

    /// Reads a filter word; a word that names no status is an input error.
    pub fn parse(word: &str) -> (r: Result<Status, TaskError>)
        ensures
            match r {
                Ok(status) => Status::of_word(word@) == Some(status),
                Err(e) => Status::of_word(word@) is None && e == TaskError::InvalidInput,
            },
    {
        if same_text(word, "todo") {
            Ok(Status::Todo)
        } else if same_text(word, "in-progress") {
            Ok(Status::InProgress)
        } else if same_text(word, "done") {
            Ok(Status::Done)
        } else {
            Err(TaskError::InvalidInput)
        }
    }

    /// Reads a filter word that is known to name a status.
    pub fn from_str(status: &str) -> (r: Status)
        requires
            Status::of_word(status@) is Some,
        ensures
            Status::of_word(status@) == Some(r),
    {
        if same_text(status, "todo") {
            Status::Todo
        } else if same_text(status, "in-progress") {
            Status::InProgress
        } else {
            Status::Done
        }
    }

    /// The text that shows the status to the reader.
    pub fn label(&self) -> (r: String)
        ensures
            r@ == self.label_text(),
    {
        match self {
            Status::Todo => "Todo".to_owned(),
            Status::InProgress => "In Progress".to_owned(),
            Status::Done => "Done".to_owned(),
        }
    }
}

/// What a task is, as a mathematical value.
pub struct TaskView {
    pub id: nat,
    pub description: Seq<char>,
    pub status: Status,
    pub created_at: Timestamp,
    pub updated_at: Timestamp,
}

impl TaskView {
    /// A task was never updated before it was created.
    pub open spec fn wf(self) -> bool {
        self.created_at.at_or_before(self.updated_at)
    }

    /// The task that is made at the time `now` under `id`.
    pub open spec fn created(id: nat, description: Seq<char>, now: Timestamp) -> TaskView {
        TaskView { id, description, status: Status::Todo, created_at: now, updated_at: now }
    }

    /// The time of an update that the clock reports at `now`: the clock's
    /// time, unless that lies before the last update, which then stands.
    pub open spec fn refreshed(self, now: Timestamp) -> Timestamp {
        self.updated_at.latest(now)
    }

    /// The task after it got the status `status` at the time `now`.
    pub open spec fn with_status(self, status: Status, now: Timestamp) -> TaskView {
        TaskView { status, updated_at: self.refreshed(now), ..self }
    }

    /// The task after it got the description `description` at the time `now`.
    pub open spec fn with_description(self, description: Seq<char>, now: Timestamp) -> TaskView {
        TaskView { description, updated_at: self.refreshed(now), ..self }
    }
}

/// A change of status or of description keeps a task valid, keeps its
/// identifier and the time of its creation, and puts the time of its last
/// change at the clock's time, or leaves it where the clock's time lies
/// before it: it never moves back.
pub proof fn lemma_change(
    task: TaskView,
    status: Status,
    description: Seq<char>,
    now: Timestamp,
)
    requires
        task.wf(),
    ensures
        task.with_status(status, now).wf(),
        task.with_status(status, now).id == task.id,
        task.with_status(status, now).created_at == task.created_at,
        task.with_status(status, now).updated_at == task.refreshed(now),
        task.with_description(description, now).wf(),
        task.with_description(description, now).id == task.id,
        task.with_description(description, now).created_at == task.created_at,
        task.with_description(description, now).updated_at == task.refreshed(now),
        task.updated_at.at_or_before(task.refreshed(now)),
        task.created_at.at_or_before(task.refreshed(now)),
        task.updated_at.at_or_before(now) ==> task.refreshed(now) == now,
{
}

/// A task as it is stored: plain fields, with no promise about them.
#[derive(Debug, PartialEq, Eq)]
pub struct TaskRecord {
    pub id: u32,
    pub description: String,
    pub status: Status,
    pub created_at: Timestamp,
    pub updated_at: Timestamp,
}

impl View for TaskRecord {
    type V = TaskView;

    open spec fn view(&self) -> TaskView {
        TaskView {
            id: self.id as nat,
            description: self.description@,
            status: self.status,
            created_at: self.created_at,
            updated_at: self.updated_at,
        }
    }
}

impl Clone for TaskRecord {
    fn clone(&self) -> (r: TaskRecord)
        ensures
            r == *self,
    {
        TaskRecord {
            id: self.id,
            description: self.description.clone(),
            status: self.status,
            created_at: self.created_at,
            updated_at: self.updated_at,
        }
    }
}

/// One unit of work: an identifier that never changes, a description and a
/// status that do, and the times of its creation and of its last change.
#[derive(Debug, PartialEq, Eq)]
pub struct Task {
    id: u32,
    description: String,
    status: Status,
    created_at: Timestamp,
    updated_at: Timestamp,
}

impl View for Task {
    type V = TaskView;

    closed spec fn view(&self) -> TaskView {
        TaskView {
            id: self.id as nat,
            description: self.description@,
            status: self.status,
            created_at: self.created_at,
            updated_at: self.updated_at,
        }
    }
}

impl Clone for Task {
    fn clone(&self) -> (r: Task)
        ensures
            r@ == self@,
    {
        proof {
            use_type_invariant(self);
        }
        Task {
            id: self.id,
            description: self.description.clone(),
            status: self.status,
            created_at: self.created_at,
            updated_at: self.updated_at,
        }
    }
}

impl Task {
    #[verifier::type_invariant]
    pub open spec fn inv(&self) -> bool {
        self@.wf()
    }

    /// Makes a task at the time `now`. An empty description is refused.
    pub fn new_at(id: u32, description: &str, now: Timestamp) -> (r: Result<Task, TaskError>)
        ensures
            match r {
                Ok(task) => description@.len() > 0 && task@ == TaskView::created(
                    id as nat,
                    description@,
                    now,
                ),
                Err(e) => description@.len() == 0 && e == TaskError::InvalidInput,
            },
    {
        if description.is_empty() {
            return Err(TaskError::InvalidInput);
        }
        Ok(
            Task {
                id,
                description: description.to_owned(),
                status: Status::Todo,
                created_at: now,
                updated_at: now,
            },
        )
    }

    /// Makes a task at the time that the system clock shows.
    pub fn new(id: u32, description: &str) -> (r: Result<Task, TaskError>)
        ensures
            match r {
                Ok(task) => description@.len() > 0 && task@ == TaskView::created(
                    id as nat,
                    description@,
                    task@.created_at,
                ),
                Err(e) => description@.len() == 0 && e == TaskError::InvalidInput,
            },
    {
        Task::new_at(id, description, Timestamp::now())
    }

    /// Takes a stored task back in. One that was updated before it was
    /// created is refused.
    pub fn from_record(record: &TaskRecord) -> (r: Result<Task, TaskError>)
        ensures
            match r {
                Ok(task) => record@.wf() && task@ == record@,
                Err(e) => !record@.wf() && e == TaskError::CorruptState,
            },
    {
        if !record.created_at.is_at_or_before(&record.updated_at) {
            return Err(TaskError::CorruptState);
        }
        Ok(
            Task {
                id: record.id,
                description: record.description.clone(),
                status: record.status,
                created_at: record.created_at,
                updated_at: record.updated_at,
            },
        )
    }

    /// The task as it is stored.
    pub fn to_record(&self) -> (record: TaskRecord)
        ensures
            record@ == self@,
            record@.wf(),
    {
        proof {
            use_type_invariant(self);
        }
        TaskRecord {
            id: self.id,
            description: self.description.clone(),
            status: self.status,
            created_at: self.created_at,
            updated_at: self.updated_at,
        }
    }

    pub fn id(&self) -> (id: u32)
        ensures
            id == self@.id,
    {
        self.id
    }

    pub fn description(&self) -> (description: &str)
        ensures
            description@ == self@.description,
    {
        self.description.as_str()
    }

    pub fn status(&self) -> (status: &Status)
        ensures
            *status == self@.status,
    {
        &self.status
    }

    pub fn created_at(&self) -> (created_at: &Timestamp)
        ensures
            *created_at == self@.created_at,
    {
        &self.created_at
    }

    pub fn updated_at(&self) -> (updated_at: &Timestamp)
        ensures
            *updated_at == self@.updated_at,
            self@.created_at.at_or_before(*updated_at),
    {
        proof {
            use_type_invariant(self);
        }
        &self.updated_at
    }

    /// Gives the task the status `status` and refreshes the time of its last
    /// change from the clock's time `now`.
    pub fn set_status_at(&mut self, status: Status, now: Timestamp)
        ensures
            final(self)@ == old(self)@.with_status(status, now),
    {
        proof {
            use_type_invariant(&*self);
        }
        self.updated_at = self.updated_at.later_of(now);
        self.status = status;
    }

    /// Gives the task the status `status` and refreshes the time of its last
    /// change from the system clock.
    pub fn set_status(&mut self, status: Status)
        ensures
            final(self)@ == old(self)@.with_status(status, final(self)@.updated_at),
            old(self)@.updated_at.at_or_before(final(self)@.updated_at),
    {
        self.set_status_at(status, Timestamp::now());
    }

    /// Gives the task the description `description` and refreshes the time of
    /// its last change from the clock's time `now`. An empty description is
    /// refused, and the task stays as it was.
    pub fn set_description_at(&mut self, description: &str, now: Timestamp) -> (r: Result<
        (),
        TaskError,
    >)
        ensures
            match r {
                Ok(_) => description@.len() > 0 && final(self)@ == old(self)@.with_description(
                    description@,
                    now,
                ),
                Err(e) => description@.len() == 0 && e == TaskError::InvalidInput && final(self)@
                    == old(self)@,
            },
    {
        proof {
            use_type_invariant(&*self);
        }
        if description.is_empty() {
            return Err(TaskError::InvalidInput);
        }
        self.updated_at = self.updated_at.later_of(now);
        self.description = description.to_owned();
        Ok(())
    }

    /// Gives the task the description `description` and refreshes the time of
    /// its last change from the system clock. An empty description is refused,
    /// and the task stays as it was.
    pub fn set_description(&mut self, description: &str) -> (r: Result<(), TaskError>)
        ensures
            match r {
                Ok(_) => description@.len() > 0 && final(self)@ == old(self)@.with_description(
                    description@,
                    final(self)@.updated_at,
                ) && old(self)@.updated_at.at_or_before(final(self)@.updated_at),
                Err(e) => description@.len() == 0 && e == TaskError::InvalidInput && final(self)@
                    == old(self)@,
            },
    {
        self.set_description_at(description, Timestamp::now())
    }
}

} // verus!

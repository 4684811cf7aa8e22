use task_tracker::error::TaskError;
use task_tracker::task::{Status, Task, TaskRecord};
use task_tracker::timestamp::Timestamp;

#[test]
fn status_words_are_read_exactly() {
    assert_eq!(Status::parse("todo"), Ok(Status::Todo));
    assert_eq!(Status::parse("in-progress"), Ok(Status::InProgress));
    assert_eq!(Status::parse("done"), Ok(Status::Done));
    assert_eq!(Status::parse("Done"), Err(TaskError::InvalidInput));
    assert_eq!(Status::parse("in progress"), Err(TaskError::InvalidInput));
    assert_eq!(Status::parse(""), Err(TaskError::InvalidInput));
    assert_eq!(Status::parse(" todo"), Err(TaskError::InvalidInput));
}

#[test]
fn status_from_str_reads_the_three_words() {
    assert_eq!(Status::from_str("todo"), Status::Todo);
    assert_eq!(Status::from_str("in-progress"), Status::InProgress);
    assert_eq!(Status::from_str("done"), Status::Done);
}

#[test]
fn status_labels() {
    assert_eq!(Status::Todo.label(), "Todo");
    assert_eq!(Status::InProgress.label(), "In Progress");
    assert_eq!(Status::Done.label(), "Done");
}

#[test]
fn new_task_is_todo_and_created_when_updated() {
    let task = Task::new_at(4, "write", Timestamp::new(1000, 250)).unwrap();
    assert_eq!(task.id(), 4);
    assert_eq!(task.description(), "write");
    assert_eq!(*task.status(), Status::Todo);
    assert_eq!(*task.created_at(), Timestamp::new(1000, 250));
    assert_eq!(*task.updated_at(), Timestamp::new(1000, 250));
}

#[test]
fn new_task_reads_the_clock() {
    let task = Task::new(1, "now").unwrap();
    assert_eq!(task.created_at(), task.updated_at());
    assert!(Timestamp::new(1_600_000_000, 0).is_at_or_before(task.created_at()));
    assert!(task.created_at().nanos < 1_000_000_000);
}

#[test]
fn new_task_refuses_an_empty_description() {
    assert_eq!(Task::new_at(1, "", Timestamp::new(1, 0)).err(), Some(TaskError::InvalidInput));
    assert_eq!(Task::new(1, "").err(), Some(TaskError::InvalidInput));
}

#[test]
fn set_status_refreshes_the_time() {
    let mut task = Task::new_at(1, "a", Timestamp::new(10, 0)).unwrap();
    task.set_status_at(Status::Done, Timestamp::new(10, 1));
    assert_eq!(*task.status(), Status::Done);
    assert_eq!(*task.updated_at(), Timestamp::new(10, 1));
    assert_eq!(*task.created_at(), Timestamp::new(10, 0));
    assert_eq!(task.id(), 1);
    assert_eq!(task.description(), "a");
    task.set_status_at(Status::Todo, Timestamp::new(9, 0));
    assert_eq!(*task.status(), Status::Todo);
    assert_eq!(*task.updated_at(), Timestamp::new(10, 1));
}

#[test]
fn set_description_refreshes_the_time() {
    let mut task = Task::new_at(1, "a", Timestamp::new(10, 0)).unwrap();
    assert_eq!(task.set_description_at("b", Timestamp::new(12, 0)), Ok(()));
    assert_eq!(task.description(), "b");
    assert_eq!(*task.updated_at(), Timestamp::new(12, 0));
    assert_eq!(*task.created_at(), Timestamp::new(10, 0));
    assert_eq!(*task.status(), Status::Todo);
    assert_eq!(task.set_description_at("", Timestamp::new(13, 0)), Err(TaskError::InvalidInput));
    assert_eq!(task.description(), "b");
    assert_eq!(*task.updated_at(), Timestamp::new(12, 0));
}

#[test]
fn clock_driven_setters_keep_the_time_of_creation() {
    let mut task = Task::new_at(1, "a", Timestamp::new(10, 0)).unwrap();
    task.set_status(Status::InProgress);
    assert_eq!(*task.status(), Status::InProgress);
    assert!(Timestamp::new(10, 0).is_at_or_before(task.updated_at()));
    let after_status = *task.updated_at();
    assert_eq!(task.set_description("b"), Ok(()));
    assert_eq!(task.description(), "b");
    assert!(after_status.is_at_or_before(task.updated_at()));
    assert_eq!(*task.created_at(), Timestamp::new(10, 0));
    assert_eq!(task.set_description(""), Err(TaskError::InvalidInput));
    assert_eq!(task.description(), "b");
}

#[test]
fn records_go_in_and_out() {
    let record = TaskRecord {
        id: 9,
        description: "stored".to_string(),
        status: Status::InProgress,
        created_at: Timestamp::new(5, 1),
        updated_at: Timestamp::new(5, 2),
    };
    let task = Task::from_record(&record).unwrap();
    assert_eq!(task.id(), 9);
    assert_eq!(task.description(), "stored");
    assert_eq!(*task.status(), Status::InProgress);
    assert_eq!(task.to_record(), record);
    assert_eq!(task.clone(), task);
}

#[test]
fn record_updated_before_it_was_created_is_refused() {
    let record = TaskRecord {
        id: 9,
        description: "stored".to_string(),
        status: Status::Todo,
        created_at: Timestamp::new(5, 2),
        updated_at: Timestamp::new(5, 1),
    };
    assert_eq!(Task::from_record(&record).err(), Some(TaskError::CorruptState));
}

#[test]
fn record_with_an_empty_description_is_taken() {
    let record = TaskRecord {
        id: 1,
        description: String::new(),
        status: Status::Todo,
        created_at: Timestamp::new(5, 0),
        updated_at: Timestamp::new(5, 0),
    };
    assert_eq!(Task::from_record(&record).unwrap().description(), "");
}

#[test]
fn timestamps_are_ordered_by_seconds_then_nanoseconds() {
    let a = Timestamp::new(5, 900);
    let b = Timestamp::new(6, 0);
    let c = Timestamp::new(6, 1);
    assert!(a.is_at_or_before(&b));
    assert!(b.is_at_or_before(&c));
    assert!(!c.is_at_or_before(&b));
    assert!(b.is_at_or_before(&b));
    assert!(Timestamp::new(-1, 5).is_at_or_before(&Timestamp::new(0, 0)));
    assert_eq!(a.later_of(b), b);
    assert_eq!(c.later_of(b), c);
    assert_eq!(b.later_of(b), b);
}

#[test]
fn timestamps_are_shown_in_utc() {
    assert_eq!(Timestamp::new(1431648000, 0).display(), Some("2015/05/15 00:00:00".to_string()));
    assert_eq!(
        Timestamp::new(1700000000, 999_999_999).display(),
        Some("2023/11/14 22:13:20".to_string())
    );
    assert_eq!(Timestamp::new(0, 0).display(), Some("1970/01/01 00:00:00".to_string()));
    assert_eq!(Timestamp::new(-1, 0).display(), Some("1969/12/31 23:59:59".to_string()));
    assert_eq!(Timestamp::new(i64::MAX, 0).display(), None);
    assert_eq!(Timestamp::new(0, 2_000_000_000).display(), None);
}

use task_tracker::command::{Command, Outcome};
use task_tracker::error::TaskError;
use task_tracker::render::{added_line, render_listing, render_task, task_block};
use task_tracker::task::{Status, Task};
use task_tracker::task_list::TaskList;
use task_tracker::text::{decimal, parse_id, same_text};
use task_tracker::timestamp::Timestamp;

fn words(line: &[&str]) -> Vec<String> {
    line.iter().map(|word| word.to_string()).collect()
}

#[test]
fn parse_reads_each_command() {
    assert_eq!(
        Command::parse(&words(&["add", "buy milk"])),
        Ok(Command::Add { description: "buy milk".to_string() })
    );
    assert_eq!(
        Command::parse(&words(&["update", "3", "new text"])),
        Ok(Command::Update { id: 3, description: "new text".to_string() })
    );
    assert_eq!(Command::parse(&words(&["delete", "12"])), Ok(Command::Delete { id: 12 }));
    assert_eq!(Command::parse(&words(&["list"])), Ok(Command::List { filter: None }));
    assert_eq!(
        Command::parse(&words(&["list", "todo"])),
        Ok(Command::List { filter: Some(Status::Todo) })
    );
    assert_eq!(
        Command::parse(&words(&["list", "in-progress"])),
        Ok(Command::List { filter: Some(Status::InProgress) })
    );
    assert_eq!(
        Command::parse(&words(&["list", "done"])),
        Ok(Command::List { filter: Some(Status::Done) })
    );
    assert_eq!(
        Command::parse(&words(&["mark-in-progress", "2"])),
        Ok(Command::MarkInProgress { id: 2 })
    );
    assert_eq!(Command::parse(&words(&["mark-done", "2"])), Ok(Command::MarkDone { id: 2 }));
}

#[test]
fn parse_passes_over_further_words() {
    assert_eq!(
        Command::parse(&words(&["add", "a", "b"])),
        Ok(Command::Add { description: "a".to_string() })
    );
    assert_eq!(Command::parse(&words(&["delete", "1", "2"])), Ok(Command::Delete { id: 1 }));
}

#[test]
fn parse_refuses_what_it_cannot_read() {
    let refused = Err(TaskError::InvalidInput);
    assert_eq!(Command::parse(&words(&[])), refused);
    assert_eq!(Command::parse(&words(&["remove", "1"])), refused);
    assert_eq!(Command::parse(&words(&["mark-in-done", "1"])), refused);
    assert_eq!(Command::parse(&words(&["Add", "x"])), refused);
    assert_eq!(Command::parse(&words(&["add"])), refused);
    assert_eq!(Command::parse(&words(&["update"])), refused);
    assert_eq!(Command::parse(&words(&["update", "1"])), refused);
    assert_eq!(Command::parse(&words(&["update", "one", "x"])), refused);
    assert_eq!(Command::parse(&words(&["delete"])), refused);
    assert_eq!(Command::parse(&words(&["delete", "-1"])), refused);
    assert_eq!(Command::parse(&words(&["delete", "4294967296"])), refused);
    assert_eq!(Command::parse(&words(&["list", "finished"])), refused);
    assert_eq!(Command::parse(&words(&["list", "TODO"])), refused);
    assert_eq!(Command::parse(&words(&["mark-done"])), refused);
    assert_eq!(Command::parse(&words(&["mark-in-progress", "1.0"])), refused);
}

#[test]
fn parse_id_reads_what_the_standard_parser_reads() {
    for text in [
        "0",
        "1",
        "007",
        "+5",
        "4294967295",
        "4294967296",
        "42949672950",
        "99999999999999999999",
        "",
        "+",
        "-",
        "-0",
        "++1",
        "1+",
        " 1",
        "1 ",
        "12a",
        "a12",
        "１２",
        "1_000",
        "0x10",
        "+0000000000004294967295",
    ] {
        assert_eq!(parse_id(text), text.parse::<u32>().ok(), "{:?}", text);
    }
    assert_eq!(parse_id("4294967295"), Some(u32::MAX));
    assert_eq!(parse_id("+5"), Some(5));
    assert_eq!(parse_id("12a"), None);
}

#[test]
fn decimal_spells_numbers() {
    assert_eq!(decimal(0), "0");
    assert_eq!(decimal(7), "7");
    assert_eq!(decimal(10), "10");
    assert_eq!(decimal(1905), "1905");
    assert_eq!(decimal(u32::MAX), "4294967295");
    for n in [0u32, 9, 10, 99, 100, 12345, 1_000_000, u32::MAX - 1] {
        assert_eq!(decimal(n), n.to_string());
        assert_eq!(parse_id(&decimal(n)), Some(n));
    }
}

#[test]
fn same_text_compares_characters() {
    assert!(same_text("add", "add"));
    assert!(!same_text("add", "Add"));
    assert!(!same_text("add", "add "));
    assert!(same_text("", ""));
}

#[test]
fn execute_adds_and_reports_the_id() {
    let mut list = TaskList::new();
    let now = Timestamp::new(50, 0);
    let add = Command::Add { description: "buy milk".to_string() };
    let outcome = add.execute_at(&mut list, now).unwrap();
    assert_eq!(outcome, Outcome::Added(1));
    assert!(outcome.persists());
    assert_eq!(add.execute_at(&mut list, now), Ok(Outcome::Added(2)));
    assert_eq!(list.tasks().len(), 2);
    assert_eq!(list.get(2).unwrap().description(), "buy milk");
}

#[test]
fn execute_refuses_an_empty_description() {
    let mut list = TaskList::new();
    let now = Timestamp::new(50, 0);
    let add = Command::Add { description: String::new() };
    assert_eq!(add.execute_at(&mut list, now), Err(TaskError::InvalidInput));
    assert!(list.tasks().is_empty());
    Command::Add { description: "a".to_string() }.execute_at(&mut list, now).unwrap();
    let before = list.records();
    let update = Command::Update { id: 1, description: String::new() };
    assert_eq!(update.execute_at(&mut list, now), Err(TaskError::InvalidInput));
    let missing = Command::Update { id: 5, description: String::new() };
    assert_eq!(missing.execute_at(&mut list, now), Err(TaskError::InvalidInput));
    assert_eq!(list.records(), before);
}

#[test]
fn execute_reports_a_missing_id() {
    let mut list = TaskList::new();
    let now = Timestamp::new(50, 0);
    Command::Add { description: "a".to_string() }.execute_at(&mut list, now).unwrap();
    let before = list.records();
    for command in [
        Command::Update { id: 2, description: "x".to_string() },
        Command::Delete { id: 2 },
        Command::MarkInProgress { id: 2 },
        Command::MarkDone { id: 2 },
    ] {
        assert_eq!(command.execute_at(&mut list, now), Err(TaskError::NotFound));
        assert_eq!(command.execute(&mut list), Err(TaskError::NotFound));
    }
    assert_eq!(list.records(), before);
}

#[test]
fn execute_marks_and_lists() {
    let mut list = TaskList::new();
    let now = Timestamp::new(50, 0);
    for name in ["a", "b", "c"] {
        Command::Add { description: name.to_string() }.execute_at(&mut list, now).unwrap();
    }
    let later = Timestamp::new(60, 0);
    assert_eq!(Command::MarkDone { id: 3 }.execute_at(&mut list, later), Ok(Outcome::Changed));
    assert_eq!(
        Command::MarkInProgress { id: 1 }.execute_at(&mut list, later),
        Ok(Outcome::Changed)
    );
    assert_eq!(*list.get(3).unwrap().status(), Status::Done);
    assert_eq!(*list.get(1).unwrap().status(), Status::InProgress);
    assert_eq!(*list.get(3).unwrap().updated_at(), later);
    let before = list.records();
    let listed = Command::List { filter: Some(Status::Done) }.execute_at(&mut list, later);
    match listed {
        Ok(Outcome::Listed(tasks)) => {
            assert_eq!(tasks.len(), 1);
            assert_eq!(tasks[0].id(), 3);
        }
        other => panic!("{:?}", other),
    }
    let all = Command::List { filter: None }.execute(&mut list).unwrap();
    assert!(!all.persists());
    match all {
        Outcome::Listed(tasks) => assert_eq!(&tasks, list.tasks()),
        other => panic!("{:?}", other),
    }
    assert_eq!(list.records(), before);
}

#[test]
fn execute_updates_and_deletes() {
    let mut list = TaskList::new();
    let now = Timestamp::new(50, 0);
    for name in ["a", "b"] {
        Command::Add { description: name.to_string() }.execute(&mut list).unwrap();
    }
    let update = Command::Update { id: 2, description: "bee".to_string() };
    let outcome = update.execute_at(&mut list, now).unwrap();
    assert_eq!(outcome, Outcome::Changed);
    assert!(outcome.persists());
    assert_eq!(list.get(2).unwrap().description(), "bee");
    assert_eq!(Command::Delete { id: 1 }.execute(&mut list), Ok(Outcome::Changed));
    assert!(list.get(1).is_none());
    assert_eq!(list.next_id(), 3);
}

#[test]
fn scenario_through_commands() {
    let mut list = TaskList::new();
    let run = |list: &mut TaskList, line: &[&str]| {
        Command::parse(&words(line)).and_then(|command| command.execute(list))
    };
    assert_eq!(run(&mut list, &["add", "buy milk"]), Ok(Outcome::Added(1)));
    assert_eq!(run(&mut list, &["add", "write report"]), Ok(Outcome::Added(2)));
    assert_eq!(run(&mut list, &["mark-done", "1"]), Ok(Outcome::Changed));
    match run(&mut list, &["list", "done"]) {
        Ok(Outcome::Listed(tasks)) => {
            assert_eq!(tasks.len(), 1);
            assert_eq!(tasks[0].description(), "buy milk");
        }
        other => panic!("{:?}", other),
    }
    assert_eq!(run(&mut list, &["delete", "2"]), Ok(Outcome::Changed));
    match run(&mut list, &["list"]) {
        Ok(Outcome::Listed(tasks)) => {
            assert_eq!(tasks.len(), 1);
            assert_eq!(tasks[0].id(), 1);
        }
        other => panic!("{:?}", other),
    }
    assert_eq!(run(&mut list, &["update", "2", "x"]), Err(TaskError::NotFound));
}

#[test]
fn added_line_names_the_id() {
    assert_eq!(added_line(1), "Task added successfully (ID: 1)");
    assert_eq!(added_line(250), "Task added successfully (ID: 250)");
}

#[test]
fn task_is_shown_as_a_block() {
    let mut task = Task::new_at(12, "write report", Timestamp::new(1431648000, 0)).unwrap();
    task.set_status_at(Status::InProgress, Timestamp::new(1431648061, 5));
    let rule = "============================================================";
    assert_eq!(
        render_task(&task),
        Some(vec![
            rule.to_string(),
            "ID: 12".to_string(),
            "Description: write report".to_string(),
            "Status: In Progress".to_string(),
            "Created At: 2015/05/15 00:00:00".to_string(),
            "Updated At: 2015/05/15 00:01:01".to_string(),
            rule.to_string(),
        ])
    );
    assert_eq!(
        task_block(&task, "then", "now"),
        vec![
            rule.to_string(),
            "ID: 12".to_string(),
            "Description: write report".to_string(),
            "Status: In Progress".to_string(),
            "Created At: then".to_string(),
            "Updated At: now".to_string(),
            rule.to_string(),
        ]
    );
}

#[test]
fn listing_is_the_blocks_in_order() {
    let first = Task::new_at(1, "a", Timestamp::new(0, 0)).unwrap();
    let second = Task::new_at(2, "b", Timestamp::new(86400, 0)).unwrap();
    let mut expected = render_task(&first).unwrap();
    expected.extend(render_task(&second).unwrap());
    assert_eq!(expected.len(), 14);
    assert_eq!(render_listing(&vec![first.clone(), second.clone()]), Some(expected));
    assert_eq!(render_listing(&Vec::new()), Some(Vec::new()));
    let beyond = Task::new_at(3, "c", Timestamp::new(i64::MAX, 0)).unwrap();
    assert_eq!(render_task(&beyond), None);
    assert_eq!(render_listing(&vec![first, beyond, second]), None);
}

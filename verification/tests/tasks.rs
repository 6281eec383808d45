use workbook::tasks::command::{parse_command, Command, InputError, Parsed};
use workbook::tasks::dispatch::{Listing, Reply};
use workbook::tasks::manager::{TaskError, TaskManager, TaskStats};
use workbook::tasks::report::{display_help, error_report, listing, load_failed_report, loaded_report, save_failed_report, saved_report, stats_report};
use workbook::tasks::task::{Task, TaskStatus};

fn task(id: u32, title: &str, description: &str, due_date: Option<&str>, status: TaskStatus) -> Task {
    Task {
        id,
        title: title.to_string(),
        description: description.to_string(),
        due_date: due_date.map(|d| d.to_string()),
        status,
    }
}

fn sample_store() -> TaskManager {
    let mut store = TaskManager::new();
    store.add_task("A".to_string(), "d1".to_string(), None);
    store.add_task("B".to_string(), "d2".to_string(), Some("2024-01-01".to_string()));
    store.complete_task(2).unwrap();
    store
}

fn sample_tasks() -> Vec<Task> {
    vec![
        task(1, "A", "d1", None, TaskStatus::Pending),
        task(2, "B", "d2", Some("2024-01-01"), TaskStatus::Completed),
    ]
}

fn understood(command: Command) -> Parsed {
    Parsed { command, complaint: None }
}

fn refused(error: InputError) -> Parsed {
    Parsed { command: Command::Unknown, complaint: Some(error) }
}

#[test]
fn a_new_store_is_empty_and_counts_from_one() {
    let store = TaskManager::new();
    assert!(store.tasks().is_empty());
    assert_eq!(store.next_id(), 1);
    assert_eq!(store.serialize(), "1\n");
}

#[test]
fn add_returns_the_counter_and_advances_it() {
    let mut store = TaskManager::new();
    assert_eq!(store.next_id(), 1);
    let id = store.add_task("A".to_string(), "d1".to_string(), None).id;
    assert_eq!(id, 1);
    assert_eq!(store.next_id(), 2);
    let added = store.add_task("B".to_string(), "d2".to_string(), Some("soon".to_string())).clone();
    assert_eq!(added, task(2, "B", "d2", Some("soon"), TaskStatus::Pending));
    assert_eq!(store.next_id(), 3);
    assert_eq!(store.tasks().len(), 2);
    assert_eq!(store.tasks()[1], added);
}

#[test]
fn add_works_up_to_the_last_number() {
    let mut store = TaskManager::deserialize("4294967294\n").unwrap();
    assert_eq!(store.add_task("last".to_string(), "one".to_string(), None).id, u32::MAX - 1);
    assert_eq!(store.next_id(), u32::MAX);
}

#[test]
fn numbers_are_not_reused_after_a_delete() {
    let mut store = sample_store();
    store.delete_task(2).unwrap();
    assert_eq!(store.add_task("C".to_string(), "d3".to_string(), None).id, 3);
    assert_eq!(store.next_id(), 4);
    let ids: Vec<u32> = store.tasks().iter().map(|t| t.id).collect();
    assert_eq!(ids, vec![1, 3]);
}

#[test]
fn find_gives_the_task_with_the_number() {
    let store = sample_store();
    assert_eq!(store.find_task(2), Some(&sample_tasks()[1]));
    assert_eq!(store.find_task(1), Some(&sample_tasks()[0]));
    assert_eq!(store.find_task(3), None);
    assert_eq!(store.find_task(0), None);
}

#[test]
fn find_gives_the_first_of_two_tasks_with_one_number() {
    let mut store = TaskManager::deserialize("9\n5|first|x|none|pending\n5|second|y|none|pending\n").unwrap();
    assert_eq!(store.find_task(5).unwrap().title, "first");
    store.complete_task(5).unwrap();
    assert_eq!(store.tasks()[0].status, TaskStatus::Completed);
    assert_eq!(store.tasks()[1].status, TaskStatus::Pending);
    assert_eq!(store.delete_task(5), Ok(()));
    assert_eq!(store.tasks().len(), 1);
    assert_eq!(store.tasks()[0].title, "second");
    assert_eq!(store.delete_task(5), Ok(()));
    assert_eq!(store.delete_task(5), Err(TaskError::NotFound));
}

#[test]
fn complete_marks_the_task_and_returns_it() {
    let mut store = sample_store();
    let done = store.complete_task(1).unwrap().clone();
    assert_eq!(done, task(1, "A", "d1", None, TaskStatus::Completed));
    assert_eq!(store.tasks()[0], done);
    assert_eq!(store.tasks()[1], sample_tasks()[1]);
    assert_eq!(store.next_id(), 3);
    assert_eq!(store.complete_task(1).unwrap().status, TaskStatus::Completed);
}

#[test]
fn complete_on_missing_id_is_not_found() {
    let mut store = sample_store();
    let before = store.serialize();
    assert_eq!(store.complete_task(7).err(), Some(TaskError::NotFound));
    assert_eq!(store.serialize(), before);
    assert_eq!(store.tasks(), &sample_tasks());
    assert_eq!(store.next_id(), 3);
}

#[test]
fn delete_removes_one_task_and_a_second_delete_finds_nothing() {
    let mut store = sample_store();
    assert_eq!(store.delete_task(1), Ok(()));
    assert_eq!(store.tasks(), &vec![sample_tasks()[1].clone()]);
    assert_eq!(store.next_id(), 3);
    assert_eq!(store.delete_task(1), Err(TaskError::NotFound));
    assert_eq!(store.tasks().len(), 1);
    assert_eq!(store.delete_task(2), Ok(()));
    assert!(store.tasks().is_empty());
    assert_eq!(store.delete_task(2), Err(TaskError::NotFound));
}

#[test]
fn round_trip_of_two_tasks() {
    let store = sample_store();
    let text = store.serialize();
    assert_eq!(text, "3\n1|A|d1|none|pending\n2|B|d2|2024-01-01|completed\n");
    let back = TaskManager::deserialize(&text).unwrap();
    assert_eq!(back.next_id(), 3);
    assert_eq!(back.tasks(), store.tasks());
    assert_eq!(back.tasks(), &sample_tasks());
    let mut loaded = TaskManager::new();
    assert_eq!(loaded.load(&text), Ok(()));
    assert_eq!(loaded.next_id(), 3);
    assert_eq!(loaded.tasks(), &sample_tasks());
}

#[test]
fn filter_by_status_completed_gives_task_two() {
    let store = sample_store();
    assert_eq!(store.filter_by_status(&TaskStatus::Completed), vec![&sample_tasks()[1]]);
    assert_eq!(store.filter_by_status(&TaskStatus::Pending), vec![&sample_tasks()[0]]);
    assert!(TaskManager::new().filter_by_status(&TaskStatus::Pending).is_empty());
}

#[test]
fn filter_by_status_keeps_the_order_of_the_list() {
    let mut store = TaskManager::new();
    for title in ["a", "b", "c", "d", "e"] {
        store.add_task(title.to_string(), "x".to_string(), None);
    }
    store.complete_task(2).unwrap();
    store.complete_task(4).unwrap();
    let pending: Vec<u32> = store.filter_by_status(&TaskStatus::Pending).iter().map(|t| t.id).collect();
    let completed: Vec<u32> = store.filter_by_status(&TaskStatus::Completed).iter().map(|t| t.id).collect();
    assert_eq!(pending, vec![1, 3, 5]);
    assert_eq!(completed, vec![2, 4]);
}

#[test]
fn filter_by_due_date_compares_the_whole_text() {
    let mut store = sample_store();
    store.add_task("C".to_string(), "d3".to_string(), Some("2024-01-01".to_string()));
    store.add_task("D".to_string(), "d4".to_string(), Some("2024-01-0".to_string()));
    store.add_task("E".to_string(), "d5".to_string(), Some("none".to_string()));
    let due: Vec<u32> = store.filter_by_due_date("2024-01-01").iter().map(|t| t.id).collect();
    assert_eq!(due, vec![2, 3]);
    assert!(store.filter_by_due_date("2024-01").is_empty());
    assert!(store.filter_by_due_date("").is_empty());
    let none: Vec<u32> = store.filter_by_due_date("none").iter().map(|t| t.id).collect();
    assert_eq!(none, vec![5]);
}

#[test]
fn stats_count_all_pending_and_completed() {
    assert_eq!(TaskManager::new().generate_stats(), TaskStats { total: 0, pending: 0, completed: 0 });
    let mut store = sample_store();
    assert_eq!(store.generate_stats(), TaskStats { total: 2, pending: 1, completed: 1 });
    store.add_task("C".to_string(), "d3".to_string(), None);
    assert_eq!(store.generate_stats(), TaskStats { total: 3, pending: 2, completed: 1 });
    store.delete_task(2).unwrap();
    assert_eq!(store.generate_stats(), TaskStats { total: 2, pending: 2, completed: 0 });
}

#[test]
fn a_task_is_written_as_five_fields() {
    assert_eq!(sample_tasks()[0].to_string(), "1|A|d1|none|pending");
    assert_eq!(sample_tasks()[1].to_string(), "2|B|d2|2024-01-01|completed");
    assert_eq!(task(4294967295, "", "", Some(""), TaskStatus::Pending).to_string(), "4294967295||||pending");
    assert_eq!(task(0, "a b", "c\td", None, TaskStatus::Completed).to_string(), "0|a b|c\td|none|completed");
}

#[test]
fn a_line_of_five_fields_is_read_as_a_task() {
    assert_eq!(Task::from_string("1|A|d1|none|pending"), Some(sample_tasks()[0].clone()));
    assert_eq!(Task::from_string("2|B|d2|2024-01-01|completed"), Some(sample_tasks()[1].clone()));
    assert_eq!(Task::from_string("+7|t|d|None|Completed"), Some(task(7, "t", "d", Some("None"), TaskStatus::Pending)));
    assert_eq!(Task::from_string("007|t|d||anything"), Some(task(7, "t", "d", Some(""), TaskStatus::Pending)));
    assert_eq!(Task::from_string("3||||"), Some(task(3, "", "", Some(""), TaskStatus::Pending)));
}

#[test]
fn a_line_that_is_no_task_is_read_as_nothing() {
    assert_eq!(Task::from_string(""), None);
    assert_eq!(Task::from_string("1|A|d1|none"), None);
    assert_eq!(Task::from_string("1|A|d1|none|pending|more"), None);
    assert_eq!(Task::from_string("x|A|d1|none|pending"), None);
    assert_eq!(Task::from_string("|A|d1|none|pending"), None);
    assert_eq!(Task::from_string("-1|A|d1|none|pending"), None);
    assert_eq!(Task::from_string("4294967296|A|d1|none|pending"), None);
    assert_eq!(Task::from_string(" 1|A|d1|none|pending"), None);
    assert_eq!(Task::from_string("not_a_number"), None);
}

#[test]
fn a_separator_in_a_field_spoils_the_line() {
    let spoiled = task(1, "a|b", "d", None, TaskStatus::Pending);
    assert_eq!(spoiled.to_string(), "1|a|b|d|none|pending");
    assert_eq!(Task::from_string(&spoiled.to_string()), None);
    let mut store = TaskManager::new();
    store.add_task("a|b".to_string(), "d".to_string(), None);
    store.add_task("B".to_string(), "d2".to_string(), Some("2024-01-01".to_string()));
    store.complete_task(2).unwrap();
    let text = store.serialize();
    assert_eq!(text, "3\n1|a|b|d|none|pending\n2|B|d2|2024-01-01|completed\n");
    assert_eq!(store.load(&text), Ok(()));
    assert_eq!(store.tasks(), &vec![sample_tasks()[1].clone()]);
    assert_eq!(store.next_id(), 3);
}

#[test]
fn a_due_date_that_reads_none_comes_back_as_no_due_date() {
    let odd = task(1, "t", "d", Some("none"), TaskStatus::Pending);
    assert_eq!(Task::from_string(&odd.to_string()), Some(task(1, "t", "d", None, TaskStatus::Pending)));
}

#[test]
fn loading_a_line_that_is_no_number_gives_counter_one_and_no_tasks() {
    let store = TaskManager::deserialize("not_a_number").unwrap();
    assert_eq!(store.next_id(), 1);
    assert!(store.tasks().is_empty());
    let mut loaded = sample_store();
    assert_eq!(loaded.load("not_a_number\n"), Ok(()));
    assert_eq!(loaded.next_id(), 1);
    assert!(loaded.tasks().is_empty());
}

#[test]
fn loading_an_empty_text_is_refused_and_changes_nothing() {
    assert_eq!(TaskManager::deserialize("").err(), Some(TaskError::MalformedFile));
    let mut store = sample_store();
    assert_eq!(store.load(""), Err(TaskError::MalformedFile));
    assert_eq!(store.tasks(), &sample_tasks());
    assert_eq!(store.next_id(), 3);
}

#[test]
fn loading_passes_over_lines_that_are_no_tasks() {
    let text = "10\r\n1|A|d1|none|pending\r\ngarbage\n\n2|B|d2|2024-01-01|completed\n9|too|few|fields\nx|A|d|none|pending";
    let store = TaskManager::deserialize(text).unwrap();
    assert_eq!(store.next_id(), 10);
    assert_eq!(store.tasks(), &sample_tasks());
    let blank = TaskManager::deserialize("\n").unwrap();
    assert_eq!(blank.next_id(), 1);
    assert!(blank.tasks().is_empty());
}

#[test]
fn loading_takes_the_text_as_it_is() {
    let text = "1\n5|late|x|none|pending\n5|twin|y|none|completed\n";
    let store = TaskManager::deserialize(text).unwrap();
    assert_eq!(store.next_id(), 1);
    assert_eq!(store.tasks().len(), 2);
    assert_eq!(store.serialize(), text);
}

#[test]
fn errors_have_their_messages() {
    assert_eq!(TaskError::NotFound.message(), "Task not found");
    assert_eq!(TaskError::MalformedFile.message(), "File is empty");
    assert_eq!(TaskError::NotFound.report(), "Error: Task not found\n");
    assert_eq!(InputError::AddNeedsTexts.message(), "'add' command requires a title and description");
    assert_eq!(InputError::CompleteNeedsId.message(), "'complete' command requires a task ID");
    assert_eq!(InputError::DeleteNeedsId.message(), "'delete' command requires a task ID");
    assert_eq!(InputError::IdNotANumber.message(), "Task ID must be a positive number");
    assert_eq!(InputError::SaveNeedsFilename.message(), "'save' command requires a filename");
    assert_eq!(InputError::LoadNeedsFilename.message(), "'load' command requires a filename");
    assert_eq!(InputError::IdNotANumber.report(), "Error: Task ID must be a positive number\n");
    assert_eq!(TaskStatus::Pending.name(), "Pending");
    assert_eq!(TaskStatus::Completed.name(), "Completed");
}

#[test]
fn parsing_complete_abc_is_unknown_with_a_complaint() {
    assert_eq!(parse_command("complete abc"), refused(InputError::IdNotANumber));
    let mut store = sample_store();
    let before = store.serialize();
    let parsed = parse_command("complete abc");
    assert_eq!(store.execute(parsed.command), Reply::Unknown);
    assert_eq!(store.serialize(), before);
}

#[test]
fn parsing_add() {
    assert_eq!(
        parse_command("add milk buy"),
        understood(Command::Add { title: "milk".to_string(), description: "buy".to_string(), due_date: None })
    );
    assert_eq!(
        parse_command("  ADD  milk \t buy   2024-05-01  and more\n"),
        understood(Command::Add {
            title: "milk".to_string(),
            description: "buy".to_string(),
            due_date: Some("2024-05-01".to_string()),
        })
    );
    assert_eq!(parse_command("add milk"), refused(InputError::AddNeedsTexts));
    assert_eq!(parse_command("add"), refused(InputError::AddNeedsTexts));
}

#[test]
fn parsing_commands_that_take_a_number() {
    assert_eq!(parse_command("complete 3"), understood(Command::Complete { id: 3 }));
    assert_eq!(parse_command("Complete +3 now"), understood(Command::Complete { id: 3 }));
    assert_eq!(parse_command("complete 1"), understood(Command::Complete { id: 1 }));
    assert_eq!(parse_command("complete"), refused(InputError::CompleteNeedsId));
    assert_eq!(parse_command("complete -3"), refused(InputError::IdNotANumber));
    assert_eq!(parse_command("complete 4294967296"), refused(InputError::IdNotANumber));
    assert_eq!(parse_command("delete 12"), understood(Command::Delete { id: 12 }));
    assert_eq!(parse_command("DELETE 4294967295"), understood(Command::Delete { id: u32::MAX }));
    assert_eq!(parse_command("delete"), refused(InputError::DeleteNeedsId));
    assert_eq!(parse_command("delete twelve"), refused(InputError::IdNotANumber));
}

#[test]
fn zero_is_no_task_number() {
    assert_eq!(parse_command("complete 0"), refused(InputError::IdNotANumber));
    assert_eq!(parse_command("delete 0"), refused(InputError::IdNotANumber));
    assert_eq!(parse_command("complete +0"), refused(InputError::IdNotANumber));
    assert_eq!(parse_command("delete 000"), refused(InputError::IdNotANumber));
    assert_eq!(parse_command("Complete 0 1"), refused(InputError::IdNotANumber));
    assert_eq!(parse_command("delete 01"), understood(Command::Delete { id: 1 }));
    let mut store = sample_store();
    let before = store.serialize();
    let parsed = parse_command("delete 0");
    assert_eq!(parsed.complaint.map(|c| c.report()), Some("Error: Task ID must be a positive number\n".to_string()));
    assert_eq!(store.execute(parsed.command), Reply::Unknown);
    assert_eq!(store.serialize(), before);
}

#[test]
fn parsing_commands_that_take_a_file_name() {
    assert_eq!(parse_command("save tasks.txt"), understood(Command::Save { filename: "tasks.txt".to_string() }));
    assert_eq!(parse_command("load Tasks.TXT extra"), understood(Command::Load { filename: "Tasks.TXT".to_string() }));
    assert_eq!(parse_command("save"), refused(InputError::SaveNeedsFilename));
    assert_eq!(parse_command("load  "), refused(InputError::LoadNeedsFilename));
}

#[test]
fn parsing_commands_without_arguments() {
    assert_eq!(parse_command("list"), understood(Command::List));
    assert_eq!(parse_command("LIST everything"), understood(Command::List));
    assert_eq!(parse_command("pending"), understood(Command::ListPending));
    assert_eq!(parse_command("Completed"), understood(Command::ListCompleted));
    assert_eq!(parse_command("stats"), understood(Command::Stats));
    assert_eq!(parse_command("help"), understood(Command::Help));
    assert_eq!(parse_command("quit"), understood(Command::Quit));
    assert_eq!(parse_command("eXiT\n"), understood(Command::Quit));
}

#[test]
fn parsing_anything_else_is_unknown_without_a_complaint() {
    assert_eq!(parse_command(""), understood(Command::Unknown));
    assert_eq!(parse_command("   \t\n"), understood(Command::Unknown));
    assert_eq!(parse_command("remove 3"), understood(Command::Unknown));
    assert_eq!(parse_command("lists"), understood(Command::Unknown));
    assert_eq!(parse_command("ad d"), understood(Command::Unknown));
    assert_eq!(parse_command("l\u{131}st"), understood(Command::Unknown));
}

#[test]
fn executing_changes_the_store_only_for_add_complete_and_delete() {
    let mut store = TaskManager::new();
    let add = Command::Add { title: "A".to_string(), description: "d1".to_string(), due_date: None };
    assert_eq!(store.execute(add), Reply::Added { id: 1 });
    let add = Command::Add {
        title: "B".to_string(),
        description: "d2".to_string(),
        due_date: Some("2024-01-01".to_string()),
    };
    assert_eq!(store.execute(add), Reply::Added { id: 2 });
    assert_eq!(store.execute(Command::Complete { id: 2 }), Reply::Completed { id: 2 });
    assert_eq!(store.tasks(), &sample_tasks());
    assert_eq!(store.execute(Command::Complete { id: 9 }), Reply::Failed { error: TaskError::NotFound });
    assert_eq!(store.execute(Command::Delete { id: 9 }), Reply::Failed { error: TaskError::NotFound });
    assert_eq!(store.execute(Command::List), Reply::Tasks { listing: Listing::All, tasks: sample_tasks() });
    assert_eq!(
        store.execute(Command::ListPending),
        Reply::Tasks { listing: Listing::Pending, tasks: vec![sample_tasks()[0].clone()] }
    );
    assert_eq!(
        store.execute(Command::ListCompleted),
        Reply::Tasks { listing: Listing::Completed, tasks: vec![sample_tasks()[1].clone()] }
    );
    assert_eq!(
        store.execute(Command::Stats),
        Reply::Stats { stats: TaskStats { total: 2, pending: 1, completed: 1 } }
    );
    assert_eq!(
        store.execute(Command::Save { filename: "f".to_string() }),
        Reply::Save {
            filename: "f".to_string(),
            text: "3\n1|A|d1|none|pending\n2|B|d2|2024-01-01|completed\n".to_string(),
        }
    );
    assert_eq!(store.execute(Command::Load { filename: "f".to_string() }), Reply::Load { filename: "f".to_string() });
    assert_eq!(store.execute(Command::Help), Reply::Help);
    assert_eq!(store.execute(Command::Quit), Reply::Quit);
    assert_eq!(store.execute(Command::Unknown), Reply::Unknown);
    assert_eq!(store.tasks(), &sample_tasks());
    assert_eq!(store.next_id(), 3);
    assert_eq!(store.execute(Command::Delete { id: 1 }), Reply::Deleted { id: 1 });
    assert_eq!(store.tasks(), &vec![sample_tasks()[1].clone()]);
}

#[test]
fn a_task_is_shown_with_its_due_date_if_it_has_one() {
    assert_eq!(sample_tasks()[0].display(), "Task #1: A\nStatus: Pending\nDescription: d1\n\n");
    assert_eq!(
        sample_tasks()[1].display(),
        "Task #2: B\nStatus: Completed\nDescription: d2\nDue date: 2024-01-01\n\n"
    );
}

#[test]
fn lists_are_shown_under_their_heading() {
    assert_eq!(TaskManager::new().list_tasks(), "No tasks found.\n");
    assert_eq!(
        sample_store().list_tasks(),
        "Task List:\n----------\nTask #1: A\nStatus: Pending\nDescription: d1\n\nTask #2: B\nStatus: Completed\nDescription: d2\nDue date: 2024-01-01\n\n"
    );
    assert_eq!(listing(Listing::Pending, &Vec::new()), "No pending tasks found.\n");
    assert_eq!(listing(Listing::Completed, &Vec::new()), "No completed tasks found.\n");
    assert_eq!(
        listing(Listing::Pending, &vec![sample_tasks()[0].clone()]),
        "Pending Tasks:\n--------------\nTask #1: A\nStatus: Pending\nDescription: d1\n\n"
    );
    assert_eq!(
        listing(Listing::Completed, &vec![sample_tasks()[1].clone()]),
        "Completed Tasks:\n----------------\nTask #2: B\nStatus: Completed\nDescription: d2\nDue date: 2024-01-01\n\n"
    );
}

#[test]
fn replies_are_told_in_the_words_of_the_session() {
    assert_eq!(Reply::Added { id: 12 }.message(), Some("Task added with ID: 12\n".to_string()));
    assert_eq!(Reply::Completed { id: 3 }.message(), Some("Task #3 marked as completed\n".to_string()));
    assert_eq!(Reply::Deleted { id: 4 }.message(), Some("Task #4 deleted\n".to_string()));
    assert_eq!(
        Reply::Failed { error: TaskError::NotFound }.message(),
        Some("Error: Task not found\n".to_string())
    );
    assert_eq!(
        Reply::Stats { stats: TaskStats { total: 12, pending: 7, completed: 5 } }.message(),
        Some("Task Statistics:\n----------------\nTotal tasks: 12\nPending tasks: 7\nCompleted tasks: 5\n\n".to_string())
    );
    assert_eq!(Reply::Quit.message(), Some("Goodbye!\n".to_string()));
    assert_eq!(
        Reply::Unknown.message(),
        Some("Unknown command. Type 'help' for a list of commands.\n".to_string())
    );
    assert_eq!(Reply::Help.message(), Some(display_help().to_string()));
    assert_eq!(
        Reply::Tasks { listing: Listing::All, tasks: Vec::new() }.message(),
        Some("No tasks found.\n".to_string())
    );
    assert_eq!(Reply::Save { filename: "f".to_string(), text: "1\n".to_string() }.message(), None);
    assert_eq!(Reply::Load { filename: "f".to_string() }.message(), None);
}

#[test]
fn the_help_lists_every_command() {
    let help = display_help();
    assert!(help.starts_with("Task Manager - Available Commands:\n----------------------------------\nadd <title> <description> [due_date] - Add a new task\n"));
    assert!(help.ends_with("quit - Exit the program\n\n"));
    assert_eq!(help.lines().count(), 14);
    for line in ["list - List all tasks", "pending - List pending tasks", "completed - List completed tasks", "complete <id> - Mark a task as completed", "delete <id> - Delete a task", "save <filename> - Save tasks to a file", "load <filename> - Load tasks from a file", "stats - Show task statistics", "help - Display this help message"] {
        assert!(help.lines().any(|l| l == line), "{}", line);
    }
}

#[test]
fn file_work_is_reported() {
    assert_eq!(saved_report("tasks.txt"), "Tasks saved to 'tasks.txt'\n");
    assert_eq!(loaded_report(2, "tasks.txt"), "Loaded 2 tasks from 'tasks.txt'\n");
    assert_eq!(save_failed_report("disk full"), "Error saving to file: disk full\n");
    assert_eq!(load_failed_report("File not found"), "Error loading from file: File not found\n");
    assert_eq!(error_report("oops"), "Error: oops\n");
    assert_eq!(
        stats_report(&TaskStats { total: 0, pending: 0, completed: 0 }),
        "Task Statistics:\n----------------\nTotal tasks: 0\nPending tasks: 0\nCompleted tasks: 0\n\n"
    );
}

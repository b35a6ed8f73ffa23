use taskstore::model::{Task, TaskList, User};
use taskstore::store::{AppData, RegisterError};

fn task(id: u32, description: &str, completed: bool) -> Task {
    Task { id, description: description.to_string(), completed }
}

#[test]
fn new_store_is_empty() {
    let a = AppData::new();
    assert!(a.task_lists.is_empty());
    assert!(a.users.is_empty());
}

#[test]
fn register_twice_keeps_one_record() {
    let mut a = AppData::new();
    assert_eq!(a.register_user("alice".to_string(), "secret".to_string()), Ok(()));
    assert_eq!(
        a.register_user("alice".to_string(), "other".to_string()),
        Err(RegisterError::AlreadyExists)
    );
    assert_eq!(a.users.len(), 1);
    assert_eq!(a.users[0].username, "alice");
}

#[test]
fn register_stores_no_plaintext() {
    let mut a = AppData::new();
    assert_eq!(a.register_user("bob".to_string(), "hunter2".to_string()), Ok(()));
    assert_ne!(a.users[0].password, "hunter2");
    assert!(a.users[0].password.starts_with("$2"));
}

#[test]
fn usernames_are_case_sensitive() {
    let mut a = AppData::new();
    assert_eq!(a.add_user("alice".to_string(), "h1".to_string()), Ok(()));
    assert_eq!(a.add_user("Alice".to_string(), "h2".to_string()), Ok(()));
    assert_eq!(a.add_user("alice".to_string(), "h3".to_string()), Err(RegisterError::AlreadyExists));
    assert_eq!(a.users.len(), 2);
    assert_eq!(a.users[0].password, "h1");
}

#[test]
fn authenticate_right_password() {
    let mut a = AppData::new();
    assert_eq!(a.register_user("alice".to_string(), "secret".to_string()), Ok(()));
    assert!(a.authenticate("alice", "secret"));
}

#[test]
fn authenticate_wrong_password() {
    let mut a = AppData::new();
    assert_eq!(a.register_user("alice".to_string(), "secret".to_string()), Ok(()));
    assert!(!a.authenticate("alice", "Secret"));
}

#[test]
fn authenticate_unknown_user() {
    let mut a = AppData::new();
    assert_eq!(a.register_user("alice".to_string(), "secret".to_string()), Ok(()));
    assert!(!a.authenticate("bob", "secret"));
}

#[test]
fn authenticate_malformed_hash_is_false() {
    let mut a = AppData::new();
    assert_eq!(a.add_user("carol".to_string(), "not a hash".to_string()), Ok(()));
    assert!(!a.authenticate("carol", "not a hash"));
}

#[test]
fn add_tasks_numbers_from_one() {
    let mut a = AppData::new();
    for d in ["a", "b", "c", "d"] {
        a.add_task("alice", d.to_string());
    }
    assert_eq!(a.task_lists.len(), 1);
    assert_eq!(
        a.task_lists[0].tasks,
        vec![task(1, "a", false), task(2, "b", false), task(3, "c", false), task(4, "d", false)]
    );
}

#[test]
fn add_task_empty_description() {
    let mut a = AppData::new();
    a.add_task("alice", String::new());
    assert_eq!(a.task_lists[0].tasks, vec![task(1, "", false)]);
}

#[test]
fn lists_are_per_user() {
    let mut a = AppData::new();
    a.add_task("alice", "a".to_string());
    a.add_task("bob", "b".to_string());
    a.add_task("alice", "c".to_string());
    assert_eq!(a.task_lists.len(), 2);
    assert_eq!(a.task_lists[0].username, "alice");
    assert_eq!(a.task_lists[0].tasks, vec![task(1, "a", false), task(2, "c", false)]);
    assert_eq!(a.task_lists[1].username, "bob");
    assert_eq!(a.task_lists[1].tasks, vec![task(1, "b", false)]);
}

#[test]
fn remove_then_add_reuses_id() {
    let mut a = AppData::new();
    a.add_task("alice", "one".to_string());
    a.add_task("alice", "two".to_string());
    a.remove_task("alice", 2);
    a.add_task("alice", "three".to_string());
    assert_eq!(a.task_lists[0].tasks, vec![task(1, "one", false), task(2, "three", false)]);
}

#[test]
fn remove_middle_then_add_duplicates_id() {
    let mut a = AppData::new();
    a.add_task("alice", "one".to_string());
    a.add_task("alice", "two".to_string());
    a.add_task("alice", "three".to_string());
    a.remove_task("alice", 1);
    a.add_task("alice", "four".to_string());
    assert_eq!(
        a.task_lists[0].tasks,
        vec![task(2, "two", false), task(3, "three", false), task(3, "four", false)]
    );
}

#[test]
fn remove_keeps_order_and_ignores_missing() {
    let mut a = AppData::new();
    for d in ["a", "b", "c"] {
        a.add_task("alice", d.to_string());
    }
    a.remove_task("alice", 2);
    a.remove_task("alice", 9);
    a.remove_task("bob", 1);
    assert_eq!(a.task_lists.len(), 1);
    assert_eq!(a.task_lists[0].tasks, vec![task(1, "a", false), task(3, "c", false)]);
}

#[test]
fn edit_task_replaces_description_only() {
    let mut a = AppData::new();
    a.add_task("alice", "a".to_string());
    a.add_task("alice", "b".to_string());
    a.mark_completed("alice", 2);
    a.edit_task("alice", 2, "bee".to_string());
    assert_eq!(a.task_lists[0].tasks, vec![task(1, "a", false), task(2, "bee", true)]);
}

#[test]
fn edit_and_mark_missing_are_no_ops() {
    let mut a = AppData::new();
    a.add_task("alice", "a".to_string());
    let before = a.task_lists.clone();
    a.edit_task("alice", 7, "x".to_string());
    a.mark_completed("alice", 7);
    a.edit_task("bob", 1, "x".to_string());
    a.mark_completed("bob", 1);
    assert_eq!(a.task_lists, before);
    assert!(a.users.is_empty());
}

#[test]
fn mark_completed_sets_flag() {
    let mut a = AppData::new();
    a.add_task("alice", "a".to_string());
    a.mark_completed("alice", 1);
    a.mark_completed("alice", 1);
    assert_eq!(a.task_lists[0].tasks, vec![task(1, "a", true)]);
}

#[test]
fn display_without_list() {
    let a = AppData::new();
    assert_eq!(a.display_tasks("alice"), "No tasks found for alice\n");
}

#[test]
fn display_lists_tasks() {
    let mut a = AppData::new();
    a.add_task("alice", "buy milk".to_string());
    a.add_task("alice", "call mum".to_string());
    a.mark_completed("alice", 1);
    assert_eq!(
        a.display_tasks("alice"),
        "Tasks for alice:\nID: 1, Description: buy milk, Status: Completed\nID: 2, Description: call mum, Status: Pending\n"
    );
}

#[test]
fn display_large_id() {
    let mut a = AppData::new();
    a.task_lists.push(TaskList { username: "z".to_string(), tasks: vec![task(4294967295, "", false), task(100, "x", true)] });
    assert_eq!(
        a.display_tasks("z"),
        "Tasks for z:\nID: 4294967295, Description: , Status: Pending\nID: 100, Description: x, Status: Completed\n"
    );
}

#[test]
fn from_saved_round_trip() {
    let mut a = AppData::new();
    a.add_user("alice".to_string(), "h1".to_string()).unwrap();
    a.add_user("bob".to_string(), "h2".to_string()).unwrap();
    a.add_task("alice", "a".to_string());
    a.add_task("bob", "b".to_string());
    a.mark_completed("bob", 1);
    let b = AppData::from_saved(a.task_lists.clone(), a.users.clone());
    assert_eq!(b.task_lists, a.task_lists);
    assert_eq!(b.users, a.users);
}

#[test]
fn from_saved_later_record_wins() {
    let users = vec![
        User { username: "alice".to_string(), password: "h1".to_string() },
        User { username: "bob".to_string(), password: "h2".to_string() },
        User { username: "alice".to_string(), password: "h3".to_string() },
    ];
    let b = AppData::from_saved(Vec::new(), users);
    assert_eq!(
        b.users,
        vec![
            User { username: "alice".to_string(), password: "h3".to_string() },
            User { username: "bob".to_string(), password: "h2".to_string() },
        ]
    );
}

#[test]
fn round_trip_keeps_password_verifiable() {
    let mut a = AppData::new();
    assert_eq!(a.register_user("alice".to_string(), "secret".to_string()), Ok(()));
    let b = AppData::from_saved(a.task_lists.clone(), a.users.clone());
    assert!(b.authenticate("alice", "secret"));
}

#[test]
fn alice_scenario() {
    let mut a = AppData::new();
    assert_eq!(a.register_user("alice".to_string(), "secret".to_string()), Ok(()));
    assert!(a.authenticate("alice", "secret"));
    a.add_task("alice", "buy milk".to_string());
    assert_eq!(a.task_lists[0].tasks, vec![task(1, "buy milk", false)]);
    a.mark_completed("alice", 1);
    let shown = a.display_tasks("alice");
    assert!(shown.contains("Status: Completed"));
    let b = AppData::from_saved(a.task_lists.clone(), a.users.clone());
    assert_eq!(b.task_lists, a.task_lists);
    assert_eq!(b.users, a.users);
    assert_eq!(b.display_tasks("alice"), shown);
}

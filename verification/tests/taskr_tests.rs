use taskr::parser::{ListFilter, Priority, RemoveTarget};
use taskr::task::Task;
use taskr::taskr::{add_task, edit_task, list_tasks, remove_tasks, toggle_tasks};

#[test]
fn test_add_to_empty() {
    let mut tasks: Vec<Task> = Vec::new();
    let title = "title".to_string();
    let prio = Priority::Medium;

    add_task(&mut tasks, title.clone(), prio.clone());

    assert_eq!(tasks.len(), 1);
    let task = &tasks[0];
    assert_eq!(task.title, title);
    assert!(!task.is_completed());
    assert_eq!(task.priority, prio);
}

#[test]
fn test_add_task() {
    let first = Task::new("first".to_string(), false, Priority::Low);
    let mut tasks = vec![first];
    let title = "second".to_string();
    let prio = Priority::High;

    add_task(&mut tasks, title.clone(), prio.clone());

    assert_eq!(tasks.len(), 2);
    let task = tasks
        .iter()
        .find(|t| t.title == title);
    assert!(task.is_some());
    assert!(!task.unwrap().is_completed());
    assert_eq!(task.unwrap().priority, Priority::High);
}

#[test]
fn test_list_all_tasks() {
    let t1 = Task::new("one".to_string(), true, Priority::Low);
    let t2 = Task::new("two".to_string(), false, Priority::Medium);
    let t3 = Task::new("three".to_string(), true, Priority::High);
    let tasks = vec![t1, t2, t3];

    let filter = ListFilter::All;
    for line in list_tasks(&tasks, filter) {
        println!("{line}");
    }
}

#[test]
fn test_list_done_tasks() {
    let t1 = Task::new("one".to_string(), true, Priority::Low);
    let t2 = Task::new("two".to_string(), false, Priority::Medium);
    let t3 = Task::new("three".to_string(), true, Priority::High);
    let tasks = vec![t1, t2, t3];

    let filter = ListFilter::Done;
    for line in list_tasks(&tasks, filter) {
        println!("{line}");
    }
}

#[test]
fn test_list_todo_tasks() {
    let t1 = Task::new("one".to_string(), true, Priority::Low);
    let t2 = Task::new("two".to_string(), false, Priority::Medium);
    let t3 = Task::new("three".to_string(), true, Priority::High);
    let tasks = vec![t1, t2, t3];

    let filter = ListFilter::Todo;
    for line in list_tasks(&tasks, filter) {
        println!("{line}");
    }
}

#[test]
fn test_complete_task() {
    let t = Task::new("title".to_string(), false, Priority::Medium);
    let mut tasks = vec![t];

    let res = toggle_tasks(&mut tasks, &vec![0]);

    assert!(res.is_ok());
    assert!(tasks[0].is_completed())
}

#[test]
fn test_uncomplete_task() {
    let t = Task::new("title".to_string(), true, Priority::Medium);
    let mut tasks = vec![t];

    let res = toggle_tasks(&mut tasks, &vec![0]);

    assert!(res.is_ok());
    assert!(!tasks[0].is_completed())
}

#[test]
fn test_complete_multiple_tasks() {
    let t1 = Task::new("one".to_string(), false, Priority::Low);
    let t2 = Task::new("two".to_string(), false, Priority::Medium);
    let t3 = Task::new("three".to_string(), false, Priority::High);
    let mut tasks = vec![t1, t2, t3];

    let res = toggle_tasks(&mut tasks, &vec![0, 2]);

    assert!(res.is_ok());
    assert!(tasks[0].is_completed());
    assert!(!tasks[1].is_completed());
    assert!(tasks[2].is_completed());
}

#[test]
fn test_complete_out_of_range() {
    let task = Task::new("title".to_string(), false, Priority::Medium);
    let mut tasks = vec![task];

    let res = toggle_tasks(&mut tasks, &vec![1]);

    assert!(res.is_err_and(|e| e.index == 1));
}

#[test]
fn test_edit_title() {
    let old_title = "old title".to_string();
    let old_priority = Priority::Medium;
    let task = Task::new(old_title.clone(), false, old_priority);
    let mut tasks = vec![task];

    let new_title = "new title".to_string();
    let res = edit_task(&mut tasks, 0, Some(new_title.clone()), None);

    assert!(res.is_ok());
    assert_eq!(tasks[0].title, new_title);
    assert_eq!(tasks[0].priority, old_priority);
}

#[test]
fn test_edit_priority() {
    let old_title = "title".to_string();
    let old_priority = Priority::Low;
    let task = Task::new(old_title.clone(), false, old_priority);
    let mut tasks = vec![task];

    let new_priority = Priority::High;
    let res = edit_task(&mut tasks, 0, None, Some(new_priority));

    assert!(res.is_ok());
    assert_eq!(tasks[0].priority, new_priority);
    assert_eq!(tasks[0].title, old_title);
}

#[test]
fn test_edit_title_and_priority() {
    let old_title = "old title".to_string();
    let old_priority = Priority::Low;
    let task = Task::new(old_title.clone(), false, old_priority);
    let mut tasks = vec![task];

    let new_title = "new title".to_string();
    let new_priority = Priority::High;
    let res = edit_task(&mut tasks, 0, Some(new_title.clone()), Some(new_priority));

    assert!(res.is_ok());
    assert_eq!(tasks[0].title, new_title);
    assert_eq!(tasks[0].priority, new_priority);
}

#[test]
fn test_edit_out_of_range() {
    let task = Task::new("title".to_string(), true, Priority::Medium);
    let mut tasks = vec![task];

    let res = edit_task(&mut tasks, 2, Some("new title".to_string()), Some(Priority::Low));

    assert!(res.is_err_and(|e| e.index == 2));
}

#[test]
fn test_remove_all_tasks() {
    let t1 = Task::new("first".to_string(), false, Priority::Low);
    let t2 = Task::new("second".to_string(), true, Priority::High);
    let mut tasks = vec![t1, t2];

    let target = RemoveTarget { indices: Vec::new(), done: false, all: true };
    let res = remove_tasks(&mut tasks, &target);

    assert!(res.is_ok());
    assert!(tasks.is_empty());
}

#[test]
fn test_remove_completed_tasks() {
    let uncompleted = Task::new("uncompleted".to_string(), false, Priority::Medium);
    let completed = Task::new("completed".to_string(), true, Priority::Medium);
    let mut tasks = vec![uncompleted.clone(), completed.clone()];

    let target = RemoveTarget { indices: Vec::new(), done: true, all: false };
    let res = remove_tasks(&mut tasks, &target);

    assert!(res.is_ok());
    assert!(tasks.contains(&uncompleted));
    assert!(!tasks.contains(&completed));
}

#[test]
fn test_remove_tasks_by_index() {
    let t1 = Task::new("one".to_string(), true, Priority::Low);
    let t2 = Task::new("two".to_string(), true, Priority::Medium);
    let t3 = Task::new("three".to_string(), false, Priority::High);
    let t4 = Task::new("four".to_string(), false, Priority::High);
    let mut tasks = vec![t1.clone(), t2.clone(), t3.clone(), t4.clone()];

    let target = RemoveTarget { indices: vec![0, 3, 2, 2, 0], done: false, all: false };
    let res = remove_tasks(&mut tasks, &target);

    assert!(res.is_ok());
    assert!(!tasks.contains(&t1));
    assert!(tasks.contains(&t2));
    assert!(!tasks.contains(&t3));
    assert!(!tasks.contains(&t4));
}

#[test]
fn test_remove_by_idx_and_done() {
    let t1 = Task::new("one".to_string(), false, Priority::Low);
    let t2 = Task::new("two".to_string(), true, Priority::Medium);
    let t3 = Task::new("three".to_string(), false, Priority::High);
    let mut tasks = vec![t1.clone(), t2.clone(), t3.clone()];

    let target = RemoveTarget { indices: vec![0], done: true, all: false };
    let res = remove_tasks(&mut tasks, &target);

    assert!(res.is_ok());
    assert!(!tasks.contains(&t1));
    assert!(!tasks.contains(&t2));
    assert!(tasks.contains(&t3));
}

#[test]
fn test_remove_preserves_order() {
    let t1 = Task::new("one".to_string(), false, Priority::Low);
    let t2 = Task::new("two".to_string(), false, Priority::Low);
    let t3 = Task::new("three".to_string(), false, Priority::Low);
    let mut tasks = vec![t1.clone(), t2.clone(), t3.clone()];

    let target = RemoveTarget { indices: vec![0], done: false, all: false };
    let res = remove_tasks(&mut tasks, &target);

    assert!(res.is_ok());
    assert_eq!(tasks[0], t2);
    assert_eq!(tasks[1], t3);
}

#[test]
fn test_remove_out_of_range_error() {
    let task = Task::new("title".to_string(), false, Priority::Medium);
    let mut tasks = vec![task];

    let target = RemoveTarget { indices: vec![1], done: false, all: false };
    let res = remove_tasks(&mut tasks, &target);

    assert!(res.is_err_and(|e| e.index == 1));
}

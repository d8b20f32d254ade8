use srt::task::{Task, TaskGroupId, TaskId, TaskManager, TaskOutcome, TaskStatus, TaskAction};

#[test]
fn test_task_id_increment() {
    let mut manager = TaskManager::new();
    let id1 = manager
        .start("task1", TaskGroupId::Global, false, "")
        .expect("task1 should start");
    let id2 = manager
        .start("task2", TaskGroupId::Global, false, "")
        .expect("task2 should start");
    assert_ne!(id1, id2);
}

#[test]
fn test_task_start_and_complete() {
    let mut manager = TaskManager::new();
    let task_id = manager
        .start("test_task", TaskGroupId::Global, false, "")
        .expect("task should start");
    let events = manager.take_events();
    if let Some(TaskAction::Started(id)) = events.first() {
        assert_eq!(*id, task_id);
    } else {
        panic!("Expected Started action");
    }
    manager.finish(&task_id, TaskOutcome::Completed);
    assert_eq!(manager.get_task(&task_id).unwrap().status, TaskStatus::Completed);
}

#[test]
fn test_task_cancel() {
    let mut manager = TaskManager::new();
    let task_id = manager
        .start("test_task", TaskGroupId::Global, false, "")
        .expect("task should start");
    let _ = manager.take_events();
    assert!(manager.cancel(&task_id));
    let task = manager.get_task(&task_id).unwrap();
    assert!(task.cancel_requested);
    assert_eq!(task.status, TaskStatus::Running);
    manager.finish(&task_id, TaskOutcome::Cancelled);
    assert_eq!(manager.get_task(&task_id).unwrap().status, TaskStatus::Cancelled);
}

#[test]
fn test_cancel_group() {
    let mut manager = TaskManager::new();
    let id1 = manager
        .start("task1", TaskGroupId::User, false, "")
        .expect("task1 should start");
    let id2 = manager
        .start("task2", TaskGroupId::User, false, "")
        .expect("task2 should start");
    let cancelled_ids = manager.cancel_group(TaskGroupId::User);
    assert!(cancelled_ids.contains(&id1));
    assert!(cancelled_ids.contains(&id2));
}

#[test]
fn test_task_is_finished() {
    let task_id = TaskId::new("test", TaskGroupId::Global);
    let task = Task::new(
        task_id,
        TaskGroupId::Global,
        "test".to_string(),
        false,
        "".to_string(),
    );
    assert!(!task.is_finished());

    let mut task = task;
    task.status = TaskStatus::Running;
    assert!(!task.is_finished());

    task.status = TaskStatus::Completed;
    assert!(task.is_finished());

    task.status = TaskStatus::Cancelled;
    assert!(task.is_finished());

    task.status = TaskStatus::Failed;
    assert!(task.is_finished());
}

#[test]
fn test_cleanup_finished() {
    let mut manager = TaskManager::new();
    let task1_id = manager.start("task1", TaskGroupId::Global, false, "").unwrap();
    let task2_id = manager.start("task2", TaskGroupId::Global, false, "").unwrap();
    let task3_id = manager.start("task3", TaskGroupId::Global, false, "").unwrap();
    manager.finish(&task1_id, TaskOutcome::Completed);
    manager.finish(&task3_id, TaskOutcome::Failed);

    assert_eq!(manager.len(), 3);

    manager.cleanup_finished();

    assert_eq!(manager.len(), 1);
    assert_eq!(manager.get_task(&task2_id).unwrap().status, TaskStatus::Running);
}

#[test]
fn task_id_text_joins_name_and_group() {
    assert_eq!(TaskId::new("sync", TaskGroupId::User).as_str(), "sync:User");
    assert_eq!(TaskGroupId::Global.to_string(), "Global");
}

#[test]
fn duplicate_running_task_is_not_started_again() {
    let mut manager = TaskManager::new();
    let first = manager.start("sync", TaskGroupId::User, true, "Sync");
    assert!(first.is_some());
    assert_eq!(manager.take_events().len(), 1);
    let second = manager.start("sync", TaskGroupId::User, true, "Sync");
    assert!(second.is_none());
    assert_eq!(manager.take_events().len(), 0);
    assert_eq!(manager.len(), 1);
}

#[test]
fn finished_task_can_be_started_again() {
    let mut manager = TaskManager::new();
    let id = manager.start("sync", TaskGroupId::User, true, "Sync").unwrap();
    manager.finish(&id, TaskOutcome::Failed);
    let again = manager.start("sync", TaskGroupId::User, true, "Sync");
    assert_eq!(again, Some(id.clone()));
    assert_eq!(manager.get_task(&id).unwrap().status, TaskStatus::Running);
    assert_eq!(manager.len(), 1);
}

#[test]
fn cancelling_user_group_leaves_global_tasks_running() {
    let mut manager = TaskManager::new();
    let user = manager.start("sync", TaskGroupId::User, false, "").unwrap();
    let global = manager.start("metadata", TaskGroupId::Global, false, "").unwrap();
    let cancelled = manager.cancel_group(TaskGroupId::User);
    assert_eq!(cancelled, vec![user.clone()]);
    assert!(manager.get_task(&user).unwrap().cancel_requested);
    let g = manager.get_task(&global).unwrap();
    assert!(!g.cancel_requested);
    assert_eq!(g.status, TaskStatus::Running);
}

#[test]
fn terminal_status_does_not_change() {
    let mut manager = TaskManager::new();
    let id = manager.start("a", TaskGroupId::Global, false, "").unwrap();
    manager.finish(&id, TaskOutcome::Completed);
    manager.finish(&id, TaskOutcome::Cancelled);
    assert_eq!(manager.get_task(&id).unwrap().status, TaskStatus::Completed);
    manager.cancel(&id);
    assert_eq!(manager.get_task(&id).unwrap().status, TaskStatus::Completed);
}

#[test]
fn cancel_all_marks_every_task() {
    let mut manager = TaskManager::new();
    manager.start("a", TaskGroupId::Global, false, "").unwrap();
    manager.start("b", TaskGroupId::User, false, "").unwrap();
    assert_eq!(manager.cancel_all().len(), 2);
}

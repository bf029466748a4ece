use tasking::manager::{Message, TaskManager};
use tasking::status::TaskStatus;
use tasking::style::StatusButton;
use tasking::task::{Task, Tasks};

fn add(m: &mut TaskManager, text: &str) -> bool {
    m.update(Message::InputChangedTaskContent(text.to_string()));
    m.update(Message::AddTask)
}

#[test]
fn status_labels() {
    assert_eq!(TaskStatus::New.to_string(), "新規");
    assert_eq!(TaskStatus::Progress.to_string(), "実行中");
    assert_eq!(TaskStatus::Stop.to_string(), "停止");
    assert_eq!(TaskStatus::Done.to_string(), "完了");
}

#[test]
fn status_successors() {
    assert_eq!(TaskStatus::New.next_status(), TaskStatus::Progress);
    assert_eq!(TaskStatus::Progress.next_status(), TaskStatus::Stop);
    assert_eq!(TaskStatus::Stop.next_status(), TaskStatus::Done);
    assert_eq!(TaskStatus::Done.next_status(), TaskStatus::New);
}

#[test]
fn status_cycle_has_period_four() {
    for s in [TaskStatus::New, TaskStatus::Progress, TaskStatus::Stop, TaskStatus::Done] {
        let four = s.next_status().next_status().next_status().next_status();
        assert_eq!(four, s);
        assert_ne!(s.next_status(), s);
    }
}

#[test]
fn status_button_per_status() {
    assert_eq!(StatusButton::to_status_button(&TaskStatus::New), StatusButton::New);
    assert_eq!(StatusButton::to_status_button(&TaskStatus::Progress), StatusButton::Progress);
    assert_eq!(StatusButton::to_status_button(&TaskStatus::Stop), StatusButton::Stop);
    assert_eq!(StatusButton::to_status_button(&TaskStatus::Done), StatusButton::Done);
}

#[test]
fn task_create_and_change_status() {
    let mut t = Task::create(7, "Write report".to_string());
    assert_eq!(t.id(), 7);
    assert_eq!(t.content(), "Write report");
    assert_eq!(t.status(), TaskStatus::New);
    assert!(t.equals(7));
    assert!(!t.equals(8));
    t.change_status(TaskStatus::Done);
    assert_eq!(t.status(), TaskStatus::Done);
    assert_eq!(t.id(), 7);
    assert_eq!(t.content(), "Write report");
}

#[test]
fn generated_ids_start_at_one_and_rise() {
    let mut s = Tasks::new();
    assert_eq!(s.id_counter(), 0);
    let a = s.generate_task_id();
    let b = s.generate_task_id();
    let c = s.generate_task_id();
    assert_eq!((a, b, c), (1, 2, 3));
    assert_eq!(s.id_counter(), 3);
    assert!(s.is_empty());
}

#[test]
fn add_then_find_gives_the_task() {
    let mut s = Tasks::new();
    let id = s.generate_task_id();
    s.add(Task::create(id, "Buy milk".to_string()));
    let id2 = s.generate_task_id();
    s.add(Task::create(id2, "Walk dog".to_string()));
    let t = s.find_by_id(id2).unwrap();
    assert_eq!(t.id(), 2);
    assert_eq!(t.content(), "Walk dog");
    assert_eq!(t.status(), TaskStatus::New);
    assert!(s.find_by_id(9).is_none());
}

#[test]
fn find_gives_a_mutable_reference() {
    let mut s = Tasks::new();
    let id = s.generate_task_id();
    s.add(Task::create(id, "Buy milk".to_string()));
    s.find_by_id(id).unwrap().change_status(TaskStatus::Stop);
    assert_eq!(s.tasks()[0].status(), TaskStatus::Stop);
}

#[test]
fn remove_then_find_is_empty() {
    let mut s = Tasks::new();
    for text in ["a", "b", "c"] {
        let id = s.generate_task_id();
        s.add(Task::create(id, text.to_string()));
    }
    s.remove_by_id(2);
    assert!(s.find_by_id(2).is_none());
    let ids: Vec<u32> = s.tasks().iter().map(|t| t.id()).collect();
    assert_eq!(ids, vec![1, 3]);
    s.remove_by_id(42);
    assert_eq!(s.tasks().len(), 2);
    assert_eq!(s.id_counter(), 3);
}

#[test]
fn clear_keeps_the_counter() {
    let mut s = Tasks::new();
    for text in ["a", "b"] {
        let id = s.generate_task_id();
        s.add(Task::create(id, text.to_string()));
    }
    s.clear();
    assert!(s.is_empty());
    assert_eq!(s.id_counter(), 2);
    assert_eq!(s.generate_task_id(), 3);
}

#[test]
fn restore_round_trip() {
    let mut s = Tasks::new();
    for text in ["a", "b", "c"] {
        let id = s.generate_task_id();
        s.add(Task::create(id, text.to_string()));
    }
    s.find_by_id(3).unwrap().change_status(TaskStatus::Done);
    s.remove_by_id(1);
    let r = Tasks::from_parts(s.id_counter(), s.tasks().clone()).unwrap();
    assert_eq!(r.id_counter(), 3);
    assert_eq!(r.tasks().len(), 2);
    for (x, y) in r.tasks().iter().zip(s.tasks().iter()) {
        assert_eq!(x.id(), y.id());
        assert_eq!(x.content(), y.content());
        assert_eq!(x.status(), y.status());
    }
}

#[test]
fn restore_refuses_broken_stores() {
    let dup = vec![Task::create(1, "a".to_string()), Task::create(1, "b".to_string())];
    assert!(Tasks::from_parts(5, dup).is_none());
    let above = vec![Task::create(6, "a".to_string())];
    assert!(Tasks::from_parts(5, above).is_none());
    assert!(Tasks::from_parts(0, Vec::new()).is_some());
}

#[test]
fn load_of_nothing_or_broken_is_empty() {
    let none = Tasks::from_loaded(None);
    assert_eq!(none.id_counter(), 0);
    assert!(none.is_empty());
    let dup = vec![Task::create(1, "a".to_string()), Task::create(1, "b".to_string())];
    let broken = Tasks::from_loaded(Some((4, dup)));
    assert_eq!(broken.id_counter(), 0);
    assert!(broken.is_empty());
    let good = Tasks::from_loaded(Some((4, vec![Task::create(4, "a".to_string())])));
    assert_eq!(good.id_counter(), 4);
    assert_eq!(good.tasks()[0].content(), "a");
}

#[test]
fn scenario_buy_milk_then_walk_dog() {
    let mut m = TaskManager::new(Tasks::new());
    assert!(add(&mut m, "Buy milk"));
    assert_eq!(m.content(), "");
    let t = &m.tasks().tasks()[0];
    assert_eq!((t.id(), t.content(), t.status()), (1, "Buy milk", TaskStatus::New));
    assert_eq!(m.tasks().tasks().len(), 1);
    assert!(m.update(Message::ChangeStatusTask(1)));
    assert_eq!(m.tasks().tasks()[0].status(), TaskStatus::Progress);
    let expected = [TaskStatus::Stop, TaskStatus::Done, TaskStatus::New];
    for want in expected {
        assert!(m.update(Message::ChangeStatusTask(1)));
        assert_eq!(m.tasks().tasks()[0].status(), want);
    }
    assert!(m.update(Message::DeleteTask(1)));
    assert!(m.tasks().is_empty());
    assert_eq!(m.tasks().id_counter(), 1);
    assert!(add(&mut m, "Walk dog"));
    assert_eq!(m.tasks().tasks()[0].id(), 2);
    assert_eq!(m.tasks().tasks()[0].content(), "Walk dog");
}

#[test]
fn scenario_clear_then_add() {
    let mut m = TaskManager::new(Tasks::new());
    assert!(add(&mut m, "one"));
    assert!(add(&mut m, "two"));
    assert!(m.update(Message::ClearTask));
    assert!(m.tasks().is_empty());
    assert!(!m.update(Message::ChangeStatusTask(1)));
    assert!(!m.update(Message::ChangeStatusTask(2)));
    assert!(add(&mut m, "three"));
    assert_eq!(m.tasks().tasks()[0].id(), 3);
}

#[test]
fn empty_input_adds_nothing() {
    let mut m = TaskManager::new(Tasks::new());
    assert!(!m.update(Message::AddTask));
    assert!(m.tasks().is_empty());
    assert_eq!(m.tasks().id_counter(), 0);
}

#[test]
fn input_text_is_kept_until_added() {
    let mut m = TaskManager::new(Tasks::new());
    assert!(!m.update(Message::InputChangedTaskContent("draft".to_string())));
    assert_eq!(m.content(), "draft");
    assert!(m.tasks().is_empty());
}

#[test]
fn full_counter_refuses_add() {
    let full = Tasks::from_parts(u32::MAX, Vec::new()).unwrap();
    let mut m = TaskManager::new(full);
    assert!(!add(&mut m, "late"));
    assert!(m.tasks().is_empty());
    assert_eq!(m.content(), "late");
}

//! The decisions taken on each user intent: how the store and the input
//! text change, and whether the store must be saved afterwards.
use vstd::prelude::*;
use crate::status::TaskStatus;
use crate::task::{Task, TaskView, Tasks, TasksView};

verus! {

/// A user intent, as the interface hands it over.
#[derive(Debug, Clone)]
pub enum Message {
    AddTask,
    ClearTask,
    ChangeStatusTask(u32),
    DeleteTask(u32),
    InputChangedTaskContent(String),
}

/// What the manager holds: the text being typed and the store.
pub ghost struct ManagerView {
    pub content: Seq<char>,
    pub tasks: TasksView,
}

/// The state behind the interface: the input text and the task store.
#[derive(Debug)]
pub struct TaskManager {
    content: String,
    tasks: Tasks,
}

impl View for TaskManager {
    type V = ManagerView;

    closed spec fn view(&self) -> ManagerView {
        ManagerView { content: self.content@, tasks: self.tasks@ }
    }
}

/// `t` with its status advanced once.
pub open spec fn advanced(t: TaskView) -> TaskView {
    TaskView { id: t.id, content: t.content, status: t.status.successor() }
}

impl TaskManager {
    /// Starts with an empty input and the store that was loaded.
    pub fn new(tasks: Tasks) -> (r: TaskManager)
        requires
            tasks@.wf(),
        ensures
            r@ == (ManagerView { content: Seq::empty(), tasks: tasks@ }),
    {
        TaskManager { content: String::new(), tasks }
    }

    /// Applies one intent. Returns whether the store changed in a way that
    /// must be saved.
    pub fn update(&mut self, message: Message) -> (save: bool)
        requires
            old(self)@.tasks.wf(),
        ensures
            final(self)@.tasks.wf(),
            match message {
                Message::AddTask => {
                    let o = old(self)@;
                    if o.content.len() > 0 && o.tasks.id_counter < u32::MAX {
                        let id = (o.tasks.id_counter + 1) as u32;
                        &&& save
                        &&& final(self)@ == (ManagerView {
                            content: Seq::empty(),
                            tasks: TasksView {
                                id_counter: id,
                                tasks: o.tasks.tasks.push(
                                    TaskView { id, content: o.content, status: TaskStatus::New },
                                ),
                            },
                        })
                    } else {
                        !save && final(self)@ == o
                    }
                },
                Message::ClearTask => save && final(self)@ == (ManagerView {
                    content: old(self)@.content,
                    tasks: old(self)@.tasks.cleared(),
                }),
                Message::ChangeStatusTask(id) => {
                    let o = old(self)@;
                    if o.tasks.contains_id(id) {
                        &&& save
                        &&& exists|i: int|
                            {
                                &&& o.tasks.is_first_index(id, i)
                                &&& final(self)@ == (ManagerView {
                                    content: o.content,
                                    tasks: TasksView {
                                        id_counter: o.tasks.id_counter,
                                        tasks: o.tasks.tasks.update(i, advanced(o.tasks.tasks[i])),
                                    },
                                })
                            }
                    } else {
                        !save && final(self)@ == o
                    }
                },
                Message::DeleteTask(id) => save && final(self)@ == (ManagerView {
                    content: old(self)@.content,
                    tasks: old(self)@.tasks.without(id),
                }),
                Message::InputChangedTaskContent(s) => !save && final(self)@ == (ManagerView {
                    content: s@,
                    tasks: old(self)@.tasks,
                }),
            },
    {
        match message {
            Message::AddTask => {
                if self.content.as_str().is_empty() || self.tasks.id_counter() == u32::MAX {
                    false
                } else {
                    let id = self.tasks.generate_task_id();
                    let content = self.content.clone();
                    self.tasks.add(Task::create(id, content));
                    self.content = String::new();
                    true
                }
            },
            Message::ClearTask => {
                self.tasks.clear();
                true
            },
            Message::ChangeStatusTask(id) => {
                match self.tasks.find_by_id(id) {
                    Some(task) => {
                        let next = task.status().next_status();
                        task.change_status(next);
                        true
                    },
                    None => false,
                }
            },
            Message::DeleteTask(id) => {
                self.tasks.remove_by_id(id);
                true
            },
            Message::InputChangedTaskContent(s) => {
                self.content = s;
                false
            },
        }
    }

    /// The text being typed.
    pub fn content(&self) -> (r: &str)
        ensures
            r@ == self@.content,
    {
        self.content.as_str()
    }

    /// The store.
    pub fn tasks(&self) -> (r: &Tasks)
        ensures
            r@ == self@.tasks,
    {
        &self.tasks
    }
}

} // verus!

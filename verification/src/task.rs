//! The task type: a title, a completion flag and a priority.
use vstd::prelude::*;
use crate::parser::Priority;

verus! {

/// What a task is, mathematically.
pub struct TaskView {
    pub title: Seq<char>,
    pub completed: bool,
    pub priority: Priority,
}

/// A task of the list.
#[derive(Clone, Debug, PartialEq, Eq)]
pub struct Task {
    pub title: String,
    pub(crate) completed: bool,
    pub priority: Priority,
}

impl View for Task {
    type V = TaskView;

    open(crate) spec fn view(&self) -> TaskView {
        TaskView { title: self.title@, completed: self.completed, priority: self.priority }
    }
}

/// The views of a list of tasks.
pub open spec fn views(tasks: Seq<Task>) -> Seq<TaskView> {
    tasks.map_values(|t: Task| t@)
}

/// `[x]` for a completed task, `[ ]` otherwise.
pub open spec fn done_marker(completed: bool) -> Seq<char> {
    if completed { seq!['[', 'x', ']'] } else { seq!['[', ' ', ']'] }
}

/// One to three exclamation marks in brackets, by priority.
pub open spec fn priority_marker(p: Priority) -> Seq<char> {
    match p {
        Priority::Low => seq!['(', '!', ')'],
        Priority::Medium => seq!['(', '!', '!', ')'],
        Priority::High => seq!['(', '!', '!', '!', ')'],
    }
}

/// How a task is shown: `[x] title (!!)`.
pub open spec fn shown(t: TaskView) -> Seq<char> {
    done_marker(t.completed) + seq![' '] + t.title + seq![' '] + priority_marker(t.priority)
}

impl Task {
    /// A task with the given fields.
    pub fn new(title: String, completed: bool, priority: Priority) -> (t: Task)
        ensures
            t@ == (TaskView { title: title@, completed, priority }),
    {
        Task { title, completed, priority }
    }

    /// Flips the completion flag; title and priority stay.
    pub fn toggle_completed(&mut self)
        ensures
            final(self)@ == (TaskView { completed: !old(self)@.completed, ..old(self)@ }),
    {
        self.completed = !self.completed;
    }

    /// Whether the task is completed.
    pub fn is_completed(&self) -> (b: bool)
        ensures
            b == self@.completed,
    {
        self.completed
    }

    /// The task as one line of text, as `shown` says.
    pub fn display(&self) -> (s: String)
        ensures
            s@ == shown(self@),
    {
        proof {
            reveal_strlit("[x] ");
            reveal_strlit("[ ] ");
            reveal_strlit(" ");
            reveal_strlit("(!)");
            reveal_strlit("(!!)");
            reveal_strlit("(!!!)");
        }
        let mut s = String::new();
        if self.completed {
            s.append("[x] ");
        } else {
            s.append("[ ] ");
        }
        s.append(self.title.as_str());
        s.append(" ");
        match self.priority {
            Priority::Low => s.append("(!)"),
            Priority::Medium => s.append("(!!)"),
            Priority::High => s.append("(!!!)"),
        }
        s
    }
}

} // verus!

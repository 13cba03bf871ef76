//! The commands that the task manager understands, as plain values.
//!
//! Reading them from the command line is the application's job; the
//! library only acts on them.
use vstd::prelude::*;

verus! {

/// A command of the task manager.
pub enum Commands {
    /// Add a task whose title is the words joined by spaces.
    Add { title: Vec<String>, priority: Option<Priority> },
    /// List tasks.
    List { filter: ListFilter },
    /// Complete or uncomplete the tasks at the given indices.
    Done { indices: Vec<usize> },
    /// Edit the task at `index`; an empty title keeps the old one.
    Edit { index: usize, title: Vec<String>, priority: Option<Priority> },
    /// Remove selected tasks.
    Remove(RemoveTarget),
}

/// How urgent a task is.
#[derive(Clone, Copy, Debug, PartialEq, Eq, Structural)]
pub enum Priority {
    Low,
    Medium,
    High,
}

/// Which tasks a listing shows.
#[derive(Clone, Copy, Debug, PartialEq, Eq, Structural)]
pub enum ListFilter {
    All,
    Done,
    Todo,
}

/// The tasks that a removal selects.
pub struct RemoveTarget {
    /// Indices of selected tasks.
    pub indices: Vec<usize>,
    /// Remove all completed tasks.
    pub done: bool,
    /// Remove all tasks.
    pub all: bool,
}

} // verus!

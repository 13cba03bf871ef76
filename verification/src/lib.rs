//! A small task manager: a list of tasks that commands add to, list, complete,
//! edit and remove. The rules of each command are verified; reading the command
//! line and the stored tasks is left to the program around the library.
use vstd::prelude::*;

pub mod laws;
pub mod parser;
pub mod task;
pub mod taskr;
pub mod text;

pub use parser::{Commands, ListFilter, Priority, RemoveTarget};
pub use task::Task;
pub use taskr::{process_command, IndexOutOfRangeError, TaskrError};

verus! {

} // verus!

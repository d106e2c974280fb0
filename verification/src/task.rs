//! A plain record for a simple task list kept as rows of text.

use vstd::prelude::*;

verus! {

/// One task: a name, a description, and a completion flag, all kept as
/// text so a row of a task file maps onto it field by field.
#[derive(Clone, Debug)]
pub struct Task {
    pub task_name: String,
    pub task_description: String,
    pub task_complete: String,
}

} // verus!

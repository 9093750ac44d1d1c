//! Turning one "files chosen" event into a fresh batch of read tasks.

use vstd::prelude::*;
use crate::store::{UploadStore, UploadView};
use crate::task::{FileReadTask, TaskStatus, TaskView};

verus! {

/// Starts a fresh batch for one selection event. Synchronously clears the
/// store first, so the previously displayed batch is discarded before any
/// new read begins, then creates one pending task per selected file name,
/// in selection order. The tasks are independent and not awaited here: the
/// caller runs each to completion on its own schedule. With zero names the
/// store is simply left cleared and no task is created.
pub fn dispatch(store: &mut UploadStore, names: &Vec<String>) -> (tasks: Vec<FileReadTask>)
    ensures
        final(store)@ == Seq::<UploadView>::empty(),
        tasks@.len() == names@.len(),
        forall|i: int| 0 <= i < names@.len() ==>
            #[trigger] tasks@[i]@ == (TaskView { name: names@[i]@, status: TaskStatus::Pending }),
{
    store.clear();
    let mut tasks: Vec<FileReadTask> = Vec::new();
    let mut i: usize = 0;
    while i < names.len()
        invariant
            i <= names@.len(),
            tasks@.len() == i,
            forall|j: int| 0 <= j < i ==>
                #[trigger] tasks@[j]@ == (TaskView { name: names@[j]@, status: TaskStatus::Pending }),
        decreases names@.len() - i,
    {
        tasks.push(FileReadTask::new(names[i].clone()));
        i = i + 1;
    }
    tasks
}

}

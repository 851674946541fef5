//! The errors of a task repository (the store that lists and saves tasks), and
//! what a save does to the listed tasks.

use vstd::prelude::*;
use crate::task::Task;

verus! {

/// `std::io::Error`, carried through the library's errors untouched.
#[verifier::external_type_specification]
#[verifier::external_body]
pub struct ExIoError(std::io::Error);

/// Why the tasks could not be listed.
#[derive(Debug, PartialEq, Eq, Structural)]
pub enum ListError {
    FailedToReadCollection,
    InvalidCollectionData,
}

/// Why a task could not be saved.
#[derive(Debug, PartialEq, Eq, Structural)]
pub enum SaveError {
    ListError(ListError),
    DeserializeError,
    FailedToWriteToCollection,
}

impl ListError {
    /// The message that describes the error.
    pub open spec fn spec_message(self) -> Seq<char> {
        match self {
            ListError::FailedToReadCollection => "Failed to read the collection (data store)"@,
            ListError::InvalidCollectionData =>
                "Failed to parse data in the collection. App unable to format it."@,
        }
    }

    /// The message that describes the error.
    pub fn message(&self) -> (r: String)
        ensures
            r@ == self.spec_message(),
    {
        match self {
            ListError::FailedToReadCollection => String::from_str(
                "Failed to read the collection (data store)",
            ),
            ListError::InvalidCollectionData => String::from_str(
                "Failed to parse data in the collection. App unable to format it.",
            ),
        }
    }
}

impl SaveError {
    /// The message that describes the error.
    pub open spec fn spec_message(self) -> Seq<char> {
        match self {
            SaveError::ListError(_) => "Failed to save because save can not read all the tasks"@,
            SaveError::DeserializeError => "Failed to deserialize the input task"@,
            SaveError::FailedToWriteToCollection =>
                "Failed to write the inputs into the data store"@,
        }
    }

    /// The message that describes the error.
    pub fn message(&self) -> (r: String)
        ensures
            r@ == self.spec_message(),
    {
        match self {
            SaveError::ListError(_) => String::from_str(
                "Failed to save because save can not read all the tasks",
            ),
            SaveError::DeserializeError => String::from_str("Failed to deserialize the input task"),
            SaveError::FailedToWriteToCollection => String::from_str(
                "Failed to write the inputs into the data store",
            ),
        }
    }
}

/// The tasks to store when `task` is saved into a collection that listed as
/// `listed`: the listed tasks with the new one last; a failed listing fails
/// the save.
pub fn tasks_after_save(listed: Result<Vec<Task>, ListError>, task: Task) -> (r: Result<
    Vec<Task>,
    SaveError,
>)
    ensures
        match listed {
            Ok(tasks) => r matches Ok(all) && all@ == tasks@.push(task),
            Err(e) => r == Err::<Vec<Task>, SaveError>(SaveError::ListError(e)),
        },
{
    match listed {
        Ok(mut tasks) => {
            tasks.push(task);
            Ok(tasks)
        },
        Err(e) => Err(SaveError::ListError(e)),
    }
}

} // verus!

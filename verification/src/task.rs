//! Tasks, their stages, and the header that a task file carries.

use vstd::prelude::*;

verus! {

/// Where a task stands.
#[derive(Clone, Copy, Debug, PartialEq, Eq, Structural)]
pub enum TaskStage {
    Todo,
    InProgress,
    Done,
}

impl TaskStage {
    /// The name under which the stage is shown and stored.
    pub open spec fn label(self) -> Seq<char> {
        match self {
            TaskStage::Todo => "Todo"@,
            TaskStage::InProgress => "InProgress"@,
            TaskStage::Done => "Done"@,
        }
    }

    /// The stage's name, as the task table shows it.
    pub fn as_string(&self) -> (r: String)
        ensures
            r@ == self.label(),
    {
        match self {
            TaskStage::Todo => String::from_str("Todo"),
            TaskStage::InProgress => String::from_str("InProgress"),
            TaskStage::Done => String::from_str("Done"),
        }
    }
}

/// The moment a task was created: seconds since the Unix epoch (UTC) and the
/// nanoseconds within that second.
#[derive(Clone, Copy, Debug, PartialEq, Eq, Structural)]
pub struct CreationDate {
    pub seconds: i64,
    pub nanoseconds: u32,
}

/// A task.
#[derive(Clone, Debug, PartialEq, Eq)]
pub struct Task {
    pub id: String,
    pub title: String,
    pub description: String,
    pub stage: TaskStage,
    pub creation_date: CreationDate,
}

/// What a task file states about its task in front of the description.
#[derive(Clone, Debug, PartialEq, Eq)]
pub struct Header {
    pub id: String,
    pub title: String,
    pub stage: TaskStage,
    pub creation_date: CreationDate,
}

/// The header of a task: every field but the description.
pub open spec fn header_of(task: Task) -> Header {
    Header {
        id: task.id,
        title: task.title,
        stage: task.stage,
        creation_date: task.creation_date,
    }
}

/// The task that a header and a description describe.
pub open spec fn task_from(header: Header, description: String) -> Task {
    Task {
        id: header.id,
        title: header.title,
        description,
        stage: header.stage,
        creation_date: header.creation_date,
    }
}

impl Task {
    /// The header written in front of the task's description in its file.
    pub fn get_header(&self) -> (h: Header)
        ensures
            h == header_of(*self),
    {
        Header {
            id: self.id.clone(),
            title: self.title.clone(),
            stage: self.stage,
            creation_date: self.creation_date,
        }
    }

    /// The task read back from a header and the body of its file.
    pub fn from_header(header: Header, description: String) -> (t: Task)
        ensures
            t == task_from(header, description),
    {
        Task {
            id: header.id,
            title: header.title,
            description,
            stage: header.stage,
            creation_date: header.creation_date,
        }
    }
}

/// Splitting a task into its header and description and joining them again
/// gives back the task.
pub proof fn lemma_header_round_trip(task: Task)
    ensures
        task_from(header_of(task), task.description) == task,
{
}

} // verus!

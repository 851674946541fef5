//! The JSON repository: all tasks in one file, `.tasks/tasks.json`.

use vstd::prelude::*;
use crate::paths::{path_join, push_path};
use crate::project::{dot_tasks_dir, dot_tasks_path};

verus! {

/// A repository of tasks kept as a JSON list in one file.
pub struct JSONRepository {
    tasks_json_path: String,
}

impl View for JSONRepository {
    type V = Seq<char>;

    /// The file that holds the tasks.
    closed spec fn view(&self) -> Seq<char> {
        self.tasks_json_path@
    }
}

/// The tasks file did not exist and could not be created.
#[derive(Debug)]
pub struct FailedToWriteTasksFile(pub std::io::Error);

/// The tasks file of a project: `.tasks/tasks.json` in its working directory.
pub open spec fn tasks_json_file(working_directory: Seq<char>) -> Seq<char> {
    path_join(dot_tasks_dir(working_directory), "tasks.json"@)
}

/// The path of the tasks file of the project in `working_directory`.
pub fn tasks_json_path(working_directory: &str) -> (r: String)
    ensures
        r@ == tasks_json_file(working_directory@),
{
    let dir = dot_tasks_path(working_directory);
    push_path(dir.as_str(), "tasks.json")
}

impl JSONRepository {
    /// Opens the repository of the project in `working_directory`, once its
    /// tasks file exists: `tasks_file_creation` is `None` when the file was
    /// there already, else the outcome of creating it with `initial_contents`.
    pub fn new(
        working_directory: &str,
        tasks_file_creation: Option<Result<(), std::io::Error>>,
    ) -> (r: Result<JSONRepository, FailedToWriteTasksFile>)
        ensures
            match tasks_file_creation {
                Some(Err(e)) => r == Err::<JSONRepository, FailedToWriteTasksFile>(
                    FailedToWriteTasksFile(e),
                ),
                _ => r matches Ok(repo) && repo@ == tasks_json_file(working_directory@),
            },
    {
        match tasks_file_creation {
            Some(Err(e)) => Err(FailedToWriteTasksFile(e)),
            _ => Ok(JSONRepository { tasks_json_path: tasks_json_path(working_directory) }),
        }
    }

    /// The file that holds the tasks.
    pub fn tasks_json_path(&self) -> (r: &String)
        ensures
            r@ == self@,
    {
        &self.tasks_json_path
    }

    /// What a new tasks file holds, and what a missing one reads as: an empty
    /// JSON list.
    pub fn initial_contents() -> (r: String)
        ensures
            r@ == seq!['[', ']'],
    {
        let mut r = String::new();
        crate::text::push_char(&mut r, '[');
        crate::text::push_char(&mut r, ']');
        r
    }
}

} // verus!

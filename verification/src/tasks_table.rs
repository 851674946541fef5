//! The terminal table of tasks: what each row shows and how the keys move
//! through it.

use vstd::prelude::*;
use crate::task::Task;

verus! {

/// A key the table reacts to; any other key is `Other`.
#[derive(Clone, Copy, Debug, PartialEq, Eq, Structural)]
pub enum TableKey {
    Esc,
    /// The `q` key.
    Q,
    Down,
    Up,
    Right,
    Left,
    Other,
}

/// What the table does on a key.
#[derive(Clone, Copy, Debug, PartialEq, Eq, Structural)]
pub enum TableAction {
    Quit,
    SelectNextRow,
    SelectPreviousRow,
    SelectNextColumn,
    SelectPreviousColumn,
    Ignore,
}

/// Escape and `q` quit, the arrow keys move the selection, other keys do nothing.
pub open spec fn key_action(key: TableKey) -> TableAction {
    match key {
        TableKey::Esc => TableAction::Quit,
        TableKey::Q => TableAction::Quit,
        TableKey::Down => TableAction::SelectNextRow,
        TableKey::Up => TableAction::SelectPreviousRow,
        TableKey::Right => TableAction::SelectNextColumn,
        TableKey::Left => TableAction::SelectPreviousColumn,
        TableKey::Other => TableAction::Ignore,
    }
}

/// What the table does when `key` is pressed.
pub fn action_for_key(key: TableKey) -> (r: TableAction)
    ensures
        r == key_action(key),
{
    match key {
        TableKey::Esc => TableAction::Quit,
        TableKey::Q => TableAction::Quit,
        TableKey::Down => TableAction::SelectNextRow,
        TableKey::Up => TableAction::SelectPreviousRow,
        TableKey::Right => TableAction::SelectNextColumn,
        TableKey::Left => TableAction::SelectPreviousColumn,
        TableKey::Other => TableAction::Ignore,
    }
}

/// The titles of the table's columns.
pub fn table_header() -> (r: [String; 3])
    ensures
        r[0]@ == "ID"@,
        r[1]@ == "Title"@,
        r[2]@ == "Stage"@,
{
    [String::from_str("ID"), String::from_str("Title"), String::from_str("Stage")]
}

/// The row that shows a task: its id, its title and its stage.
pub fn table_row(task: &Task) -> (r: [String; 3])
    ensures
        r[0]@ == task.id@,
        r[1]@ == task.title@,
        r[2]@ == task.stage.label(),
{
    [task.id.clone(), task.title.clone(), task.stage.as_string()]
}

/// The rows of the table: one for each task, in order.
pub fn table_rows(tasks: &Vec<Task>) -> (r: Vec<[String; 3]>)
    ensures
        r@.len() == tasks@.len(),
        forall|i: int|
            0 <= i < tasks@.len() ==> {
                &&& (#[trigger] r@[i])[0]@ == tasks@[i].id@
                &&& r@[i][1]@ == tasks@[i].title@
                &&& r@[i][2]@ == tasks@[i].stage.label()
            },
{
    let mut rows: Vec<[String; 3]> = Vec::new();
    let mut i: usize = 0;
    while i < tasks.len()
        invariant
            i <= tasks.len(),
            rows@.len() == i,
            forall|k: int|
                0 <= k < i ==> {
                    &&& (#[trigger] rows@[k])[0]@ == tasks@[k].id@
                    &&& rows@[k][1]@ == tasks@[k].title@
                    &&& rows@[k][2]@ == tasks@[k].stage.label()
                },
        decreases tasks.len() - i,
    {
        rows.push(table_row(&tasks[i]));
        i = i + 1;
    }
    rows
}

} // verus!

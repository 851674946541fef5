use kazi::json_repo::{tasks_json_path, FailedToWriteTasksFile, JSONRepository};
use kazi::repo::{tasks_after_save, ListError, SaveError};
use kazi::task::{CreationDate, Header, Task, TaskStage};
use kazi::tasks_table::{action_for_key, table_header, table_row, table_rows, TableAction, TableKey};

fn task(id: &str, title: &str, stage: TaskStage) -> Task {
    Task {
        id: id.to_string(),
        title: title.to_string(),
        description: "details".to_string(),
        stage,
        creation_date: CreationDate { seconds: 42, nanoseconds: 0 },
    }
}

#[test]
fn json_repository_paths() {
    assert_eq!(tasks_json_path("/w"), "/w/.tasks/tasks.json");
    let repo = JSONRepository::new("/w", None).ok().unwrap();
    assert_eq!(repo.tasks_json_path(), "/w/.tasks/tasks.json");
    let repo = JSONRepository::new("/w", Some(Ok(()))).ok().unwrap();
    assert_eq!(repo.tasks_json_path(), "/w/.tasks/tasks.json");
    assert_eq!(JSONRepository::initial_contents(), "[]");
}

#[test]
fn json_repository_reports_a_failed_creation() {
    let err = std::io::Error::new(std::io::ErrorKind::Other, "disk full");
    match JSONRepository::new("/w", Some(Err(err))) {
        Err(FailedToWriteTasksFile(e)) => assert_eq!(e.to_string(), "disk full"),
        Ok(_) => panic!("expected an error"),
    }
}

#[test]
fn saving_appends_the_task() {
    let a = task("p-1", "a", TaskStage::Todo);
    let b = task("p-2", "b", TaskStage::Done);
    let all = tasks_after_save(Ok(vec![a.clone()]), b.clone()).ok().unwrap();
    assert_eq!(all, vec![a, b.clone()]);
    assert!(matches!(
        tasks_after_save(Err(ListError::InvalidCollectionData), b),
        Err(SaveError::ListError(ListError::InvalidCollectionData))
    ));
}

#[test]
fn error_messages() {
    assert_eq!(ListError::FailedToReadCollection.message(), "Failed to read the collection (data store)");
    assert_eq!(
        ListError::InvalidCollectionData.message(),
        "Failed to parse data in the collection. App unable to format it."
    );
    assert_eq!(
        SaveError::ListError(ListError::FailedToReadCollection).message(),
        "Failed to save because save can not read all the tasks"
    );
    assert_eq!(SaveError::DeserializeError.message(), "Failed to deserialize the input task");
    assert_eq!(
        SaveError::FailedToWriteToCollection.message(),
        "Failed to write the inputs into the data store"
    );
}

#[test]
fn headers_round_trip() {
    let t = task("p-7", "Seven", TaskStage::InProgress);
    let h = t.get_header();
    assert_eq!(
        h,
        Header {
            id: "p-7".to_string(),
            title: "Seven".to_string(),
            stage: TaskStage::InProgress,
            creation_date: CreationDate { seconds: 42, nanoseconds: 0 },
        }
    );
    assert_eq!(Task::from_header(h, t.description.clone()), t);
}

#[test]
fn stage_names() {
    assert_eq!(TaskStage::Todo.as_string(), "Todo");
    assert_eq!(TaskStage::InProgress.as_string(), "InProgress");
    assert_eq!(TaskStage::Done.as_string(), "Done");
}

#[test]
fn table_rows_and_keys() {
    assert_eq!(table_header(), ["ID".to_string(), "Title".to_string(), "Stage".to_string()]);
    let row = table_row(&task("p-1", "First", TaskStage::InProgress));
    assert_eq!(row, ["p-1".to_string(), "First".to_string(), "InProgress".to_string()]);
    assert_eq!(action_for_key(TableKey::Esc), TableAction::Quit);
    assert_eq!(action_for_key(TableKey::Q), TableAction::Quit);
    assert_eq!(action_for_key(TableKey::Down), TableAction::SelectNextRow);
    assert_eq!(action_for_key(TableKey::Up), TableAction::SelectPreviousRow);
    assert_eq!(action_for_key(TableKey::Right), TableAction::SelectNextColumn);
    assert_eq!(action_for_key(TableKey::Left), TableAction::SelectPreviousColumn);
    assert_eq!(action_for_key(TableKey::Other), TableAction::Ignore);
}

#[test]
fn table_rows_follow_the_tasks() {
    let tasks = vec![task("p-1", "One", TaskStage::Todo), task("p-2", "Two", TaskStage::Done)];
    let rows = table_rows(&tasks);
    assert_eq!(rows.len(), 2);
    assert_eq!(rows[0], table_row(&tasks[0]));
    assert_eq!(rows[1], ["p-2".to_string(), "Two".to_string(), "Done".to_string()]);
    assert!(table_rows(&Vec::new()).is_empty());
}

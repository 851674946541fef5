use kazi::project::{
    dot_tasks_path, init_step, listed_tasks, load_step, meta_yaml_path, InitAction, InitEvent,
    InitProjectError, LoadAction, LoadError, LoadEvent, ProjectConfig,
};
use kazi::repo::ListError;
use kazi::task::{CreationDate, Task, TaskStage};

fn config() -> ProjectConfig {
    ProjectConfig {
        title: "kazi".to_string(),
        tasks_id_prefix: "KZ".to_string(),
    }
}

fn date() -> CreationDate {
    CreationDate { seconds: 1_700_000_000, nanoseconds: 5 }
}

fn io_error() -> std::io::Error {
    std::io::Error::new(std::io::ErrorKind::PermissionDenied, "denied")
}

#[test]
fn project_paths() {
    assert_eq!(dot_tasks_path("/w"), "/w/.tasks");
    assert_eq!(meta_yaml_path("/w"), "/w/.tasks/meta.yaml");
    assert_eq!(meta_yaml_path("/w/"), "/w/.tasks/meta.yaml");
}

#[test]
fn task_ids_count_from_one() {
    assert_eq!(config().next_task_id(0), "KZ-1");
    assert_eq!(config().next_task_id(9), "KZ-10");
    assert_eq!(config().next_task_id(41), "KZ-42");
    assert_ne!(config().next_task_id(1), config().next_task_id(10));
}

#[test]
fn new_tasks_are_to_do_and_empty() {
    let task = config().new_task("Write tests".to_string(), 2, date());
    assert_eq!(
        task,
        Task {
            id: "KZ-3".to_string(),
            title: "Write tests".to_string(),
            description: String::new(),
            stage: TaskStage::Todo,
            creation_date: date(),
        }
    );
}

#[test]
fn initial_config_is_named_after_the_directory() {
    let c = ProjectConfig::initial_config("/home/me/kazi").unwrap();
    assert_eq!(c.title, "kazi");
    assert_eq!(c.tasks_id_prefix, "kazi");
    assert!(ProjectConfig::initial_config("").is_none());
}

#[test]
fn failed_listings_show_no_task() {
    let tasks = vec![config().new_task("a".to_string(), 0, date())];
    assert_eq!(listed_tasks(Ok(tasks.clone())), tasks);
    assert!(listed_tasks(Err(ListError::FailedToReadCollection)).is_empty());
}

#[test]
fn loading_steps() {
    assert!(matches!(load_step(LoadEvent::MetaYamlChecked { exists: true }), LoadAction::ReadMetaYaml));
    assert!(matches!(
        load_step(LoadEvent::MetaYamlChecked { exists: false }),
        LoadAction::Finish(Err(LoadError::ProjectNotInitialized))
    ));
    match load_step(LoadEvent::MetaYamlRead(Ok("title: x".to_string()))) {
        LoadAction::ParseMetaYaml(text) => assert_eq!(text, "title: x"),
        _ => panic!("expected a parse"),
    }
    assert!(matches!(
        load_step(LoadEvent::MetaYamlRead(Err(io_error()))),
        LoadAction::Finish(Err(LoadError::UnexpectedCase(_)))
    ));
    assert!(matches!(
        load_step(LoadEvent::MetaYamlParsed(None)),
        LoadAction::Finish(Err(LoadError::InvalidMetaYamlFile))
    ));
    match load_step(LoadEvent::MetaYamlParsed(Some(config()))) {
        LoadAction::Finish(Ok(c)) => assert_eq!(c.tasks_id_prefix, "KZ"),
        _ => panic!("expected the configuration"),
    }
}

#[test]
fn initialising_steps() {
    let wd = "/home/me/kazi";
    assert!(matches!(init_step(wd, InitEvent::DotTasksChecked { exists: false }), InitAction::CreateDotTasksFolder));
    assert!(matches!(init_step(wd, InitEvent::DotTasksChecked { exists: true }), InitAction::CheckMetaYaml));
    assert!(matches!(init_step(wd, InitEvent::DotTasksCreated(Ok(()))), InitAction::CheckMetaYaml));
    assert!(matches!(
        init_step(wd, InitEvent::DotTasksCreated(Err(io_error()))),
        InitAction::Finish(Err(InitProjectError::FailedToCreateDotTasksFolder(_)))
    ));
    assert!(matches!(init_step(wd, InitEvent::MetaYamlChecked { exists: true }), InitAction::Finish(Ok(()))));
    match init_step(wd, InitEvent::MetaYamlChecked { exists: false }) {
        InitAction::WriteMetaYaml(c) => {
            assert_eq!(c.title, "kazi");
            assert_eq!(c.tasks_id_prefix, "kazi");
        }
        _ => panic!("expected a configuration to write"),
    }
    assert!(matches!(init_step(wd, InitEvent::MetaYamlWritten(Ok(()))), InitAction::Finish(Ok(()))));
    assert!(matches!(
        init_step(wd, InitEvent::MetaYamlWritten(Err(io_error()))),
        InitAction::Finish(Err(InitProjectError::FailedToSaveMetaYamlFile(_)))
    ));
}

#[test]
fn successive_adds_are_numbered_from_one() {
    let mut tasks: Vec<Task> = Vec::new();
    let titles = ["first", "second", "third", "fourth", "fifth", "sixth", "seventh", "eighth", "ninth", "tenth", "eleventh"];
    for (k, title) in titles.iter().enumerate() {
        let before = tasks.clone();
        tasks = config().with_new_task(tasks, title.to_string(), date());
        assert_eq!(tasks.len(), k + 1);
        assert_eq!(&tasks[..k], &before[..]);
    }
    for (i, task) in tasks.iter().enumerate() {
        assert_eq!(task.id, format!("KZ-{}", i + 1));
        assert_eq!(task.title, titles[i]);
        assert_eq!(task.description, "");
        assert_eq!(task.stage, TaskStage::Todo);
    }
}

use kazi::md_repo::{parse_frontmatter, task_file_content, InitError, MDRepository};
use kazi::task::{CreationDate, Header, Task, TaskStage};

fn creation_date() -> CreationDate {
    let date: chrono::DateTime<chrono::Utc> = "2026-03-31T09:13:55.702829Z".parse().unwrap();
    CreationDate {
        seconds: date.timestamp(),
        nanoseconds: date.timestamp_subsec_nanos(),
    }
}

const TASK_ONE: &str = "---\nid: '1'\ntitle: Some cool title\nstage: Todo\ncreation_date: 2026-03-31T09:13:55.702829Z\n---\n# some cool content\nsome cool content is here\n";

fn yaml_str(value: &serde_yaml::Value, key: &str) -> String {
    value.get(key).unwrap().as_str().unwrap().to_string()
}

#[test]
fn test_parse_task_md_file() {
    let [yaml, body] = parse_frontmatter(TASK_ONE);
    let value: serde_yaml::Value = serde_yaml::from_str(&yaml).unwrap();
    let date: chrono::DateTime<chrono::Utc> = yaml_str(&value, "creation_date").parse().unwrap();
    let stage = match yaml_str(&value, "stage").as_str() {
        "Todo" => TaskStage::Todo,
        "InProgress" => TaskStage::InProgress,
        _ => TaskStage::Done,
    };
    let header = Header {
        id: yaml_str(&value, "id"),
        title: yaml_str(&value, "title"),
        stage,
        creation_date: CreationDate {
            seconds: date.timestamp(),
            nanoseconds: date.timestamp_subsec_nanos(),
        },
    };
    let task = Task::from_header(header, body);
    let expected_task = Task {
        id: "1".to_string(),
        title: "Some cool title".to_string(),
        stage: TaskStage::Todo,
        description: "# some cool content\nsome cool content is here".to_string(),
        creation_date: creation_date(),
    };
    assert_eq!(task, expected_task);
}

#[test]
fn frontmatter_is_split_and_trimmed() {
    let [yaml, body] = parse_frontmatter("---\nid: '1'\n---\nbody text\n");
    assert_eq!(yaml, "id: '1'");
    assert_eq!(body, "body text");
}

#[test]
fn frontmatter_after_leading_white_space() {
    let [yaml, body] = parse_frontmatter("\n  ---a: 1\n---  b  ");
    assert_eq!(yaml, "a: 1");
    assert_eq!(body, "b");
}

#[test]
fn no_frontmatter_gives_the_whole_content() {
    let [yaml, body] = parse_frontmatter("  just text\n---\n");
    assert_eq!(yaml, "");
    assert_eq!(body, "  just text\n---\n");
}

#[test]
fn unclosed_frontmatter_gives_the_whole_content() {
    let [yaml, body] = parse_frontmatter(" ---\nid: 1\n");
    assert_eq!(yaml, "");
    assert_eq!(body, " ---\nid: 1\n");
}

#[test]
fn empty_content() {
    let [yaml, body] = parse_frontmatter("");
    assert_eq!(yaml, "");
    assert_eq!(body, "");
}

#[test]
fn first_closing_fence_wins() {
    let [yaml, body] = parse_frontmatter("---\na\n---\nb\n---\nc");
    assert_eq!(yaml, "a");
    assert_eq!(body, "b\n---\nc");
}

#[test]
fn task_file_round_trip() {
    let header = "id: kazi-3\ntitle: Write docs\n";
    let content = task_file_content(header, "  Some details\n");
    assert_eq!(content, "---\nid: kazi-3\ntitle: Write docs\n---\n  Some details\n");
    let [yaml, body] = parse_frontmatter(&content);
    assert_eq!(yaml, header.trim());
    assert_eq!(body, "Some details");
    let content = task_file_content("", "x");
    let [yaml, body] = parse_frontmatter(&content);
    assert_eq!(yaml, "");
    assert_eq!(body, "x");
}

#[test]
fn repository_refuses_a_file() {
    assert!(matches!(
        MDRepository::new("/home/me/notes.txt", true),
        Err(InitError::InvalidWorkingDirectory)
    ));
}

#[test]
fn repository_lives_in_dot_tasks() {
    let repo = MDRepository::new("/home/me/project", false).unwrap();
    assert_eq!(repo.tasks_directory(), "/home/me/project/.tasks");
    let repo = MDRepository::new("/home/me/project/", false).unwrap();
    assert_eq!(repo.tasks_directory(), "/home/me/project/.tasks");
}

#[test]
fn task_files_are_named_after_the_slug() {
    let repo = MDRepository::new("/p", false).unwrap();
    let task = Task {
        id: "p-1".to_string(),
        title: "Two Worlds!".to_string(),
        description: String::new(),
        stage: TaskStage::Todo,
        creation_date: creation_date(),
    };
    assert_eq!(repo.task_file_path(&task), "/p/.tasks/two-worlds.md");
}

#[test]
fn meta_yaml_is_not_a_task_file() {
    assert!(!MDRepository::is_task_file("meta.yaml"));
    assert!(MDRepository::is_task_file("task-one.md"));
    assert!(MDRepository::is_task_file("meta.yml"));
}

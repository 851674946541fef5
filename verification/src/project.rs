//! A project: its configuration, the numbering of its tasks, and the decisions
//! taken while a project is loaded or initialised. The program around the
//! library performs each file-system action that these decisions ask for and
//! reports back what happened.

use vstd::prelude::*;
use crate::text::{
    decimal,
    decimal_string,
    lemma_decimal_injective,
    lemma_decimal_value,
    lemma_decimal_nonempty,
    numeral_value,
    push_char,
};
use crate::paths::{path_join, push_path, last_component, last_component_of};
use crate::task::{Task, TaskStage, CreationDate};
use crate::repo::ListError;

verus! {

/// The configuration of a project, stored in `.tasks/meta.yaml`.
#[derive(Clone, Debug)]
pub struct ProjectConfig {
    pub title: String,
    pub tasks_id_prefix: String,
}

/// Why a project could not be loaded.
#[derive(Debug)]
pub enum LoadError {
    ProjectNotInitialized,
    InvalidMetaYamlFile,
    UnexpectedCase(std::io::Error),
}

/// Why a project could not be initialised.
#[derive(Debug)]
pub enum InitProjectError {
    FailedToCreateDotTasksFolder(std::io::Error),
    FailedToSaveMetaYamlFile(std::io::Error),
}

/// The project's directory of tasks: `.tasks` in the working directory.
pub open spec fn dot_tasks_dir(working_directory: Seq<char>) -> Seq<char> {
    path_join(working_directory, ".tasks"@)
}

/// The project's configuration file: `.tasks/meta.yaml` in the working directory.
pub open spec fn meta_yaml_file(working_directory: Seq<char>) -> Seq<char> {
    path_join(dot_tasks_dir(working_directory), "meta.yaml"@)
}

/// The path of the project's directory of tasks.
pub fn dot_tasks_path(working_directory: &str) -> (r: String)
    ensures
        r@ == dot_tasks_dir(working_directory@),
{
    push_path(working_directory, ".tasks")
}

/// The path of the project's configuration file.
pub fn meta_yaml_path(working_directory: &str) -> (r: String)
    ensures
        r@ == meta_yaml_file(working_directory@),
{
    let dir = dot_tasks_path(working_directory);
    push_path(dir.as_str(), "meta.yaml")
}

/// The id of the task added to a project that holds `task_count` tasks: the
/// prefix, a hyphen, and the task's number counted from one.
pub open spec fn task_id(prefix: Seq<char>, task_count: nat) -> Seq<char> {
    prefix.push('-') + decimal(task_count + 1)
}

/// Tasks added at different counts get different ids.
pub proof fn lemma_task_ids_distinct(prefix: Seq<char>, a: nat, b: nat)
    requires
        a != b,
    ensures
        task_id(prefix, a) != task_id(prefix, b),
{
    lemma_decimal_injective(a + 1, b + 1);
    let n = prefix.len() + 1;
    if task_id(prefix, a) == task_id(prefix, b) {
        assert(task_id(prefix, a).skip(n as int) =~= decimal(a + 1));
        assert(task_id(prefix, b).skip(n as int) =~= decimal(b + 1));
    }
}

/// Task `i` of the list (counted from zero) has the id of the task added to a
/// project holding `i` tasks: the list was built by adding its tasks one after
/// another, from an empty project.
pub open spec fn numbered(tasks: Seq<Task>, prefix: Seq<char>) -> bool {
    forall|i: int| 0 <= i < tasks.len() ==> (#[trigger] tasks[i]).id@ == task_id(prefix, i as nat)
}

/// An empty project is numbered.
pub proof fn lemma_empty_numbered(prefix: Seq<char>)
    ensures
        numbered(Seq::<Task>::empty(), prefix),
{
}

/// In a numbered list the tasks have pairwise different ids.
pub proof fn lemma_numbered_ids_distinct(tasks: Seq<Task>, prefix: Seq<char>)
    requires
        numbered(tasks, prefix),
    ensures
        forall|i: int, j: int|
            0 <= i < tasks.len() && 0 <= j < tasks.len() && i != j ==> (#[trigger] tasks[i]).id@
                != (#[trigger] tasks[j]).id@,
{
    assert forall|i: int, j: int|
        0 <= i < tasks.len() && 0 <= j < tasks.len() && i != j implies (#[trigger] tasks[i]).id@
        != (#[trigger] tasks[j]).id@ by {
        lemma_task_ids_distinct(prefix, i as nat, j as nat);
    }
}

/// The configuration a project is initialised with: titled after the last
/// component of its working directory, which also prefixes its task ids.
pub open spec fn initial_config_of(working_directory: Seq<char>) -> Option<(Seq<char>, Seq<char>)> {
    match last_component(working_directory) {
        Some(name) => Some((name, name)),
        None => None,
    }
}

/// A new project is titled with the whole last component of its working
/// directory, and its task ids are prefixed with that same name, uncut.
pub proof fn lemma_initial_config_names(working_directory: Seq<char>)
    ensures
        last_component(working_directory) matches Some(n) ==> initial_config_of(working_directory)
            == Some((n, n)),
        last_component(working_directory) is None ==> initial_config_of(working_directory) is None,
{
}

/// The id of a task: the configured prefix as it is, a hyphen, and a numeral
/// that reads back as the number of tasks before it plus one.
pub proof fn lemma_task_id_parts(prefix: Seq<char>, task_count: nat)
    ensures
        task_id(prefix, task_count).take(prefix.len() as int) == prefix,
        task_id(prefix, task_count)[prefix.len() as int] == '-',
        numeral_value(task_id(prefix, task_count).skip(prefix.len() + 1int)) == task_count + 1,
        task_id(prefix, task_count).len() > prefix.len() + 1,
{
    let id = task_id(prefix, task_count);
    let num = decimal(task_count + 1);
    assert(id.take(prefix.len() as int) =~= prefix);
    assert(id.skip(prefix.len() + 1int) =~= num);
    lemma_decimal_value(task_count + 1);
    lemma_decimal_nonempty(task_count + 1);
}

/// The list of tasks a project shows: what the repository listed, or nothing
/// when the listing failed.
pub fn listed_tasks(listed: Result<Vec<Task>, ListError>) -> (r: Vec<Task>)
    ensures
        match listed {
            Ok(tasks) => r@ == tasks@,
            Err(_) => r@.len() == 0,
        },
{
    match listed {
        Ok(tasks) => tasks,
        Err(_) => Vec::new(),
    }
}

impl ProjectConfig {
    /// The configuration a project in `working_directory` is initialised with;
    /// none for a path without components.
    pub fn initial_config(working_directory: &str) -> (r: Option<ProjectConfig>)
        ensures
            match r {
                Some(c) => initial_config_of(working_directory@) == Some(
                    (c.title@, c.tasks_id_prefix@),
                ) && last_component(working_directory@) == Some(c.title@)
                    && c.tasks_id_prefix@ == c.title@,
                None => initial_config_of(working_directory@) is None && last_component(
                    working_directory@,
                ) is None,
            },
    {
        match last_component_of(working_directory) {
            Some(name) => {
                let prefix = name.clone();
                Some(ProjectConfig { title: name, tasks_id_prefix: prefix })
            },
            None => None,
        }
    }

    /// The id of the next task of a project that holds `task_count` tasks.
    pub fn next_task_id(&self, task_count: usize) -> (r: String)
        requires
            task_count < usize::MAX,
        ensures
            r@ == task_id(self.tasks_id_prefix@, task_count as nat),
            r@.take(self.tasks_id_prefix@.len() as int) == self.tasks_id_prefix@,
            r@[self.tasks_id_prefix@.len() as int] == '-',
            numeral_value(r@.skip(self.tasks_id_prefix@.len() + 1int)) == task_count + 1,
    {
        proof {
            lemma_task_id_parts(self.tasks_id_prefix@, task_count as nat);
        }
        let mut id = self.tasks_id_prefix.clone();
        push_char(&mut id, '-');
        let number = decimal_string(task_count + 1);
        id.append(number.as_str());
        id
    }

    /// The tasks of a project after `title` is added to it: the listed tasks,
    /// unchanged, followed by the new task. Adding to a numbered list keeps it
    /// numbered, so tasks added one after another from an empty project are
    /// numbered from one, with different ids.
    pub fn with_new_task(
        &self,
        tasks: Vec<Task>,
        title: String,
        creation_date: CreationDate,
    ) -> (r: Vec<Task>)
        requires
            tasks.len() < usize::MAX,
        ensures
            r@.len() == tasks@.len() + 1,
            r@.take(tasks@.len() as int) == tasks@,
            r@.last().id@ == task_id(self.tasks_id_prefix@, tasks@.len()),
            r@.last().title == title,
            r@.last().description@ == Seq::<char>::empty(),
            r@.last().stage == TaskStage::Todo,
            r@.last().creation_date == creation_date,
            numbered(tasks@, self.tasks_id_prefix@) ==> numbered(r@, self.tasks_id_prefix@),
    {
        let ghost old_tasks = tasks@;
        let task = self.new_task(title, tasks.len(), creation_date);
        let mut tasks = tasks;
        tasks.push(task);
        assert(tasks@.take(old_tasks.len() as int) =~= old_tasks);
        proof {
            if numbered(old_tasks, self.tasks_id_prefix@) {
                assert forall|i: int| 0 <= i < tasks@.len() implies (#[trigger] tasks@[i]).id@
                    == task_id(self.tasks_id_prefix@, i as nat) by {
                    if i < old_tasks.len() {
                        assert(tasks@[i] == old_tasks[i]);
                    }
                }
            }
        }
        tasks
    }

    /// The task that adding `title` to a project holding `task_count` tasks
    /// creates: the next id, the title, no description, to do, created at
    /// `creation_date`.
    pub fn new_task(&self, title: String, task_count: usize, creation_date: CreationDate) -> (t:
        Task)
        requires
            task_count < usize::MAX,
        ensures
            t.id@ == task_id(self.tasks_id_prefix@, task_count as nat),
            t.title == title,
            t.description@ == Seq::<char>::empty(),
            t.stage == TaskStage::Todo,
            t.creation_date == creation_date,
    {
        Task {
            id: self.next_task_id(task_count),
            title,
            description: String::new(),
            stage: TaskStage::Todo,
            creation_date,
        }
    }
}

/// What the program reports while a project is loaded.
pub enum LoadEvent {
    /// Whether the configuration file exists.
    MetaYamlChecked { exists: bool },
    /// The configuration file was read, or reading it failed.
    MetaYamlRead(Result<String, std::io::Error>),
    /// The configuration file's text was parsed, or it was not a configuration.
    MetaYamlParsed(Option<ProjectConfig>),
}

/// What loading a project asks the program to do next.
pub enum LoadAction {
    ReadMetaYaml,
    ParseMetaYaml(String),
    Finish(Result<ProjectConfig, LoadError>),
}

/// The next step of loading a project (after checking that its configuration
/// file exists): a missing file means the project is not initialised; a file
/// that cannot be read is an unexpected case; a text that is no configuration
/// is an invalid file.
pub fn load_step(event: LoadEvent) -> (r: LoadAction)
    ensures
        match event {
            LoadEvent::MetaYamlChecked { exists } => if exists {
                r is ReadMetaYaml
            } else {
                r matches LoadAction::Finish(Err(LoadError::ProjectNotInitialized))
            },
            LoadEvent::MetaYamlRead(Ok(text)) => r == LoadAction::ParseMetaYaml(text),
            LoadEvent::MetaYamlRead(Err(e)) => r == LoadAction::Finish(
                Err(LoadError::UnexpectedCase(e)),
            ),
            LoadEvent::MetaYamlParsed(Some(config)) => r == LoadAction::Finish(Ok(config)),
            LoadEvent::MetaYamlParsed(None) => r matches LoadAction::Finish(
                Err(LoadError::InvalidMetaYamlFile),
            ),
        },
{
    match event {
        LoadEvent::MetaYamlChecked { exists } => if exists {
            LoadAction::ReadMetaYaml
        } else {
            LoadAction::Finish(Err(LoadError::ProjectNotInitialized))
        },
        LoadEvent::MetaYamlRead(Ok(text)) => LoadAction::ParseMetaYaml(text),
        LoadEvent::MetaYamlRead(Err(e)) => LoadAction::Finish(Err(LoadError::UnexpectedCase(e))),
        LoadEvent::MetaYamlParsed(Some(config)) => LoadAction::Finish(Ok(config)),
        LoadEvent::MetaYamlParsed(None) => LoadAction::Finish(Err(LoadError::InvalidMetaYamlFile)),
    }
}

/// What the program reports while a project is initialised.
pub enum InitEvent {
    /// Whether the `.tasks` directory exists.
    DotTasksChecked { exists: bool },
    /// The `.tasks` directory was created, or creating it failed.
    DotTasksCreated(Result<(), std::io::Error>),
    /// Whether the configuration file exists.
    MetaYamlChecked { exists: bool },
    /// The configuration file was written, or writing it failed.
    MetaYamlWritten(Result<(), std::io::Error>),
}

/// What initialising a project asks the program to do next.
pub enum InitAction {
    CreateDotTasksFolder,
    CheckMetaYaml,
    WriteMetaYaml(ProjectConfig),
    Finish(Result<(), InitProjectError>),
}

/// The next step of initialising the project in `working_directory`: the
/// `.tasks` directory is created if missing, then a configuration file is
/// written unless one exists already (a project initialised twice is left as
/// it is).
pub fn init_step(working_directory: &str, event: InitEvent) -> (r: InitAction)
    requires
        event matches InitEvent::MetaYamlChecked { exists: false } ==> last_component(
            working_directory@,
        ) is Some,
    ensures
        match event {
            InitEvent::DotTasksChecked { exists } => if exists {
                r is CheckMetaYaml
            } else {
                r is CreateDotTasksFolder
            },
            InitEvent::DotTasksCreated(Ok(())) => r is CheckMetaYaml,
            InitEvent::DotTasksCreated(Err(e)) => r == InitAction::Finish(
                Err(InitProjectError::FailedToCreateDotTasksFolder(e)),
            ),
            InitEvent::MetaYamlChecked { exists } => if exists {
                r == InitAction::Finish(Ok(()))
            } else {
                r matches InitAction::WriteMetaYaml(c) && initial_config_of(working_directory@)
                    == Some((c.title@, c.tasks_id_prefix@))
            },
            InitEvent::MetaYamlWritten(Ok(())) => r == InitAction::Finish(Ok(())),
            InitEvent::MetaYamlWritten(Err(e)) => r == InitAction::Finish(
                Err(InitProjectError::FailedToSaveMetaYamlFile(e)),
            ),
        },
{
    match event {
        InitEvent::DotTasksChecked { exists } => if exists {
            InitAction::CheckMetaYaml
        } else {
            InitAction::CreateDotTasksFolder
        },
        InitEvent::DotTasksCreated(Ok(())) => InitAction::CheckMetaYaml,
        InitEvent::DotTasksCreated(Err(e)) => InitAction::Finish(
            Err(InitProjectError::FailedToCreateDotTasksFolder(e)),
        ),
        InitEvent::MetaYamlChecked { exists } => if exists {
            InitAction::Finish(Ok(()))
        } else {
            match ProjectConfig::initial_config(working_directory) {
                Some(config) => InitAction::WriteMetaYaml(config),
                None => InitAction::Finish(Ok(())),
            }
        },
        InitEvent::MetaYamlWritten(Ok(())) => InitAction::Finish(Ok(())),
        InitEvent::MetaYamlWritten(Err(e)) => InitAction::Finish(
            Err(InitProjectError::FailedToSaveMetaYamlFile(e)),
        ),
    }
}

} // verus!

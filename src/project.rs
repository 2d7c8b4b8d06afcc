use vstd::prelude::*;
use crate::board::{Board, ColumnModel};

verus! {

/// The abstract value of a project: its name and its board.
pub ghost struct ProjectModel {
    pub name: Seq<char>,
    pub board: Seq<ColumnModel>,
}

/// A named board.
#[derive(Debug, Clone)]
pub struct Project {
    pub name: String,
    pub board: Board,
}

impl View for Project {
    type V = ProjectModel;

    open spec fn view(&self) -> ProjectModel {
        ProjectModel { name: self.name@, board: self.board@ }
    }
}

impl Project {
    /// A project with the given name and the given board.
    pub fn new(name: String, board: Board) -> (r: Self)
        ensures
            r@ == (ProjectModel { name: name@, board: board@ }),
    {
        Project { name, board }
    }

    /// The number of tasks over all columns of the project's board,
    /// saturating at `usize::MAX`.
    pub fn count_tasks(&self) -> (r: usize)
        ensures
            r == if crate::board::column_tasks_total(self@.board) <= usize::MAX {
                crate::board::column_tasks_total(self@.board)
            } else {
                usize::MAX as nat
            },
    {
        self.board.count_tasks()
    }
}

/// Preferences shared by all projects.
#[derive(Debug, Clone)]
pub struct Config {
    pub default_project: Option<String>,
    pub theme: Option<String>,
}

/// The abstract value of the shared preferences.
pub ghost struct ConfigModel {
    pub default_project: Option<Seq<char>>,
    pub theme: Option<Seq<char>>,
}

pub open spec fn opt_text(o: Option<String>) -> Option<Seq<char>> {
    match o {
        Some(s) => Some(s@),
        None => None,
    }
}

impl View for Config {
    type V = ConfigModel;

    open spec fn view(&self) -> ConfigModel {
        ConfigModel { default_project: opt_text(self.default_project), theme: opt_text(self.theme) }
    }
}

impl Config {
    /// No default project and no chosen theme.
    pub fn new() -> (r: Self)
        ensures
            r@ == (ConfigModel { default_project: None, theme: None }),
    {
        Config { default_project: None, theme: None }
    }
}

/// The abstract value of a registry: its projects and the active one.
pub ghost struct RegistryModel {
    pub projects: Seq<ProjectModel>,
    pub current: nat,
}

/// The projects, in the order they were listed, and which one is active.
#[derive(Debug, Clone)]
pub struct Registry {
    pub projects: Vec<Project>,
    pub current_project: usize,
}

pub open spec fn project_models(v: Seq<Project>) -> Seq<ProjectModel> {
    v.map_values(|p: Project| p@)
}

impl View for Registry {
    type V = RegistryModel;

    open spec fn view(&self) -> RegistryModel {
        RegistryModel { projects: project_models(self.projects@), current: self.current_project as nat }
    }
}

/// The active project is a valid index whenever there is a project, and zero
/// when there is none.
pub open spec fn registry_wf(r: RegistryModel) -> bool {
    if r.projects.len() == 0 {
        r.current == 0
    } else {
        r.current < r.projects.len()
    }
}

pub open spec fn project_created(r: RegistryModel, name: Seq<char>) -> RegistryModel {
    RegistryModel {
        projects: r.projects.push(ProjectModel { name, board: Seq::empty() }),
        ..r
    }
}

/// Removing a project: the active index follows the project it named,
/// and falls back to the first project when the active one is removed.
pub open spec fn project_deleted(r: RegistryModel, i: int) -> RegistryModel {
    if 0 <= i < r.projects.len() {
        RegistryModel {
            projects: r.projects.remove(i),
            current: if i < r.current {
                (r.current - 1) as nat
            } else if i == r.current {
                0
            } else {
                r.current
            },
        }
    } else {
        r
    }
}

pub open spec fn switched(r: RegistryModel, i: int) -> RegistryModel {
    if 0 <= i < r.projects.len() {
        RegistryModel { current: i as nat, ..r }
    } else {
        r
    }
}

impl Registry {
    /// A registry with no projects.
    pub fn new() -> (r: Self)
        ensures
            r@.projects.len() == 0,
            r@.current == 0,
    {
        let r = Registry { projects: Vec::new(), current_project: 0 };
        proof {
            assert(r@.projects =~= Seq::<ProjectModel>::empty());
        }
        r
    }

    /// A registry over the given projects with the given one active; an
    /// index that names no project makes the first one active.
    pub fn from_projects(projects: Vec<Project>, current: usize) -> (r: Self)
        ensures
            r@.projects == project_models(projects@),
            r@.current == if current < projects@.len() { current } else { 0 },
            registry_wf(r@),
    {
        let c = if current < projects.len() { current } else { 0 };
        Registry { projects, current_project: c }
    }

    /// The active project, if there is one.
    pub fn current(&self) -> (r: Option<&Project>)
        requires
            registry_wf(self@),
        ensures
            self@.projects.len() > 0 <==> r is Some,
            r matches Some(p) ==> p@ == self@.projects[self@.current as int],
    {
        if self.current_project < self.projects.len() {
            Some(&self.projects[self.current_project])
        } else {
            None
        }
    }

    /// Appends a project with an empty board and returns its index.
    pub fn create_project(&mut self, name: String) -> (r: usize)
        requires
            registry_wf(old(self)@),
        ensures
            final(self)@ == project_created(old(self)@, name@),
            registry_wf(final(self)@),
            r == old(self)@.projects.len(),
    {
        let r = self.projects.len();
        let ghost before = self@;
        self.projects.push(Project::new(name, Board::empty()));
        proof {
            assert(self@.projects =~= project_created(before, name@).projects);
        }
        r
    }

    /// Removes a project and returns it; an index that names no project
    /// changes nothing.
    pub fn delete_project(&mut self, index: usize) -> (r: Option<Project>)
        requires
            registry_wf(old(self)@),
        ensures
            final(self)@ == project_deleted(old(self)@, index as int),
            registry_wf(final(self)@),
            index < old(self)@.projects.len() <==> r is Some,
            r matches Some(p) ==> p@ == old(self)@.projects[index as int],
    {
        if index >= self.projects.len() {
            return None;
        }
        let ghost before = self@;
        let p = self.projects.remove(index);
        if index < self.current_project {
            self.current_project = self.current_project - 1;
        } else if index == self.current_project {
            self.current_project = 0;
        }
        proof {
            assert(self@.projects =~= before.projects.remove(index as int));
        }
        Some(p)
    }

    /// Makes a project the active one; an index that names no project
    /// changes nothing. Returns whether it switched.
    pub fn switch_to(&mut self, index: usize) -> (r: bool)
        requires
            registry_wf(old(self)@),
        ensures
            final(self)@ == switched(old(self)@, index as int),
            final(self).projects == old(self).projects,
            registry_wf(final(self)@),
            r == (index < old(self)@.projects.len()),
    {
        if index < self.projects.len() {
            self.current_project = index;
            true
        } else {
            false
        }
    }

    /// Records a project's name as the default in the preferences; an index
    /// that names no project changes nothing. Returns whether it did.
    pub fn set_default(&self, index: usize, config: &mut Config) -> (r: bool)
        ensures
            index < self@.projects.len() ==> final(config)@ == (ConfigModel {
                default_project: Some(self@.projects[index as int].name),
                ..old(config)@
            }),
            index >= self@.projects.len() ==> final(config)@ == old(config)@,
            r == (index < self@.projects.len()),
    {
        if index < self.projects.len() {
            config.default_project = Some(self.projects[index].name.clone());
            true
        } else {
            false
        }
    }
}

} // verus!

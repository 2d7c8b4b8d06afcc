use kanban::{Board, Config, Project, Registry};

fn s(x: &str) -> String {
    x.to_string()
}

fn names(r: &Registry) -> Vec<String> {
    r.projects.iter().map(|p| p.name.clone()).collect()
}

#[test]
fn delete_current_first_project() {
    let mut r = Registry::new();
    r.create_project(s("Home"));
    r.create_project(s("Work"));
    assert_eq!(r.current_project, 0);
    let gone = r.delete_project(0).unwrap();
    assert_eq!(gone.name, "Home");
    assert_eq!(names(&r), vec![s("Work")]);
    assert_eq!(r.current_project, 0);
}

#[test]
fn delete_before_current_keeps_it_active() {
    let mut r = Registry::new();
    r.create_project(s("A"));
    r.create_project(s("B"));
    r.create_project(s("C"));
    assert!(r.switch_to(2));
    r.delete_project(0);
    assert_eq!(r.current_project, 1);
    assert_eq!(r.current().unwrap().name, "C");
}

#[test]
fn delete_last_project_leaves_empty_registry() {
    let mut r = Registry::new();
    r.create_project(s("Only"));
    r.delete_project(0);
    assert!(r.projects.is_empty());
    assert_eq!(r.current_project, 0);
    assert!(r.current().is_none());
    assert!(r.delete_project(0).is_none());
}

#[test]
fn create_project_starts_with_no_columns() {
    let mut r = Registry::new();
    assert_eq!(r.create_project(s("New")), 0);
    assert!(r.projects[0].board.columns.is_empty());
    assert_eq!(r.projects[0].count_tasks(), 0);
}

#[test]
fn switch_to_missing_project_changes_nothing() {
    let mut r = Registry::new();
    r.create_project(s("A"));
    assert!(!r.switch_to(1));
    assert_eq!(r.current_project, 0);
}

#[test]
fn from_projects_falls_back_to_first() {
    let ps = vec![Project::new(s("A"), Board::empty()), Project::new(s("B"), Board::new())];
    assert_eq!(Registry::from_projects(ps.clone(), 1).current_project, 1);
    assert_eq!(Registry::from_projects(ps, 9).current_project, 0);
}

#[test]
fn set_default_records_the_name() {
    let mut r = Registry::new();
    r.create_project(s("A"));
    r.create_project(s("B"));
    let mut c = Config::new();
    assert!(r.set_default(1, &mut c));
    assert_eq!(c.default_project, Some(s("B")));
    assert!(!r.set_default(2, &mut c));
    assert_eq!(c.default_project, Some(s("B")));
    assert_eq!(c.theme, None);
}

#[test]
fn project_counts_its_tasks() {
    let mut b = Board::new();
    b.add_task(0, s("a"));
    b.add_task(2, s("b"));
    assert_eq!(Project::new(s("P"), b).count_tasks(), 2);
}

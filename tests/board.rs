use kanban::{Board, BoardColumn, BoardError, Color, Column, Direction, Task};

fn s(x: &str) -> String {
    x.to_string()
}

fn names(b: &Board) -> Vec<String> {
    b.columns.iter().map(|c| c.name.clone()).collect()
}

fn titles(c: &BoardColumn) -> Vec<String> {
    c.tasks.iter().map(|t| t.title.clone()).collect()
}

#[test]
fn add_column_then_task_on_empty_board() {
    let mut b = Board::empty();
    assert_eq!(b.add_column(s("Todo")), 0);
    assert_eq!(b.add_task(0, s("Write spec")), Some(0));
    assert_eq!(b.columns.len(), 1);
    assert_eq!(b.columns[0].tasks.len(), 1);
    let t = &b.columns[0].tasks[0];
    assert_eq!(t.title, "Write spec");
    assert!(t.tags.is_empty());
    assert_eq!(t.description, "");
}

#[test]
fn move_task_then_remove_emptied_column() {
    let mut b = Board::empty();
    b.add_column(s("Todo"));
    b.add_column(s("Done"));
    b.add_task(0, s("ship"));
    assert!(b.move_task(0, 0, 1));
    assert!(b.columns[0].tasks.is_empty());
    assert_eq!(titles(&b.columns[1]), vec![s("ship")]);
    assert_eq!(b.remove_column(0), Ok(()));
    assert_eq!(names(&b), vec![s("Done")]);
    assert_eq!(titles(&b.columns[0]), vec![s("ship")]);
}

#[test]
fn remove_tag_by_first_ordinal() {
    let mut t = Task::new(s("fix"));
    t.add_tag(s("urgent"));
    t.add_tag(s("bug"));
    assert!(t.remove_tag_by_ordinal(1));
    assert_eq!(t.tags, vec![s("bug")]);
}

#[test]
fn remove_nonempty_column_is_refused() {
    let mut b = Board::empty();
    b.add_column(s("Todo"));
    b.add_column(s("Done"));
    b.add_task(0, s("a"));
    assert_eq!(b.remove_column(0), Err(BoardError::ColumnNotEmpty));
    assert_eq!(names(&b), vec![s("Todo"), s("Done")]);
    assert_eq!(titles(&b.columns[0]), vec![s("a")]);
}

#[test]
fn remove_missing_column_is_refused() {
    let mut b = Board::empty();
    b.add_column(s("Todo"));
    assert_eq!(b.remove_column(1), Err(BoardError::NoSuchColumn));
    assert_eq!(names(&b), vec![s("Todo")]);
}

#[test]
fn move_task_past_either_end_changes_nothing() {
    let mut b = Board::empty();
    b.add_column(s("Todo"));
    b.add_column(s("Done"));
    b.add_task(0, s("first"));
    b.add_task(1, s("last"));
    assert!(!b.move_task(1, 0, 2));
    assert!(!b.move_task(0, 0, 0));
    assert_eq!(titles(&b.columns[0]), vec![s("first")]);
    assert_eq!(titles(&b.columns[1]), vec![s("last")]);
}

#[test]
fn move_task_with_bad_source_changes_nothing() {
    let mut b = Board::empty();
    b.add_column(s("Todo"));
    b.add_column(s("Done"));
    assert!(!b.move_task(0, 0, 1));
    assert!(!b.move_task(5, 0, 1));
    assert!(b.columns[1].tasks.is_empty());
}

#[test]
fn add_tag_twice_keeps_one() {
    let mut t = Task::new(s("x"));
    t.add_tag(s("bug"));
    let n = t.tags.len();
    t.add_tag(s("bug"));
    assert_eq!(t.tags.len(), n);
    assert_eq!(t.tags, vec![s("bug")]);
}

#[test]
fn add_tag_keeps_first_insertion_order() {
    let mut t = Task::new(s("x"));
    t.add_tag(s("b"));
    t.add_tag(s("a"));
    t.add_tag(s("b"));
    assert_eq!(t.tags, vec![s("b"), s("a")]);
}

#[test]
fn remove_tag_past_last_ordinal_changes_nothing() {
    let mut t = Task::new(s("x"));
    t.add_tag(s("a"));
    t.add_tag(s("b"));
    assert!(!t.remove_tag_by_ordinal(3));
    assert!(!t.remove_tag_by_ordinal(0));
    assert_eq!(t.tags, vec![s("a"), s("b")]);
}

#[test]
fn remove_middle_tag_shifts_later_ones() {
    let mut t = Task::new(s("x"));
    for g in ["a", "b", "c", "d"] {
        t.add_tag(s(g));
    }
    assert!(t.remove_tag_by_ordinal(2));
    assert_eq!(t.tags, vec![s("a"), s("c"), s("d")]);
}

#[test]
fn board_level_tag_and_text_edits() {
    let mut b = Board::empty();
    b.add_column(s("Todo"));
    b.add_task(0, s("old"));
    assert!(b.add_tag(0, 0, s("bug")));
    assert!(b.add_tag(0, 0, s("bug")));
    assert!(b.set_title(0, 0, s("new")));
    assert!(b.set_description(0, 0, s("details")));
    assert!(!b.set_title(0, 1, s("none")));
    assert!(!b.add_tag(1, 0, s("none")));
    let t = &b.columns[0].tasks[0];
    assert_eq!(t.title, "new");
    assert_eq!(t.description, "details");
    assert_eq!(t.tags, vec![s("bug")]);
    assert!(b.remove_tag_by_ordinal(0, 0, 1));
    assert!(!b.remove_tag_by_ordinal(0, 0, 1));
    assert!(b.columns[0].tasks[0].tags.is_empty());
}

#[test]
fn remove_task_returns_it_and_ignores_bad_indices() {
    let mut b = Board::empty();
    b.add_column(s("Todo"));
    b.add_task(0, s("a"));
    b.add_task(0, s("b"));
    assert!(b.remove_task(0, 2).is_none());
    assert!(b.remove_task(1, 0).is_none());
    let t = b.remove_task(0, 0).unwrap();
    assert_eq!(t.title, "a");
    assert_eq!(titles(&b.columns[0]), vec![s("b")]);
}

#[test]
fn add_task_to_missing_column_changes_nothing() {
    let mut b = Board::empty();
    assert_eq!(b.add_task(0, s("a")), None);
    assert!(b.columns.is_empty());
}

#[test]
fn rename_column_ignores_bad_index() {
    let mut b = Board::empty();
    b.add_column(s("Todo"));
    b.rename_column(0, s("Backlog"));
    b.rename_column(3, s("Nope"));
    assert_eq!(names(&b), vec![s("Backlog")]);
}

#[test]
fn move_column_swaps_neighbours_and_stops_at_ends() {
    let mut b = Board::empty();
    b.add_column(s("A"));
    b.add_column(s("B"));
    b.add_column(s("C"));
    assert!(b.move_column(0, Direction::Forward));
    assert_eq!(names(&b), vec![s("B"), s("A"), s("C")]);
    assert!(b.move_column(2, Direction::Backward));
    assert_eq!(names(&b), vec![s("B"), s("C"), s("A")]);
    assert!(!b.move_column(0, Direction::Backward));
    assert!(!b.move_column(2, Direction::Forward));
    assert!(!b.move_column(7, Direction::Forward));
    assert_eq!(names(&b), vec![s("B"), s("C"), s("A")]);
}

#[test]
fn new_board_has_three_stages() {
    let b = Board::new();
    assert_eq!(names(&b), vec![s("To Do"), s("In Progress"), s("Done")]);
    assert!(b.get_column(Column::Done).unwrap().is_empty());
    assert!(Board::empty().get_column(Column::Todo).is_none());
}

#[test]
fn get_column_mut_changes_that_stage() {
    let mut b = Board::new();
    b.get_column_mut(Column::InProgress).unwrap().push(Task::new(s("wip")));
    assert_eq!(titles(&b.columns[1]), vec![s("wip")]);
    assert!(b.columns[0].tasks.is_empty());
}

#[test]
fn stage_order_and_names() {
    assert_eq!(Column::Todo.next(), Some(Column::InProgress));
    assert_eq!(Column::InProgress.next(), Some(Column::Done));
    assert_eq!(Column::Done.next(), None);
    assert_eq!(Column::Todo.prev(), None);
    assert_eq!(Column::Done.prev(), Some(Column::InProgress));
    assert_eq!(Column::Todo.name(), "To Do");
    assert_eq!(Column::InProgress.name(), "In Progress");
    assert_eq!(Column::Done.index(), 2);
}

#[test]
fn task_color_follows_tag_priority() {
    let mut t = Task::new(s("x"));
    assert_eq!(t.get_color(), Color::White);
    t.add_tag(s("feature"));
    assert_eq!(t.get_color(), Color::Green);
    t.add_tag(s("bug"));
    assert_eq!(t.get_color(), Color::Yellow);
    t.add_tag(s("urgent"));
    assert_eq!(t.get_color(), Color::Red);
    assert!(t.has_tag("bug"));
    assert!(!t.has_tag("Bug"));
}

#[test]
fn count_tasks_sums_all_columns() {
    let mut b = Board::empty();
    assert_eq!(b.count_tasks(), 0);
    b.add_column(s("A"));
    b.add_column(s("B"));
    b.add_task(0, s("1"));
    b.add_task(1, s("2"));
    b.add_task(1, s("3"));
    assert_eq!(b.count_tasks(), 3);
}

use kanban::{App, Board, Color, Config, Effect, InputMode, Key, Project, TaskField, Theme};

fn s(x: &str) -> String {
    x.to_string()
}

fn type_text(app: &mut App, text: &str) {
    for c in text.chars() {
        app.handle_key(Key::Char(c));
    }
}

fn one_project() -> App {
    App::new(vec![Project::new(s("Home"), Board::empty())], Config::new())
}

fn board(app: &App) -> &Board {
    app.board().unwrap()
}

#[test]
fn typing_builds_columns_and_tasks() {
    let mut app = one_project();
    app.handle_key(Key::Char('C'));
    assert_eq!(app.input_mode, InputMode::AddingColumn);
    type_text(&mut app, "Todo");
    assert_eq!(app.handle_key(Key::Enter), Effect::SaveProject(0));
    assert_eq!(app.input_mode, InputMode::Normal);
    app.handle_key(Key::Char('a'));
    type_text(&mut app, "Write spec");
    assert_eq!(app.handle_key(Key::Enter), Effect::SaveProject(0));
    let t = &board(&app).columns[0].tasks[0];
    assert_eq!(t.title, "Write spec");
    assert!(t.tags.is_empty());
    assert_eq!(t.description, "");
}

#[test]
fn backspace_and_escape_in_text_entry() {
    let mut app = one_project();
    app.handle_key(Key::Char('C'));
    type_text(&mut app, "Tod");
    app.handle_key(Key::Backspace);
    assert_eq!(app.input_buffer, "To");
    app.input_backspace();
    app.input_backspace();
    app.input_backspace();
    assert_eq!(app.input_buffer, "");
    app.input_char('x');
    assert_eq!(app.input_buffer, "x");
    assert_eq!(app.handle_key(Key::Esc), Effect::Nothing);
    assert_eq!(app.input_mode, InputMode::Normal);
    assert_eq!(app.input_buffer, "");
    assert!(board(&app).columns.is_empty());
}

#[test]
fn empty_entry_adds_nothing() {
    let mut app = one_project();
    app.handle_key(Key::Char('C'));
    assert_eq!(app.handle_key(Key::Enter), Effect::Nothing);
    assert!(board(&app).columns.is_empty());
}

fn three_tasks() -> App {
    let mut b = Board::empty();
    b.add_column(s("Todo"));
    b.add_column(s("Done"));
    b.add_task(0, s("a"));
    b.add_task(0, s("b"));
    b.add_task(0, s("c"));
    App::new(vec![Project::new(s("Home"), b)], Config::new())
}

#[test]
fn deleting_last_task_pulls_cursor_back() {
    let mut app = three_tasks();
    app.handle_key(Key::Char('j'));
    app.handle_key(Key::Down);
    assert_eq!(app.selected_index, 2);
    assert_eq!(app.handle_key(Key::Char('d')), Effect::SaveProject(0));
    assert_eq!(app.selected_index, 1);
    app.delete_task();
    app.delete_task();
    assert_eq!(app.selected_index, 0);
    assert!(board(&app).columns[0].tasks.is_empty());
    assert_eq!(app.delete_task(), Effect::Nothing);
    assert_eq!(app.selected_index, 0);
}

#[test]
fn scrolling_follows_the_cursor() {
    let mut app = three_tasks();
    app.set_visible_items(2);
    app.move_down();
    assert_eq!(app.scroll_offset, 0);
    app.move_down();
    assert_eq!(app.selected_index, 2);
    assert_eq!(app.scroll_offset, 1);
    app.move_down();
    assert_eq!(app.selected_index, 2);
    app.move_up();
    app.move_up();
    assert_eq!(app.selected_index, 0);
    assert_eq!(app.scroll_offset, 0);
}

#[test]
fn column_moves_reset_task_cursor() {
    let mut app = three_tasks();
    app.move_down();
    app.move_right();
    assert_eq!(app.selected_column, 1);
    assert_eq!(app.selected_index, 0);
    app.move_right();
    assert_eq!(app.selected_column, 1);
    app.handle_key(Key::Left);
    assert_eq!(app.selected_column, 0);
    app.handle_key(Key::Char('h'));
    assert_eq!(app.selected_column, 0);
}

#[test]
fn move_task_forward_and_past_the_ends() {
    let mut app = three_tasks();
    assert_eq!(app.move_task_backward(), Effect::Nothing);
    assert_eq!(app.handle_key(Key::Char('m')), Effect::SaveProject(0));
    assert_eq!(board(&app).columns[1].tasks[0].title, "a");
    app.move_right();
    assert_eq!(app.move_task_forward(), Effect::Nothing);
    assert_eq!(board(&app).columns[1].tasks.len(), 1);
    assert_eq!(app.handle_key(Key::Char('n')), Effect::SaveProject(0));
    assert_eq!(board(&app).columns[0].tasks.len(), 3);
    assert!(board(&app).columns[1].tasks.is_empty());
}

#[test]
fn delete_column_only_when_empty() {
    let mut app = three_tasks();
    assert_eq!(app.handle_key(Key::Char('D')), Effect::Nothing);
    assert_eq!(board(&app).columns.len(), 2);
    app.move_right();
    assert_eq!(app.delete_column(), Effect::SaveProject(0));
    assert_eq!(board(&app).columns.len(), 1);
    assert_eq!(app.selected_column, 0);
}

#[test]
fn column_reorder_keeps_cursor_on_column() {
    let mut app = three_tasks();
    assert_eq!(app.handle_key(Key::Char('L')), Effect::SaveProject(0));
    assert_eq!(board(&app).columns[1].name, "Todo");
    assert_eq!(app.selected_column, 1);
    assert_eq!(app.handle_key(Key::ShiftRight), Effect::Nothing);
    app.handle_key(Key::Char('R'));
    assert_eq!(app.input_buffer, "Todo");
    type_text(&mut app, "!");
    app.handle_key(Key::Enter);
    assert_eq!(board(&app).columns[1].name, "Todo!");
}

#[test]
fn task_view_edits_and_tag_removal() {
    let mut app = three_tasks();
    app.handle_key(Key::Char('t'));
    assert_eq!(app.input_mode, InputMode::AddingTag);
    type_text(&mut app, "urgent");
    app.handle_key(Key::Enter);
    app.start_adding_tag();
    type_text(&mut app, "bug");
    app.submit_input();
    app.handle_key(Key::Enter);
    assert_eq!(app.input_mode, InputMode::ViewingTask);
    assert_eq!(app.focused_field, TaskField::Title);
    app.handle_key(Key::Enter);
    assert_eq!(app.input_mode, InputMode::EditingTitle);
    assert_eq!(app.input_buffer, "a");
    type_text(&mut app, "bc");
    app.handle_key(Key::Enter);
    assert_eq!(app.input_mode, InputMode::ViewingTask);
    app.handle_key(Key::Char('e'));
    type_text(&mut app, "draft");
    app.handle_key(Key::Esc);
    assert_eq!(app.input_mode, InputMode::ViewingTask);
    app.handle_key(Key::Tab);
    app.handle_key(Key::Tab);
    assert_eq!(app.focused_field, TaskField::Description);
    app.handle_key(Key::Enter);
    type_text(&mut app, "notes");
    assert_eq!(app.handle_key(Key::Enter), Effect::SaveProject(0));
    assert_eq!(app.handle_key(Key::Char('1')), Effect::SaveProject(0));
    assert_eq!(app.handle_key(Key::Char('5')), Effect::Nothing);
    let t = &board(&app).columns[0].tasks[0];
    assert_eq!(t.title, "abc");
    assert_eq!(t.description, "notes");
    assert_eq!(t.tags, vec![s("bug")]);
    app.handle_key(Key::Esc);
    assert_eq!(app.input_mode, InputMode::Normal);
}

#[test]
fn help_opens_and_closes() {
    let mut app = one_project();
    app.handle_key(Key::Char('?'));
    assert_eq!(app.input_mode, InputMode::ViewingHelp);
    app.handle_key(Key::Char('?'));
    assert_eq!(app.input_mode, InputMode::Normal);
    app.show_help();
    app.handle_key(Key::Esc);
    assert_eq!(app.input_mode, InputMode::Normal);
}

#[test]
fn quit_key_sets_flag() {
    let mut app = one_project();
    assert!(!app.should_quit);
    app.handle_key(Key::Char('q'));
    assert!(app.should_quit);
}

#[test]
fn project_list_create_switch_and_delete() {
    let mut app = one_project();
    app.handle_key(Key::Ctrl('p'));
    assert_eq!(app.input_mode, InputMode::ProjectList);
    app.handle_key(Key::Char('a'));
    type_text(&mut app, "Work");
    assert_eq!(app.handle_key(Key::Enter), Effect::SaveProject(1));
    assert_eq!(app.input_mode, InputMode::ProjectList);
    app.handle_key(Key::Char('j'));
    assert_eq!(app.selected_project_index, 1);
    app.handle_key(Key::Enter);
    assert_eq!(app.registry.current_project, 1);
    assert_eq!(app.project_name().unwrap(), "Work");
    app.handle_key(Key::Ctrl('p'));
    app.handle_key(Key::Char('k'));
    app.handle_key(Key::Char('d'));
    assert_eq!(app.input_mode, InputMode::ConfirmingDelete);
    app.handle_key(Key::Char('n'));
    assert_eq!(app.registry.projects.len(), 2);
    app.handle_key(Key::Char('d'));
    assert_eq!(app.handle_key(Key::Char('y')), Effect::RemoveProject(s("Home")));
    assert_eq!(app.input_mode, InputMode::ProjectList);
    assert_eq!(app.registry.projects.len(), 1);
    assert_eq!(app.project_name().unwrap(), "Work");
    assert_eq!(app.selected_project_index, 0);
}

#[test]
fn set_default_project_from_list() {
    let mut app = one_project();
    app.handle_key(Key::Ctrl('p'));
    assert_eq!(app.handle_key(Key::Char('s')), Effect::SaveConfig);
    assert_eq!(app.config.default_project, Some(s("Home")));
}

#[test]
fn start_opens_default_project_and_theme() {
    let ps = vec![
        Project::new(s("Home"), Board::empty()),
        Project::new(s("Work"), Board::new()),
    ];
    let c = Config { default_project: Some(s("Work")), theme: Some(s("gruvbox")) };
    let app = App::new(ps, c);
    assert_eq!(app.registry.current_project, 1);
    assert_eq!(app.selected_theme_index, 3);
    assert_eq!(app.theme, Theme::from_name("gruvbox").unwrap());
    let c2 = Config { default_project: Some(s("Gone")), theme: Some(s("odd")) };
    let app2 = App::new(vec![Project::new(s("Home"), Board::empty())], c2);
    assert_eq!(app2.registry.current_project, 0);
    assert_eq!(app2.theme, Theme::default());
}

#[test]
fn choose_theme() {
    let mut app = one_project();
    app.handle_key(Key::Char('T'));
    assert_eq!(app.input_mode, InputMode::SelectingTheme);
    app.handle_key(Key::Char('j'));
    assert_eq!(app.handle_key(Key::Enter), Effect::SaveConfig);
    assert_eq!(app.input_mode, InputMode::Normal);
    assert_eq!(app.config.theme, Some(s("classic")));
    assert_eq!(app.theme.tag_urgent, Color::Red);
}

#[test]
fn empty_registry_ignores_board_commands() {
    let mut app = App::new(Vec::new(), Config::new());
    assert!(app.board().is_none());
    app.handle_key(Key::Char('C'));
    type_text(&mut app, "Todo");
    assert_eq!(app.handle_key(Key::Enter), Effect::Nothing);
    assert_eq!(app.handle_key(Key::Char('d')), Effect::Nothing);
    assert_eq!(app.selected_column, 0);
    assert_eq!(app.selected_index, 0);
}

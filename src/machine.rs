//! The controller as a state machine over abstract values: its states,
//! how each key moves between them, and what holds of every state reached.

use vstd::prelude::*;
use crate::board::{
    neighbour, task_can_move, column_added, column_can_move, column_moved, column_removed,
    column_renamed, has_task, task_added, task_at, task_moved, task_removed, task_replaced,
    with_tag, without_tag, ColumnModel, Direction, TaskModel,
};
use crate::project::{
    project_created, project_deleted, registry_wf, switched, ConfigModel, ProjectModel,
    RegistryModel,
};
use crate::theme::{
    palette_at, theme_names, Theme,
};

verus! {

/// What the controller is doing, which decides how a key is read.
#[derive(Debug, Clone, Copy, PartialEq, Eq, Structural)]
pub enum InputMode {
    Normal,
    AddingTask,
    AddingTag,
    AddingColumn,
    RenamingColumn,
    ViewingTask,
    EditingTitle,
    EditingDescription,
    ViewingHelp,
    ProjectList,
    AddingProject,
    ConfirmingDelete,
    SelectingTheme,
}

/// The part of an open task that has the focus.
#[derive(Debug, Clone, Copy, PartialEq, Eq, Structural)]
pub enum TaskField {
    Title,
    Tags,
    Description,
}

/// A key press, as the controller reads it.
#[derive(Debug, Clone, Copy, PartialEq, Eq, Structural)]
pub enum Key {
    Char(char),
    Ctrl(char),
    Enter,
    Esc,
    Backspace,
    Tab,
    Left,
    Right,
    Up,
    Down,
    ShiftLeft,
    ShiftRight,
    Other,
}

/// The number of palettes on offer.
pub const THEME_COUNT: usize = 5;

/// The abstract value of the controller.
pub ghost struct AppModel {
    pub registry: RegistryModel,
    pub config: ConfigModel,
    pub theme: Theme,
    pub selected_column: int,
    pub selected_index: int,
    pub scroll_offset: int,
    pub visible_items: int,
    pub mode: InputMode,
    pub buffer: Seq<char>,
    pub focused: TaskField,
    pub selected_project: int,
    pub selected_theme: int,
    pub should_quit: bool,
}

/// The board of the active project; no board at all reads as one without
/// columns.
pub open spec fn current_board(s: AppModel) -> Seq<ColumnModel> {
    if s.registry.projects.len() > 0 {
        s.registry.projects[s.registry.current as int].board
    } else {
        Seq::empty()
    }
}

/// The state with the active project's board replaced; without a project
/// nothing changes.
pub open spec fn with_board(s: AppModel, b: Seq<ColumnModel>) -> AppModel {
    if s.registry.projects.len() > 0 {
        let p = s.registry.projects[s.registry.current as int];
        AppModel {
            registry: RegistryModel {
                projects: s.registry.projects.update(
                    s.registry.current as int,
                    ProjectModel { board: b, ..p },
                ),
                ..s.registry
            },
            ..s
        }
    } else {
        s
    }
}

/// The number of tasks in the selected column (zero without one).
pub open spec fn selected_len(s: AppModel) -> int {
    let b = current_board(s);
    if 0 <= s.selected_column < b.len() {
        b[s.selected_column].tasks.len() as int
    } else {
        0
    }
}

/// Whether the cursor rests on a task.
pub open spec fn on_task(s: AppModel) -> bool {
    has_task(current_board(s), s.selected_column, s.selected_index)
}

/// The controller's invariant: the active project is valid, the column
/// cursor names a column whenever there is one, the task cursor names a task
/// whenever the column has one, both are zero otherwise, the scroll offset
/// never passes the task cursor, and the list cursors name a project and a
/// palette.
pub open spec fn app_wf(s: AppModel) -> bool {
    let b = current_board(s);
    &&& registry_wf(s.registry)
    &&& if b.len() == 0 {
        s.selected_column == 0
    } else {
        0 <= s.selected_column < b.len()
    }
    &&& if selected_len(s) == 0 {
        s.selected_index == 0
    } else {
        0 <= s.selected_index < selected_len(s)
    }
    &&& 0 <= s.scroll_offset <= s.selected_index
    &&& 0 <= s.visible_items
    &&& if s.registry.projects.len() == 0 {
        s.selected_project == 0
    } else {
        0 <= s.selected_project < s.registry.projects.len()
    }
    &&& 0 <= s.selected_theme < THEME_COUNT
}

pub open spec fn clamp_to(i: int, len: int) -> int {
    if len <= 0 {
        0
    } else if i < 0 {
        0
    } else if i >= len {
        len - 1
    } else {
        i
    }
}

pub open spec fn min_of(a: int, b: int) -> int {
    if a <= b {
        a
    } else {
        b
    }
}

/// Every cursor pulled back into range after a change of shape; a cursor
/// that is already in range stays where it is.
pub open spec fn clamped(s: AppModel) -> AppModel {
    let b = current_board(s);
    let c = clamp_to(s.selected_column, b.len() as int);
    let n = if b.len() > 0 {
        b[c].tasks.len() as int
    } else {
        0
    };
    let i = clamp_to(s.selected_index, n);
    AppModel {
        selected_column: c,
        selected_index: i,
        scroll_offset: min_of(if s.scroll_offset < 0 { 0 } else { s.scroll_offset }, i),
        visible_items: if s.visible_items < 0 { 0 } else { s.visible_items },
        selected_project: clamp_to(s.selected_project, s.registry.projects.len() as int),
        selected_theme: clamp_to(s.selected_theme, THEME_COUNT as int),
        ..s
    }
}

/// The scroll offset after the task cursor moved to `index`: the least
/// change that brings it back into a window of `visible` rows (at least one).
pub open spec fn follow(offset: int, index: int, visible: int) -> int {
    let v = if visible < 1 { 1 } else { visible };
    if index < offset {
        index
    } else if index >= offset + v {
        index - v + 1
    } else {
        offset
    }
}

/// Putting back the board that is already there changes nothing.
pub proof fn lemma_same_board(s: AppModel)
    requires
        registry_wf(s.registry),
    ensures
        with_board(s, current_board(s)) == s,
{
    if s.registry.projects.len() > 0 {
        let p = s.registry.projects[s.registry.current as int];
        assert(s.registry.projects.update(s.registry.current as int, ProjectModel { board: p.board, ..p })
            =~= s.registry.projects);
    }
}

pub proof fn lemma_clamped_wf(s: AppModel)
    requires
        registry_wf(s.registry),
    ensures
        app_wf(clamped(s)),
        current_board(clamped(s)) == current_board(s),
{
}

/// A state that satisfies the invariant is left as it is by clamping.
pub proof fn lemma_clamped_id(s: AppModel)
    requires
        app_wf(s),
    ensures
        clamped(s) == s,
{
}

/// What the caller must do after a key: nothing, write a project's board,
/// write the preferences, or remove a project's stored board (and write the
/// preferences).
#[derive(Debug, Clone, PartialEq, Eq)]
pub enum Effect {
    Nothing,
    SaveProject(usize),
    SaveConfig,
    RemoveProject(String),
}

/// The abstract value of an effect.
pub ghost enum EffectModel {
    Nothing,
    SaveProject(int),
    SaveConfig,
    RemoveProject(Seq<char>),
}

impl View for Effect {
    type V = EffectModel;

    open spec fn view(&self) -> EffectModel {
        match self {
            Effect::Nothing => EffectModel::Nothing,
            Effect::SaveProject(i) => EffectModel::SaveProject(*i as int),
            Effect::SaveConfig => EffectModel::SaveConfig,
            Effect::RemoveProject(n) => EffectModel::RemoveProject(n@),
        }
    }
}

pub open spec fn save_current(s: AppModel) -> EffectModel {
    EffectModel::SaveProject(s.registry.current as int)
}

pub open spec fn moved_left(s: AppModel) -> AppModel {
    if 0 < s.selected_column < current_board(s).len() {
        AppModel { selected_column: s.selected_column - 1, selected_index: 0, scroll_offset: 0, ..s }
    } else {
        s
    }
}

pub open spec fn moved_right(s: AppModel) -> AppModel {
    if 0 <= s.selected_column && s.selected_column + 1 < current_board(s).len() {
        AppModel { selected_column: s.selected_column + 1, selected_index: 0, scroll_offset: 0, ..s }
    } else {
        s
    }
}

pub open spec fn moved_down(s: AppModel) -> AppModel {
    if 0 <= s.selected_index && s.selected_index + 1 < selected_len(s) {
        AppModel {
            selected_index: s.selected_index + 1,
            scroll_offset: follow(s.scroll_offset, s.selected_index + 1, s.visible_items),
            ..s
        }
    } else {
        s
    }
}

pub open spec fn moved_up(s: AppModel) -> AppModel {
    if 0 < s.selected_index {
        AppModel {
            selected_index: s.selected_index - 1,
            scroll_offset: follow(s.scroll_offset, s.selected_index - 1, s.visible_items),
            ..s
        }
    } else {
        s
    }
}

/// Moves the selected task to the neighbouring column, if there is one.
pub open spec fn task_shifted(s: AppModel, dir: Direction) -> (AppModel, EffectModel) {
    let b = current_board(s);
    let t = neighbour(s.selected_column, dir);
    if task_can_move(b, s.selected_column, s.selected_index, t) {
        (with_board(s, task_moved(b, s.selected_column, s.selected_index, t)), save_current(s))
    } else {
        (s, EffectModel::Nothing)
    }
}

/// Swaps the selected column with its neighbour; the cursor goes with it.
pub open spec fn column_shifted(s: AppModel, dir: Direction) -> (AppModel, EffectModel) {
    let b = current_board(s);
    if column_can_move(b, s.selected_column, dir) {
        (
            AppModel {
                selected_column: neighbour(s.selected_column, dir),
                ..with_board(s, column_moved(b, s.selected_column, dir))
            },
            save_current(s),
        )
    } else {
        (s, EffectModel::Nothing)
    }
}

pub open spec fn entering(s: AppModel, mode: InputMode, buffer: Seq<char>) -> AppModel {
    AppModel { mode, buffer, ..s }
}

/// How a key is read in the board view.
pub open spec fn normal_step(s: AppModel, k: Key) -> (AppModel, EffectModel) {
    let b = current_board(s);
    let c = s.selected_column;
    let none = EffectModel::Nothing;
    match k {
        Key::Char('q') => (AppModel { should_quit: true, ..s }, none),
        Key::Char('h') | Key::Left => (moved_left(s), none),
        Key::Char('l') | Key::Right => (moved_right(s), none),
        Key::Char('j') | Key::Down => (moved_down(s), none),
        Key::Char('k') | Key::Up => (moved_up(s), none),
        Key::Enter => if on_task(s) {
            (AppModel { mode: InputMode::ViewingTask, focused: TaskField::Title, ..s }, none)
        } else {
            (s, none)
        },
        Key::Char('a') => (entering(s, InputMode::AddingTask, Seq::empty()), none),
        Key::Char('t') => if on_task(s) {
            (entering(s, InputMode::AddingTag, Seq::empty()), none)
        } else {
            (s, none)
        },
        Key::Char('m') => task_shifted(s, Direction::Forward),
        Key::Char('n') => task_shifted(s, Direction::Backward),
        Key::Char('d') => if on_task(s) {
            (with_board(s, task_removed(b, c, s.selected_index)), save_current(s))
        } else {
            (s, none)
        },
        Key::Char('?') => (AppModel { mode: InputMode::ViewingHelp, ..s }, none),
        Key::Char('C') => (entering(s, InputMode::AddingColumn, Seq::empty()), none),
        Key::Char('R') => if 0 <= c < b.len() {
            (entering(s, InputMode::RenamingColumn, b[c].name), none)
        } else {
            (s, none)
        },
        Key::Char('D') => if 0 <= c < b.len() && b[c].tasks.len() == 0 {
            (with_board(s, column_removed(b, c)), save_current(s))
        } else {
            (s, none)
        },
        Key::Char('H') | Key::ShiftLeft => column_shifted(s, Direction::Backward),
        Key::Char('L') | Key::ShiftRight => column_shifted(s, Direction::Forward),
        Key::Ctrl('p') => (
            AppModel {
                mode: InputMode::ProjectList,
                selected_project: s.registry.current as int,
                ..s
            },
            none,
        ),
        Key::Char('T') => (AppModel { mode: InputMode::SelectingTheme, ..s }, none),
        _ => (s, none),
    }
}

/// The view a text entry returns to when it ends.
pub open spec fn return_mode(m: InputMode) -> InputMode {
    match m {
        InputMode::AddingProject => InputMode::ProjectList,
        InputMode::EditingTitle | InputMode::EditingDescription => InputMode::ViewingTask,
        _ => InputMode::Normal,
    }
}

pub open spec fn selected_task(s: AppModel) -> TaskModel {
    task_at(current_board(s), s.selected_column, s.selected_index)
}

/// The selected task replaced in the board of `base`.
pub open spec fn task_set(s: AppModel, base: AppModel, t: TaskModel) -> AppModel {
    with_board(base, task_replaced(current_board(s), s.selected_column, s.selected_index, t))
}

/// What Enter does to the text typed so far. Empty text adds nothing and
/// names nothing (a description may be emptied).
pub open spec fn committed(s: AppModel) -> (AppModel, EffectModel) {
    let b = current_board(s);
    let c = s.selected_column;
    let t = s.buffer;
    let back = AppModel { mode: return_mode(s.mode), buffer: Seq::empty(), ..s };
    let none = EffectModel::Nothing;
    match s.mode {
        InputMode::AddingTask => if t.len() > 0 && 0 <= c < b.len() {
            (with_board(back, task_added(b, c, t)), save_current(s))
        } else {
            (back, none)
        },
        InputMode::AddingTag => if t.len() > 0 && on_task(s) {
            (
                task_set(
                    s,
                    back,
                    TaskModel { tags: with_tag(selected_task(s).tags, t), ..selected_task(s) },
                ),
                save_current(s),
            )
        } else {
            (back, none)
        },
        InputMode::AddingColumn => if t.len() > 0 && s.registry.projects.len() > 0 {
            (with_board(back, column_added(b, t)), save_current(s))
        } else {
            (back, none)
        },
        InputMode::RenamingColumn => if t.len() > 0 && 0 <= c < b.len() {
            (with_board(back, column_renamed(b, c, t)), save_current(s))
        } else {
            (back, none)
        },
        InputMode::EditingTitle => if t.len() > 0 && on_task(s) {
            (task_set(s, back, TaskModel { title: t, ..selected_task(s) }), save_current(s))
        } else {
            (back, none)
        },
        InputMode::EditingDescription => if on_task(s) {
            (task_set(s, back, TaskModel { description: t, ..selected_task(s) }), save_current(s))
        } else {
            (back, none)
        },
        InputMode::AddingProject => if t.len() > 0 {
            (
                AppModel { registry: project_created(s.registry, t), ..back },
                EffectModel::SaveProject(s.registry.projects.len() as int),
            )
        } else {
            (back, none)
        },
        _ => (s, none),
    }
}

/// How a key is read while text is typed: a character is appended,
/// Backspace drops the last one, Enter hands the text over, and Esc always
/// drops the text and returns to the view the entry started from.
pub open spec fn entry_step(s: AppModel, k: Key) -> (AppModel, EffectModel) {
    match k {
        Key::Char(ch) => (AppModel { buffer: s.buffer.push(ch), ..s }, EffectModel::Nothing),
        Key::Backspace => (
            AppModel {
                buffer: if s.buffer.len() > 0 {
                    s.buffer.drop_last()
                } else {
                    s.buffer
                },
                ..s
            },
            EffectModel::Nothing,
        ),
        Key::Enter => committed(s),
        Key::Esc => (
            AppModel { mode: return_mode(s.mode), buffer: Seq::empty(), ..s },
            EffectModel::Nothing,
        ),
        _ => (s, EffectModel::Nothing),
    }
}

pub open spec fn next_field(f: TaskField) -> TaskField {
    match f {
        TaskField::Title => TaskField::Tags,
        TaskField::Tags => TaskField::Description,
        TaskField::Description => TaskField::Title,
    }
}

/// The value of a digit key from one to nine, and zero for any other key.
pub open spec fn digit_value(c: char) -> int {
    match c {
        '1' => 1,
        '2' => 2,
        '3' => 3,
        '4' => 4,
        '5' => 5,
        '6' => 6,
        '7' => 7,
        '8' => 8,
        '9' => 9,
        _ => 0,
    }
}

/// How a key is read while a task is open.
pub open spec fn viewing_step(s: AppModel, k: Key) -> (AppModel, EffectModel) {
    let none = EffectModel::Nothing;
    let t = selected_task(s);
    match k {
        Key::Esc => (AppModel { mode: InputMode::Normal, ..s }, none),
        Key::Tab => (AppModel { focused: next_field(s.focused), ..s }, none),
        Key::Enter => if on_task(s) {
            match s.focused {
                TaskField::Title => (entering(s, InputMode::EditingTitle, t.title), none),
                TaskField::Tags => (entering(s, InputMode::AddingTag, Seq::empty()), none),
                TaskField::Description => (
                    entering(s, InputMode::EditingDescription, t.description),
                    none,
                ),
            }
        } else {
            (s, none)
        },
        Key::Char('e') => if on_task(s) {
            (entering(s, InputMode::EditingDescription, t.description), none)
        } else {
            (s, none)
        },
        Key::Char(d) => if on_task(s) && 1 <= digit_value(d) <= t.tags.len() {
            (
                task_set(s, s, TaskModel { tags: without_tag(t.tags, digit_value(d)), ..t }),
                save_current(s),
            )
        } else {
            (s, none)
        },
        _ => (s, none),
    }
}

/// How a key is read while the help is shown.
pub open spec fn help_step(s: AppModel, k: Key) -> (AppModel, EffectModel) {
    match k {
        Key::Esc | Key::Char('?') => (
            AppModel { mode: InputMode::Normal, ..s },
            EffectModel::Nothing,
        ),
        _ => (s, EffectModel::Nothing),
    }
}

/// The state after the active project changed: the cursors start over.
pub open spec fn cursors_reset(s: AppModel) -> AppModel {
    AppModel { selected_column: 0, selected_index: 0, scroll_offset: 0, ..s }
}

/// How a key is read in the project list.
pub open spec fn list_step(s: AppModel, k: Key) -> (AppModel, EffectModel) {
    let n = s.registry.projects.len() as int;
    let p = s.selected_project;
    let none = EffectModel::Nothing;
    match k {
        Key::Char('j') | Key::Down => if 0 <= p && p + 1 < n {
            (AppModel { selected_project: p + 1, ..s }, none)
        } else {
            (s, none)
        },
        Key::Char('k') | Key::Up => if p > 0 {
            (AppModel { selected_project: p - 1, ..s }, none)
        } else {
            (s, none)
        },
        Key::Enter => if 0 <= p < n {
            (
                cursors_reset(
                    AppModel { registry: switched(s.registry, p), mode: InputMode::Normal, ..s },
                ),
                none,
            )
        } else {
            (AppModel { mode: InputMode::Normal, ..s }, none)
        },
        Key::Char('a') => (entering(s, InputMode::AddingProject, Seq::empty()), none),
        Key::Char('d') => if 0 <= p < n {
            (AppModel { mode: InputMode::ConfirmingDelete, ..s }, none)
        } else {
            (s, none)
        },
        Key::Char('s') => if 0 <= p < n {
            (
                AppModel {
                    config: ConfigModel {
                        default_project: Some(s.registry.projects[p].name),
                        ..s.config
                    },
                    ..s
                },
                EffectModel::SaveConfig,
            )
        } else {
            (s, none)
        },
        Key::Esc => (AppModel { mode: InputMode::Normal, ..s }, none),
        _ => (s, none),
    }
}

/// How a key is read while a deletion waits for confirmation.
pub open spec fn confirm_step(s: AppModel, k: Key) -> (AppModel, EffectModel) {
    let p = s.selected_project;
    let back = AppModel { mode: InputMode::ProjectList, ..s };
    match k {
        Key::Char('y') => if 0 <= p < s.registry.projects.len() {
            (
                cursors_reset(AppModel { registry: project_deleted(s.registry, p), ..back }),
                EffectModel::RemoveProject(s.registry.projects[p].name),
            )
        } else {
            (back, EffectModel::Nothing)
        },
        Key::Char('n') | Key::Esc => (back, EffectModel::Nothing),
        _ => (s, EffectModel::Nothing),
    }
}

/// How a key is read in the palette chooser.
pub open spec fn theme_step(s: AppModel, k: Key) -> (AppModel, EffectModel) {
    let i = s.selected_theme;
    let none = EffectModel::Nothing;
    match k {
        Key::Char('j') | Key::Down => if 0 <= i && i + 1 < THEME_COUNT {
            (AppModel { selected_theme: i + 1, ..s }, none)
        } else {
            (s, none)
        },
        Key::Char('k') | Key::Up => if i > 0 {
            (AppModel { selected_theme: i - 1, ..s }, none)
        } else {
            (s, none)
        },
        Key::Enter => if 0 <= i < THEME_COUNT {
            (
                AppModel {
                    theme: palette_at(i),
                    config: ConfigModel { theme: Some(theme_names()[i]), ..s.config },
                    mode: InputMode::Normal,
                    ..s
                },
                EffectModel::SaveConfig,
            )
        } else {
            (AppModel { mode: InputMode::Normal, ..s }, none)
        },
        Key::Esc => (AppModel { mode: InputMode::Normal, ..s }, none),
        _ => (s, none),
    }
}

/// How a key is read, by mode, before the cursors are pulled back into range.
pub open spec fn raw_step(s: AppModel, k: Key) -> (AppModel, EffectModel) {
    match s.mode {
        InputMode::Normal => normal_step(s, k),
        InputMode::AddingTask | InputMode::AddingTag | InputMode::AddingColumn
        | InputMode::RenamingColumn | InputMode::EditingTitle | InputMode::EditingDescription
        | InputMode::AddingProject => entry_step(s, k),
        InputMode::ViewingTask => viewing_step(s, k),
        InputMode::ViewingHelp => help_step(s, k),
        InputMode::ProjectList => list_step(s, k),
        InputMode::ConfirmingDelete => confirm_step(s, k),
        InputMode::SelectingTheme => theme_step(s, k),
    }
}

/// The controller's transition: the state after a key, every cursor back
/// in range.
pub open spec fn next_state(s: AppModel, k: Key) -> AppModel {
    clamped(raw_step(s, k).0)
}

/// The effect of a key.
pub open spec fn next_effect(s: AppModel, k: Key) -> EffectModel {
    raw_step(s, k).1
}

/// The state after a sequence of keys.
pub open spec fn run_keys(s: AppModel, keys: Seq<Key>) -> AppModel
    decreases keys.len(),
{
    if keys.len() == 0 {
        s
    } else {
        next_state(run_keys(s, keys.drop_last()), keys.last())
    }
}

/// Every key keeps the registry's active project valid.
pub proof fn lemma_raw_step_registry_wf(s: AppModel, k: Key)
    requires
        app_wf(s),
    ensures
        registry_wf(raw_step(s, k).0.registry),
{
}

/// Every transition keeps the invariant: in particular the task cursor
/// names a task of the selected column whenever it has one, and is zero
/// when it has none.
pub proof fn lemma_step_keeps_wf(s: AppModel, k: Key)
    requires
        app_wf(s),
    ensures
        app_wf(next_state(s, k)),
{
    lemma_raw_step_registry_wf(s, k);
    lemma_clamped_wf(raw_step(s, k).0);
}

/// Whatever sequence of keys arrives (adding tasks, deleting them, moving
/// them, deleting columns or projects), the cursors stay valid: the task
/// cursor lies in `[0, tasks.len())` whenever the selected column has a
/// task, and is zero otherwise.
pub proof fn lemma_cursor_valid_after_keys(s: AppModel, keys: Seq<Key>)
    requires
        app_wf(s),
    ensures
        app_wf(run_keys(s, keys)),
        selected_len(run_keys(s, keys)) > 0 ==> 0 <= run_keys(s, keys).selected_index
            < selected_len(run_keys(s, keys)),
        selected_len(run_keys(s, keys)) == 0 ==> run_keys(s, keys).selected_index == 0,
    decreases keys.len(),
{
    if keys.len() > 0 {
        lemma_cursor_valid_after_keys(s, keys.drop_last());
        lemma_step_keeps_wf(run_keys(s, keys.drop_last()), keys.last());
    }
}

} // verus!

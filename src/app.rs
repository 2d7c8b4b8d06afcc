use vstd::prelude::*;
use crate::board::{
    lemma_task_replaced_same, Board, Task, column_removed, task_at, task_removed, without_tag,
    Direction, TaskModel,
};
use crate::machine::{
    InputMode, TaskField, Key, THEME_COUNT, AppModel, current_board, with_board, selected_len,
    on_task, app_wf, clamped, follow, lemma_same_board, lemma_clamped_wf, lemma_clamped_id, Effect,
    EffectModel, save_current, moved_left, moved_right, moved_down, moved_up, task_shifted,
    column_shifted, entering, normal_step, return_mode, selected_task, committed, entry_step,
    next_field, digit_value, viewing_step, help_step, cursors_reset, list_step, confirm_step,
    theme_step, raw_step, next_state, next_effect,
};
use crate::project::{
    project_models, registry_wf, Config, ConfigModel, Project, ProjectModel, Registry,
    RegistryModel,
};
use crate::text::{pop_char, push_char};
use crate::theme::{
    palette_at, theme_position, Theme,
};
use vstd::string::StringExecFns;

verus! {

/// The whole interactive state: projects, preferences, cursors, mode and
/// the text being typed.
#[derive(Debug, Clone)]
pub struct App {
    pub registry: Registry,
    pub config: Config,
    pub theme: Theme,
    pub selected_column: usize,
    pub selected_index: usize,
    pub scroll_offset: usize,
    pub visible_items: usize,
    pub input_mode: InputMode,
    pub input_buffer: String,
    pub focused_field: TaskField,
    pub selected_project_index: usize,
    pub selected_theme_index: usize,
    pub should_quit: bool,
}

impl View for App {
    type V = AppModel;

    open spec fn view(&self) -> AppModel {
        AppModel {
            registry: self.registry@,
            config: self.config@,
            theme: self.theme,
            selected_column: self.selected_column as int,
            selected_index: self.selected_index as int,
            scroll_offset: self.scroll_offset as int,
            visible_items: self.visible_items as int,
            mode: self.input_mode,
            buffer: self.input_buffer@,
            focused: self.focused_field,
            selected_project: self.selected_project_index as int,
            selected_theme: self.selected_theme_index as int,
            should_quit: self.should_quit,
        }
    }
}

impl App {
    /// The board of the active project, for changes; none without a project.
    fn board_mut(&mut self) -> (r: Option<&mut Board>)
        requires
            registry_wf(old(self)@.registry),
        ensures
            old(self)@.registry.projects.len() > 0 <==> r is Some,
            r is None ==> *final(self) == *old(self),
            r matches Some(b) ==> b@ == current_board(old(self)@) && final(self)@ == with_board(
                old(self)@,
                final(b)@,
            ),
    {
        let c = self.registry.current_project;
        if c < self.registry.projects.len() {
            proof {
                let ps = self.registry.projects@;
                assert forall|nb: Board|
                    project_models(ps.update(c as int, Project { board: nb, ..ps[c as int] }))
                        == project_models(ps).update(
                        c as int,
                        ProjectModel { board: #[trigger] nb@, ..project_models(ps)[c as int] },
                    ) by {
                    assert(project_models(ps.update(c as int, Project { board: nb, ..ps[c as int] }))
                        =~= project_models(ps).update(
                        c as int,
                        ProjectModel { board: nb@, ..project_models(ps)[c as int] },
                    ));
                }
            }
            Some(&mut self.registry.projects[c].board)
        } else {
            None
        }
    }

    /// The board of the active project, if there is one.
    pub fn board(&self) -> (r: Option<&Board>)
        requires
            registry_wf(self@.registry),
        ensures
            self@.registry.projects.len() > 0 <==> r is Some,
            r matches Some(b) ==> b@ == current_board(self@),
    {
        match self.registry.current() {
            Some(p) => Some(&p.board),
            None => None,
        }
    }

    /// The name of the active project, if there is one.
    pub fn project_name(&self) -> (r: Option<&String>)
        requires
            registry_wf(self@.registry),
        ensures
            self@.registry.projects.len() > 0 <==> r is Some,
            r matches Some(n) ==> n@ == self@.registry.projects[self@.registry.current as int].name,
    {
        match self.registry.current() {
            Some(p) => Some(&p.name),
            None => None,
        }
    }

    /// The number of columns of the active board.
    fn column_count(&self) -> (r: usize)
        requires
            registry_wf(self@.registry),
        ensures
            r == current_board(self@).len(),
    {
        match self.board() {
            Some(b) => b.columns.len(),
            None => 0,
        }
    }

    /// The number of tasks in the selected column.
    fn selected_column_len(&self) -> (r: usize)
        requires
            registry_wf(self@.registry),
        ensures
            r == selected_len(self@),
    {
        match self.board() {
            Some(b) => if self.selected_column < b.columns.len() {
                b.columns[self.selected_column].tasks.len()
            } else {
                0
            },
            None => 0,
        }
    }

    /// Whether the cursor rests on a task.
    pub fn on_task(&self) -> (r: bool)
        requires
            registry_wf(self@.registry),
        ensures
            r == on_task(self@),
    {
        self.selected_index < self.selected_column_len()
    }

    /// Pulls every cursor back into range.
    fn clamp(&mut self)
        requires
            registry_wf(old(self)@.registry),
        ensures
            final(self)@ == clamped(old(self)@),
    {
        let cols = self.column_count();
        if cols == 0 {
            self.selected_column = 0;
        } else if self.selected_column >= cols {
            self.selected_column = cols - 1;
        }
        let n = self.selected_column_len();
        if n == 0 {
            self.selected_index = 0;
        } else if self.selected_index >= n {
            self.selected_index = n - 1;
        }
        if self.scroll_offset > self.selected_index {
            self.scroll_offset = self.selected_index;
        }
        let projects = self.registry.projects.len();
        if projects == 0 {
            self.selected_project_index = 0;
        } else if self.selected_project_index >= projects {
            self.selected_project_index = projects - 1;
        }
        if self.selected_theme_index >= THEME_COUNT {
            self.selected_theme_index = THEME_COUNT - 1;
        }
    }
}

/// The scroll offset after the task cursor moved to `index`.
pub fn follow_offset(offset: usize, index: usize, visible: usize) -> (r: usize)
    ensures
        r == follow(offset as int, index as int, visible as int),
{
    let v: usize = if visible < 1 { 1 } else { visible };
    if index < offset {
        index
    } else if index - offset >= v {
        index - v + 1
    } else {
        offset
    }
}

pub fn return_mode_of(m: InputMode) -> (r: InputMode)
    ensures
        r == return_mode(m),
{
    match m {
        InputMode::AddingProject => InputMode::ProjectList,
        InputMode::EditingTitle | InputMode::EditingDescription => InputMode::ViewingTask,
        _ => InputMode::Normal,
    }
}

/// The value of a digit key from one to nine, and zero for any other key.
pub fn digit_of(c: char) -> (r: usize)
    ensures
        r == digit_value(c),
{
    match c {
        '1' => 1,
        '2' => 2,
        '3' => 3,
        '4' => 4,
        '5' => 5,
        '6' => 6,
        '7' => 7,
        '8' => 8,
        '9' => 9,
        _ => 0,
    }
}

impl App {
    /// Selects the column to the left; the task cursor starts at the top.
    pub fn move_left(&mut self)
        requires
            app_wf(old(self)@),
        ensures
            final(self)@ == moved_left(old(self)@),
            app_wf(final(self)@),
    {
        if self.selected_column > 0 && self.selected_column < self.column_count() {
            self.selected_column = self.selected_column - 1;
            self.selected_index = 0;
            self.scroll_offset = 0;
        }
    }

    /// Selects the column to the right; the task cursor starts at the top.
    pub fn move_right(&mut self)
        requires
            app_wf(old(self)@),
        ensures
            final(self)@ == moved_right(old(self)@),
            app_wf(final(self)@),
    {
        let cols = self.column_count();
        if cols > 0 && self.selected_column < cols - 1 {
            self.selected_column = self.selected_column + 1;
            self.selected_index = 0;
            self.scroll_offset = 0;
        }
    }

    /// Selects the next task down the column, scrolling to keep it visible.
    pub fn move_down(&mut self)
        requires
            app_wf(old(self)@),
        ensures
            final(self)@ == moved_down(old(self)@),
            app_wf(final(self)@),
    {
        let n = self.selected_column_len();
        if n > 0 && self.selected_index < n - 1 {
            self.selected_index = self.selected_index + 1;
            self.scroll_offset = follow_offset(
                self.scroll_offset,
                self.selected_index,
                self.visible_items,
            );
        }
    }

    /// Selects the next task up the column, scrolling to keep it visible.
    pub fn move_up(&mut self)
        requires
            app_wf(old(self)@),
        ensures
            final(self)@ == moved_up(old(self)@),
            app_wf(final(self)@),
    {
        if self.selected_index > 0 {
            self.selected_index = self.selected_index - 1;
            self.scroll_offset = follow_offset(
                self.scroll_offset,
                self.selected_index,
                self.visible_items,
            );
        }
    }

    /// Records how many task cards fit in the selected column on screen.
    pub fn set_visible_items(&mut self, n: usize)
        requires
            app_wf(old(self)@),
        ensures
            final(self)@ == (AppModel { visible_items: n as int, ..old(self)@ }),
            app_wf(final(self)@),
    {
        self.visible_items = n;
    }

    fn enter(&mut self, mode: InputMode, buffer: String)
        ensures
            final(self)@ == entering(old(self)@, mode, buffer@),
    {
        self.input_mode = mode;
        self.input_buffer = buffer;
    }

    fn shift_task(&mut self, dir: Direction) -> (e: Effect)
        requires
            app_wf(old(self)@),
        ensures
            (final(self)@, e@) == task_shifted(old(self)@, dir),
            registry_wf(final(self)@.registry),
    {
        proof {
            lemma_same_board(self@);
        }
        let c = self.selected_column;
        let i = self.selected_index;
        let target = match dir {
            Direction::Backward => {
                if c == 0 {
                    return Effect::Nothing;
                }
                c - 1
            },
            Direction::Forward => {
                if c >= self.column_count() {
                    return Effect::Nothing;
                }
                c + 1
            },
        };
        let cur = self.registry.current_project;
        match self.board_mut() {
            Some(b) => {
                if b.move_task(c, i, target) {
                    Effect::SaveProject(cur)
                } else {
                    Effect::Nothing
                }
            },
            None => Effect::Nothing,
        }
    }

    fn shift_column(&mut self, dir: Direction) -> (e: Effect)
        requires
            app_wf(old(self)@),
        ensures
            (final(self)@, e@) == column_shifted(old(self)@, dir),
            registry_wf(final(self)@.registry),
    {
        proof {
            lemma_same_board(self@);
        }
        let c = self.selected_column;
        let cur = self.registry.current_project;
        let cols = self.column_count();
        let moved = match self.board_mut() {
            Some(b) => b.move_column(c, dir),
            None => false,
        };
        if moved {
            match dir {
                Direction::Backward => {
                    self.selected_column = c - 1;
                },
                Direction::Forward => {
                    self.selected_column = c + 1;
                },
            }
            Effect::SaveProject(cur)
        } else {
            Effect::Nothing
        }
    }

    fn remove_selected_task(&mut self) -> (e: Effect)
        requires
            app_wf(old(self)@),
        ensures
            (final(self)@, e@) == (if on_task(old(self)@) {
                (
                    with_board(
                        old(self)@,
                        task_removed(
                            current_board(old(self)@),
                            old(self)@.selected_column,
                            old(self)@.selected_index,
                        ),
                    ),
                    save_current(old(self)@),
                )
            } else {
                (old(self)@, EffectModel::Nothing)
            }),
            registry_wf(final(self)@.registry),
    {
        proof {
            lemma_same_board(self@);
        }
        let c = self.selected_column;
        let i = self.selected_index;
        let cur = self.registry.current_project;
        match self.board_mut() {
            Some(b) => match b.remove_task(c, i) {
                Some(_) => Effect::SaveProject(cur),
                None => Effect::Nothing,
            },
            None => Effect::Nothing,
        }
    }

    fn remove_selected_column(&mut self) -> (e: Effect)
        requires
            app_wf(old(self)@),
        ensures
            (final(self)@, e@) == (if 0 <= old(self)@.selected_column < current_board(
                old(self)@,
            ).len() && current_board(old(self)@)[old(self)@.selected_column].tasks.len() == 0 {
                (
                    with_board(
                        old(self)@,
                        column_removed(current_board(old(self)@), old(self)@.selected_column),
                    ),
                    save_current(old(self)@),
                )
            } else {
                (old(self)@, EffectModel::Nothing)
            }),
            registry_wf(final(self)@.registry),
    {
        proof {
            lemma_same_board(self@);
        }
        let c = self.selected_column;
        let cur = self.registry.current_project;
        match self.board_mut() {
            Some(b) => match b.remove_column(c) {
                Ok(()) => Effect::SaveProject(cur),
                Err(_) => Effect::Nothing,
            },
            None => Effect::Nothing,
        }
    }
}

pub fn next_field_of(f: TaskField) -> (r: TaskField)
    ensures
        r == next_field(f),
{
    match f {
        TaskField::Title => TaskField::Tags,
        TaskField::Tags => TaskField::Description,
        TaskField::Description => TaskField::Title,
    }
}

impl App {
    /// The task under the cursor.
    fn selected_task_ref(&self) -> (r: &Task)
        requires
            registry_wf(self@.registry),
            on_task(self@),
        ensures
            r@ == selected_task(self@),
    {
        let p = &self.registry.projects[self.registry.current_project];
        &p.board.columns[self.selected_column].tasks[self.selected_index]
    }

    /// Ends a text entry with Enter: the typed text is handed to the board
    /// or the registry, and the entry closes.
    fn commit(&mut self) -> (e: Effect)
        requires
            app_wf(old(self)@),
        ensures
            (final(self)@, e@) == committed(old(self)@),
            registry_wf(final(self)@.registry),
    {
        let mode = self.input_mode;
        match mode {
            InputMode::AddingTask | InputMode::AddingTag | InputMode::AddingColumn
            | InputMode::RenamingColumn | InputMode::EditingTitle | InputMode::EditingDescription
            | InputMode::AddingProject => {},
            _ => {
                return Effect::Nothing;
            },
        }
        let text = self.input_buffer.clone();
        let empty = text.as_str().is_empty();
        let c = self.selected_column;
        let i = self.selected_index;
        let cur = self.registry.current_project;
        self.input_mode = return_mode_of(mode);
        self.input_buffer = String::new();
        proof {
            lemma_same_board(self@);
        }
        match mode {
            InputMode::AddingTask => {
                if empty {
                    return Effect::Nothing;
                }
                match self.board_mut() {
                    Some(b) => match b.add_task(c, text) {
                        Some(_) => Effect::SaveProject(cur),
                        None => Effect::Nothing,
                    },
                    None => Effect::Nothing,
                }
            },
            InputMode::AddingTag => {
                if empty {
                    return Effect::Nothing;
                }
                match self.board_mut() {
                    Some(b) => if b.add_tag(c, i, text) {
                        Effect::SaveProject(cur)
                    } else {
                        Effect::Nothing
                    },
                    None => Effect::Nothing,
                }
            },
            InputMode::AddingColumn => {
                if empty {
                    return Effect::Nothing;
                }
                match self.board_mut() {
                    Some(b) => {
                        b.add_column(text);
                        Effect::SaveProject(cur)
                    },
                    None => Effect::Nothing,
                }
            },
            InputMode::RenamingColumn => {
                if empty {
                    return Effect::Nothing;
                }
                match self.board_mut() {
                    Some(b) => if c < b.columns.len() {
                        b.rename_column(c, text);
                        Effect::SaveProject(cur)
                    } else {
                        Effect::Nothing
                    },
                    None => Effect::Nothing,
                }
            },
            InputMode::EditingTitle => {
                if empty {
                    return Effect::Nothing;
                }
                match self.board_mut() {
                    Some(b) => if b.set_title(c, i, text) {
                        Effect::SaveProject(cur)
                    } else {
                        Effect::Nothing
                    },
                    None => Effect::Nothing,
                }
            },
            InputMode::EditingDescription => {
                match self.board_mut() {
                    Some(b) => if b.set_description(c, i, text) {
                        Effect::SaveProject(cur)
                    } else {
                        Effect::Nothing
                    },
                    None => Effect::Nothing,
                }
            },
            _ => {
                if empty {
                    return Effect::Nothing;
                }
                let n = self.registry.create_project(text);
                Effect::SaveProject(n)
            },
        }
    }

    fn entry_key(&mut self, key: Key) -> (e: Effect)
        requires
            app_wf(old(self)@),
        ensures
            (final(self)@, e@) == entry_step(old(self)@, key),
            registry_wf(final(self)@.registry),
    {
        match key {
            Key::Char(ch) => {
                push_char(&mut self.input_buffer, ch);
                Effect::Nothing
            },
            Key::Backspace => {
                pop_char(&mut self.input_buffer);
                Effect::Nothing
            },
            Key::Enter => self.commit(),
            Key::Esc => {
                self.input_mode = return_mode_of(self.input_mode);
                self.input_buffer = String::new();
                Effect::Nothing
            },
            _ => Effect::Nothing,
        }
    }

    fn viewing_key(&mut self, key: Key) -> (e: Effect)
        requires
            app_wf(old(self)@),
        ensures
            (final(self)@, e@) == viewing_step(old(self)@, key),
            registry_wf(final(self)@.registry),
    {
        proof {
            lemma_same_board(self@);
        }
        match key {
            Key::Esc => {
                self.input_mode = InputMode::Normal;
                Effect::Nothing
            },
            Key::Tab => {
                self.focused_field = next_field_of(self.focused_field);
                Effect::Nothing
            },
            Key::Enter => {
                if !self.on_task() {
                    return Effect::Nothing;
                }
                match self.focused_field {
                    TaskField::Title => {
                        let t = self.selected_task_ref().title.clone();
                        self.enter(InputMode::EditingTitle, t);
                    },
                    TaskField::Tags => {
                        self.enter(InputMode::AddingTag, String::new());
                    },
                    TaskField::Description => {
                        let t = self.selected_task_ref().description.clone();
                        self.enter(InputMode::EditingDescription, t);
                    },
                }
                Effect::Nothing
            },
            Key::Char('e') => {
                if self.on_task() {
                    let t = self.selected_task_ref().description.clone();
                    self.enter(InputMode::EditingDescription, t);
                }
                Effect::Nothing
            },
            Key::Char(d) => {
                let k = digit_of(d);
                let c = self.selected_column;
                let i = self.selected_index;
                let cur = self.registry.current_project;
                proof {
                    let b = current_board(self@);
                    let t = task_at(b, c as int, i as int);
                    if !(1 <= k <= t.tags.len()) {
                        assert(TaskModel { tags: without_tag(t.tags, k as int), ..t } == t);
                        lemma_task_replaced_same(b, c as int, i as int);
                    }
                }
                match self.board_mut() {
                    Some(b) => if b.remove_tag_by_ordinal(c, i, k) {
                        Effect::SaveProject(cur)
                    } else {
                        Effect::Nothing
                    },
                    None => Effect::Nothing,
                }
            },
            _ => Effect::Nothing,
        }
    }
}

impl App {
    fn normal_key(&mut self, key: Key) -> (e: Effect)
        requires
            app_wf(old(self)@),
        ensures
            (final(self)@, e@) == normal_step(old(self)@, key),
            registry_wf(final(self)@.registry),
    {
        match key {
            Key::Char('q') => {
                self.should_quit = true;
                Effect::Nothing
            },
            Key::Char('h') | Key::Left => {
                self.move_left();
                Effect::Nothing
            },
            Key::Char('l') | Key::Right => {
                self.move_right();
                Effect::Nothing
            },
            Key::Char('j') | Key::Down => {
                self.move_down();
                Effect::Nothing
            },
            Key::Char('k') | Key::Up => {
                self.move_up();
                Effect::Nothing
            },
            Key::Enter => {
                if self.on_task() {
                    self.input_mode = InputMode::ViewingTask;
                    self.focused_field = TaskField::Title;
                }
                Effect::Nothing
            },
            Key::Char('a') => {
                self.enter(InputMode::AddingTask, String::new());
                Effect::Nothing
            },
            Key::Char('t') => {
                if self.on_task() {
                    self.enter(InputMode::AddingTag, String::new());
                }
                Effect::Nothing
            },
            Key::Char('m') => self.shift_task(Direction::Forward),
            Key::Char('n') => self.shift_task(Direction::Backward),
            Key::Char('d') => self.remove_selected_task(),
            Key::Char('?') => {
                self.input_mode = InputMode::ViewingHelp;
                Effect::Nothing
            },
            Key::Char('C') => {
                self.enter(InputMode::AddingColumn, String::new());
                Effect::Nothing
            },
            Key::Char('R') => {
                let name = match self.board() {
                    Some(b) => if self.selected_column < b.columns.len() {
                        Some(b.columns[self.selected_column].name.clone())
                    } else {
                        None
                    },
                    None => None,
                };
                match name {
                    Some(n) => self.enter(InputMode::RenamingColumn, n),
                    None => {},
                }
                Effect::Nothing
            },
            Key::Char('D') => self.remove_selected_column(),
            Key::Char('H') | Key::ShiftLeft => self.shift_column(Direction::Backward),
            Key::Char('L') | Key::ShiftRight => self.shift_column(Direction::Forward),
            Key::Ctrl('p') => {
                self.input_mode = InputMode::ProjectList;
                self.selected_project_index = self.registry.current_project;
                Effect::Nothing
            },
            Key::Char('T') => {
                self.input_mode = InputMode::SelectingTheme;
                Effect::Nothing
            },
            _ => Effect::Nothing,
        }
    }

    fn help_key(&mut self, key: Key) -> (e: Effect)
        requires
            app_wf(old(self)@),
        ensures
            (final(self)@, e@) == help_step(old(self)@, key),
            registry_wf(final(self)@.registry),
    {
        match key {
            Key::Esc | Key::Char('?') => {
                self.input_mode = InputMode::Normal;
            },
            _ => {},
        }
        Effect::Nothing
    }

    fn reset_cursors(&mut self)
        ensures
            final(self)@ == cursors_reset(old(self)@),
    {
        self.selected_column = 0;
        self.selected_index = 0;
        self.scroll_offset = 0;
    }

    fn list_key(&mut self, key: Key) -> (e: Effect)
        requires
            app_wf(old(self)@),
        ensures
            (final(self)@, e@) == list_step(old(self)@, key),
            registry_wf(final(self)@.registry),
    {
        let n = self.registry.projects.len();
        let p = self.selected_project_index;
        match key {
            Key::Char('j') | Key::Down => {
                if n > 0 && p < n - 1 {
                    self.selected_project_index = p + 1;
                }
                Effect::Nothing
            },
            Key::Char('k') | Key::Up => {
                if p > 0 {
                    self.selected_project_index = p - 1;
                }
                Effect::Nothing
            },
            Key::Enter => {
                if p < n {
                    self.registry.switch_to(p);
                    self.input_mode = InputMode::Normal;
                    self.reset_cursors();
                } else {
                    self.input_mode = InputMode::Normal;
                }
                Effect::Nothing
            },
            Key::Char('a') => {
                self.enter(InputMode::AddingProject, String::new());
                Effect::Nothing
            },
            Key::Char('d') => {
                if p < n {
                    self.input_mode = InputMode::ConfirmingDelete;
                }
                Effect::Nothing
            },
            Key::Char('s') => {
                if self.registry.set_default(p, &mut self.config) {
                    Effect::SaveConfig
                } else {
                    Effect::Nothing
                }
            },
            Key::Esc => {
                self.input_mode = InputMode::Normal;
                Effect::Nothing
            },
            _ => Effect::Nothing,
        }
    }

    fn confirm_key(&mut self, key: Key) -> (e: Effect)
        requires
            app_wf(old(self)@),
        ensures
            (final(self)@, e@) == confirm_step(old(self)@, key),
            registry_wf(final(self)@.registry),
    {
        match key {
            Key::Char('y') => {
                self.input_mode = InputMode::ProjectList;
                match self.registry.delete_project(self.selected_project_index) {
                    Some(p) => {
                        self.reset_cursors();
                        Effect::RemoveProject(p.name)
                    },
                    None => Effect::Nothing,
                }
            },
            Key::Char('n') | Key::Esc => {
                self.input_mode = InputMode::ProjectList;
                Effect::Nothing
            },
            _ => Effect::Nothing,
        }
    }

    fn theme_key(&mut self, key: Key) -> (e: Effect)
        requires
            app_wf(old(self)@),
        ensures
            (final(self)@, e@) == theme_step(old(self)@, key),
            registry_wf(final(self)@.registry),
    {
        let i = self.selected_theme_index;
        match key {
            Key::Char('j') | Key::Down => {
                if i + 1 < THEME_COUNT {
                    self.selected_theme_index = i + 1;
                }
                Effect::Nothing
            },
            Key::Char('k') | Key::Up => {
                if i > 0 {
                    self.selected_theme_index = i - 1;
                }
                Effect::Nothing
            },
            Key::Enter => {
                self.input_mode = InputMode::Normal;
                if i < THEME_COUNT {
                    let names = Theme::all_theme_names();
                    self.theme = Theme::by_index(i);
                    self.config.theme = Some(String::from_str(names[i]));
                    Effect::SaveConfig
                } else {
                    Effect::Nothing
                }
            },
            Key::Esc => {
                self.input_mode = InputMode::Normal;
                Effect::Nothing
            },
            _ => Effect::Nothing,
        }
    }

    /// Reads one key press: the mode decides what it means, every cursor is
    /// pulled back into range afterwards, and the result says what must be
    /// written to storage.
    pub fn handle_key(&mut self, key: Key) -> (e: Effect)
        requires
            app_wf(old(self)@),
        ensures
            final(self)@ == next_state(old(self)@, key),
            e@ == next_effect(old(self)@, key),
            app_wf(final(self)@),
    {
        let e = match self.input_mode {
            InputMode::Normal => self.normal_key(key),
            InputMode::AddingTask | InputMode::AddingTag | InputMode::AddingColumn
            | InputMode::RenamingColumn | InputMode::EditingTitle | InputMode::EditingDescription
            | InputMode::AddingProject => self.entry_key(key),
            InputMode::ViewingTask => self.viewing_key(key),
            InputMode::ViewingHelp => self.help_key(key),
            InputMode::ProjectList => self.list_key(key),
            InputMode::ConfirmingDelete => self.confirm_key(key),
            InputMode::SelectingTheme => self.theme_key(key),
        };
        self.clamp();
        proof {
            lemma_clamped_wf(raw_step(old(self)@, key).0);
        }
        e
    }
}

/// The position of the first project with the given name, if any.
pub open spec fn find_project(ps: Seq<ProjectModel>, name: Seq<char>) -> Option<int>
    decreases ps.len(),
{
    if ps.len() == 0 {
        None
    } else {
        match find_project(ps.drop_last(), name) {
            Some(k) => Some(k),
            None => if ps.last().name == name {
                Some(ps.len() - 1)
            } else {
                None
            },
        }
    }
}

/// The project that opens first: the default one when the preferences name
/// an existing project, else the first.
pub open spec fn start_project(ps: Seq<ProjectModel>, c: ConfigModel) -> int {
    match c.default_project {
        Some(n) => match find_project(ps, n) {
            Some(k) => k,
            None => 0,
        },
        None => 0,
    }
}

/// The palette position that opens first: the chosen one when the
/// preferences name a known palette, else the first.
pub open spec fn start_theme(c: ConfigModel) -> int {
    match c.theme {
        Some(n) => match theme_position(n) {
            Some(k) => k,
            None => 0,
        },
        None => 0,
    }
}

/// The controller as it opens over the given projects and preferences.
pub open spec fn initial_state(ps: Seq<ProjectModel>, c: ConfigModel) -> AppModel {
    AppModel {
        registry: RegistryModel { projects: ps, current: start_project(ps, c) as nat },
        config: c,
        theme: palette_at(start_theme(c)),
        selected_column: 0,
        selected_index: 0,
        scroll_offset: 0,
        visible_items: 1,
        mode: InputMode::Normal,
        buffer: Seq::empty(),
        focused: TaskField::Title,
        selected_project: start_project(ps, c),
        selected_theme: start_theme(c),
        should_quit: false,
    }
}

proof fn lemma_find_project_bound(ps: Seq<ProjectModel>, name: Seq<char>)
    ensures
        find_project(ps, name) matches Some(k) ==> 0 <= k < ps.len() && ps[k].name == name,
    decreases ps.len(),
{
    if ps.len() > 0 {
        lemma_find_project_bound(ps.drop_last(), name);
    }
}

proof fn lemma_find_project_prefix(ps: Seq<ProjectModel>, name: Seq<char>, j: int)
    requires
        0 <= j <= ps.len(),
        find_project(ps.take(j), name) is Some,
    ensures
        find_project(ps, name) == find_project(ps.take(j), name),
    decreases ps.len(),
{
    if j == ps.len() {
        assert(ps.take(j) =~= ps);
    } else {
        assert(ps.drop_last().take(j) =~= ps.take(j));
        lemma_find_project_prefix(ps.drop_last(), name, j);
    }
}

/// The position of the first project with the given name, if any.
pub fn find_project_index(projects: &Vec<Project>, name: &String) -> (r: Option<usize>)
    ensures
        r matches Some(k) ==> find_project(project_models(projects@), name@) == Some(k as int),
        r is None ==> find_project(project_models(projects@), name@) is None,
{
    let ghost ps = project_models(projects@);
    let mut i: usize = 0;
    while i < projects.len()
        invariant
            0 <= i <= projects.len(),
            ps == project_models(projects@),
            find_project(ps.take(i as int), name@) is None,
        decreases projects.len() - i,
    {
        proof {
            assert(ps.take(i + 1).drop_last() =~= ps.take(i as int));
        }
        if projects[i].name == *name {
            proof {
                assert(find_project(ps.take(i + 1), name@) == Some(i as int));
                lemma_find_project_prefix(ps, name@, i + 1);
            }
            return Some(i);
        }
        i = i + 1;
    }
    proof {
        assert(ps.take(i as int) =~= ps);
    }
    None
}

impl App {
    /// The controller over the given projects and preferences: the default
    /// project is active (else the first), the chosen palette applies (else
    /// the first), and the board view has the focus.
    pub fn new(projects: Vec<Project>, config: Config) -> (r: Self)
        ensures
            r@ == initial_state(project_models(projects@), config@),
            app_wf(r@),
    {
        let ghost ps = project_models(projects@);
        let start = match &config.default_project {
            Some(n) => match find_project_index(&projects, n) {
                Some(k) => k,
                None => 0,
            },
            None => 0,
        };
        let theme_index = match &config.theme {
            Some(n) => match Theme::position(n.as_str()) {
                Some(k) => k,
                None => 0,
            },
            None => 0,
        };
        proof {
            match config@.default_project {
                Some(n) => lemma_find_project_bound(ps, n),
                None => {},
            }
        }
        let r = App {
            registry: Registry { projects, current_project: start },
            config,
            theme: Theme::by_index(theme_index),
            selected_column: 0,
            selected_index: 0,
            scroll_offset: 0,
            visible_items: 1,
            input_mode: InputMode::Normal,
            input_buffer: String::new(),
            focused_field: TaskField::Title,
            selected_project_index: start,
            selected_theme_index: theme_index,
            should_quit: false,
        };
        r
    }
}

impl App {
    /// Moves the selected task to the end of the next column; from the last
    /// column nothing changes.
    pub fn move_task_forward(&mut self) -> (e: Effect)
        requires
            app_wf(old(self)@),
        ensures
            final(self)@ == clamped(task_shifted(old(self)@, Direction::Forward).0),
            e@ == task_shifted(old(self)@, Direction::Forward).1,
            app_wf(final(self)@),
            old(self)@.selected_column + 1 >= current_board(old(self)@).len() ==> final(self)@
                == old(self)@ && e@ == EffectModel::Nothing,
    {
        let e = self.shift_task(Direction::Forward);
        self.clamp();
        proof {
            lemma_clamped_wf(task_shifted(old(self)@, Direction::Forward).0);
            lemma_clamped_id(old(self)@);
        }
        e
    }

    /// Moves the selected task to the end of the previous column; from the
    /// first column nothing changes.
    pub fn move_task_backward(&mut self) -> (e: Effect)
        requires
            app_wf(old(self)@),
        ensures
            final(self)@ == clamped(task_shifted(old(self)@, Direction::Backward).0),
            e@ == task_shifted(old(self)@, Direction::Backward).1,
            app_wf(final(self)@),
            old(self)@.selected_column == 0 ==> final(self)@ == old(self)@ && e@
                == EffectModel::Nothing,
    {
        let e = self.shift_task(Direction::Backward);
        self.clamp();
        proof {
            lemma_clamped_wf(task_shifted(old(self)@, Direction::Backward).0);
            lemma_clamped_id(old(self)@);
        }
        e
    }

    /// Deletes the selected task; the cursor is pulled back into the column.
    pub fn delete_task(&mut self) -> (e: Effect)
        requires
            app_wf(old(self)@),
        ensures
            on_task(old(self)@) ==> final(self)@ == clamped(
                with_board(
                    old(self)@,
                    task_removed(
                        current_board(old(self)@),
                        old(self)@.selected_column,
                        old(self)@.selected_index,
                    ),
                ),
            ) && e@ == save_current(old(self)@),
            !on_task(old(self)@) ==> final(self)@ == old(self)@ && e@ == EffectModel::Nothing,
            app_wf(final(self)@),
    {
        let e = self.remove_selected_task();
        self.clamp();
        proof {
            lemma_clamped_id(old(self)@);
        }
        e
    }

    /// Deletes the selected column if it holds no task; a column that holds
    /// a task stays and nothing changes.
    pub fn delete_column(&mut self) -> (e: Effect)
        requires
            app_wf(old(self)@),
        ensures
            ({
                let b = current_board(old(self)@);
                let c = old(self)@.selected_column;
                &&& (0 <= c < b.len() && b[c].tasks.len() == 0) ==> final(self)@ == clamped(
                    with_board(old(self)@, column_removed(b, c)),
                ) && e@ == save_current(old(self)@)
                &&& !(0 <= c < b.len() && b[c].tasks.len() == 0) ==> final(self)@ == old(self)@
                    && e@ == EffectModel::Nothing
            }),
            app_wf(final(self)@),
    {
        let e = self.remove_selected_column();
        self.clamp();
        proof {
            lemma_clamped_id(old(self)@);
        }
        e
    }

    /// Opens the selected task, with the focus on its title; without a task
    /// nothing changes.
    pub fn open_task(&mut self)
        requires
            app_wf(old(self)@),
        ensures
            on_task(old(self)@) ==> final(self)@ == (AppModel {
                mode: InputMode::ViewingTask,
                focused: TaskField::Title,
                ..old(self)@
            }),
            !on_task(old(self)@) ==> final(self)@ == old(self)@,
            app_wf(final(self)@),
    {
        if self.on_task() {
            self.input_mode = InputMode::ViewingTask;
            self.focused_field = TaskField::Title;
        }
    }

    /// Starts typing the title of a new task for the selected column.
    pub fn start_adding_task(&mut self)
        requires
            app_wf(old(self)@),
        ensures
            final(self)@ == entering(old(self)@, InputMode::AddingTask, Seq::empty()),
            app_wf(final(self)@),
    {
        self.enter(InputMode::AddingTask, String::new());
    }

    /// Starts typing a tag for the selected task; without a task nothing
    /// changes.
    pub fn start_adding_tag(&mut self)
        requires
            app_wf(old(self)@),
        ensures
            on_task(old(self)@) ==> final(self)@ == entering(
                old(self)@,
                InputMode::AddingTag,
                Seq::empty(),
            ),
            !on_task(old(self)@) ==> final(self)@ == old(self)@,
            app_wf(final(self)@),
    {
        if self.on_task() {
            self.enter(InputMode::AddingTag, String::new());
        }
    }

    /// Starts editing the selected task's description, from its current
    /// text; without a task nothing changes.
    pub fn start_editing_description(&mut self)
        requires
            app_wf(old(self)@),
        ensures
            on_task(old(self)@) ==> final(self)@ == entering(
                old(self)@,
                InputMode::EditingDescription,
                selected_task(old(self)@).description,
            ),
            !on_task(old(self)@) ==> final(self)@ == old(self)@,
            app_wf(final(self)@),
    {
        if self.on_task() {
            let t = self.selected_task_ref().description.clone();
            self.enter(InputMode::EditingDescription, t);
        }
    }

    /// Shows the key reference.
    pub fn show_help(&mut self)
        requires
            app_wf(old(self)@),
        ensures
            final(self)@ == (AppModel { mode: InputMode::ViewingHelp, ..old(self)@ }),
            app_wf(final(self)@),
    {
        self.input_mode = InputMode::ViewingHelp;
    }

    /// Returns to the board view.
    pub fn close_view(&mut self)
        requires
            app_wf(old(self)@),
        ensures
            final(self)@ == (AppModel { mode: InputMode::Normal, ..old(self)@ }),
            app_wf(final(self)@),
    {
        self.input_mode = InputMode::Normal;
    }

    /// Appends a character to the text being typed.
    pub fn input_char(&mut self, c: char)
        requires
            app_wf(old(self)@),
        ensures
            final(self)@ == (AppModel { buffer: old(self)@.buffer.push(c), ..old(self)@ }),
            app_wf(final(self)@),
    {
        push_char(&mut self.input_buffer, c);
    }

    /// Removes the last character typed; with nothing typed nothing changes.
    pub fn input_backspace(&mut self)
        requires
            app_wf(old(self)@),
        ensures
            old(self)@.buffer.len() > 0 ==> final(self)@ == (AppModel {
                buffer: old(self)@.buffer.drop_last(),
                ..old(self)@
            }),
            old(self)@.buffer.len() == 0 ==> final(self)@ == old(self)@,
            app_wf(final(self)@),
    {
        pop_char(&mut self.input_buffer);
    }

    /// Ends a text entry and hands the text over: a new task, tag, column,
    /// column name, title, description or project.
    pub fn submit_input(&mut self) -> (e: Effect)
        requires
            app_wf(old(self)@),
        ensures
            final(self)@ == clamped(committed(old(self)@).0),
            e@ == committed(old(self)@).1,
            app_wf(final(self)@),
    {
        let e = self.commit();
        self.clamp();
        proof {
            lemma_clamped_wf(committed(old(self)@).0);
        }
        e
    }

    /// Ends a text entry and drops the text.
    pub fn cancel_input(&mut self)
        requires
            app_wf(old(self)@),
        ensures
            final(self)@ == (AppModel {
                mode: return_mode(old(self)@.mode),
                buffer: Seq::empty(),
                ..old(self)@
            }),
            app_wf(final(self)@),
    {
        self.input_mode = return_mode_of(self.input_mode);
        self.input_buffer = String::new();
    }
}

} // verus!

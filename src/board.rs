use vstd::prelude::*;
use vstd::string::StringExecFns;
use crate::text::text_eq;
use crate::theme::Color;

verus! {

/// The abstract value of a task: its title, its tags in insertion order and
/// its description.
pub ghost struct TaskModel {
    pub title: Seq<char>,
    pub tags: Seq<Seq<char>>,
    pub description: Seq<char>,
}

/// A task card with a title, an ordered set of tags and a description.
#[derive(Debug, Clone)]
pub struct Task {
    pub title: String,
    pub tags: Vec<String>,
    pub description: String,
}

pub open spec fn text_seq(v: Seq<String>) -> Seq<Seq<char>> {
    v.map_values(|s: String| s@)
}

impl View for Task {
    type V = TaskModel;

    open spec fn view(&self) -> TaskModel {
        TaskModel { title: self.title@, tags: text_seq(self.tags@), description: self.description@ }
    }
}

/// Tags with the given one appended, unless it is already present.
pub open spec fn with_tag(tags: Seq<Seq<char>>, tag: Seq<char>) -> Seq<Seq<char>> {
    if tags.contains(tag) {
        tags
    } else {
        tags.push(tag)
    }
}

impl Task {
    /// A task's tags form a set: no tag appears twice.
    pub open spec fn wf(&self) -> bool {
        self@.tags.no_duplicates()
    }

    /// A task with the given title, no tags and an empty description.
    pub fn new(title: String) -> (r: Self)
        ensures
            r@ == (TaskModel { title: title@, tags: Seq::empty(), description: Seq::empty() }),
            r.wf(),
    {
        let r = Task { title, tags: Vec::new(), description: String::new() };
        proof {
            assert(text_seq(r.tags@) =~= Seq::<Seq<char>>::empty());
        }
        r
    }

    /// Adds a tag unless the task already carries it.
    pub fn add_tag(&mut self, tag: String)
        ensures
            final(self)@ == (TaskModel { tags: with_tag(old(self)@.tags, tag@), ..old(self)@ }),
            old(self).wf() ==> final(self).wf(),
    {
        proof {
            if old(self).wf() {
                lemma_add_tag_keeps_distinct(self@.tags, tag@);
            }
        }
        let mut i: usize = 0;
        while i < self.tags.len()
            invariant
                0 <= i <= self.tags.len(),
                forall|j: int| 0 <= j < i ==> self.tags@[j]@ != tag@,
            decreases self.tags.len() - i,
        {
            if self.tags[i] == tag {
                proof {
                    assert(text_seq(self.tags@)[i as int] == tag@);
                }
                return;
            }
            i = i + 1;
        }
        proof {
            assert(!text_seq(self.tags@).contains(tag@));
        }
        let ghost before = self.tags@;
        self.tags.push(tag);
        proof {
            assert(text_seq(self.tags@) =~= text_seq(before).push(tag@));
        }
    }
}


/// Removes the tag shown at a 1-based position; tags after it move up by one.
pub open spec fn without_tag(tags: Seq<Seq<char>>, ordinal: int) -> Seq<Seq<char>> {
    if 1 <= ordinal <= tags.len() {
        tags.remove(ordinal - 1)
    } else {
        tags
    }
}

impl Task {
    /// Removes the tag at the given 1-based position; a position past the
    /// last tag (or zero) leaves the task unchanged. Returns whether a tag was
    /// removed.
    pub fn remove_tag_by_ordinal(&mut self, ordinal: usize) -> (r: bool)
        ensures
            final(self)@ == (TaskModel {
                tags: without_tag(old(self)@.tags, ordinal as int),
                ..old(self)@
            }),
            r == (1 <= ordinal <= old(self)@.tags.len()),
            old(self).wf() ==> final(self).wf(),
    {
        proof {
            if old(self).wf() {
                lemma_remove_tag_keeps_distinct(self@.tags, ordinal as int);
            }
        }
        if ordinal >= 1 && ordinal <= self.tags.len() {
            let ghost before = self.tags@;
            self.tags.remove(ordinal - 1);
            proof {
                assert(text_seq(self.tags@) =~= text_seq(before).remove(ordinal - 1));
            }
            true
        } else {
            false
        }
    }

    /// Replaces the title.
    pub fn set_title(&mut self, title: String)
        ensures
            final(self)@ == (TaskModel { title: title@, ..old(self)@ }),
    {
        self.title = title;
    }

    /// Replaces the description.
    pub fn set_description(&mut self, description: String)
        ensures
            final(self)@ == (TaskModel { description: description@, ..old(self)@ }),
    {
        self.description = description;
    }
}


/// The abstract value of a column: its name and its tasks in order.
pub ghost struct ColumnModel {
    pub name: Seq<char>,
    pub tasks: Seq<TaskModel>,
}

/// A named column of task cards.
#[derive(Debug, Clone)]
pub struct BoardColumn {
    pub name: String,
    pub tasks: Vec<Task>,
}

pub open spec fn task_models(v: Seq<Task>) -> Seq<TaskModel> {
    v.map_values(|t: Task| t@)
}

impl View for BoardColumn {
    type V = ColumnModel;

    open spec fn view(&self) -> ColumnModel {
        ColumnModel { name: self.name@, tasks: task_models(self.tasks@) }
    }
}

/// A board: columns in left-to-right order.
#[derive(Debug, Clone)]
pub struct Board {
    pub columns: Vec<BoardColumn>,
}

pub open spec fn column_models(v: Seq<BoardColumn>) -> Seq<ColumnModel> {
    v.map_values(|c: BoardColumn| c@)
}

impl View for Board {
    type V = Seq<ColumnModel>;

    open spec fn view(&self) -> Seq<ColumnModel> {
        column_models(self.columns@)
    }
}

/// The stages a fresh board starts with, left to right.
#[derive(Debug, Clone, Copy, PartialEq, Eq, Structural)]
pub enum Column {
    Todo,
    InProgress,
    Done,
}

pub open spec fn stage_index(c: Column) -> nat {
    match c {
        Column::Todo => 0,
        Column::InProgress => 1,
        Column::Done => 2,
    }
}

pub open spec fn stage_name(c: Column) -> Seq<char> {
    match c {
        Column::Todo => "To Do"@,
        Column::InProgress => "In Progress"@,
        Column::Done => "Done"@,
    }
}

impl Column {
    /// The stage to the right, if any.
    pub fn next(self) -> (r: Option<Self>)
        ensures
            r == match self {
                Column::Todo => Some(Column::InProgress),
                Column::InProgress => Some(Column::Done),
                Column::Done => None,
            },
    {
        match self {
            Column::Todo => Some(Column::InProgress),
            Column::InProgress => Some(Column::Done),
            Column::Done => None,
        }
    }

    /// The stage to the left, if any.
    pub fn prev(self) -> (r: Option<Self>)
        ensures
            r == match self {
                Column::Todo => None,
                Column::InProgress => Some(Column::Todo),
                Column::Done => Some(Column::InProgress),
            },
    {
        match self {
            Column::Todo => None,
            Column::InProgress => Some(Column::Todo),
            Column::Done => Some(Column::InProgress),
        }
    }

    /// The stage's display name.
    pub fn name(self) -> (r: &'static str)
        ensures
            r@ == stage_name(self),
    {
        proof {
            reveal_strlit("To Do");
            reveal_strlit("In Progress");
            reveal_strlit("Done");
        }
        match self {
            Column::Todo => "To Do",
            Column::InProgress => "In Progress",
            Column::Done => "Done",
        }
    }

    /// The stage's position on a fresh board.
    pub fn index(self) -> (r: usize)
        ensures
            r == stage_index(self),
    {
        match self {
            Column::Todo => 0,
            Column::InProgress => 1,
            Column::Done => 2,
        }
    }
}

pub open spec fn empty_column(name: Seq<char>) -> ColumnModel {
    ColumnModel { name, tasks: Seq::empty() }
}

pub open spec fn fresh_task(title: Seq<char>) -> TaskModel {
    TaskModel { title, tags: Seq::empty(), description: Seq::empty() }
}

/// The board whose stages are To Do, In Progress and Done, all empty.
pub open spec fn staged_board() -> Seq<ColumnModel> {
    seq![
        empty_column(stage_name(Column::Todo)),
        empty_column(stage_name(Column::InProgress)),
        empty_column(stage_name(Column::Done)),
    ]
}

impl BoardColumn {
    /// An empty column with the given name.
    pub fn new(name: String) -> (r: Self)
        ensures
            r@ == empty_column(name@),
    {
        let r = BoardColumn { name, tasks: Vec::new() };
        proof {
            assert(r@.tasks =~= Seq::<TaskModel>::empty());
        }
        r
    }
}

impl Board {
    /// Every task on the board carries each of its tags once.
    pub open spec fn wf(&self) -> bool {
        board_tags_distinct(self@)
    }

    /// A board holding the three stages, each empty.
    pub fn new() -> (r: Self)
        ensures
            r@ == staged_board(),
            r.wf(),
    {
        let mut columns: Vec<BoardColumn> = Vec::new();
        columns.push(BoardColumn::new(String::from_str(Column::Todo.name())));
        columns.push(BoardColumn::new(String::from_str(Column::InProgress.name())));
        columns.push(BoardColumn::new(String::from_str(Column::Done.name())));
        let r = Board { columns };
        proof {
            assert(r@ =~= staged_board());
        }
        r
    }

    /// A board with no columns.
    pub fn empty() -> (r: Self)
        ensures
            r@ == Seq::<ColumnModel>::empty(),
            r.wf(),
    {
        let r = Board { columns: Vec::new() };
        proof {
            assert(r@ =~= Seq::<ColumnModel>::empty());
        }
        r
    }

    /// The tasks of a stage, if the board still has a column at its position.
    pub fn get_column(&self, column: Column) -> (r: Option<&Vec<Task>>)
        ensures
            stage_index(column) < self@.len() <==> r is Some,
            r matches Some(t) ==> task_models(t@) == self@[stage_index(column) as int].tasks,
    {
        let i = column.index();
        if i < self.columns.len() {
            Some(&self.columns[i].tasks)
        } else {
            None
        }
    }

    /// The tasks of a stage, for in-place changes, if the board still has a
    /// column at its position.
    pub fn get_column_mut(&mut self, column: Column) -> (r: Option<&mut Vec<Task>>)
        ensures
            stage_index(column) < old(self)@.len() <==> r is Some,
            r is None ==> *final(self) == *old(self),
            r matches Some(t) ==> task_models(t@) == old(self)@[stage_index(column) as int].tasks
                && final(self)@ == old(self)@.update(
                stage_index(column) as int,
                ColumnModel { tasks: task_models(final(t)@), ..old(self)@[stage_index(column) as int] },
            ),
    {
        let i = column.index();
        if i < self.columns.len() {
            Some(&mut self.columns[i].tasks)
        } else {
            None
        }
    }
}


/// Why a structural change to a board was refused.
#[derive(Debug, Clone, Copy, PartialEq, Eq, Structural)]
pub enum BoardError {
    NoSuchColumn,
    ColumnNotEmpty,
}

/// Which way a column or task moves: toward the first column or the last.
#[derive(Debug, Clone, Copy, PartialEq, Eq, Structural)]
pub enum Direction {
    Backward,
    Forward,
}

/// The position next to `i` in the given direction, which may fall off
/// either end (then it is negative or `len`).
pub open spec fn neighbour(i: int, dir: Direction) -> int {
    match dir {
        Direction::Backward => i - 1,
        Direction::Forward => i + 1,
    }
}

pub open spec fn column_added(b: Seq<ColumnModel>, name: Seq<char>) -> Seq<ColumnModel> {
    b.push(empty_column(name))
}

pub open spec fn column_renamed(b: Seq<ColumnModel>, i: int, name: Seq<char>) -> Seq<ColumnModel> {
    if 0 <= i < b.len() {
        b.update(i, ColumnModel { name, ..b[i] })
    } else {
        b
    }
}

pub open spec fn column_removed(b: Seq<ColumnModel>, i: int) -> Seq<ColumnModel> {
    if 0 <= i < b.len() && b[i].tasks.len() == 0 {
        b.remove(i)
    } else {
        b
    }
}

pub open spec fn column_can_move(b: Seq<ColumnModel>, i: int, dir: Direction) -> bool {
    0 <= i < b.len() && 0 <= neighbour(i, dir) < b.len()
}

pub open spec fn column_moved(b: Seq<ColumnModel>, i: int, dir: Direction) -> Seq<ColumnModel> {
    if column_can_move(b, i, dir) {
        let j = neighbour(i, dir);
        b.update(i, b[j]).update(j, b[i])
    } else {
        b
    }
}

pub open spec fn task_added(b: Seq<ColumnModel>, c: int, title: Seq<char>) -> Seq<ColumnModel> {
    if 0 <= c < b.len() {
        b.update(c, ColumnModel { tasks: b[c].tasks.push(fresh_task(title)), ..b[c] })
    } else {
        b
    }
}

pub open spec fn has_task(b: Seq<ColumnModel>, c: int, i: int) -> bool {
    0 <= c < b.len() && 0 <= i < b[c].tasks.len()
}

pub open spec fn task_removed(b: Seq<ColumnModel>, c: int, i: int) -> Seq<ColumnModel> {
    if has_task(b, c, i) {
        b.update(c, ColumnModel { tasks: b[c].tasks.remove(i), ..b[c] })
    } else {
        b
    }
}

pub open spec fn task_can_move(b: Seq<ColumnModel>, c: int, i: int, target: int) -> bool {
    has_task(b, c, i) && 0 <= target < b.len() && target != c
}

pub open spec fn task_moved(b: Seq<ColumnModel>, c: int, i: int, target: int) -> Seq<ColumnModel> {
    if task_can_move(b, c, i, target) {
        let r = task_removed(b, c, i);
        r.update(target, ColumnModel { tasks: b[target].tasks.push(b[c].tasks[i]), ..b[target] })
    } else {
        b
    }
}

/// The board with the task at `(c, i)` replaced, if there is one.
pub open spec fn task_replaced(b: Seq<ColumnModel>, c: int, i: int, t: TaskModel) -> Seq<
    ColumnModel,
> {
    if has_task(b, c, i) {
        b.update(c, ColumnModel { tasks: b[c].tasks.update(i, t), ..b[c] })
    } else {
        b
    }
}

pub open spec fn task_at(b: Seq<ColumnModel>, c: int, i: int) -> TaskModel {
    b[c].tasks[i]
}

pub open spec fn column_tasks_total(b: Seq<ColumnModel>) -> nat
    decreases b.len(),
{
    if b.len() == 0 {
        0
    } else {
        column_tasks_total(b.drop_last()) + b.last().tasks.len()
    }
}

impl Board {
    /// Appends an empty column and returns its index.
    pub fn add_column(&mut self, name: String) -> (r: usize)
        ensures
            final(self)@ == column_added(old(self)@, name@),
            r == old(self)@.len(),
            old(self).wf() ==> final(self).wf(),
    {
        proof {
            if self.wf() {
                lemma_ops_keep_tags_distinct(
                    self@,
                    0,
                    0,
                    0,
                    name@,
                    Direction::Forward,
                    fresh_task(name@),
                );
            }
        }
        let r = self.columns.len();
        let ghost before = self.columns@;
        self.columns.push(BoardColumn::new(name));
        proof {
            assert(self@ =~= column_added(column_models(before), name@));
        }
        r
    }

    /// Renames a column; an index past the last column changes nothing.
    pub fn rename_column(&mut self, index: usize, name: String)
        ensures
            final(self)@ == column_renamed(old(self)@, index as int, name@),
            old(self).wf() ==> final(self).wf(),
    {
        proof {
            if self.wf() {
                lemma_ops_keep_tags_distinct(
                    self@,
                    index as int,
                    0,
                    0,
                    name@,
                    Direction::Forward,
                    fresh_task(name@),
                );
            }
        }
        if index < self.columns.len() {
            let ghost before = self.columns@;
            self.columns[index].name = name;
            proof {
                assert(self@ =~= column_renamed(column_models(before), index as int, name@));
            }
        }
    }

    /// Removes an empty column. A column that still holds tasks, or an index
    /// past the last column, is refused and the board stays as it was.
    pub fn remove_column(&mut self, index: usize) -> (r: Result<(), BoardError>)
        ensures
            final(self)@ == column_removed(old(self)@, index as int),
            index >= old(self)@.len() <==> r == Err::<(), BoardError>(BoardError::NoSuchColumn),
            (index < old(self)@.len() && old(self)@[index as int].tasks.len() > 0) <==> r == Err::<
                (),
                BoardError,
            >(BoardError::ColumnNotEmpty),
            r is Ok <==> (index < old(self)@.len() && old(self)@[index as int].tasks.len() == 0),
            old(self).wf() ==> final(self).wf(),
    {
        proof {
            if self.wf() {
                lemma_ops_keep_tags_distinct(
                    self@,
                    index as int,
                    0,
                    0,
                    Seq::empty(),
                    Direction::Forward,
                    fresh_task(Seq::empty()),
                );
            }
        }
        if index >= self.columns.len() {
            return Err(BoardError::NoSuchColumn);
        }
        if self.columns[index].tasks.len() > 0 {
            return Err(BoardError::ColumnNotEmpty);
        }
        let ghost before = self.columns@;
        self.columns.remove(index);
        proof {
            assert(self@ =~= column_removed(column_models(before), index as int));
        }
        Ok(())
    }

    /// Swaps a column with its neighbour; at either end nothing changes.
    /// Returns whether the columns were swapped.
    pub fn move_column(&mut self, index: usize, dir: Direction) -> (r: bool)
        ensures
            final(self)@ == column_moved(old(self)@, index as int, dir),
            r == column_can_move(old(self)@, index as int, dir),
            old(self).wf() ==> final(self).wf(),
    {
        proof {
            if self.wf() {
                lemma_ops_keep_tags_distinct(
                    self@,
                    index as int,
                    0,
                    0,
                    Seq::empty(),
                    dir,
                    fresh_task(Seq::empty()),
                );
            }
        }
        let len = self.columns.len();
        if index >= len {
            return false;
        }
        let other: usize = match dir {
            Direction::Backward => {
                if index == 0 {
                    return false;
                }
                index - 1
            },
            Direction::Forward => {
                if index + 1 >= len {
                    return false;
                }
                index + 1
            },
        };
        let ghost before = self.columns@;
        let moving = self.columns.remove(index);
        self.columns.insert(other, moving);
        proof {
            assert(self@ =~= column_moved(column_models(before), index as int, dir));
        }
        true
    }

    /// Appends a fresh task to a column and returns its index within the
    /// column; an index past the last column changes nothing.
    pub fn add_task(&mut self, column: usize, title: String) -> (r: Option<usize>)
        ensures
            final(self)@ == task_added(old(self)@, column as int, title@),
            column < old(self)@.len() <==> r is Some,
            r matches Some(i) ==> i == old(self)@[column as int].tasks.len(),
            old(self).wf() ==> final(self).wf(),
    {
        proof {
            if self.wf() {
                lemma_ops_keep_tags_distinct(
                    self@,
                    column as int,
                    0,
                    0,
                    title@,
                    Direction::Forward,
                    fresh_task(title@),
                );
            }
        }
        if column >= self.columns.len() {
            return None;
        }
        let ghost before = self.columns@;
        let r = self.columns[column].tasks.len();
        self.columns[column].tasks.push(Task::new(title));
        proof {
            assert(self.columns@[column as int]@.tasks =~= before[column as int]@.tasks.push(
                fresh_task(title@),
            ));
            assert(self@ =~= task_added(column_models(before), column as int, title@));
        }
        Some(r)
    }

    /// Removes and returns a task; invalid indices change nothing.
    pub fn remove_task(&mut self, column: usize, index: usize) -> (r: Option<Task>)
        ensures
            final(self)@ == task_removed(old(self)@, column as int, index as int),
            has_task(old(self)@, column as int, index as int) <==> r is Some,
            r matches Some(t) ==> t@ == task_at(old(self)@, column as int, index as int),
            old(self).wf() ==> final(self).wf(),
    {
        proof {
            if self.wf() {
                lemma_ops_keep_tags_distinct(
                    self@,
                    column as int,
                    index as int,
                    0,
                    Seq::empty(),
                    Direction::Forward,
                    fresh_task(Seq::empty()),
                );
            }
        }
        if column >= self.columns.len() || index >= self.columns[column].tasks.len() {
            return None;
        }
        let ghost before = self.columns@;
        let t = self.columns[column].tasks.remove(index);
        proof {
            assert(self.columns@[column as int]@.tasks =~= before[column as int]@.tasks.remove(
                index as int,
            ));
            assert(self@ =~= task_removed(column_models(before), column as int, index as int));
        }
        Some(t)
    }

    /// Moves a task to the end of another column. An invalid source, a target
    /// past the last column, or the source column itself as target changes
    /// nothing. Returns whether the task moved.
    pub fn move_task(&mut self, column: usize, index: usize, target: usize) -> (r: bool)
        ensures
            final(self)@ == task_moved(old(self)@, column as int, index as int, target as int),
            r == task_can_move(old(self)@, column as int, index as int, target as int),
            old(self).wf() ==> final(self).wf(),
    {
        proof {
            if self.wf() {
                lemma_ops_keep_tags_distinct(
                    self@,
                    column as int,
                    index as int,
                    target as int,
                    Seq::empty(),
                    Direction::Forward,
                    fresh_task(Seq::empty()),
                );
            }
        }
        if target >= self.columns.len() || target == column {
            return false;
        }
        let ghost before = self@;
        match self.remove_task(column, index) {
            None => false,
            Some(t) => {
                proof {
                    assert(self@.len() == before.len());
                    assert(self.columns@.len() == self@.len());
                }
                let ghost mid = self.columns@;
                self.columns[target].tasks.push(t);
                proof {
                    assert(self.columns@[target as int]@.tasks =~= mid[target as int]@.tasks.push(
                        t@,
                    ));
                    let removed = task_removed(before, column as int, index as int);
                    assert(mid[target as int]@ == removed[target as int]);
                    assert(self@ =~= task_moved(before, column as int, index as int, target as int));
                }
                true
            },
        }
    }

    /// Adds a tag to a task unless it already carries it; invalid indices
    /// change nothing. Returns whether the task exists.
    pub fn add_tag(&mut self, column: usize, index: usize, tag: String) -> (r: bool)
        ensures
            final(self)@ == task_replaced(
                old(self)@,
                column as int,
                index as int,
                TaskModel {
                    tags: with_tag(task_at(old(self)@, column as int, index as int).tags, tag@),
                    ..task_at(old(self)@, column as int, index as int)
                },
            ),
            r == has_task(old(self)@, column as int, index as int),
            old(self).wf() ==> final(self).wf(),
    {
        proof {
            if self.wf() && has_task(self@, column as int, index as int) {
                let t = task_at(self@, column as int, index as int);
                assert(self@[column as int].tasks[index as int] == t);
                lemma_add_tag_keeps_distinct(t.tags, tag@);
                lemma_ops_keep_tags_distinct(
                    self@,
                    column as int,
                    index as int,
                    0,
                    Seq::empty(),
                    Direction::Forward,
                    TaskModel { tags: with_tag(t.tags, tag@), ..t },
                );
            }
        }
        if column >= self.columns.len() || index >= self.columns[column].tasks.len() {
            return false;
        }
        let ghost before = self@;
        self.columns[column].tasks[index].add_tag(tag);
        proof {
            let t = task_at(before, column as int, index as int);
            assert(self.columns@[column as int]@.tasks =~= before[column as int].tasks.update(
                index as int,
                TaskModel { tags: with_tag(t.tags, tag@), ..t },
            ));
            assert(self@ =~= task_replaced(
                before,
                column as int,
                index as int,
                TaskModel { tags: with_tag(t.tags, tag@), ..t },
            ));
        }
        true
    }
}

impl Board {
    /// Removes the tag at a 1-based position from a task; invalid indices or
    /// an ordinal past the task's last tag change nothing. Returns whether a
    /// tag was removed.
    pub fn remove_tag_by_ordinal(&mut self, column: usize, index: usize, ordinal: usize) -> (r:
        bool)
        ensures
            final(self)@ == task_replaced(
                old(self)@,
                column as int,
                index as int,
                TaskModel {
                    tags: without_tag(
                        task_at(old(self)@, column as int, index as int).tags,
                        ordinal as int,
                    ),
                    ..task_at(old(self)@, column as int, index as int)
                },
            ),
            r == (has_task(old(self)@, column as int, index as int) && 1 <= ordinal <= task_at(
                old(self)@,
                column as int,
                index as int,
            ).tags.len()),
            old(self).wf() ==> final(self).wf(),
    {
        proof {
            if self.wf() && has_task(self@, column as int, index as int) {
                let t = task_at(self@, column as int, index as int);
                assert(self@[column as int].tasks[index as int] == t);
                lemma_remove_tag_keeps_distinct(t.tags, ordinal as int);
                lemma_ops_keep_tags_distinct(
                    self@,
                    column as int,
                    index as int,
                    0,
                    Seq::empty(),
                    Direction::Forward,
                    TaskModel { tags: without_tag(t.tags, ordinal as int), ..t },
                );
            }
        }
        if column >= self.columns.len() || index >= self.columns[column].tasks.len() {
            return false;
        }
        let ghost before = self@;
        let r = self.columns[column].tasks[index].remove_tag_by_ordinal(ordinal);
        proof {
            let t = task_at(before, column as int, index as int);
            let nt = TaskModel { tags: without_tag(t.tags, ordinal as int), ..t };
            assert(self.columns@[column as int]@.tasks =~= before[column as int].tasks.update(
                index as int,
                nt,
            ));
            assert(self@ =~= task_replaced(before, column as int, index as int, nt));
        }
        r
    }

    /// Replaces a task's title; invalid indices change nothing. Returns
    /// whether the task exists.
    pub fn set_title(&mut self, column: usize, index: usize, title: String) -> (r: bool)
        ensures
            final(self)@ == task_replaced(
                old(self)@,
                column as int,
                index as int,
                TaskModel { title: title@, ..task_at(old(self)@, column as int, index as int) },
            ),
            r == has_task(old(self)@, column as int, index as int),
            old(self).wf() ==> final(self).wf(),
    {
        proof {
            if self.wf() && has_task(self@, column as int, index as int) {
                let t = task_at(self@, column as int, index as int);
                assert(self@[column as int].tasks[index as int] == t);
                lemma_ops_keep_tags_distinct(
                    self@,
                    column as int,
                    index as int,
                    0,
                    Seq::empty(),
                    Direction::Forward,
                    TaskModel { title: title@, ..t },
                );
            }
        }
        if column >= self.columns.len() || index >= self.columns[column].tasks.len() {
            return false;
        }
        let ghost before = self@;
        self.columns[column].tasks[index].set_title(title);
        proof {
            let nt = TaskModel { title: title@, ..task_at(before, column as int, index as int) };
            assert(self.columns@[column as int]@.tasks =~= before[column as int].tasks.update(
                index as int,
                nt,
            ));
            assert(self@ =~= task_replaced(before, column as int, index as int, nt));
        }
        true
    }

    /// Replaces a task's description; invalid indices change nothing.
    /// Returns whether the task exists.
    pub fn set_description(&mut self, column: usize, index: usize, description: String) -> (r:
        bool)
        ensures
            final(self)@ == task_replaced(
                old(self)@,
                column as int,
                index as int,
                TaskModel {
                    description: description@,
                    ..task_at(old(self)@, column as int, index as int)
                },
            ),
            r == has_task(old(self)@, column as int, index as int),
            old(self).wf() ==> final(self).wf(),
    {
        proof {
            if self.wf() && has_task(self@, column as int, index as int) {
                let t = task_at(self@, column as int, index as int);
                assert(self@[column as int].tasks[index as int] == t);
                lemma_ops_keep_tags_distinct(
                    self@,
                    column as int,
                    index as int,
                    0,
                    Seq::empty(),
                    Direction::Forward,
                    TaskModel { description: description@, ..t },
                );
            }
        }
        if column >= self.columns.len() || index >= self.columns[column].tasks.len() {
            return false;
        }
        let ghost before = self@;
        self.columns[column].tasks[index].set_description(description);
        proof {
            let nt = TaskModel {
                description: description@,
                ..task_at(before, column as int, index as int)
            };
            assert(self.columns@[column as int]@.tasks =~= before[column as int].tasks.update(
                index as int,
                nt,
            ));
            assert(self@ =~= task_replaced(before, column as int, index as int, nt));
        }
        true
    }

    /// The number of tasks over all columns, saturating at `usize::MAX`.
    pub fn count_tasks(&self) -> (r: usize)
        ensures
            r == if column_tasks_total(self@) <= usize::MAX {
                column_tasks_total(self@)
            } else {
                usize::MAX as nat
            },
    {
        let mut total: usize = 0;
        let mut i: usize = 0;
        while i < self.columns.len()
            invariant
                0 <= i <= self.columns.len(),
                total == if column_tasks_total(self@.take(i as int)) <= usize::MAX {
                    column_tasks_total(self@.take(i as int))
                } else {
                    usize::MAX as nat
                },
            decreases self.columns.len() - i,
        {
            proof {
                assert(self@.take(i + 1).drop_last() =~= self@.take(i as int));
            }
            let n = self.columns[i].tasks.len();
            if total > usize::MAX - n {
                total = usize::MAX;
            } else {
                total = total + n;
            }
            i = i + 1;
        }
        proof {
            assert(self@.take(i as int) =~= self@);
        }
        total
    }
}

/// Adding a tag that a task already carries changes nothing: adding the same
/// tag twice leaves the same tags, and as many, as adding it once.
pub proof fn lemma_add_tag_twice(tags: Seq<Seq<char>>, tag: Seq<char>)
    ensures
        with_tag(with_tag(tags, tag), tag) == with_tag(tags, tag),
        with_tag(with_tag(tags, tag), tag).len() == with_tag(tags, tag).len(),
        with_tag(tags, tag).contains(tag),
{
    if !tags.contains(tag) {
        assert(tags.push(tag)[tags.len() as int] == tag);
    }
}

/// Adding a tag never creates a duplicate: tags that are pairwise distinct
/// stay so.
pub proof fn lemma_add_tag_keeps_distinct(tags: Seq<Seq<char>>, tag: Seq<char>)
    requires
        tags.no_duplicates(),
    ensures
        with_tag(tags, tag).no_duplicates(),
{
    if !tags.contains(tag) {
        let r = tags.push(tag);
        assert forall|i: int, j: int| 0 <= i < r.len() && 0 <= j < r.len() && i != j implies r[i]
            != r[j] by {
            if i == tags.len() {
                assert(tags[j] == r[j]);
            } else if j == tags.len() {
                assert(tags[i] == r[i]);
            }
        }
    }
}

/// Removing by ordinal: an ordinal past the last tag (or zero) changes
/// nothing; a valid ordinal `k` removes exactly the k-th tag, keeps the tags
/// before it and moves each later tag down by one position.
pub proof fn lemma_remove_tag_by_ordinal(tags: Seq<Seq<char>>, k: int)
    ensures
        (k > tags.len() || k < 1) ==> without_tag(tags, k) == tags,
        1 <= k <= tags.len() ==> {
            &&& without_tag(tags, k).len() == tags.len() - 1
            &&& forall|j: int| 0 <= j < k - 1 ==> #[trigger] without_tag(tags, k)[j] == tags[j]
            &&& forall|j: int|
                k - 1 <= j < tags.len() - 1 ==> #[trigger] without_tag(tags, k)[j] == tags[j + 1]
        },
{
}

/// Removing a column that still holds a task leaves the board unchanged.
pub proof fn lemma_remove_nonempty_column(b: Seq<ColumnModel>, i: int)
    requires
        0 <= i < b.len(),
        b[i].tasks.len() >= 1,
    ensures
        column_removed(b, i) == b,
{
}

/// The card colour of a task: red when urgent, else yellow for a bug, else
/// green for a feature, else white.
pub open spec fn task_color(tags: Seq<Seq<char>>) -> Color {
    if tags.contains("urgent"@) {
        Color::Red
    } else if tags.contains("bug"@) {
        Color::Yellow
    } else if tags.contains("feature"@) {
        Color::Green
    } else {
        Color::White
    }
}

impl Task {
    /// Whether the task carries the given tag.
    pub fn has_tag(&self, tag: &str) -> (r: bool)
        ensures
            r == self@.tags.contains(tag@),
    {
        let mut i: usize = 0;
        while i < self.tags.len()
            invariant
                0 <= i <= self.tags.len(),
                forall|j: int| 0 <= j < i ==> self.tags@[j]@ != tag@,
            decreases self.tags.len() - i,
        {
            if text_eq(self.tags[i].as_str(), tag) {
                proof {
                    assert(self@.tags[i as int] == tag@);
                }
                return true;
            }
            i = i + 1;
        }
        proof {
            assert forall|j: int| 0 <= j < self@.tags.len() implies self@.tags[j] != tag@ by {
                assert(self@.tags[j] == self.tags@[j]@);
            }
        }
        false
    }

    /// The card colour that the task's tags call for.
    pub fn get_color(&self) -> (r: Color)
        ensures
            r == task_color(self@.tags),
    {
        if self.has_tag("urgent") {
            Color::Red
        } else if self.has_tag("bug") {
            Color::Yellow
        } else if self.has_tag("feature") {
            Color::Green
        } else {
            Color::White
        }
    }
}

/// Putting back the task that is already there changes nothing.
pub proof fn lemma_task_replaced_same(b: Seq<ColumnModel>, c: int, i: int)
    ensures
        task_replaced(b, c, i, task_at(b, c, i)) == b,
{
    if has_task(b, c, i) {
        assert(b[c].tasks.update(i, task_at(b, c, i)) =~= b[c].tasks);
        assert(b.update(c, ColumnModel { tasks: b[c].tasks, ..b[c] }) =~= b);
    }
}

/// Moving a task forward out of the last column, or backward out of the
/// first, leaves the board unchanged.
pub proof fn lemma_move_task_past_ends(b: Seq<ColumnModel>, i: int)
    ensures
        b.len() > 0 ==> task_moved(b, b.len() - 1, i, neighbour(b.len() - 1, Direction::Forward))
            == b,
        task_moved(b, 0, i, neighbour(0, Direction::Backward)) == b,
{
}

/// Every task of the board carries each of its tags once.
pub open spec fn board_tags_distinct(b: Seq<ColumnModel>) -> bool {
    forall|c: int, i: int| has_task(b, c, i) ==> (#[trigger] b[c].tasks[i]).tags.no_duplicates()
}

/// Each structural change keeps every task's tags distinct, provided a
/// replaced task's tags are distinct.
pub proof fn lemma_ops_keep_tags_distinct(
    b: Seq<ColumnModel>,
    c: int,
    i: int,
    j: int,
    name: Seq<char>,
    dir: Direction,
    t: TaskModel,
)
    requires
        board_tags_distinct(b),
    ensures
        board_tags_distinct(column_added(b, name)),
        board_tags_distinct(column_renamed(b, c, name)),
        board_tags_distinct(column_removed(b, c)),
        board_tags_distinct(column_moved(b, c, dir)),
        board_tags_distinct(task_added(b, c, name)),
        board_tags_distinct(task_removed(b, c, i)),
        board_tags_distinct(task_moved(b, c, i, j)),
        t.tags.no_duplicates() ==> board_tags_distinct(task_replaced(b, c, i, t)),
{
    let e: Seq<Seq<char>> = Seq::empty();
    assert(e.no_duplicates());
    let r = column_removed(b, c);
    assert forall|x: int, y: int| has_task(r, x, y) implies
        (#[trigger] r[x].tasks[y]).tags.no_duplicates() by {
        if 0 <= c < b.len() && b[c].tasks.len() == 0 {
            if x < c {
                assert(has_task(b, x, y));
            } else {
                assert(has_task(b, x + 1, y));
            }
        }
    }
    let r = task_removed(b, c, i);
    assert forall|x: int, y: int| has_task(r, x, y) implies
        (#[trigger] r[x].tasks[y]).tags.no_duplicates() by {
        if has_task(b, c, i) && x == c {
            if y < i {
                assert(has_task(b, x, y));
            } else {
                assert(has_task(b, x, y + 1));
            }
        } else {
            assert(has_task(b, x, y));
        }
    }
    let m = task_moved(b, c, i, j);
    assert forall|x: int, y: int| has_task(m, x, y) implies
        (#[trigger] m[x].tasks[y]).tags.no_duplicates() by {
        if task_can_move(b, c, i, j) {
            if x == j {
                if y < b[j].tasks.len() {
                    assert(has_task(b, x, y));
                } else {
                    assert(has_task(b, c, i));
                }
            } else {
                assert(has_task(r, x, y));
            }
        } else {
            assert(has_task(b, x, y));
        }
    }
    let a = task_added(b, c, name);
    assert forall|x: int, y: int| has_task(a, x, y) implies
        (#[trigger] a[x].tasks[y]).tags.no_duplicates() by {
        if 0 <= c < b.len() && x == c && y == b[c].tasks.len() {
        } else {
            assert(has_task(b, x, y));
        }
    }
    let a = column_added(b, name);
    assert forall|x: int, y: int| has_task(a, x, y) implies
        (#[trigger] a[x].tasks[y]).tags.no_duplicates() by {
        assert(has_task(b, x, y));
    }
    let a = column_renamed(b, c, name);
    assert forall|x: int, y: int| has_task(a, x, y) implies
        (#[trigger] a[x].tasks[y]).tags.no_duplicates() by {
        assert(has_task(b, x, y));
    }
    let a = column_moved(b, c, dir);
    assert forall|x: int, y: int| has_task(a, x, y) implies
        (#[trigger] a[x].tasks[y]).tags.no_duplicates() by {
        if column_can_move(b, c, dir) {
            let n = neighbour(c, dir);
            if x == c {
                assert(has_task(b, n, y));
            } else if x == n {
                assert(has_task(b, c, y));
            } else {
                assert(has_task(b, x, y));
            }
        } else {
            assert(has_task(b, x, y));
        }
    }
    if t.tags.no_duplicates() {
        let a = task_replaced(b, c, i, t);
        assert forall|x: int, y: int| has_task(a, x, y) implies
            (#[trigger] a[x].tasks[y]).tags.no_duplicates() by {
            if has_task(b, c, i) && x == c && y == i {
            } else {
                assert(has_task(b, x, y));
            }
        }
    }
}

/// Removing a tag never creates a duplicate: tags that are pairwise
/// distinct stay so.
pub proof fn lemma_remove_tag_keeps_distinct(tags: Seq<Seq<char>>, ordinal: int)
    requires
        tags.no_duplicates(),
    ensures
        without_tag(tags, ordinal).no_duplicates(),
{
    if 1 <= ordinal <= tags.len() {
        let r = tags.remove(ordinal - 1);
        assert forall|i: int, j: int| 0 <= i < r.len() && 0 <= j < r.len() && i != j implies r[i]
            != r[j] by {
            let a = if i < ordinal - 1 { i } else { i + 1 };
            let b = if j < ordinal - 1 { j } else { j + 1 };
            assert(r[i] == tags[a] && r[j] == tags[b]);
        }
    }
}

} // verus!

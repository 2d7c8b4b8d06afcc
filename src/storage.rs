use vstd::prelude::*;
use crate::board::{
    board_tags_distinct, empty_column, fresh_task, has_task, with_tag, ColumnModel, TaskModel,
};
use crate::board::{Board, BoardColumn, Task};
use crate::project::{Config, ConfigModel};
use crate::text::{chars_of, push_char};

verus! {

// The stored text is a sequence of lines. Each line is one record: a kind
// letter followed by a piece of text. A backslash and a line break inside a
// record are written as `\\` and `\n`, so every record fits on its line.
//
// A board is written column by column: `C` and the column's name, then for
// each task `T` and its title, `D` and its description, and `G` and each
// tag. Preferences are written as `P` and the default project's name, and
// `S` and the palette's name, each only when set.

/// How one character of a record is written.
pub open spec fn escape_char(c: char) -> Seq<char> {
    if c == '\\' {
        seq!['\\', '\\']
    } else if c == '\n' {
        seq!['\\', 'n']
    } else {
        seq![c]
    }
}

/// How a record is written, without its line break.
pub open spec fn escape(s: Seq<char>) -> Seq<char>
    decreases s.len(),
{
    if s.len() == 0 {
        Seq::empty()
    } else {
        escape(s.drop_last()) + escape_char(s.last())
    }
}

/// The text of a sequence of records, one line each.
pub open spec fn join_lines(ls: Seq<Seq<char>>) -> Seq<char>
    decreases ls.len(),
{
    if ls.len() == 0 {
        Seq::empty()
    } else {
        join_lines(ls.drop_last()) + escape(ls.last()) + seq!['\n']
    }
}

/// Reading progress over the text: the records read, the record being
/// read, whether a backslash is pending, and whether the text was malformed.
pub ghost struct ScanState {
    pub lines: Seq<Seq<char>>,
    pub cur: Seq<char>,
    pub escaped: bool,
    pub bad: bool,
}

pub open spec fn scan_start() -> ScanState {
    ScanState { lines: Seq::empty(), cur: Seq::empty(), escaped: false, bad: false }
}

pub open spec fn scan_step(st: ScanState, c: char) -> ScanState {
    if st.bad {
        st
    } else if st.escaped {
        if c == '\\' {
            ScanState { cur: st.cur.push('\\'), escaped: false, ..st }
        } else if c == 'n' {
            ScanState { cur: st.cur.push('\n'), escaped: false, ..st }
        } else {
            ScanState { bad: true, ..st }
        }
    } else if c == '\\' {
        ScanState { escaped: true, ..st }
    } else if c == '\n' {
        ScanState { lines: st.lines.push(st.cur), cur: Seq::empty(), ..st }
    } else {
        ScanState { cur: st.cur.push(c), ..st }
    }
}

pub open spec fn scan_from(st: ScanState, s: Seq<char>) -> ScanState {
    s.fold_left(st, |a: ScanState, c: char| scan_step(a, c))
}

/// The records of a text: none if a backslash is followed by anything but a
/// backslash or `n`, or if the text does not end with a line break.
pub open spec fn split_lines(s: Seq<char>) -> Option<Seq<Seq<char>>> {
    let st = scan_from(scan_start(), s);
    if !st.bad && !st.escaped && st.cur.len() == 0 {
        Some(st.lines)
    } else {
        None
    }
}

pub proof fn lemma_fold_append<A, B>(a: Seq<A>, b: Seq<A>, x: B, f: spec_fn(B, A) -> B)
    ensures
        (a + b).fold_left(x, f) == b.fold_left(a.fold_left(x, f), f),
    decreases b.len(),
{
    if b.len() == 0 {
        assert(a + b =~= a);
    } else {
        assert((a + b).drop_last() =~= a + b.drop_last());
        lemma_fold_append(a, b.drop_last(), x, f);
    }
}

proof fn lemma_scan_escape(st: ScanState, s: Seq<char>)
    requires
        !st.bad,
        !st.escaped,
    ensures
        scan_from(st, escape(s)) == (ScanState { cur: st.cur + s, ..st }),
    decreases s.len(),
{
    let f = |a: ScanState, c: char| scan_step(a, c);
    if s.len() == 0 {
        assert(st.cur + s =~= st.cur);
    } else {
        lemma_scan_escape(st, s.drop_last());
        lemma_fold_append(escape(s.drop_last()), escape_char(s.last()), st, f);
        let mid = ScanState { cur: st.cur + s.drop_last(), ..st };
        let e = escape_char(s.last());
        reveal_with_fuel(Seq::fold_left, 3);
        if s.last() == '\\' || s.last() == '\n' {
            assert(e.drop_last() =~= seq!['\\']);
            assert(e.drop_last().drop_last() =~= Seq::<char>::empty());
        } else {
            assert(e.drop_last() =~= Seq::<char>::empty());
        }
        assert(mid.cur.push(s.last()) =~= st.cur + s);
    }
}

proof fn lemma_scan_join(ls: Seq<Seq<char>>)
    ensures
        scan_from(scan_start(), join_lines(ls)) == (ScanState { lines: ls, ..scan_start() }),
    decreases ls.len(),
{
    let f = |a: ScanState, c: char| scan_step(a, c);
    if ls.len() == 0 {
        assert(ls =~= Seq::<Seq<char>>::empty());
    } else {
        lemma_scan_join(ls.drop_last());
        let st = ScanState { lines: ls.drop_last(), ..scan_start() };
        let a = join_lines(ls.drop_last());
        let e = escape(ls.last());
        let n = seq!['\n'];
        assert(join_lines(ls) =~= a + (e + n));
        lemma_fold_append(a, e + n, scan_start(), f);
        assert(scan_from(scan_start(), join_lines(ls)) == scan_from(st, e + n));
        lemma_fold_append(e, n, st, f);
        lemma_scan_escape(st, ls.last());
        let st2 = ScanState { cur: st.cur + ls.last(), ..st };
        assert(scan_from(st, e + n) == scan_from(st2, n));
        assert(n.drop_last() =~= Seq::<char>::empty());
        reveal_with_fuel(Seq::fold_left, 2);
        assert(n.last() == '\n');
        assert(scan_from(st2, n) == scan_step(st2, '\n'));
        assert(Seq::<char>::empty() + ls.last() =~= ls.last());
        assert(ls.drop_last().push(ls.last()) =~= ls);
    }
}

/// Records written as lines are read back as the same records.
pub proof fn lemma_split_join(ls: Seq<Seq<char>>)
    ensures
        split_lines(join_lines(ls)) == Some(ls),
{
    lemma_scan_join(ls);
}

/// A record: its kind letter, then its text.
pub open spec fn record(kind: char, text: Seq<char>) -> Seq<char> {
    seq![kind] + text
}

pub open spec fn tag_records(tags: Seq<Seq<char>>) -> Seq<Seq<char>>
    decreases tags.len(),
{
    if tags.len() == 0 {
        Seq::empty()
    } else {
        tag_records(tags.drop_last()).push(record('G', tags.last()))
    }
}

pub open spec fn task_records(t: TaskModel) -> Seq<Seq<char>> {
    seq![record('T', t.title), record('D', t.description)] + tag_records(t.tags)
}

pub open spec fn tasks_records(ts: Seq<TaskModel>) -> Seq<Seq<char>>
    decreases ts.len(),
{
    if ts.len() == 0 {
        Seq::empty()
    } else {
        tasks_records(ts.drop_last()) + task_records(ts.last())
    }
}

pub open spec fn column_records(c: ColumnModel) -> Seq<Seq<char>> {
    seq![record('C', c.name)] + tasks_records(c.tasks)
}

/// The records of a board, column by column.
pub open spec fn board_records(b: Seq<ColumnModel>) -> Seq<Seq<char>>
    decreases b.len(),
{
    if b.len() == 0 {
        Seq::empty()
    } else {
        board_records(b.drop_last()) + column_records(b.last())
    }
}

/// The stored text of a board.
pub open spec fn board_text(b: Seq<ColumnModel>) -> Seq<char> {
    join_lines(board_records(b))
}

/// Loading progress over the records: the board so far, and whether a
/// record was out of place.
pub ghost struct LoadState {
    pub board: Seq<ColumnModel>,
    pub bad: bool,
}

/// The board with its last column's tasks replaced.
pub open spec fn with_last_tasks(b: Seq<ColumnModel>, ts: Seq<TaskModel>) -> Seq<ColumnModel> {
    b.update(b.len() - 1, ColumnModel { tasks: ts, ..b.last() })
}

/// The board with the last task of its last column replaced.
pub open spec fn with_last_task(b: Seq<ColumnModel>, t: TaskModel) -> Seq<ColumnModel> {
    with_last_tasks(b, b.last().tasks.update(b.last().tasks.len() - 1, t))
}

/// One record read into the board: a column starts a new column, a title
/// starts a new task in the last column, and a description or a tag goes to
/// the last task (a tag it already carries is not added again). Anything
/// else, a task record before any column, or a description or tag before
/// any task, is malformed.
pub open spec fn load_step(st: LoadState, r: Seq<char>) -> LoadState {
    let b = st.board;
    let text = r.subrange(1, r.len() as int);
    if st.bad || r.len() == 0 {
        LoadState { bad: true, ..st }
    } else if r[0] == 'C' {
        LoadState { board: b.push(empty_column(text)), ..st }
    } else if r[0] == 'T' && b.len() > 0 {
        LoadState { board: with_last_tasks(b, b.last().tasks.push(fresh_task(text))), ..st }
    } else if r[0] == 'D' && b.len() > 0 && b.last().tasks.len() > 0 {
        LoadState {
            board: with_last_task(b, TaskModel { description: text, ..b.last().tasks.last() }),
            ..st
        }
    } else if r[0] == 'G' && b.len() > 0 && b.last().tasks.len() > 0 {
        LoadState {
            board: with_last_task(
                b,
                TaskModel {
                    tags: with_tag(b.last().tasks.last().tags, text),
                    ..b.last().tasks.last()
                },
            ),
            ..st
        }
    } else {
        LoadState { bad: true, ..st }
    }
}

pub open spec fn load_from(st: LoadState, rs: Seq<Seq<char>>) -> LoadState {
    rs.fold_left(st, |a: LoadState, r: Seq<char>| load_step(a, r))
}

pub open spec fn load_start() -> LoadState {
    LoadState { board: Seq::empty(), bad: false }
}

/// The board a stored text holds, if it is well formed.
pub open spec fn load_board(s: Seq<char>) -> Option<Seq<ColumnModel>> {
    match split_lines(s) {
        Some(rs) => {
            let st = load_from(load_start(), rs);
            if st.bad {
                None
            } else {
                Some(st.board)
            }
        },
        None => None,
    }
}

proof fn lemma_one_step<B, A>(x: B, a: A, f: spec_fn(B, A) -> B)
    ensures
        seq![a].fold_left(x, f) == f(x, a),
{
    reveal_with_fuel(Seq::fold_left, 2);
    assert(seq![a].drop_last() =~= Seq::<A>::empty());
}

proof fn lemma_last_task_twice(b: Seq<ColumnModel>, t1: TaskModel, t2: TaskModel)
    requires
        b.len() > 0,
        b.last().tasks.len() > 0,
    ensures
        with_last_task(with_last_task(b, t1), t2) == with_last_task(b, t2),
        with_last_task(b, t1).len() == b.len(),
        with_last_task(b, t1).last().tasks.len() == b.last().tasks.len(),
        with_last_task(b, t1).last().tasks.last() == t1,
{
    let m = with_last_task(b, t1);
    assert(m.last().tasks.update(m.last().tasks.len() - 1, t2) =~= b.last().tasks.update(
        b.last().tasks.len() - 1,
        t2,
    ));
    assert(with_last_task(m, t2) =~= with_last_task(b, t2));
}

proof fn lemma_load_tags(b: Seq<ColumnModel>, t: TaskModel, tags: Seq<Seq<char>>)
    requires
        b.len() > 0,
        b.last().tasks.len() > 0,
        b.last().tasks.last() == t,
        (t.tags + tags).no_duplicates(),
    ensures
        load_from(LoadState { board: b, bad: false }, tag_records(tags)) == (LoadState {
            board: with_last_task(b, TaskModel { tags: t.tags + tags, ..t }),
            bad: false,
        }),
    decreases tags.len(),
{
    let f = |a: LoadState, r: Seq<char>| load_step(a, r);
    let st = LoadState { board: b, bad: false };
    if tags.len() == 0 {
        assert(t.tags + tags =~= t.tags);
        assert(TaskModel { tags: t.tags, ..t } == t);
        assert(b.last().tasks.update(b.last().tasks.len() - 1, t) =~= b.last().tasks);
        assert(with_last_task(b, t) =~= b);
    } else {
        let all = t.tags + tags;
        let pre = t.tags + tags.drop_last();
        assert(all =~= pre.push(tags.last()));
        assert(pre.no_duplicates()) by {
            assert forall|i: int, j: int| 0 <= i < pre.len() && 0 <= j < pre.len() && i != j implies pre[i]
                != pre[j] by {
                assert(pre[i] == all[i] && pre[j] == all[j]);
            }
        }
        assert(!pre.contains(tags.last())) by {
            if pre.contains(tags.last()) {
                let j = choose|j: int| 0 <= j < pre.len() && pre[j] == tags.last();
                assert(all[j] == all[all.len() - 1]);
            }
        }
        assert(with_tag(pre, tags.last()) == pre.push(tags.last()));
        lemma_load_tags(b, t, tags.drop_last());
        let mid = with_last_task(b, TaskModel { tags: t.tags + tags.drop_last(), ..t });
        lemma_last_task_twice(
            b,
            TaskModel { tags: t.tags + tags.drop_last(), ..t },
            TaskModel { tags: t.tags + tags, ..t },
        );
        lemma_fold_append(tag_records(tags.drop_last()), seq![record('G', tags.last())], st, f);
        assert(tag_records(tags) =~= tag_records(tags.drop_last()) + seq![record('G', tags.last())]);
        lemma_one_step(LoadState { board: mid, bad: false }, record('G', tags.last()), f);
        assert(record('G', tags.last()).subrange(1, record('G', tags.last()).len() as int)
            =~= tags.last());
        assert((t.tags + tags.drop_last()).push(tags.last()) =~= t.tags + tags);
    }
}

proof fn lemma_load_task(b: Seq<ColumnModel>, t: TaskModel)
    requires
        b.len() > 0,
        t.tags.no_duplicates(),
    ensures
        load_from(LoadState { board: b, bad: false }, task_records(t)) == (LoadState {
            board: with_last_tasks(b, b.last().tasks.push(t)),
            bad: false,
        }),
{
    let f = |a: LoadState, r: Seq<char>| load_step(a, r);
    let rt = record('T', t.title);
    let rd = record('D', t.description);
    assert(rt.subrange(1, rt.len() as int) =~= t.title);
    assert(rd.subrange(1, rd.len() as int) =~= t.description);
    let b1 = with_last_tasks(b, b.last().tasks.push(fresh_task(t.title)));
    assert(b1.last().tasks.last() == fresh_task(t.title));
    let t2 = TaskModel { description: t.description, ..fresh_task(t.title) };
    let b2 = with_last_task(b1, t2);
    lemma_fold_append(seq![rt, rd], tag_records(t.tags), LoadState { board: b, bad: false }, f);
    lemma_fold_append(seq![rt], seq![rd], LoadState { board: b, bad: false }, f);
    assert(seq![rt] + seq![rd] =~= seq![rt, rd]);
    lemma_one_step(LoadState { board: b, bad: false }, rt, f);
    lemma_one_step(LoadState { board: b1, bad: false }, rd, f);
    lemma_last_task_twice(b1, t2, TaskModel { tags: t2.tags + t.tags, ..t2 });
    assert(t2.tags + t.tags =~= t.tags);
    lemma_load_tags(b2, t2, t.tags);
    assert(TaskModel { tags: t2.tags + t.tags, ..t2 } == t);
    assert(b1.last().tasks.update(b1.last().tasks.len() - 1, t) =~= b.last().tasks.push(t));
    assert(with_last_task(b1, t) =~= with_last_tasks(b, b.last().tasks.push(t)));
}

proof fn lemma_load_tasks(b: Seq<ColumnModel>, ts: Seq<TaskModel>)
    requires
        b.len() > 0,
        forall|k: int| 0 <= k < ts.len() ==> (#[trigger] ts[k]).tags.no_duplicates(),
    ensures
        load_from(LoadState { board: b, bad: false }, tasks_records(ts)) == (LoadState {
            board: with_last_tasks(b, b.last().tasks + ts),
            bad: false,
        }),
    decreases ts.len(),
{
    let f = |a: LoadState, r: Seq<char>| load_step(a, r);
    if ts.len() == 0 {
        assert(b.last().tasks + ts =~= b.last().tasks);
        assert(with_last_tasks(b, b.last().tasks) =~= b);
    } else {
        lemma_load_tasks(b, ts.drop_last());
        let mid = with_last_tasks(b, b.last().tasks + ts.drop_last());
        lemma_fold_append(
            tasks_records(ts.drop_last()),
            task_records(ts.last()),
            LoadState { board: b, bad: false },
            f,
        );
        lemma_load_task(mid, ts.last());
        assert(mid.last().tasks.push(ts.last()) =~= b.last().tasks + ts);
        assert(with_last_tasks(mid, b.last().tasks + ts) =~= with_last_tasks(
            b,
            b.last().tasks + ts,
        ));
    }
}

proof fn lemma_load_column(b: Seq<ColumnModel>, c: ColumnModel)
    requires
        forall|k: int| 0 <= k < c.tasks.len() ==> (#[trigger] c.tasks[k]).tags.no_duplicates(),
    ensures
        load_from(LoadState { board: b, bad: false }, column_records(c)) == (LoadState {
            board: b.push(c),
            bad: false,
        }),
{
    let f = |a: LoadState, r: Seq<char>| load_step(a, r);
    let rc = record('C', c.name);
    assert(rc.subrange(1, rc.len() as int) =~= c.name);
    lemma_fold_append(seq![rc], tasks_records(c.tasks), LoadState { board: b, bad: false }, f);
    lemma_one_step(LoadState { board: b, bad: false }, rc, f);
    let b1 = b.push(empty_column(c.name));
    lemma_load_tasks(b1, c.tasks);
    assert(b1.last().tasks + c.tasks =~= c.tasks);
    assert(with_last_tasks(b1, c.tasks) =~= b.push(c));
}

proof fn lemma_load_records(b: Seq<ColumnModel>)
    requires
        board_tags_distinct(b),
    ensures
        load_from(load_start(), board_records(b)) == (LoadState { board: b, bad: false }),
    decreases b.len(),
{
    let f = |a: LoadState, r: Seq<char>| load_step(a, r);
    if b.len() == 0 {
        assert(b =~= Seq::<ColumnModel>::empty());
    } else {
        assert(board_tags_distinct(b.drop_last())) by {
            assert forall|c: int, i: int| has_task(b.drop_last(), c, i) implies (
            #[trigger] b.drop_last()[c].tasks[i]).tags.no_duplicates() by {
                assert(has_task(b, c, i));
            }
        }
        assert forall|k: int| 0 <= k < b.last().tasks.len() implies (
        #[trigger] b.last().tasks[k]).tags.no_duplicates() by {
            assert(has_task(b, b.len() - 1, k));
        }
        lemma_load_records(b.drop_last());
        lemma_fold_append(board_records(b.drop_last()), column_records(b.last()), load_start(), f);
        lemma_load_column(b.drop_last(), b.last());
        assert(b.drop_last().push(b.last()) =~= b);
    }
}

/// Any board whose tasks carry each tag once (every board the operations
/// build), written to text and read back, is the same board.
pub proof fn lemma_board_round_trip(b: Seq<ColumnModel>)
    requires
        board_tags_distinct(b),
    ensures
        load_board(board_text(b)) == Some(b),
{
    lemma_split_join(board_records(b));
    lemma_load_records(b);
}

/// The records of the preferences: the default project, then the palette,
/// each only when set.
pub open spec fn config_records(c: ConfigModel) -> Seq<Seq<char>> {
    let p = match c.default_project {
        Some(n) => seq![record('P', n)],
        None => Seq::empty(),
    };
    let t = match c.theme {
        Some(n) => seq![record('S', n)],
        None => Seq::empty(),
    };
    p + t
}

/// The stored text of the preferences.
pub open spec fn config_text(c: ConfigModel) -> Seq<char> {
    join_lines(config_records(c))
}

/// Loading progress over preference records.
pub ghost struct ConfigLoadState {
    pub config: ConfigModel,
    pub bad: bool,
}

pub open spec fn config_step(st: ConfigLoadState, r: Seq<char>) -> ConfigLoadState {
    let text = r.subrange(1, r.len() as int);
    if st.bad || r.len() == 0 {
        ConfigLoadState { bad: true, ..st }
    } else if r[0] == 'P' {
        ConfigLoadState { config: ConfigModel { default_project: Some(text), ..st.config }, ..st }
    } else if r[0] == 'S' {
        ConfigLoadState { config: ConfigModel { theme: Some(text), ..st.config }, ..st }
    } else {
        ConfigLoadState { bad: true, ..st }
    }
}

pub open spec fn config_start() -> ConfigLoadState {
    ConfigLoadState { config: ConfigModel { default_project: None, theme: None }, bad: false }
}

pub open spec fn config_load_from(st: ConfigLoadState, rs: Seq<Seq<char>>) -> ConfigLoadState {
    rs.fold_left(st, |a: ConfigLoadState, r: Seq<char>| config_step(a, r))
}

/// The preferences a stored text holds, if it is well formed.
pub open spec fn load_config(s: Seq<char>) -> Option<ConfigModel> {
    match split_lines(s) {
        Some(rs) => {
            let st = config_load_from(config_start(), rs);
            if st.bad {
                None
            } else {
                Some(st.config)
            }
        },
        None => None,
    }
}

/// Any preferences, written to text and read back, are the same.
pub proof fn lemma_config_round_trip(c: ConfigModel)
    ensures
        load_config(config_text(c)) == Some(c),
{
    let f = |a: ConfigLoadState, r: Seq<char>| config_step(a, r);
    lemma_split_join(config_records(c));
    let p = match c.default_project {
        Some(n) => seq![record('P', n)],
        None => Seq::empty(),
    };
    let t = match c.theme {
        Some(n) => seq![record('S', n)],
        None => Seq::empty(),
    };
    lemma_fold_append(p, t, config_start(), f);
    let mid = ConfigLoadState {
        config: ConfigModel { default_project: c.default_project, theme: None },
        bad: false,
    };
    match c.default_project {
        Some(n) => {
            lemma_one_step(config_start(), record('P', n), f);
            assert(record('P', n).subrange(1, record('P', n).len() as int) =~= n);
        },
        None => {},
    }
    assert(p.fold_left(config_start(), f) == mid);
    match c.theme {
        Some(n) => {
            lemma_one_step(mid, record('S', n), f);
            assert(record('S', n).subrange(1, record('S', n).len() as int) =~= n);
        },
        None => {},
    }
}

pub open spec fn record_views(v: Seq<Vec<char>>) -> Seq<Seq<char>> {
    v.map_values(|r: Vec<char>| r@)
}

/// A record built from its kind letter and its text.
fn make_record(kind: char, text: &String) -> (r: Vec<char>)
    ensures
        r@ == record(kind, text@),
{
    let mut r: Vec<char> = Vec::new();
    r.push(kind);
    let mut cs = chars_of(text.as_str());
    r.append(&mut cs);
    proof {
        assert(r@ =~= record(kind, text@));
    }
    r
}

fn push_record(out: &mut Vec<Vec<char>>, kind: char, text: &String)
    ensures
        record_views(final(out)@) == record_views(old(out)@).push(record(kind, text@)),
{
    let r = make_record(kind, text);
    let ghost before = out@;
    out.push(r);
    proof {
        assert(record_views(out@) =~= record_views(before).push(record(kind, text@)));
    }
}

/// The records of a task.
fn task_record_list(t: &Task, out: &mut Vec<Vec<char>>)
    ensures
        record_views(final(out)@) == record_views(old(out)@) + task_records(t@),
{
    let ghost start = record_views(out@);
    push_record(out, 'T', &t.title);
    push_record(out, 'D', &t.description);
    let ghost head = seq![record('T', t.title@), record('D', t.description@)];
    proof {
        assert(record_views(out@) =~= start + head + tag_records(t@.tags.take(0)));
    }
    let mut g: usize = 0;
    while g < t.tags.len()
        invariant
            0 <= g <= t.tags.len(),
            record_views(out@) == start + head + tag_records(t@.tags.take(g as int)),
        decreases t.tags.len() - g,
    {
        proof {
            assert(t@.tags.take(g + 1).drop_last() =~= t@.tags.take(g as int));
            assert(t@.tags.take(g + 1).last() == t.tags@[g as int]@);
        }
        push_record(out, 'G', &t.tags[g]);
        g = g + 1;
        proof {
            assert(record_views(out@) =~= start + head + tag_records(t@.tags.take(g as int)));
        }
    }
    proof {
        assert(t@.tags.take(g as int) =~= t@.tags);
        assert(start + head + tag_records(t@.tags) =~= start + task_records(t@));
    }
}

/// The records of a column.
fn column_record_list(c: &BoardColumn, out: &mut Vec<Vec<char>>)
    ensures
        record_views(final(out)@) == record_views(old(out)@) + column_records(c@),
{
    let ghost start = record_views(out@);
    push_record(out, 'C', &c.name);
    let ghost head = seq![record('C', c.name@)];
    proof {
        assert(c@.tasks.take(0) =~= Seq::<TaskModel>::empty());
        assert(record_views(out@) =~= start + head + tasks_records(c@.tasks.take(0)));
    }
    let mut k: usize = 0;
    while k < c.tasks.len()
        invariant
            0 <= k <= c.tasks.len(),
            record_views(out@) == start + head + tasks_records(c@.tasks.take(k as int)),
        decreases c.tasks.len() - k,
    {
        proof {
            assert(c@.tasks.take(k + 1).drop_last() =~= c@.tasks.take(k as int));
            assert(c@.tasks.take(k + 1).last() == c.tasks@[k as int]@);
        }
        task_record_list(&c.tasks[k], out);
        k = k + 1;
        proof {
            assert(record_views(out@) =~= start + head + tasks_records(c@.tasks.take(k as int)));
        }
    }
    proof {
        assert(c@.tasks.take(k as int) =~= c@.tasks);
        assert(start + head + tasks_records(c@.tasks) =~= start + column_records(c@));
    }
}

/// Writes records as text, one line each.
fn join_records(recs: &Vec<Vec<char>>) -> (r: String)
    ensures
        r@ == join_lines(record_views(recs@)),
{
    let mut out = String::new();
    let mut k: usize = 0;
    while k < recs.len()
        invariant
            0 <= k <= recs.len(),
            out@ == join_lines(record_views(recs@).take(k as int)),
        decreases recs.len() - k,
    {
        let rec = &recs[k];
        let ghost base = out@;
        let mut j: usize = 0;
        while j < rec.len()
            invariant
                0 <= j <= rec.len(),
                rec == recs@[k as int],
                out@ == base + escape(rec@.take(j as int)),
            decreases rec.len() - j,
        {
            let ch = rec[j];
            if ch == '\\' {
                push_char(&mut out, '\\');
                push_char(&mut out, '\\');
            } else if ch == '\n' {
                push_char(&mut out, '\\');
                push_char(&mut out, 'n');
            } else {
                push_char(&mut out, ch);
            }
            proof {
                assert(rec@.take(j + 1).drop_last() =~= rec@.take(j as int));
                assert(out@ =~= base + escape(rec@.take(j + 1)));
            }
            j = j + 1;
        }
        push_char(&mut out, '\n');
        proof {
            assert(rec@.take(j as int) =~= rec@);
            let vs = record_views(recs@);
            assert(vs.take(k + 1).drop_last() =~= vs.take(k as int));
            assert(out@ =~= join_lines(vs.take(k + 1)));
        }
        k = k + 1;
    }
    proof {
        assert(record_views(recs@).take(k as int) =~= record_views(recs@));
    }
    out
}

/// The stored text of a board.
pub fn encode_board(b: &Board) -> (r: String)
    ensures
        r@ == board_text(b@),
{
    let mut recs: Vec<Vec<char>> = Vec::new();
    proof {
        assert(record_views(recs@) =~= board_records(b@.take(0)));
    }
    let mut k: usize = 0;
    while k < b.columns.len()
        invariant
            0 <= k <= b.columns.len(),
            record_views(recs@) == board_records(b@.take(k as int)),
        decreases b.columns.len() - k,
    {
        proof {
            assert(b@.take(k + 1).drop_last() =~= b@.take(k as int));
            assert(b@.take(k + 1).last() == b.columns@[k as int]@);
        }
        column_record_list(&b.columns[k], &mut recs);
        k = k + 1;
    }
    proof {
        assert(b@.take(k as int) =~= b@);
    }
    join_records(&recs)
}

/// The stored text of the preferences.
pub fn encode_config(c: &Config) -> (r: String)
    ensures
        r@ == config_text(c@),
{
    let mut recs: Vec<Vec<char>> = Vec::new();
    proof {
        assert(record_views(recs@) =~= Seq::<Seq<char>>::empty());
    }
    match &c.default_project {
        Some(n) => push_record(&mut recs, 'P', n),
        None => {},
    }
    match &c.theme {
        Some(n) => push_record(&mut recs, 'S', n),
        None => {},
    }
    proof {
        assert(record_views(recs@) =~= config_records(c@));
    }
    join_records(&recs)
}

/// A state that every step keeps is kept by any fold.
pub proof fn lemma_fold_fixed<A, B>(s: Seq<A>, x: B, f: spec_fn(B, A) -> B)
    requires
        forall|a: A| #[trigger] f(x, a) == x,
    ensures
        s.fold_left(x, f) == x,
    decreases s.len(),
{
    if s.len() > 0 {
        lemma_fold_fixed(s.drop_last(), x, f);
    }
}

/// The fold over a prefix one longer is one more step.
proof fn lemma_fold_take<A, B>(s: Seq<A>, i: int, x: B, f: spec_fn(B, A) -> B)
    requires
        0 <= i < s.len(),
    ensures
        s.take(i + 1).fold_left(x, f) == f(s.take(i).fold_left(x, f), s[i]),
{
    assert(s.take(i + 1).drop_last() =~= s.take(i));
}

/// Once malformed, the rest of the fold stays malformed.
proof fn lemma_fold_rest<A, B>(s: Seq<A>, i: int, x: B, f: spec_fn(B, A) -> B)
    requires
        0 <= i <= s.len(),
        forall|a: A| #[trigger] f(s.take(i).fold_left(x, f), a) == s.take(i).fold_left(x, f),
    ensures
        s.fold_left(x, f) == s.take(i).fold_left(x, f),
{
    lemma_fold_append(s.take(i), s.skip(i), x, f);
    assert(s.take(i) + s.skip(i) =~= s);
    lemma_fold_fixed(s.skip(i), s.take(i).fold_left(x, f), f);
}

/// The records of a text, or none if it is malformed.
fn split_records(text: &str) -> (r: Option<Vec<Vec<char>>>)
    ensures
        r matches Some(v) ==> split_lines(text@) == Some(record_views(v@)),
        r is None ==> split_lines(text@) is None,
{
    let cs = chars_of(text);
    let mut lines: Vec<Vec<char>> = Vec::new();
    let mut cur: Vec<char> = Vec::new();
    let mut escaped = false;
    let mut i: usize = 0;
    proof {
        assert(record_views(lines@) =~= Seq::<Seq<char>>::empty());
        assert(cur@ =~= Seq::<char>::empty());
        assert(cs@.take(0) =~= Seq::<char>::empty());
    }
    while i < cs.len()
        invariant
            0 <= i <= cs.len(),
            cs@ == text@,
            scan_from(scan_start(), cs@.take(i as int)) == (ScanState {
                lines: record_views(lines@),
                cur: cur@,
                escaped,
                bad: false,
            }),
        decreases cs.len() - i,
    {
        let ch = cs[i];
        proof {
            lemma_fold_take(cs@, i as int, scan_start(), |a: ScanState, c: char| scan_step(a, c));
        }
        if escaped {
            if ch == '\\' {
                cur.push('\\');
                escaped = false;
            } else if ch == 'n' {
                cur.push('\n');
                escaped = false;
            } else {
                proof {
                    lemma_fold_rest(cs@, i + 1, scan_start(), |a: ScanState, c: char| scan_step(a, c));
                }
                return None;
            }
        } else if ch == '\\' {
            escaped = true;
        } else if ch == '\n' {
            let ghost before = lines@;
            let ghost c0 = cur@;
            lines.push(cur);
            proof {
                assert(record_views(lines@) =~= record_views(before).push(c0));
            }
            cur = Vec::new();
            proof {
                assert(cur@ =~= Seq::<char>::empty());
            }
        } else {
            cur.push(ch);
        }
        i = i + 1;
    }
    proof {
        assert(cs@.take(i as int) =~= cs@);
    }
    if escaped || cur.len() > 0 {
        return None;
    }
    Some(lines)
}

/// The text of a record after its kind letter.
fn record_text(rec: &Vec<char>) -> (r: String)
    requires
        rec@.len() > 0,
    ensures
        r@ == rec@.subrange(1, rec@.len() as int),
{
    let mut out = String::new();
    let mut j: usize = 1;
    while j < rec.len()
        invariant
            1 <= j <= rec.len(),
            out@ == rec@.subrange(1, j as int),
        decreases rec.len() - j,
    {
        push_char(&mut out, rec[j]);
        proof {
            assert(out@ =~= rec@.subrange(1, j + 1));
        }
        j = j + 1;
    }
    out
}

/// Reads records into a board.
fn load_record_list(recs: &Vec<Vec<char>>) -> (r: Option<Board>)
    ensures
        r matches Some(b) ==> load_from(load_start(), record_views(recs@)) == (LoadState {
            board: b@,
            bad: false,
        }),
        r matches Some(b) ==> b.wf(),
        r is None ==> load_from(load_start(), record_views(recs@)).bad,
{
    let ghost rv = record_views(recs@);
    let mut board = Board::empty();
    let mut k: usize = 0;
    proof {
        assert(rv.take(0) =~= Seq::<Seq<char>>::empty());
    }
    while k < recs.len()
        invariant
            0 <= k <= recs.len(),
            rv == record_views(recs@),
            load_from(load_start(), rv.take(k as int)) == (LoadState { board: board@, bad: false }),
            board.wf(),
        decreases recs.len() - k,
    {
        let rec = &recs[k];
        proof {
            lemma_fold_take(rv, k as int, load_start(), |a: LoadState, r: Seq<char>| load_step(a, r));
            assert(rv[k as int] == rec@);
        }
        if rec.len() == 0 {
            proof {
                lemma_fold_rest(rv, k + 1, load_start(), |a: LoadState, r: Seq<char>| load_step(a, r));
            }
            return None;
        }
        let kind = rec[0];
        let text = record_text(rec);
        let n = board.columns.len();
        let ghost b0 = board@;
        if kind == 'C' {
            board.add_column(text);
        } else if kind == 'T' && n > 0 {
            board.add_task(n - 1, text);
        } else if kind == 'D' && n > 0 && board.columns[n - 1].tasks.len() > 0 {
            let m = board.columns[n - 1].tasks.len();
            board.set_description(n - 1, m - 1, text);
            proof {
                assert(board@ =~= with_last_task(
                    b0,
                    TaskModel { description: text@, ..b0.last().tasks.last() },
                ));
            }
        } else if kind == 'G' && n > 0 && board.columns[n - 1].tasks.len() > 0 {
            let m = board.columns[n - 1].tasks.len();
            board.add_tag(n - 1, m - 1, text);
            proof {
                let t0 = b0.last().tasks.last();
                assert(board@ =~= with_last_task(
                    b0,
                    TaskModel { tags: with_tag(t0.tags, text@), ..t0 },
                ));
            }
        } else {
            proof {
                lemma_fold_rest(rv, k + 1, load_start(), |a: LoadState, r: Seq<char>| load_step(a, r));
            }
            return None;
        }
        k = k + 1;
    }
    proof {
        assert(rv.take(k as int) =~= rv);
    }
    Some(board)
}

/// The board a stored text holds, or none if the text is malformed.
pub fn decode_board(text: &str) -> (r: Option<Board>)
    ensures
        r matches Some(b) ==> load_board(text@) == Some(b@) && b.wf(),
        r is None ==> load_board(text@) is None,
{
    match split_records(text) {
        Some(recs) => load_record_list(&recs),
        None => None,
    }
}

/// Reads records into preferences.
fn load_config_list(recs: &Vec<Vec<char>>) -> (r: Option<Config>)
    ensures
        r matches Some(c) ==> config_load_from(config_start(), record_views(recs@)) == (
        ConfigLoadState { config: c@, bad: false }),
        r is None ==> config_load_from(config_start(), record_views(recs@)).bad,
{
    let ghost rv = record_views(recs@);
    let mut config = Config::new();
    let mut k: usize = 0;
    proof {
        assert(rv.take(0) =~= Seq::<Seq<char>>::empty());
    }
    while k < recs.len()
        invariant
            0 <= k <= recs.len(),
            rv == record_views(recs@),
            config_load_from(config_start(), rv.take(k as int)) == (ConfigLoadState {
                config: config@,
                bad: false,
            }),
        decreases recs.len() - k,
    {
        let rec = &recs[k];
        proof {
            lemma_fold_take(
                rv,
                k as int,
                config_start(),
                |a: ConfigLoadState, r: Seq<char>| config_step(a, r),
            );
            assert(rv[k as int] == rec@);
        }
        if rec.len() == 0 || (rec[0] != 'P' && rec[0] != 'S') {
            proof {
                lemma_fold_rest(
                    rv,
                    k + 1,
                    config_start(),
                    |a: ConfigLoadState, r: Seq<char>| config_step(a, r),
                );
            }
            return None;
        }
        let text = record_text(rec);
        if rec[0] == 'P' {
            config.default_project = Some(text);
        } else {
            config.theme = Some(text);
        }
        k = k + 1;
    }
    proof {
        assert(rv.take(k as int) =~= rv);
    }
    Some(config)
}

/// The preferences a stored text holds, or none if the text is malformed.
pub fn decode_config(text: &str) -> (r: Option<Config>)
    ensures
        r matches Some(c) ==> load_config(text@) == Some(c@),
        r is None ==> load_config(text@) is None,
{
    match split_records(text) {
        Some(recs) => load_config_list(&recs),
        None => None,
    }
}

} // verus!

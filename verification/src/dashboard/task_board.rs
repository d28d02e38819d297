//! Task boards: their columns, which tasks each column shows and in what
//! order, moving tasks between columns, and answering task actions.
//!
//! The tasks themselves are kept by the task manager, outside; this module
//! receives them as plain records.

use super::{BoardVisibility, TaskBoardConfig, TaskColumn};
use crate::text::{eq_str, eq_string};
use vstd::prelude::*;

verus! {

/// Where a task is in its life.
#[derive(Debug, Clone, Copy, PartialEq, Eq, Structural)]
pub enum TaskStatus {
    Todo,
    InProgress,
    Review,
    Completed,
    Blocked,
    OnHold,
    Cancelled,
    Failed,
}

/// How important a task is, from least to most.
#[derive(Debug, Clone, Copy, PartialEq, Eq, Structural)]
pub enum TaskImportance {
    Low,
    Medium,
    High,
    Critical,
    Urgent,
}

pub open spec fn importance_rank(p: TaskImportance) -> nat {
    match p {
        TaskImportance::Low => 0,
        TaskImportance::Medium => 1,
        TaskImportance::High => 2,
        TaskImportance::Critical => 3,
        TaskImportance::Urgent => 4,
    }
}

fn importance_number(p: TaskImportance) -> (n: u8)
    ensures
        n == importance_rank(p),
{
    match p {
        TaskImportance::Low => 0,
        TaskImportance::Medium => 1,
        TaskImportance::High => 2,
        TaskImportance::Critical => 3,
        TaskImportance::Urgent => 4,
    }
}

/// What a board needs of a task.
#[derive(Debug)]
pub struct BoardTask {
    pub id: String,
    pub status: TaskStatus,
    pub priority: TaskImportance,
    /// When the task was created, in seconds since the epoch
    pub created_at: u64,
}

/// A task as plain values.
pub struct BoardTaskView {
    pub id: Seq<char>,
    pub status: TaskStatus,
    pub priority: TaskImportance,
    pub created_at: u64,
}

impl View for BoardTask {
    type V = BoardTaskView;

    open spec fn view(&self) -> BoardTaskView {
        BoardTaskView { id: self.id@, status: self.status, priority: self.priority, created_at: self.created_at }
    }
}

impl Clone for BoardTask {
    fn clone(&self) -> (r: Self)
        ensures
            r@ == self@,
    {
        BoardTask { id: self.id.clone(), status: self.status, priority: self.priority, created_at: self.created_at }
    }
}

pub open spec fn tasks_view(s: Seq<BoardTask>) -> Seq<BoardTaskView> {
    s.map_values(|t: BoardTask| t@)
}

/// The column that shows tasks of a status.
pub open spec fn column_of_status(s: TaskStatus) -> Seq<char> {
    match s {
        TaskStatus::Todo => "todo"@,
        TaskStatus::InProgress => "in_progress"@,
        TaskStatus::Review => "review"@,
        TaskStatus::Completed => "done"@,
        TaskStatus::Blocked => "blocked"@,
        TaskStatus::OnHold => "on_hold"@,
        TaskStatus::Cancelled => "cancelled"@,
        TaskStatus::Failed => "failed"@,
    }
}

/// The status that a column stands for; columns of other ids stand for none.
pub open spec fn status_of_column(c: Seq<char>) -> Option<TaskStatus> {
    if c == "todo"@ {
        Some(TaskStatus::Todo)
    } else if c == "in_progress"@ {
        Some(TaskStatus::InProgress)
    } else if c == "review"@ {
        Some(TaskStatus::Review)
    } else if c == "done"@ {
        Some(TaskStatus::Completed)
    } else if c == "blocked"@ {
        Some(TaskStatus::Blocked)
    } else if c == "on_hold"@ {
        Some(TaskStatus::OnHold)
    } else {
        None
    }
}

/// The column id of a status.
pub fn status_to_column_id(status: TaskStatus) -> (s: String)
    ensures
        s@ == column_of_status(status),
{
    match status {
        TaskStatus::Todo => String::from_str("todo"),
        TaskStatus::InProgress => String::from_str("in_progress"),
        TaskStatus::Review => String::from_str("review"),
        TaskStatus::Completed => String::from_str("done"),
        TaskStatus::Blocked => String::from_str("blocked"),
        TaskStatus::OnHold => String::from_str("on_hold"),
        TaskStatus::Cancelled => String::from_str("cancelled"),
        TaskStatus::Failed => String::from_str("failed"),
    }
}

/// The status a column stands for, if any.
pub fn column_status(column_id: &str) -> (r: Option<TaskStatus>)
    ensures
        r == status_of_column(column_id@),
{
    let c = String::from_str(column_id);
    if eq_str(&c, "todo") {
        Some(TaskStatus::Todo)
    } else if eq_str(&c, "in_progress") {
        Some(TaskStatus::InProgress)
    } else if eq_str(&c, "review") {
        Some(TaskStatus::Review)
    } else if eq_str(&c, "done") {
        Some(TaskStatus::Completed)
    } else if eq_str(&c, "blocked") {
        Some(TaskStatus::Blocked)
    } else if eq_str(&c, "on_hold") {
        Some(TaskStatus::OnHold)
    } else {
        None
    }
}

/// A column's status and its column id agree, for the six board statuses.
pub proof fn column_ids_round_trip(s: TaskStatus)
    requires
        s != TaskStatus::Cancelled,
        s != TaskStatus::Failed,
    ensures
        status_of_column(column_of_status(s)) == Some(s),
{
    reveal_strlit("todo");
    reveal_strlit("in_progress");
    reveal_strlit("review");
    reveal_strlit("done");
    reveal_strlit("blocked");
    reveal_strlit("on_hold");
    assert("in_progress"@.len() != "todo"@.len());
    assert("review"@.len() != "todo"@.len() && "review"@.len() != "in_progress"@.len());
    assert("done"@[0] != "todo"@[0]);
    assert("blocked"@.len() != "todo"@.len() && "blocked"@.len() != "in_progress"@.len() && "blocked"@.len() != "done"@.len());
    assert("blocked"@[0] != "review"@[0]);
    assert("on_hold"@.len() != "todo"@.len() && "on_hold"@.len() != "in_progress"@.len() && "on_hold"@.len() != "done"@.len());
    assert("on_hold"@[0] != "review"@[0] && "on_hold"@[0] != "blocked"@[0]);
}

/// Whether task `a` is shown before task `b` in a column: more important
/// first, then older first.
pub open spec fn shown_before(a: BoardTaskView, b: BoardTaskView) -> bool {
    importance_rank(a.priority) > importance_rank(b.priority) || (importance_rank(a.priority)
        == importance_rank(b.priority) && a.created_at < b.created_at)
}

/// `x` placed in the ordered list `s`: before the first task it is shown
/// before, after all others.
pub open spec fn insert_ordered(s: Seq<BoardTaskView>, x: BoardTaskView) -> Seq<BoardTaskView>
    decreases s.len(),
{
    if s.len() == 0 {
        seq![x]
    } else if shown_before(x, s[0]) {
        seq![x] + s
    } else {
        seq![s[0]] + insert_ordered(s.drop_first(), x)
    }
}

/// The tasks in the order a column shows them; tasks shown in the same place
/// keep their order.
pub open spec fn ordered(s: Seq<BoardTaskView>) -> Seq<BoardTaskView>
    decreases s.len(),
{
    if s.len() == 0 {
        s
    } else {
        insert_ordered(ordered(s.drop_last()), s.last())
    }
}

/// The tasks of a status, in their order.
pub open spec fn with_status(s: Seq<BoardTaskView>, st: TaskStatus) -> Seq<BoardTaskView>
    decreases s.len(),
{
    if s.len() == 0 {
        s
    } else if s.last().status == st {
        with_status(s.drop_last(), st).push(s.last())
    } else {
        with_status(s.drop_last(), st)
    }
}

/// The ids that a column of id `column_id` shows, given all tasks.
pub open spec fn column_task_ids(column_id: Seq<char>, tasks: Seq<BoardTaskView>) -> Seq<Seq<char>> {
    match status_of_column(column_id) {
        Some(st) => ordered(with_status(tasks, st)).map_values(|t: BoardTaskView| t.id),
        None => Seq::empty(),
    }
}

/// The first place in `s` where `x` is shown before the task there.
pub open spec fn first_after(s: Seq<BoardTaskView>, x: BoardTaskView, p: int) -> bool {
    &&& 0 <= p <= s.len()
    &&& forall|j: int| 0 <= j < p ==> !shown_before(x, #[trigger] s[j])
    &&& p < s.len() ==> shown_before(x, s[p])
}

proof fn lemma_insert_ordered(s: Seq<BoardTaskView>, x: BoardTaskView, p: int)
    requires
        first_after(s, x, p),
    ensures
        insert_ordered(s, x) == s.take(p) + seq![x] + s.skip(p),
    decreases s.len(),
{
    if s.len() == 0 {
        assert(s.take(p) + seq![x] + s.skip(p) =~= seq![x]);
    } else if p == 0 {
        assert(s.take(p) + seq![x] + s.skip(p) =~= seq![x] + s);
    } else {
        assert(!shown_before(x, s[0]));
        let t = s.drop_first();
        assert forall|j: int| 0 <= j < p - 1 implies !shown_before(x, #[trigger] t[j]) by {
            assert(t[j] == s[j + 1]);
        }
        if p - 1 < t.len() {
            assert(t[p - 1] == s[p]);
        }
        lemma_insert_ordered(t, x, p - 1);
        assert(seq![s[0]] + (t.take(p - 1) + seq![x] + t.skip(p - 1)) =~= s.take(p) + seq![x] + s.skip(p));
    }
}

/// No task of the list is shown before one that comes earlier in it.
pub open spec fn in_shown_order(s: Seq<BoardTaskView>) -> bool {
    forall|i: int, j: int| 0 <= i < j < s.len() ==> !shown_before(#[trigger] s[j], #[trigger] s[i])
}

/// The first place in `s` where `x` is shown before the task there, or the end.
pub open spec fn first_place(s: Seq<BoardTaskView>, x: BoardTaskView) -> int
    decreases s.len(),
{
    if s.len() == 0 {
        0
    } else if shown_before(x, s[0]) {
        0
    } else {
        1 + first_place(s.drop_first(), x)
    }
}

proof fn lemma_first_place(s: Seq<BoardTaskView>, x: BoardTaskView)
    ensures
        first_after(s, x, first_place(s, x)),
    decreases s.len(),
{
    if s.len() > 0 && !shown_before(x, s[0]) {
        let t = s.drop_first();
        lemma_first_place(t, x);
        let p = first_place(s, x);
        assert forall|j: int| 0 <= j < p implies !shown_before(x, #[trigger] s[j]) by {
            if j > 0 {
                assert(s[j] == t[j - 1]);
            }
        }
        if p < s.len() {
            assert(s[p] == t[p - 1]);
        }
    }
}

proof fn lemma_insert_ordered_sorted_perm(s: Seq<BoardTaskView>, x: BoardTaskView)
    requires
        in_shown_order(s),
    ensures
        in_shown_order(insert_ordered(s, x)),
        insert_ordered(s, x).to_multiset() == s.to_multiset().insert(x),
{
    let p = first_place(s, x);
    lemma_first_place(s, x);
    lemma_insert_ordered(s, x, p);
    let o = insert_ordered(s, x);
    assert(o =~= s.insert(p, x));
    vstd::seq_lib::to_multiset_insert(s, p, x);
    assert forall|i: int, j: int| 0 <= i < j < o.len() implies !shown_before(#[trigger] o[j], #[trigger] o[i]) by {
        if j < p {
            assert(o[i] == s[i] && o[j] == s[j]);
        } else if j == p {
            assert(o[i] == s[i] && o[j] == x);
        } else if i < p {
            assert(o[i] == s[i] && o[j] == s[j - 1]);
        } else if i == p {
            assert(o[i] == x && o[j] == s[j - 1]);
            assert(shown_before(x, s[p]));
            if j - 1 > p {
                assert(!shown_before(s[j - 1], s[p]));
            }
        } else {
            assert(o[i] == s[i - 1] && o[j] == s[j - 1]);
        }
    }
}

/// A column shows exactly the tasks it is given, in an order where no task
/// comes after one it is shown before.
pub proof fn ordered_is_sorted_permutation(s: Seq<BoardTaskView>)
    ensures
        in_shown_order(ordered(s)),
        ordered(s).to_multiset() == s.to_multiset(),
    decreases s.len(),
{
    if s.len() > 0 {
        ordered_is_sorted_permutation(s.drop_last());
        lemma_insert_ordered_sorted_perm(ordered(s.drop_last()), s.last());
        vstd::seq_lib::to_multiset_build(s.drop_last(), s.last());
        assert(s.drop_last().push(s.last()) =~= s);
    } else {
        assert(ordered(s) =~= s);
    }
}

pub open spec fn board_task_view_id(t: BoardTaskView) -> Seq<char> {
    t.id
}

fn copy_task(t: &BoardTask) -> (r: BoardTask)
    ensures
        r@ == t@,
{
    t.clone()
}

/// The tasks of a status, in the order a column shows them.
fn column_tasks(all_tasks: &Vec<BoardTask>, status: TaskStatus) -> (r: Vec<BoardTask>)
    ensures
        tasks_view(r@) == ordered(with_status(tasks_view(all_tasks@), status)),
{
    let mut r: Vec<BoardTask> = Vec::new();
    let mut i: usize = 0;
    proof {
        assert(tasks_view(all_tasks@).take(0) =~= Seq::<BoardTaskView>::empty());
        assert(tasks_view(r@) =~= Seq::<BoardTaskView>::empty());
    }
    while i < all_tasks.len()
        invariant
            0 <= i <= all_tasks@.len(),
            tasks_view(r@) == ordered(with_status(tasks_view(all_tasks@).take(i as int), status)),
        decreases all_tasks.len() - i,
    {
        let ghost s = tasks_view(all_tasks@);
        assert(s.take(i + 1).drop_last() =~= s.take(i as int));
        assert(s.take(i + 1).last() == all_tasks@[i as int]@);
        if all_tasks[i].status == status {
            let x = copy_task(&all_tasks[i]);
            let ghost xv = x@;
            let ghost before = tasks_view(r@);
            assert(with_status(s.take(i + 1), status) == with_status(s.take(i as int), status).push(xv));
            assert(with_status(s.take(i + 1), status).drop_last() =~= with_status(s.take(i as int), status));
            // find the first place where x goes before the task there
            let xr = importance_number(x.priority);
            let mut p: usize = 0;
            while p < r.len()
                invariant
                    0 <= p <= r@.len(),
                    xv == x@,
                    xr == importance_rank(xv.priority),
                    tasks_view(r@) == before,
                    forall|j: int| 0 <= j < p ==> !shown_before(xv, #[trigger] before[j]),
                ensures
                    0 <= p <= r@.len(),
                    tasks_view(r@) == before,
                    forall|j: int| 0 <= j < p ==> !shown_before(xv, #[trigger] before[j]),
                    p < r@.len() ==> shown_before(xv, before[p as int]),
                decreases r.len() - p,
            {
                let er = importance_number(r[p].priority);
                assert(before[p as int] == r@[p as int]@);
                if xr > er || (xr == er && x.created_at < r[p].created_at) {
                    break;
                }
                p = p + 1;
            }
            proof {
                assert(first_after(before, xv, p as int)) by {
                    if p < before.len() {
                        assert(before[p as int] == r@[p as int]@);
                    }
                }
                lemma_insert_ordered(before, xv, p as int);
            }
            r.insert(p, x);
            assert(tasks_view(r@) =~= before.take(p as int) + seq![xv] + before.skip(p as int));
        } else {
            assert(with_status(s.take(i + 1), status) == with_status(s.take(i as int), status));
        }
        i = i + 1;
    }
    assert(tasks_view(all_tasks@).take(i as int) =~= tasks_view(all_tasks@));
    r
}

/// The ids that a column shows, given all tasks.
pub fn column_task_ids_of(column_id: &String, all_tasks: &Vec<BoardTask>) -> (r: Vec<String>)
    ensures
        r@.map_values(|s: String| s@) == column_task_ids(column_id@, tasks_view(all_tasks@)),
{
    match column_status(column_id.as_str()) {
        None => {
            let r: Vec<String> = Vec::new();
            assert(r@.map_values(|s: String| s@) =~= Seq::<Seq<char>>::empty());
            r
        },
        Some(st) => {
            let tasks = column_tasks(all_tasks, st);
            let mut r: Vec<String> = Vec::new();
            let mut i: usize = 0;
            while i < tasks.len()
                invariant
                    0 <= i <= tasks@.len(),
                    r@.len() == i,
                    forall|j: int| 0 <= j < i ==> (#[trigger] r@[j])@ == tasks@[j].id@,
                decreases tasks.len() - i,
            {
                r.push(tasks[i].id.clone());
                i = i + 1;
            }
            assert(r@.map_values(|s: String| s@) =~= tasks_view(tasks@).map_values(|t: BoardTaskView| t.id));
            r
        },
    }
}

/// A column as plain values.
pub struct ColumnView {
    pub id: Seq<char>,
    pub title: Seq<char>,
    pub tasks: Seq<Seq<char>>,
    pub color: Option<Seq<char>>,
    pub max_tasks: Option<usize>,
    pub sort_order: usize,
}

pub open spec fn opt_text(o: Option<String>) -> Option<Seq<char>> {
    match o {
        Some(s) => Some(s@),
        None => None,
    }
}

impl View for TaskColumn {
    type V = ColumnView;

    open spec fn view(&self) -> ColumnView {
        ColumnView {
            id: self.id@,
            title: self.title@,
            tasks: self.tasks@.map_values(|s: String| s@),
            color: opt_text(self.color),
            max_tasks: self.max_tasks,
            sort_order: self.sort_order,
        }
    }
}

pub open spec fn columns_view(c: Seq<TaskColumn>) -> Seq<ColumnView> {
    c.map_values(|x: TaskColumn| x@)
}

fn clone_strings(v: &Vec<String>) -> (r: Vec<String>)
    ensures
        r@.map_values(|s: String| s@) == v@.map_values(|s: String| s@),
{
    let mut r: Vec<String> = Vec::new();
    let mut i: usize = 0;
    while i < v.len()
        invariant
            0 <= i <= v@.len(),
            r@.len() == i,
            forall|j: int| 0 <= j < i ==> (#[trigger] r@[j])@ == v@[j]@,
        decreases v.len() - i,
    {
        r.push(v[i].clone());
        i = i + 1;
    }
    assert(r@.map_values(|s: String| s@) =~= v@.map_values(|s: String| s@));
    r
}

fn clone_opt(o: &Option<String>) -> (r: Option<String>)
    ensures
        opt_text(r) == opt_text(*o),
{
    match o {
        Some(s) => Some(s.clone()),
        None => None,
    }
}

impl Clone for TaskColumn {
    fn clone(&self) -> (r: Self)
        ensures
            r@ == self@,
    {
        TaskColumn {
            id: self.id.clone(),
            title: self.title.clone(),
            tasks: clone_strings(&self.tasks),
            color: clone_opt(&self.color),
            max_tasks: self.max_tasks,
            sort_order: self.sort_order,
        }
    }
}

/// Visibility as a plain value.
pub enum VisibilityView {
    Public,
    Workspace(Seq<char>),
    User(Seq<char>),
}

impl View for BoardVisibility {
    type V = VisibilityView;

    open spec fn view(&self) -> VisibilityView {
        match self {
            BoardVisibility::Public => VisibilityView::Public,
            BoardVisibility::Workspace(w) => VisibilityView::Workspace(w@),
            BoardVisibility::User(u) => VisibilityView::User(u@),
        }
    }
}

impl Clone for BoardVisibility {
    fn clone(&self) -> (r: Self)
        ensures
            r@ == self@,
    {
        match self {
            BoardVisibility::Public => BoardVisibility::Public,
            BoardVisibility::Workspace(w) => BoardVisibility::Workspace(w.clone()),
            BoardVisibility::User(u) => BoardVisibility::User(u.clone()),
        }
    }
}

/// A board as plain values.
pub struct BoardView {
    pub id: Seq<char>,
    pub title: Seq<char>,
    pub columns: Seq<ColumnView>,
    pub refresh_interval: u64,
    pub real_time: bool,
    pub visibility: VisibilityView,
}

impl View for TaskBoardConfig {
    type V = BoardView;

    open spec fn view(&self) -> BoardView {
        BoardView {
            id: self.id@,
            title: self.title@,
            columns: columns_view(self.columns@),
            refresh_interval: self.refresh_interval,
            real_time: self.real_time,
            visibility: self.visibility@,
        }
    }
}

fn clone_columns(c: &Vec<TaskColumn>) -> (r: Vec<TaskColumn>)
    ensures
        columns_view(r@) == columns_view(c@),
{
    let mut r: Vec<TaskColumn> = Vec::new();
    let mut i: usize = 0;
    while i < c.len()
        invariant
            0 <= i <= c@.len(),
            r@.len() == i,
            forall|j: int| 0 <= j < i ==> (#[trigger] r@[j])@ == c@[j]@,
        decreases c.len() - i,
    {
        r.push(c[i].clone());
        i = i + 1;
    }
    assert(columns_view(r@) =~= columns_view(c@));
    r
}

impl Clone for TaskBoardConfig {
    fn clone(&self) -> (r: Self)
        ensures
            r@ == self@,
    {
        TaskBoardConfig {
            id: self.id.clone(),
            title: self.title.clone(),
            columns: clone_columns(&self.columns),
            refresh_interval: self.refresh_interval,
            real_time: self.real_time,
            visibility: self.visibility.clone(),
        }
    }
}

/// The columns of the default board.
pub open spec fn default_columns() -> Seq<ColumnView> {
    seq![
        ColumnView { id: "todo"@, title: "To Do"@, tasks: Seq::empty(), color: Some("#e3f2fd"@), max_tasks: None, sort_order: 0 },
        ColumnView { id: "in_progress"@, title: "In Progress"@, tasks: Seq::empty(), color: Some("#fff3e0"@), max_tasks: Some(5), sort_order: 1 },
        ColumnView { id: "review"@, title: "Review"@, tasks: Seq::empty(), color: Some("#fce4ec"@), max_tasks: None, sort_order: 2 },
        ColumnView { id: "done"@, title: "Done"@, tasks: Seq::empty(), color: Some("#e8f5e8"@), max_tasks: None, sort_order: 3 },
    ]
}

/// The default board.
pub open spec fn default_board() -> BoardView {
    BoardView {
        id: "default"@,
        title: "Task Board"@,
        columns: default_columns(),
        refresh_interval: 1000,
        real_time: true,
        visibility: VisibilityView::Public,
    }
}

fn column(id: &str, title: &str, color: &str, max_tasks: Option<usize>, sort_order: usize) -> (c: TaskColumn)
    ensures
        c@ == (ColumnView { id: id@, title: title@, tasks: Seq::empty(), color: Some(color@), max_tasks, sort_order }),
{
    let c = TaskColumn {
        id: String::from_str(id),
        title: String::from_str(title),
        tasks: Vec::new(),
        color: Some(String::from_str(color)),
        max_tasks,
        sort_order,
    };
    assert(c@.tasks =~= Seq::<Seq<char>>::empty());
    c
}

/// A board's state: its columns filled with the ids of the tasks they show,
/// all tasks, and when it was made.
#[derive(Debug)]
pub struct TaskBoardState {
    pub board_id: String,
    pub title: String,
    pub columns: Vec<TaskColumn>,
    pub tasks: Vec<BoardTask>,
    pub last_updated: u64,
}

/// Keeps the task boards.
pub struct TaskBoardManager {
    /// No board id occurs twice.
    boards: Vec<TaskBoardConfig>,
}

/// The board with this id, if any.
pub open spec fn board_in(s: Seq<BoardView>, id: Seq<char>) -> Option<BoardView>
    decreases s.len(),
{
    if s.len() == 0 {
        None
    } else if s.last().id == id {
        Some(s.last())
    } else {
        board_in(s.drop_last(), id)
    }
}

pub open spec fn boards_view(s: Seq<TaskBoardConfig>) -> Seq<BoardView> {
    s.map_values(|b: TaskBoardConfig| b@)
}

proof fn lemma_board_at(s: Seq<BoardView>, i: int)
    requires
        0 <= i < s.len(),
        forall|a: int, b: int| 0 <= a < b < s.len() ==> #[trigger] s[a].id != #[trigger] s[b].id,
    ensures
        board_in(s, s[i].id) == Some(s[i]),
    decreases s.len(),
{
    if i < s.len() - 1 {
        assert(s.last() == s[s.len() - 1]);
        lemma_board_at(s.drop_last(), i);
    }
}

proof fn lemma_board_absent(s: Seq<BoardView>, id: Seq<char>)
    requires
        forall|i: int| 0 <= i < s.len() ==> #[trigger] s[i].id != id,
    ensures
        board_in(s, id) is None,
    decreases s.len(),
{
    if s.len() > 0 {
        assert(s.last() == s[s.len() - 1]);
        lemma_board_absent(s.drop_last(), id);
    }
}

proof fn lemma_board_update(s: Seq<BoardView>, i: int, b: BoardView)
    requires
        0 <= i < s.len(),
        b.id == s[i].id,
        forall|a: int, c: int| 0 <= a < c < s.len() ==> #[trigger] s[a].id != #[trigger] s[c].id,
    ensures
        board_in(s.update(i, b), b.id) == Some(b),
        forall|id: Seq<char>| id != b.id ==> #[trigger] board_in(s.update(i, b), id) == board_in(s, id),
    decreases s.len(),
{
    let t = s.update(i, b);
    assert(t.last() == t[t.len() - 1]);
    assert(s.last() == s[s.len() - 1]);
    if i < s.len() - 1 {
        assert(t.drop_last() =~= s.drop_last().update(i, b));
        lemma_board_update(s.drop_last(), i, b);
        assert forall|id: Seq<char>| id != b.id implies #[trigger] board_in(s.update(i, b), id) == board_in(s, id) by {
            assert(board_in(s.drop_last().update(i, b), id) == board_in(s.drop_last(), id));
        }
    } else {
        assert(t.drop_last() =~= s.drop_last());
    }
}

proof fn lemma_board_remove(s: Seq<BoardView>, i: int)
    requires
        0 <= i < s.len(),
        forall|a: int, c: int| 0 <= a < c < s.len() ==> #[trigger] s[a].id != #[trigger] s[c].id,
    ensures
        board_in(s.remove(i), s[i].id) is None,
        forall|id: Seq<char>| id != s[i].id ==> #[trigger] board_in(s.remove(i), id) == board_in(s, id),
    decreases s.len(),
{
    let t = s.remove(i);
    assert(s.last() == s[s.len() - 1]);
    if i == s.len() - 1 {
        assert(t =~= s.drop_last());
        assert forall|j: int| 0 <= j < t.len() implies #[trigger] t[j].id != s[i].id by {
            assert(t[j] == s[j]);
        }
        lemma_board_absent(t, s[i].id);
    } else {
        assert(t.last() == s.last());
        assert(t.drop_last() =~= s.drop_last().remove(i));
        lemma_board_remove(s.drop_last(), i);
        assert(s.last().id != s[i].id);
        assert forall|id: Seq<char>| id != s[i].id implies #[trigger] board_in(s.remove(i), id) == board_in(s, id) by {
            assert(board_in(s.drop_last().remove(i), id) == board_in(s.drop_last(), id));
        }
    }
}

impl TaskBoardManager {
    pub closed spec fn boards(&self) -> Seq<BoardView> {
        boards_view(self.boards@)
    }

    pub closed spec fn wf(&self) -> bool {
        forall|a: int, b: int| 0 <= a < b < self.boards().len() ==> #[trigger] self.boards()[a].id != #[trigger] self.boards()[b].id
    }

    /// The board with this id, if any.
    pub open spec fn board(&self, id: Seq<char>) -> Option<BoardView> {
        board_in(self.boards(), id)
    }

    /// No boards yet.
    pub fn new() -> (r: Self)
        ensures
            r.wf(),
            r.boards().len() == 0,
    {
        let r = TaskBoardManager { boards: Vec::new() };
        assert(r.boards() =~= Seq::<BoardView>::empty());
        r
    }

    /// The default board: To Do, In Progress (at most five tasks), Review
    /// and Done, refreshed every second.
    pub fn create_default_board_config() -> (b: TaskBoardConfig)
        ensures
            b@ == default_board(),
    {
        let columns = vec![
            column("todo", "To Do", "#e3f2fd", None, 0),
            column("in_progress", "In Progress", "#fff3e0", Some(5), 1),
            column("review", "Review", "#fce4ec", None, 2),
            column("done", "Done", "#e8f5e8", None, 3),
        ];
        let b = TaskBoardConfig {
            id: String::from_str("default"),
            title: String::from_str("Task Board"),
            columns,
            refresh_interval: 1000,
            real_time: true,
            visibility: BoardVisibility::Public,
        };
        assert(b@.columns =~= default_columns());
        b
    }

    fn find(&self, id: &str) -> (r: Option<usize>)
        ensures
            match r {
                Some(i) => i < self.boards().len() && self.boards()[i as int].id == id@,
                None => forall|i: int| 0 <= i < self.boards().len() ==> #[trigger] self.boards()[i].id != id@,
            },
    {
        let mut i: usize = 0;
        while i < self.boards.len()
            invariant
                0 <= i <= self.boards@.len(),
                forall|j: int| 0 <= j < i ==> #[trigger] self.boards()[j].id != id@,
            decreases self.boards.len() - i,
        {
            if eq_str(&self.boards[i].id, id) {
                return Some(i);
            }
            i = i + 1;
        }
        None
    }

    /// Puts a board in, replacing the board with the same id.
    fn put(&mut self, board: TaskBoardConfig)
        requires
            old(self).wf(),
        ensures
            final(self).wf(),
            final(self).board(board@.id) == Some(board@),
            forall|id: Seq<char>| id != board@.id ==> #[trigger] final(self).board(id) == old(self).board(id),
    {
        let ghost bv = board@;
        let ghost before = self.boards();
        match self.find(board.id.as_str()) {
            Some(i) => {
                self.boards.set(i, board);
                proof {
                    assert(self.boards() =~= before.update(i as int, bv));
                    lemma_board_update(before, i as int, bv);
                    assert forall|a: int, b: int| 0 <= a < b < self.boards().len() implies #[trigger] self.boards()[a].id
                        != #[trigger] self.boards()[b].id by {
                        assert(self.boards()[a].id == before[a].id);
                        assert(self.boards()[b].id == before[b].id);
                    }
                }
            },
            None => {
                self.boards.push(board);
                proof {
                    assert(self.boards() =~= before.push(bv));
                    assert(self.boards().drop_last() =~= before);
                    assert forall|a: int, b: int| 0 <= a < b < self.boards().len() implies #[trigger] self.boards()[a].id
                        != #[trigger] self.boards()[b].id by {
                        assert(self.boards()[a] == before[a]);
                        if b < before.len() {
                            assert(self.boards()[b] == before[b]);
                        }
                    }
                }
            },
        }
    }

    /// Puts the default board in, replacing any board with its id.
    pub fn initialize(&mut self)
        requires
            old(self).wf(),
        ensures
            final(self).wf(),
            final(self).board("default"@) == Some(default_board()),
            forall|id: Seq<char>| id != "default"@ ==> #[trigger] final(self).board(id) == old(self).board(id),
    {
        self.put(Self::create_default_board_config());
    }

    /// The board with this id, if any.
    pub fn get_board(&self, board_id: &str) -> (r: Option<TaskBoardConfig>)
        requires
            self.wf(),
        ensures
            match r {
                Some(b) => self.board(board_id@) == Some(b@),
                None => self.board(board_id@) is None,
            },
    {
        match self.find(board_id) {
            Some(i) => {
                proof {
                    lemma_board_at(self.boards(), i as int);
                }
                Some(self.boards[i].clone())
            },
            None => {
                proof {
                    lemma_board_absent(self.boards(), board_id@);
                }
                None
            },
        }
    }

    /// Adds a board; refused when a board with its id exists.
    pub fn create_board(&mut self, config: TaskBoardConfig) -> (r: Result<(), String>)
        requires
            old(self).wf(),
        ensures
            final(self).wf(),
            match r {
                Ok(()) => old(self).board(config@.id) is None && final(self).board(config@.id) == Some(config@)
                    && forall|id: Seq<char>| id != config@.id ==> #[trigger] final(self).board(id) == old(self).board(id),
                Err(m) => old(self).board(config@.id) is Some && final(self).boards() == old(self).boards()
                    && m@ == "Board with ID '"@ + config@.id + "' already exists"@,
            },
    {
        match self.find(config.id.as_str()) {
            Some(i) => {
                proof {
                    lemma_board_at(self.boards(), i as int);
                }
                let mut m = String::from_str("Board with ID '");
                m.append(config.id.as_str());
                m.append("' already exists");
                Err(m)
            },
            None => {
                proof {
                    lemma_board_absent(self.boards(), config@.id);
                }
                self.put(config);
                Ok(())
            },
        }
    }

    /// Replaces a board; refused when no board has its id.
    pub fn update_board(&mut self, config: TaskBoardConfig) -> (r: Result<(), String>)
        requires
            old(self).wf(),
        ensures
            final(self).wf(),
            match r {
                Ok(()) => old(self).board(config@.id) is Some && final(self).board(config@.id) == Some(config@)
                    && forall|id: Seq<char>| id != config@.id ==> #[trigger] final(self).board(id) == old(self).board(id),
                Err(m) => old(self).board(config@.id) is None && final(self).boards() == old(self).boards()
                    && m@ == "Board with ID '"@ + config@.id + "' not found"@,
            },
    {
        match self.find(config.id.as_str()) {
            Some(i) => {
                proof {
                    lemma_board_at(self.boards(), i as int);
                }
                self.put(config);
                Ok(())
            },
            None => {
                proof {
                    lemma_board_absent(self.boards(), config@.id);
                }
                let mut m = String::from_str("Board with ID '");
                m.append(config.id.as_str());
                m.append("' not found");
                Err(m)
            },
        }
    }

    /// Removes a board; the default board cannot be removed, nor a board that
    /// does not exist.
    pub fn delete_board(&mut self, board_id: &str) -> (r: Result<(), String>)
        requires
            old(self).wf(),
        ensures
            final(self).wf(),
            match r {
                Ok(()) => board_id@ != "default"@ && old(self).board(board_id@) is Some && final(self).board(board_id@) is None
                    && forall|id: Seq<char>| id != board_id@ ==> #[trigger] final(self).board(id) == old(self).board(id),
                Err(m) => final(self).boards() == old(self).boards() && if board_id@ == "default"@ {
                    m@ == "Cannot delete default board"@
                } else {
                    old(self).board(board_id@) is None && m@ == "Board with ID '"@ + board_id@ + "' not found"@
                },
            },
    {
        let id = String::from_str(board_id);
        if eq_str(&id, "default") {
            return Err(String::from_str("Cannot delete default board"));
        }
        match self.find(board_id) {
            Some(i) => {
                let ghost before = self.boards();
                self.boards.remove(i);
                proof {
                    assert(self.boards() =~= before.remove(i as int));
                    lemma_board_remove(before, i as int);
                    assert forall|a: int, b: int| 0 <= a < b < self.boards().len() implies #[trigger] self.boards()[a].id
                        != #[trigger] self.boards()[b].id by {
                        let oa = if a < i { a } else { a + 1 };
                        let ob = if b < i { b } else { b + 1 };
                        assert(self.boards()[a] == before[oa]);
                        assert(self.boards()[b] == before[ob]);
                    }
                    lemma_board_at(before, i as int);
                }
                Ok(())
            },
            None => {
                proof {
                    lemma_board_absent(self.boards(), board_id@);
                }
                let mut m = String::from_str("Board with ID '");
                m.append(board_id);
                m.append("' not found");
                Err(m)
            },
        }
    }

    /// All boards, in the order they were added.
    pub fn list_boards(&self) -> (r: Vec<TaskBoardConfig>)
        ensures
            boards_view(r@) == self.boards(),
    {
        let mut r: Vec<TaskBoardConfig> = Vec::new();
        let mut i: usize = 0;
        while i < self.boards.len()
            invariant
                0 <= i <= self.boards@.len(),
                r@.len() == i,
                forall|j: int| 0 <= j < i ==> (#[trigger] r@[j])@ == self.boards@[j]@,
            decreases self.boards.len() - i,
        {
            r.push(self.boards[i].clone());
            i = i + 1;
        }
        assert(boards_view(r@) =~= self.boards());
        r
    }

    /// The state of a board: each column shows the ids of the tasks of its
    /// status, most important first and then oldest first (columns of other
    /// ids show none); refused when there is no such board.
    pub fn get_board_state(&self, board_id: &str, all_tasks: Vec<BoardTask>, now: u64) -> (r: Result<TaskBoardState, String>)
        requires
            self.wf(),
        ensures
            match r {
                Ok(st) => self.board(board_id@) is Some && ({
                    let b = self.board(board_id@)->Some_0;
                    &&& st.board_id@ == b.id
                    &&& st.title@ == b.title
                    &&& st.columns@.len() == b.columns.len()
                    &&& forall|i: int| 0 <= i < b.columns.len() ==> #[trigger] st.columns@[i]@ == (ColumnView {
                        tasks: column_task_ids(b.columns[i].id, tasks_view(all_tasks@)),
                        ..b.columns[i]
                    })
                    &&& tasks_view(st.tasks@) == tasks_view(all_tasks@)
                    &&& st.last_updated == now
                }),
                Err(m) => self.board(board_id@) is None && m@ == "Board '"@ + board_id@ + "' not found"@,
            },
    {
        let board = match self.get_board(board_id) {
            Some(b) => b,
            None => {
                let mut m = String::from_str("Board '");
                m.append(board_id);
                m.append("' not found");
                return Err(m);
            },
        };
        let ghost bv = board@;
        let mut columns: Vec<TaskColumn> = Vec::new();
        let mut i: usize = 0;
        while i < board.columns.len()
            invariant
                0 <= i <= board.columns@.len(),
                bv == board@,
                columns@.len() == i,
                forall|j: int| 0 <= j < i ==> #[trigger] columns@[j]@ == (ColumnView {
                    tasks: column_task_ids(bv.columns[j].id, tasks_view(all_tasks@)),
                    ..bv.columns[j]
                }),
            decreases board.columns.len() - i,
        {
            let c = &board.columns[i];
            assert(bv.columns[i as int] == c@);
            let ids = column_task_ids_of(&c.id, &all_tasks);
            let filled = TaskColumn {
                id: c.id.clone(),
                title: c.title.clone(),
                tasks: ids,
                color: clone_opt(&c.color),
                max_tasks: c.max_tasks,
                sort_order: c.sort_order,
            };
            columns.push(filled);
            i = i + 1;
        }
        Ok(TaskBoardState {
            board_id: board.id,
            title: board.title,
            columns,
            tasks: all_tasks,
            last_updated: now,
        })
    }
}

/// What moving a task to a column decides: the task's new status and the
/// column it leaves.
#[derive(Debug)]
pub struct MovePlan {
    pub new_status: TaskStatus,
    pub from_column: String,
}

/// Decides a move of the task `task_id` (found as `task`, or `None` when the
/// task manager has no such task) to the column `to_column`: refused for a
/// missing task or a column that stands for no status.
pub fn plan_move(task: Option<&BoardTask>, task_id: &str, to_column: &str) -> (r: Result<MovePlan, String>)
    ensures
        match r {
            Ok(p) => task is Some && status_of_column(to_column@) == Some(p.new_status)
                && p.from_column@ == column_of_status(task->Some_0.status),
            Err(m) => if task is None {
                m@ == "Task '"@ + task_id@ + "' not found"@
            } else {
                status_of_column(to_column@) is None && m@ == "Unknown column: "@ + to_column@
            },
        },
{
    match task {
        None => {
            let mut m = String::from_str("Task '");
            m.append(task_id);
            m.append("' not found");
            Err(m)
        },
        Some(t) => match column_status(to_column) {
            None => {
                let mut m = String::from_str("Unknown column: ");
                m.append(to_column);
                Err(m)
            },
            Some(s) => Ok(MovePlan { new_status: s, from_column: status_to_column_id(t.status) }),
        },
    }
}

/// A task action asked for by a dashboard client; task contents travel as JSON text.
#[derive(Debug)]
pub enum TaskActionRequest {
    CreateTask { task_data: String },
    UpdateTask { task_id: String, task_data: String },
    DeleteTask { task_id: String },
    MoveTask { task_id: String, to_column: String, position: Option<usize> },
    UpdateTaskProgress { task_id: String, progress: u8 },
    /// Any other action, which the board does not handle.
    Other,
}

/// The work a task action asks of the board manager.
#[derive(Debug)]
pub enum BoardOperation {
    Create { task_data: String },
    Update { task_id: String, task_data: String },
    Delete { task_id: String },
    Move { board_id: String, task_id: String, to_column: String, position: Option<usize> },
    Progress { task_id: String, progress: u8 },
    Nothing,
}

/// The work for a task action: moves always go to the default board.
pub fn plan_task_action(action: TaskActionRequest) -> (op: BoardOperation)
    ensures
        match (action, op) {
            (TaskActionRequest::CreateTask { task_data: a }, BoardOperation::Create { task_data: b }) => a == b,
            (TaskActionRequest::UpdateTask { task_id: a, task_data: d }, BoardOperation::Update { task_id: b, task_data: e }) => a == b && d == e,
            (TaskActionRequest::DeleteTask { task_id: a }, BoardOperation::Delete { task_id: b }) => a == b,
            (TaskActionRequest::MoveTask { task_id: a, to_column: c, position: p }, BoardOperation::Move { board_id: bd, task_id: b, to_column: d, position: q }) =>
                bd@ == "default"@ && a == b && c == d && p == q,
            (TaskActionRequest::UpdateTaskProgress { task_id: a, progress: p }, BoardOperation::Progress { task_id: b, progress: q }) => a == b && p == q,
            (TaskActionRequest::Other, BoardOperation::Nothing) => true,
            _ => false,
        },
{
    match action {
        TaskActionRequest::CreateTask { task_data } => BoardOperation::Create { task_data },
        TaskActionRequest::UpdateTask { task_id, task_data } => BoardOperation::Update { task_id, task_data },
        TaskActionRequest::DeleteTask { task_id } => BoardOperation::Delete { task_id },
        TaskActionRequest::MoveTask { task_id, to_column, position } => BoardOperation::Move {
            board_id: String::from_str("default"),
            task_id,
            to_column,
            position,
        },
        TaskActionRequest::UpdateTaskProgress { task_id, progress } => BoardOperation::Progress { task_id, progress },
        TaskActionRequest::Other => BoardOperation::Nothing,
    }
}

/// A value in an answer to a client.
#[derive(Debug)]
pub enum ResponseValue {
    Text(String),
    Flag(bool),
    Null,
}

/// The answer to a client's request.
#[derive(Debug)]
pub struct DashboardResponse {
    pub request_id: Option<String>,
    pub success: bool,
    pub data: Option<ResponseValue>,
    pub error: Option<String>,
}

/// What the board manager's work gave: the new task's id for a creation,
/// plain success for the other operations, nothing for an unhandled action,
/// or the error's text.
#[derive(Debug)]
pub enum OperationOutcome {
    Created(String),
    Done,
    Ignored,
    Failed(String),
}

/// The answer to a task action: success with the new task's id, `true`, or
/// `null`; or failure with the error's text.
pub fn task_action_response(request_id: Option<String>, outcome: OperationOutcome) -> (r: DashboardResponse)
    ensures
        r.request_id == request_id,
        match outcome {
            OperationOutcome::Created(id) => r.success && r.error is None && match r.data {
                Some(ResponseValue::Text(t)) => t == id,
                _ => false,
            },
            OperationOutcome::Done => r.success && r.error is None && r.data == Some(ResponseValue::Flag(true)),
            OperationOutcome::Ignored => r.success && r.error is None && r.data == Some(ResponseValue::Null),
            OperationOutcome::Failed(e) => !r.success && r.data is None && r.error == Some(e),
        },
{
    match outcome {
        OperationOutcome::Created(id) => DashboardResponse { request_id, success: true, data: Some(ResponseValue::Text(id)), error: None },
        OperationOutcome::Done => DashboardResponse { request_id, success: true, data: Some(ResponseValue::Flag(true)), error: None },
        OperationOutcome::Ignored => DashboardResponse { request_id, success: true, data: Some(ResponseValue::Null), error: None },
        OperationOutcome::Failed(e) => DashboardResponse { request_id, success: false, data: None, error: Some(e) },
    }
}

} // verus!

//! The query-resolution layer: the two data-access fetches over the store
//! (one task by identifier, every linked task), the error taxonomy, and the
//! resolver methods that map each fetch outcome to a success value or a
//! classified error carrying a machine-readable code.

use vstd::prelude::*;

use crate::store::CategoryRow;
use crate::store::CategoryRowV;
use crate::store::Store;
use crate::store::StoreV;
use crate::store::TaskCategoryRowV;
use crate::store::TaskRow;
use crate::store::TaskRowV;
use crate::store::find_category;
use crate::store::find_category_from;
use crate::store::find_category_row;
use crate::store::find_task;
use crate::store::find_task_from;
use crate::store::find_task_row;

verus! {

/// The category joined into a task record: its name alone is exposed.
#[derive(Debug)]
pub struct Category {
    pub name: String,
}

/// One entity record: the scalar fields of a task row together with its
/// joined category.
#[derive(Debug)]
pub struct Task {
    pub id: i32,
    pub user_id: i32,
    pub title: String,
    pub description: String,
    pub due_date: String,
    pub category: Category,
}

/// The declared shape of a task collection result.
#[derive(Debug)]
pub struct Tasks {
    pub result: Vec<Task>,
}

/// Mathematical value of an entity record.
pub ghost struct TaskV {
    pub id: int,
    pub user_id: int,
    pub title: Seq<char>,
    pub description: Seq<char>,
    pub due_date: Seq<char>,
    pub category: Seq<char>,
}

impl View for Category {
    type V = Seq<char>;

    open spec fn view(&self) -> Seq<char> {
        self.name@
    }
}

impl View for Task {
    type V = TaskV;

    open spec fn view(&self) -> TaskV {
        TaskV {
            id: self.id as int,
            user_id: self.user_id as int,
            title: self.title@,
            description: self.description@,
            due_date: self.due_date@,
            category: self.category@,
        }
    }
}

/// The views of a task collection, in order.
pub open spec fn task_seq_view(tasks: Seq<Task>) -> Seq<TaskV> {
    tasks.map_values(|t: Task| t@)
}

/// The entity record one link row joins to: the task row named by the link,
/// the category row named by the link, or nothing where either side of the
/// inner join is missing.
pub open spec fn join_link(s: StoreV, l: TaskCategoryRowV) -> Option<TaskV> {
    match find_task(s.tasks, l.task_id) {
        Some(t) => match find_category(s.categories, l.category_id) {
            Some(c) => Some(
                TaskV {
                    id: t.id,
                    user_id: t.user_id,
                    title: t.title,
                    description: t.description,
                    due_date: t.due_date,
                    category: c.name,
                },
            ),
            None => None,
        },
        None => None,
    }
}

/// The inner join of the three tables, taking the link rows from position
/// `i` on, in link-table order.
pub open spec fn joined_from(s: StoreV, i: int) -> Seq<TaskV>
    decreases s.links.len() - i,
{
    if i < 0 || i >= s.links.len() {
        Seq::<TaskV>::empty()
    } else {
        match join_link(s, s.links[i]) {
            Some(t) => seq![t] + joined_from(s, i + 1),
            None => joined_from(s, i + 1),
        }
    }
}

/// Every entity record the collection fetch returns: the full inner join,
/// in link-table order.
pub open spec fn joined_tasks(s: StoreV) -> Seq<TaskV> {
    joined_from(s, 0)
}

/// The single fetch's result from position `i` on: the first link row for
/// `id` that joins, or nothing.
pub open spec fn fetch_one_from(s: StoreV, id: int, i: int) -> Option<TaskV>
    decreases s.links.len() - i,
{
    if i < 0 || i >= s.links.len() {
        None
    } else if s.links[i].task_id == id && join_link(s, s.links[i]) is Some {
        join_link(s, s.links[i])
    } else {
        fetch_one_from(s, id, i + 1)
    }
}

/// What a fetch of one task by identifier returns: the entity joined from
/// the first link row for `id` whose task and category both exist.
pub open spec fn fetch_one(s: StoreV, id: int) -> Option<TaskV> {
    fetch_one_from(s, id, 0)
}

/// The task family's error taxonomy: the two not-found kinds of the
/// data-access layer, and a backend failure carrying a diagnostic string.
#[derive(Debug, PartialEq, Eq)]
pub enum TaskError {
    NotFoundTask,
    NotFoundTasks,
    ServerError(String),
}

/// The structured error a caller receives: a human-readable message and a
/// stable machine-readable code.
#[derive(Debug)]
pub struct ApiError {
    pub message: String,
    pub code: String,
}

impl TaskError {
    /// The human-readable display text of this error.
    pub open spec fn message_spec(self) -> Seq<char> {
        match self {
            TaskError::NotFoundTask => "タスクが存在しません"@,
            TaskError::NotFoundTasks => "タスクが存在しません"@,
            TaskError::ServerError(_) => "サーバーエラー"@,
        }
    }

    /// The machine-readable code of this error: the not-found code for the
    /// two absence kinds, the backend reason string for a server failure.
    pub open spec fn code_spec(self) -> Seq<char> {
        match self {
            TaskError::NotFoundTask => "NOT_FOUND"@,
            TaskError::NotFoundTasks => "NOT_FOUND"@,
            TaskError::ServerError(reason) => reason@,
        }
    }

    /// The display text, as an owned string.
    pub fn message(&self) -> (r: String)
        ensures
            r@ == self.message_spec(),
    {
        match self {
            TaskError::NotFoundTask => "タスクが存在しません".to_owned(),
            TaskError::NotFoundTasks => "タスクが存在しません".to_owned(),
            TaskError::ServerError(_) => "サーバーエラー".to_owned(),
        }
    }

    /// The machine-readable code, as an owned string.
    pub fn code(&self) -> (r: String)
        ensures
            r@ == self.code_spec(),
    {
        match self {
            TaskError::NotFoundTask => "NOT_FOUND".to_owned(),
            TaskError::NotFoundTasks => "NOT_FOUND".to_owned(),
            TaskError::ServerError(reason) => reason.clone(),
        }
    }

    /// Classifies this error into the structured payload a caller receives.
    pub fn extend(&self) -> (r: ApiError)
        ensures
            r.message@ == self.message_spec(),
            r.code@ == self.code_spec(),
    {
        ApiError { message: self.message(), code: self.code() }
    }
}

/// Builds the entity record for one joined (task row, category row) pair.
fn join_task(t: &TaskRow, c: &CategoryRow) -> (r: Task)
    ensures
        r@ == (TaskV {
            id: t@.id,
            user_id: t@.user_id,
            title: t@.title,
            description: t@.description,
            due_date: t@.due_date,
            category: c@.name,
        }),
{
    Task {
        id: t.id,
        user_id: t.user_id,
        title: t.title.clone(),
        description: t.description.clone(),
        due_date: t.due_date.clone(),
        category: Category { name: c.name.clone() },
    }
}

/// The collection fetch: every task with a linked category, each joined
/// with that category, in link-table order. An empty result is a success.
pub fn get_tasks(db: &Store) -> (r: Result<Vec<Task>, TaskError>)
    ensures
        r is Ok,
        task_seq_view(r->Ok_0@) == joined_tasks(db@),
{
    let ghost s = db@;
    let mut out: Vec<Task> = Vec::new();
    let mut i: usize = 0;
    while i < db.task_categories.len()
        invariant
            s == db@,
            i <= db.task_categories.len(),
            s.links.len() == db.task_categories@.len(),
            task_seq_view(out@) + joined_from(s, i as int) == joined_tasks(s),
        decreases db.task_categories@.len() - i,
    {
        let l = &db.task_categories[i];
        proof {
            assert(s.links[i as int] == l@);
        }
        let ghost pre = out@;
        match find_task_row(&db.tasks, l.task_id) {
            Some(trow) => match find_category_row(&db.categories, l.category_id) {
                Some(crow) => {
                    let t = join_task(trow, crow);
                    proof {
                        assert(join_link(s, l@) == Some(t@));
                    }
                    out.push(t);
                    proof {
                        assert(task_seq_view(out@) =~= task_seq_view(pre).push(out@.last()@));
                        assert(joined_from(s, i as int) == seq![out@.last()@] + joined_from(
                            s,
                            i as int + 1,
                        ));
                        assert(task_seq_view(out@) + joined_from(s, i as int + 1)
                            =~= task_seq_view(pre) + joined_from(s, i as int));
                    }
                },
                None => {
                    proof {
                        assert(join_link(s, l@) is None);
                        assert(joined_from(s, i as int) == joined_from(s, i as int + 1));
                    }
                },
            },
            None => {
                proof {
                    assert(join_link(s, l@) is None);
                    assert(joined_from(s, i as int) == joined_from(s, i as int + 1));
                }
            },
        }
        i = i + 1;
    }
    proof {
        assert(joined_from(s, i as int) =~= Seq::<TaskV>::empty());
        assert(task_seq_view(out@) + joined_from(s, i as int) =~= task_seq_view(out@));
    }
    Ok(out)
}

/// The single fetch: the task whose identifier is `id`, joined with its
/// category. Fails with the not-found kind exactly where no link row for
/// `id` joins to both an existing task and an existing category.
pub fn get_task(db: &Store, id: i32) -> (r: Result<Task, TaskError>)
    ensures
        match r {
            Ok(t) => fetch_one(db@, id as int) == Some(t@),
            Err(e) => fetch_one(db@, id as int) is None && e == TaskError::NotFoundTask,
        },
{
    let ghost s = db@;
    let mut i: usize = 0;
    while i < db.task_categories.len()
        invariant
            s == db@,
            i <= db.task_categories.len(),
            s.links.len() == db.task_categories@.len(),
            fetch_one(s, id as int) == fetch_one_from(s, id as int, i as int),
        decreases db.task_categories@.len() - i,
    {
        let l = &db.task_categories[i];
        proof {
            assert(s.links[i as int] == l@);
        }
        if l.task_id == id {
            match find_task_row(&db.tasks, l.task_id) {
                Some(trow) => match find_category_row(&db.categories, l.category_id) {
                    Some(crow) => {
                        let t = join_task(trow, crow);
                        proof {
                            assert(join_link(s, l@) == Some(t@));
                            assert(fetch_one_from(s, id as int, i as int) == Some(t@));
                        }
                        return Ok(t);
                    },
                    None => {
                        proof {
                            assert(join_link(s, l@) is None);
                        }
                    },
                },
                None => {
                    proof {
                        assert(join_link(s, l@) is None);
                    }
                },
            }
        }
        i = i + 1;
    }
    Err(TaskError::NotFoundTask)
}

/// The root of the query operations.
pub struct QueryRoot;

impl QueryRoot {
    /// The collection operation: every linked task, joined with its
    /// category. An empty store yields a successful empty collection.
    pub fn get_tasks(&self, db: &Store) -> (r: Result<Option<Vec<Task>>, ApiError>)
        ensures
            r is Ok,
            r->Ok_0 is Some,
            task_seq_view(r->Ok_0->Some_0@) == joined_tasks(db@),
    {
        match get_tasks(db) {
            Ok(tasks) => Ok(Some(tasks)),
            Err(err) => Err(err.extend()),
        }
    }

    /// The single-entity operation: the task whose identifier is `id`, or a
    /// not-found-classified error — never a success holding no entity.
    pub fn get_task(&self, db: &Store, id: i32) -> (r: Result<Option<Task>, ApiError>)
        ensures
            match r {
                Ok(opt) => opt is Some && fetch_one(db@, id as int) == Some(opt->Some_0@),
                Err(e) => {
                    &&& fetch_one(db@, id as int) is None
                    &&& e.message@ == TaskError::NotFoundTask.message_spec()
                    &&& e.code@ == "NOT_FOUND"@
                },
            },
    {
        match get_task(db, id) {
            Ok(task) => Ok(Some(task)),
            Err(err) => Err(err.extend()),
        }
    }
}

/// A found task row carries the identifier that was looked up.
proof fn lemma_find_task_id(tasks: Seq<TaskRowV>, id: int, i: int)
    ensures
        find_task_from(tasks, id, i) is Some ==> find_task_from(tasks, id, i)->Some_0.id == id,
    decreases tasks.len() - i,
{
    if 0 <= i < tasks.len() && tasks[i].id != id {
        lemma_find_task_id(tasks, id, i + 1);
    }
}

/// Where no task row carries `id`, the lookup finds nothing.
proof fn lemma_find_task_absent(tasks: Seq<TaskRowV>, id: int, i: int)
    requires
        forall|k: int| 0 <= k < tasks.len() ==> tasks[k].id != id,
    ensures
        find_task_from(tasks, id, i) is None,
    decreases tasks.len() - i,
{
    if 0 <= i < tasks.len() {
        lemma_find_task_absent(tasks, id, i + 1);
    }
}

/// Where some link row for `id` joins, the single fetch from `i` on finds
/// the join of such a link row.
proof fn lemma_fetch_one_from_some(s: StoreV, id: int, i: int)
    requires
        0 <= i,
        exists|j: int|
            i <= j < s.links.len() && s.links[j].task_id == id && join_link(s, s.links[j]) is Some,
    ensures
        fetch_one_from(s, id, i) is Some,
        exists|j: int|
            i <= j < s.links.len() && s.links[j].task_id == id && join_link(s, s.links[j]) == Some(
                fetch_one_from(s, id, i)->Some_0,
            ),
    decreases s.links.len() - i,
{
    if s.links[i].task_id == id && join_link(s, s.links[i]) is Some {
        assert(fetch_one_from(s, id, i) == join_link(s, s.links[i]));
    } else {
        let j0 = choose|j: int|
            i <= j < s.links.len() && s.links[j].task_id == id && join_link(s, s.links[j]) is Some;
        assert(i + 1 <= j0);
        lemma_fetch_one_from_some(s, id, i + 1);
    }
}

/// An identifier present in the store with a joinable category is found:
/// the single fetch succeeds, its scalar fields are exactly the task row's,
/// and its category is the name of a category row linked to that task.
pub proof fn lemma_get_entity_present(s: StoreV, id: int)
    requires
        s.wf(),
        exists|j: int| link_joins(s, id, j),
    ensures
        fetch_one(s, id) is Some,
        find_task(s.tasks, id) is Some,
        ({
            let t = fetch_one(s, id)->Some_0;
            let row = find_task(s.tasks, id)->Some_0;
            &&& t.id == id
            &&& t.id == row.id
            &&& t.user_id == row.user_id
            &&& t.title == row.title
            &&& t.description == row.description
            &&& t.due_date == row.due_date
            &&& exists|j: int|
                0 <= j < s.links.len() && s.links[j].task_id == id && find_category(
                    s.categories,
                    s.links[j].category_id,
                ) is Some && t.category == find_category(
                    s.categories,
                    s.links[j].category_id,
                )->Some_0.name
        }),
{
    let j0 = choose|j: int| link_joins(s, id, j);
    assert(0 <= j0 < s.links.len() && s.links[j0].task_id == id && join_link(s, s.links[j0]) is Some);
    lemma_fetch_one_from_some(s, id, 0);
    let j = choose|j: int|
        0 <= j < s.links.len() && s.links[j].task_id == id && join_link(s, s.links[j]) == Some(
            fetch_one_from(s, id, 0)->Some_0,
        );
    assert(join_link(s, s.links[j]) is Some);
    assert(find_task(s.tasks, id) is Some);
    lemma_find_task_id(s.tasks, id, 0);
}

/// One link row for `id` whose task and category both exist.
pub open spec fn link_joins(s: StoreV, id: int, j: int) -> bool {
    0 <= j < s.links.len() && s.links[j].task_id == id && join_link(s, s.links[j]) is Some
}

/// The single fetch from `i` on finds nothing for an absent identifier.
proof fn lemma_fetch_one_from_absent(s: StoreV, id: int, i: int)
    requires
        forall|k: int| 0 <= k < s.tasks.len() ==> s.tasks[k].id != id,
    ensures
        fetch_one_from(s, id, i) is None,
    decreases s.links.len() - i,
{
    if 0 <= i < s.links.len() {
        if s.links[i].task_id == id {
            lemma_find_task_absent(s.tasks, id, 0);
        }
        lemma_fetch_one_from_absent(s, id, i + 1);
    }
}

/// An identifier absent from the task table is never found: the single
/// fetch returns nothing, so the operation reports the not-found error and
/// never a success holding a placeholder entity.
pub proof fn lemma_get_entity_absent(s: StoreV, id: int)
    requires
        forall|k: int| 0 <= k < s.tasks.len() ==> s.tasks[k].id != id,
    ensures
        fetch_one(s, id) is None,
{
    lemma_fetch_one_from_absent(s, id, 0);
}

/// The entity `t` arises from a link row at or after `lo`: that row names
/// `t`'s task, and its task and category both exist.
pub open spec fn arises_from_link(s: StoreV, t: TaskV, lo: int) -> bool {
    exists|j: int|
        lo <= j < s.links.len() && s.links[j].task_id == t.id && #[trigger] join_link(
            s,
            s.links[j],
        ) == Some(t)
}

/// An entity arising from a link row at or after `lo + 1` arises from one
/// at or after `lo`.
proof fn lemma_arises_widen(s: StoreV, t: TaskV, lo: int)
    requires
        arises_from_link(s, t, lo + 1),
    ensures
        arises_from_link(s, t, lo),
{
    let j0 = choose|j: int|
        lo + 1 <= j < s.links.len() && s.links[j].task_id == t.id && #[trigger] join_link(
            s,
            s.links[j],
        ) == Some(t);
    assert(lo <= j0 < s.links.len() && s.links[j0].task_id == t.id && join_link(s, s.links[j0])
        == Some(t));
}

/// Every entity in the join from `i` on arises from a link row at or after
/// `i` whose task and category both exist.
proof fn lemma_joined_from_linked(s: StoreV, i: int)
    ensures
        forall|k: int|
            0 <= k < joined_from(s, i).len() ==> arises_from_link(
                s,
                #[trigger] joined_from(s, i)[k],
                i,
            ),
    decreases s.links.len() - i,
{
    if 0 <= i < s.links.len() {
        lemma_joined_from_linked(s, i + 1);
        lemma_find_task_id(s.tasks, s.links[i].task_id, 0);
        match join_link(s, s.links[i]) {
            Some(t) => {
                assert forall|k: int| 0 <= k < joined_from(s, i).len() implies arises_from_link(
                    s,
                    joined_from(s, i)[k],
                    i,
                ) by {
                    if k == 0 {
                        assert(joined_from(s, i)[0] == t);
                        assert(t.id == s.links[i].task_id);
                        assert(join_link(s, s.links[i]) == Some(joined_from(s, i)[0]));
                    } else {
                        assert(joined_from(s, i)[k] == joined_from(s, i + 1)[k - 1]);
                        lemma_arises_widen(s, joined_from(s, i)[k], i);
                    }
                }
            },
            None => {
                assert forall|k: int| 0 <= k < joined_from(s, i).len() implies arises_from_link(
                    s,
                    joined_from(s, i)[k],
                    i,
                ) by {
                    assert(joined_from(s, i)[k] == joined_from(s, i + 1)[k]);
                    lemma_arises_widen(s, joined_from(s, i)[k], i);
                }
            },
        }
    } else {
        assert(joined_from(s, i).len() == 0);
    }
}

/// Only linked entities are listed: every record the collection fetch
/// returns arises from a link row whose task and category both exist, so an
/// entity lacking a category link never appears.
pub proof fn lemma_collection_all_linked(s: StoreV)
    ensures
        forall|k: int|
            0 <= k < joined_tasks(s).len() ==> arises_from_link(
                s,
                #[trigger] joined_tasks(s)[k],
                0,
            ),
{
    lemma_joined_from_linked(s, 0);
}

/// An empty store yields an empty collection — a success, not an error.
pub proof fn lemma_empty_store_empty_collection(s: StoreV)
    requires
        s.links.len() == 0,
    ensures
        joined_tasks(s) == Seq::<TaskV>::empty(),
{
}

/// Looking up a freshly appended task row finds exactly that row, from any
/// starting position in the widened table.
proof fn lemma_find_task_fresh_push(tasks: Seq<TaskRowV>, t: TaskRowV, i: int)
    requires
        0 <= i <= tasks.len(),
        forall|k: int| 0 <= k < tasks.len() ==> tasks[k].id != t.id,
    ensures
        find_task_from(tasks.push(t), t.id, i) == Some(t),
    decreases tasks.len() - i,
{
    if i < tasks.len() {
        assert(tasks.push(t)[i] == tasks[i]);
        lemma_find_task_fresh_push(tasks, t, i + 1);
    } else {
        assert(tasks.push(t)[i] == t);
    }
}

/// Looking up a freshly appended category row finds exactly that row.
proof fn lemma_find_category_fresh_push(
    cats: Seq<CategoryRowV>,
    c: CategoryRowV,
    i: int,
)
    requires
        0 <= i <= cats.len(),
        forall|k: int| 0 <= k < cats.len() ==> cats[k].id != c.id,
    ensures
        find_category_from(cats.push(c), c.id, i) == Some(c),
    decreases cats.len() - i,
{
    if i < cats.len() {
        assert(cats.push(c)[i] == cats[i]);
        lemma_find_category_fresh_push(cats, c, i + 1);
    } else {
        assert(cats.push(c)[i] == c);
    }
}

/// The single fetch passes over link rows that do not carry `id`.
proof fn lemma_fetch_one_skips(s: StoreV, id: int, i: int, n: int)
    requires
        0 <= i <= n <= s.links.len(),
        forall|k: int| i <= k < n ==> s.links[k].task_id != id,
    ensures
        fetch_one_from(s, id, i) == fetch_one_from(s, id, n),
    decreases n - i,
{
    if i < n {
        lemma_fetch_one_skips(s, id, i + 1, n);
    }
}

/// Round trip: inserting a fresh task row, a fresh category row, and a link
/// tying them, and then fetching the task's identifier, returns an entity
/// whose scalar fields are the task row's and whose category is the
/// category row's name.
pub proof fn lemma_insert_then_fetch(
    s: StoreV,
    t: TaskRowV,
    c: CategoryRowV,
    l: TaskCategoryRowV,
)
    requires
        l.task_id == t.id,
        l.category_id == c.id,
        forall|i: int| 0 <= i < s.tasks.len() ==> s.tasks[i].id != t.id,
        forall|i: int| 0 <= i < s.categories.len() ==> s.categories[i].id != c.id,
        forall|i: int| 0 <= i < s.links.len() ==> s.links[i].task_id != t.id,
    ensures
        ({
            let s2 = StoreV {
                tasks: s.tasks.push(t),
                links: s.links.push(l),
                categories: s.categories.push(c),
            };
            fetch_one(s2, t.id) == Some(
                TaskV {
                    id: t.id,
                    user_id: t.user_id,
                    title: t.title,
                    description: t.description,
                    due_date: t.due_date,
                    category: c.name,
                },
            )
        }),
{
    let s2 = StoreV {
        tasks: s.tasks.push(t),
        links: s.links.push(l),
        categories: s.categories.push(c),
    };
    assert forall|k: int| 0 <= k < s.links.len() implies s2.links[k].task_id != t.id by {
        assert(s2.links[k] == s.links[k]);
    }
    lemma_fetch_one_skips(s2, t.id, 0, s.links.len() as int);
    assert(s2.links[s.links.len() as int] == l);
    lemma_find_task_fresh_push(s.tasks, t, 0);
    lemma_find_category_fresh_push(s.categories, c, 0);
    assert(join_link(s2, l) == Some(
        TaskV {
            id: t.id,
            user_id: t.user_id,
            title: t.title,
            description: t.description,
            due_date: t.due_date,
            category: c.name,
        },
    ));
}

/// The single fetch is consistent with the collection fetch on one store
/// snapshot: an entity the single fetch returns is among the entities the
/// collection fetch returns.
pub proof fn lemma_single_fetch_in_collection(s: StoreV, id: int)
    requires
        fetch_one(s, id) is Some,
    ensures
        joined_tasks(s).contains(fetch_one(s, id)->Some_0),
{
    lemma_fetch_in_joined_from(s, id, 0);
}

/// The single fetch's result from `i` on is an element of the join from `i`
/// on.
proof fn lemma_fetch_in_joined_from(s: StoreV, id: int, i: int)
    requires
        fetch_one_from(s, id, i) is Some,
    ensures
        joined_from(s, i).contains(fetch_one_from(s, id, i)->Some_0),
    decreases s.links.len() - i,
{
    let t = fetch_one_from(s, id, i)->Some_0;
    if s.links[i].task_id == id && join_link(s, s.links[i]) is Some {
        assert(joined_from(s, i)[0] == t);
        assert(joined_from(s, i).contains(t));
    } else {
        lemma_fetch_in_joined_from(s, id, i + 1);
        let k = choose|k: int|
            0 <= k < joined_from(s, i + 1).len() && #[trigger] joined_from(s, i + 1)[k] == t;
        match join_link(s, s.links[i]) {
            Some(u) => {
                assert(joined_from(s, i)[k + 1] == t);
                assert(joined_from(s, i).contains(t));
            },
            None => {
                assert(joined_from(s, i) == joined_from(s, i + 1));
            },
        }
    }
}

} // verus!


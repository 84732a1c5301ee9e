//! The relational store model: one table of tasks, one of categories, and a
//! link table tying each task to its categories. All records are plain
//! values; the query layer in `resolvers` reads them through the spec-level
//! views defined here.

use vstd::prelude::*;

verus! {

/// A row of the task table: the scalar fields of one entity.
pub struct TaskRow {
    pub id: i32,
    pub user_id: i32,
    pub title: String,
    pub description: String,
    pub due_date: String,
}

/// A row of the category table.
pub struct CategoryRow {
    pub id: i32,
    pub name: String,
}

/// A row of the link table: ties the task with `task_id` to the category
/// with `category_id`.
pub struct TaskCategoryRow {
    pub task_id: i32,
    pub category_id: i32,
}

/// The whole store: three tables in row order.
pub struct Store {
    pub tasks: Vec<TaskRow>,
    pub task_categories: Vec<TaskCategoryRow>,
    pub categories: Vec<CategoryRow>,
}

/// Mathematical value of a task row.
pub ghost struct TaskRowV {
    pub id: int,
    pub user_id: int,
    pub title: Seq<char>,
    pub description: Seq<char>,
    pub due_date: Seq<char>,
}

/// Mathematical value of a category row.
pub ghost struct CategoryRowV {
    pub id: int,
    pub name: Seq<char>,
}

/// Mathematical value of a link row.
pub ghost struct TaskCategoryRowV {
    pub task_id: int,
    pub category_id: int,
}

/// Mathematical value of the store: the three tables as sequences.
pub ghost struct StoreV {
    pub tasks: Seq<TaskRowV>,
    pub links: Seq<TaskCategoryRowV>,
    pub categories: Seq<CategoryRowV>,
}

impl View for TaskRow {
    type V = TaskRowV;

    open spec fn view(&self) -> TaskRowV {
        TaskRowV {
            id: self.id as int,
            user_id: self.user_id as int,
            title: self.title@,
            description: self.description@,
            due_date: self.due_date@,
        }
    }
}

impl View for CategoryRow {
    type V = CategoryRowV;

    open spec fn view(&self) -> CategoryRowV {
        CategoryRowV { id: self.id as int, name: self.name@ }
    }
}

impl View for TaskCategoryRow {
    type V = TaskCategoryRowV;

    open spec fn view(&self) -> TaskCategoryRowV {
        TaskCategoryRowV {
            task_id: self.task_id as int,
            category_id: self.category_id as int,
        }
    }
}

/// The task table as a sequence of mathematical rows.
pub open spec fn task_views(rows: Seq<TaskRow>) -> Seq<TaskRowV> {
    rows.map_values(|r: TaskRow| r@)
}

/// The link table as a sequence of mathematical rows.
pub open spec fn link_views(rows: Seq<TaskCategoryRow>) -> Seq<TaskCategoryRowV> {
    rows.map_values(|r: TaskCategoryRow| r@)
}

/// The category table as a sequence of mathematical rows.
pub open spec fn category_views(rows: Seq<CategoryRow>) -> Seq<CategoryRowV> {
    rows.map_values(|r: CategoryRow| r@)
}

impl View for Store {
    type V = StoreV;

    open spec fn view(&self) -> StoreV {
        StoreV {
            tasks: task_views(self.tasks@),
            links: link_views(self.task_categories@),
            categories: category_views(self.categories@),
        }
    }
}

impl StoreV {
    /// Identifiers are unique within the task table and within the category
    /// table.
    pub open spec fn wf(self) -> bool {
        &&& forall|i: int, j: int|
            0 <= i < j < self.tasks.len() ==> self.tasks[i].id != self.tasks[j].id
        &&& forall|i: int, j: int|
            0 <= i < j < self.categories.len() ==> self.categories[i].id != self.categories[j].id
    }
}

/// First task row at or after position `i` whose identifier is `id`.
pub open spec fn find_task_from(tasks: Seq<TaskRowV>, id: int, i: int) -> Option<TaskRowV>
    decreases tasks.len() - i,
{
    if i < 0 || i >= tasks.len() {
        None
    } else if tasks[i].id == id {
        Some(tasks[i])
    } else {
        find_task_from(tasks, id, i + 1)
    }
}

/// The task row a fetch by identifier resolves to: the first row with that
/// identifier, in table order.
pub open spec fn find_task(tasks: Seq<TaskRowV>, id: int) -> Option<TaskRowV> {
    find_task_from(tasks, id, 0)
}

/// First category row at or after position `i` whose identifier is `id`.
pub open spec fn find_category_from(cats: Seq<CategoryRowV>, id: int, i: int) -> Option<
    CategoryRowV,
>
    decreases cats.len() - i,
{
    if i < 0 || i >= cats.len() {
        None
    } else if cats[i].id == id {
        Some(cats[i])
    } else {
        find_category_from(cats, id, i + 1)
    }
}

/// The category row a join resolves to: the first row with that identifier.
pub open spec fn find_category(cats: Seq<CategoryRowV>, id: int) -> Option<CategoryRowV> {
    find_category_from(cats, id, 0)
}

impl Store {
    /// An empty store.
    pub fn new() -> (s: Store)
        ensures
            s@.tasks.len() == 0,
            s@.links.len() == 0,
            s@.categories.len() == 0,
            s@.wf(),
    {
        Store { tasks: Vec::new(), task_categories: Vec::new(), categories: Vec::new() }
    }

    /// Appends one task row.
    pub fn insert_task(&mut self, row: TaskRow)
        ensures
            final(self)@.tasks == old(self)@.tasks.push(row@),
            final(self)@.links == old(self)@.links,
            final(self)@.categories == old(self)@.categories,
    {
        let ghost pre = self@;
        self.tasks.push(row);
        proof {
            assert(self@.tasks =~= pre.tasks.push(self.tasks@.last()@));
            assert(self@.links =~= pre.links);
            assert(self@.categories =~= pre.categories);
        }
    }

    /// Appends one category row.
    pub fn insert_category(&mut self, row: CategoryRow)
        ensures
            final(self)@.tasks == old(self)@.tasks,
            final(self)@.links == old(self)@.links,
            final(self)@.categories == old(self)@.categories.push(row@),
    {
        let ghost pre = self@;
        self.categories.push(row);
        proof {
            assert(self@.tasks =~= pre.tasks);
            assert(self@.links =~= pre.links);
            assert(self@.categories =~= pre.categories.push(self.categories@.last()@));
        }
    }

    /// Appends one link row.
    pub fn insert_link(&mut self, row: TaskCategoryRow)
        ensures
            final(self)@.tasks == old(self)@.tasks,
            final(self)@.links == old(self)@.links.push(row@),
            final(self)@.categories == old(self)@.categories,
    {
        let ghost pre = self@;
        self.task_categories.push(row);
        proof {
            assert(self@.tasks =~= pre.tasks);
            assert(self@.links =~= pre.links.push(self.task_categories@.last()@));
            assert(self@.categories =~= pre.categories);
        }
    }
}

/// First task row with identifier `id`, as a reference, in table order.
pub fn find_task_row<'a>(tasks: &'a Vec<TaskRow>, id: i32) -> (r: Option<&'a TaskRow>)
    ensures
        match r {
            Some(t) => find_task(task_views(tasks@), id as int) == Some(t@),
            None => find_task(task_views(tasks@), id as int) is None,
        },
{
    let ghost rows = task_views(tasks@);
    let mut i: usize = 0;
    while i < tasks.len()
        invariant
            0 <= i <= tasks.len(),
            rows == task_views(tasks@),
            rows.len() == tasks@.len(),
            find_task(rows, id as int) == find_task_from(rows, id as int, i as int),
        decreases tasks.len() - i,
    {
        if tasks[i].id == id {
            return Some(&tasks[i]);
        }
        i = i + 1;
    }
    None
}

/// First category row with identifier `id`, as a reference, in table order.
pub fn find_category_row<'a>(cats: &'a Vec<CategoryRow>, id: i32) -> (r: Option<&'a CategoryRow>)
    ensures
        match r {
            Some(c) => find_category(category_views(cats@), id as int) == Some(c@),
            None => find_category(category_views(cats@), id as int) is None,
        },
{
    let ghost rows = category_views(cats@);
    let mut i: usize = 0;
    while i < cats.len()
        invariant
            0 <= i <= cats.len(),
            rows == category_views(cats@),
            rows.len() == cats@.len(),
            find_category(rows, id as int) == find_category_from(rows, id as int, i as int),
        decreases cats.len() - i,
    {
        if cats[i].id == id {
            return Some(&cats[i]);
        }
        i = i + 1;
    }
    None
}

} // verus!

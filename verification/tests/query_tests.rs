use task_query::posts::{paginate, BlogError, Post};
use task_query::resolvers::{get_task, get_tasks, QueryRoot, Task, TaskError};
use task_query::store::{CategoryRow, Store, TaskCategoryRow, TaskRow};

fn task_row(id: i32, title: &str, description: &str, due_date: &str) -> TaskRow {
    TaskRow {
        id,
        user_id: 10,
        title: title.to_owned(),
        description: description.to_owned(),
        due_date: due_date.to_owned(),
    }
}

fn milk_store() -> Store {
    let mut s = Store::new();
    s.insert_task(task_row(1, "Buy milk", "2%", "2024-01-01"));
    s.insert_category(CategoryRow { id: 5, name: "errand".to_owned() });
    s.insert_link(TaskCategoryRow { task_id: 1, category_id: 5 });
    s
}

fn assert_milk_task(t: &Task) {
    assert_eq!(t.id, 1);
    assert_eq!(t.user_id, 10);
    assert_eq!(t.title, "Buy milk");
    assert_eq!(t.description, "2%");
    assert_eq!(t.due_date, "2024-01-01");
    assert_eq!(t.category.name, "errand");
}

#[test]
fn fetch_present_task() {
    let s = milk_store();
    let t = get_task(&s, 1).unwrap();
    assert_milk_task(&t);
}

#[test]
fn fetch_absent_id_is_not_found() {
    let s = milk_store();
    assert_eq!(get_task(&s, 99).unwrap_err(), TaskError::NotFoundTask);
}

#[test]
fn resolver_absent_id_carries_not_found_code() {
    let s = milk_store();
    let root = QueryRoot;
    let e = root.get_task(&s, 99).err().unwrap();
    assert_eq!(e.code, "NOT_FOUND");
    assert_eq!(e.message, "タスクが存在しません");
}

#[test]
fn resolver_present_id_returns_record() {
    let s = milk_store();
    let root = QueryRoot;
    let t = root.get_task(&s, 1).unwrap().unwrap();
    assert_milk_task(&t);
}

#[test]
fn collection_with_single_row() {
    let s = milk_store();
    let all = get_tasks(&s).unwrap();
    assert_eq!(all.len(), 1);
    assert_milk_task(&all[0]);
}

#[test]
fn empty_store_collection_is_success() {
    let s = Store::new();
    let all = get_tasks(&s).unwrap();
    assert!(all.is_empty());
    let root = QueryRoot;
    let got = root.get_tasks(&s).unwrap().unwrap();
    assert!(got.is_empty());
}

#[test]
fn unlinked_task_never_listed() {
    let mut s = milk_store();
    s.insert_task(task_row(2, "No category", "", "2024-02-02"));
    let all = get_tasks(&s).unwrap();
    assert_eq!(all.len(), 1);
    assert_eq!(all[0].id, 1);
    assert_eq!(get_task(&s, 2).unwrap_err(), TaskError::NotFoundTask);
}

#[test]
fn link_to_missing_category_excluded() {
    let mut s = milk_store();
    s.insert_task(task_row(3, "Dangling", "", "2024-03-03"));
    s.insert_link(TaskCategoryRow { task_id: 3, category_id: 999 });
    let all = get_tasks(&s).unwrap();
    assert_eq!(all.len(), 1);
    assert_eq!(all[0].id, 1);
    assert_eq!(get_task(&s, 3).unwrap_err(), TaskError::NotFoundTask);
}

#[test]
fn doubly_linked_task_joins_once_per_link() {
    let mut s = milk_store();
    s.insert_category(CategoryRow { id: 6, name: "home".to_owned() });
    s.insert_link(TaskCategoryRow { task_id: 1, category_id: 6 });
    let all = get_tasks(&s).unwrap();
    assert_eq!(all.len(), 2);
    assert_eq!(all[0].category.name, "errand");
    assert_eq!(all[1].category.name, "home");
    // the single fetch joins the first link's category, exactly once
    let t = get_task(&s, 1).unwrap();
    assert_eq!(t.category.name, "errand");
}

#[test]
fn insert_round_trip() {
    let mut s = Store::new();
    s.insert_category(CategoryRow { id: 20, name: "work".to_owned() });
    s.insert_task(task_row(7, "Write report", "quarterly", "2024-06-30"));
    s.insert_link(TaskCategoryRow { task_id: 7, category_id: 20 });
    let t = get_task(&s, 7).unwrap();
    assert_eq!(t.id, 7);
    assert_eq!(t.title, "Write report");
    assert_eq!(t.description, "quarterly");
    assert_eq!(t.due_date, "2024-06-30");
    assert_eq!(t.category.name, "work");
}

#[test]
fn boundary_identifiers_found() {
    let mut s = Store::new();
    s.insert_category(CategoryRow { id: 0, name: "edge".to_owned() });
    s.insert_task(task_row(i32::MIN, "lowest", "", "2024-01-01"));
    s.insert_task(task_row(i32::MAX, "highest", "", "2024-01-02"));
    s.insert_link(TaskCategoryRow { task_id: i32::MIN, category_id: 0 });
    s.insert_link(TaskCategoryRow { task_id: i32::MAX, category_id: 0 });
    assert_eq!(get_task(&s, i32::MIN).unwrap().title, "lowest");
    assert_eq!(get_task(&s, i32::MAX).unwrap().title, "highest");
}

#[test]
fn single_fetch_agrees_with_collection() {
    let s = milk_store();
    let one = get_task(&s, 1).unwrap();
    let all = get_tasks(&s).unwrap();
    assert!(all.iter().any(|t| t.id == one.id && t.title == one.title
        && t.category.name == one.category.name));
}

#[test]
fn task_error_classification() {
    let e = TaskError::NotFoundTask.extend();
    assert_eq!(e.message, "タスクが存在しません");
    assert_eq!(e.code, "NOT_FOUND");
    let e = TaskError::NotFoundTasks.extend();
    assert_eq!(e.message, "タスクが存在しません");
    assert_eq!(e.code, "NOT_FOUND");
    let e = TaskError::ServerError("db unreachable".to_owned()).extend();
    assert_eq!(e.message, "サーバーエラー");
    assert_eq!(e.code, "db unreachable");
}

#[test]
fn blog_error_classification() {
    let e = BlogError::NotFoundPost.extend();
    assert_eq!(e.message, "投稿が存在しません");
    assert_eq!(e.code, "NOT_FOUND");
    let e = BlogError::NotFoundPosts.extend();
    assert_eq!(e.message, "投稿が存在しません");
    assert_eq!(e.code, "NOT_FOUND");
    let e = BlogError::ServerError("pool exhausted".to_owned()).extend();
    assert_eq!(e.message, "ServerError");
    assert_eq!(e.code, "pool exhausted");
}

fn post(id: i32) -> Post {
    Post {
        id,
        title: format!("post {}", id),
        category: Some("rust".to_owned()),
        contents: None,
        pub_date: 1_700_000_000 + id as i64,
        open_flag: 1,
    }
}

#[test]
fn paginate_first_page() {
    let all = vec![post(0), post(1), post(2), post(3), post(4)];
    let page = paginate(&all, "rust".to_owned(), 0, 2);
    assert_eq!(page.current, 0);
    assert_eq!(page.page_size, 2);
    assert_eq!(page.category, "rust");
    assert_eq!(page.prev, None);
    assert_eq!(page.next, Some(1));
    assert_eq!(page.results.len(), 2);
    assert_eq!(page.results[0].id, 0);
    assert_eq!(page.results[1].id, 1);
}

#[test]
fn paginate_middle_page() {
    let all = vec![post(0), post(1), post(2), post(3), post(4)];
    let page = paginate(&all, "rust".to_owned(), 1, 2);
    assert_eq!(page.prev, Some(0));
    assert_eq!(page.next, Some(2));
    assert_eq!(page.results.len(), 2);
    assert_eq!(page.results[0].id, 2);
    assert_eq!(page.results[1].id, 3);
}

#[test]
fn paginate_last_partial_page() {
    let all = vec![post(0), post(1), post(2), post(3), post(4)];
    let page = paginate(&all, "rust".to_owned(), 2, 2);
    assert_eq!(page.prev, Some(1));
    assert_eq!(page.next, None);
    assert_eq!(page.results.len(), 1);
    assert_eq!(page.results[0].id, 4);
}

#[test]
fn paginate_empty_collection() {
    let all: Vec<Post> = Vec::new();
    let page = paginate(&all, "rust".to_owned(), 0, 3);
    assert_eq!(page.prev, None);
    assert_eq!(page.next, None);
    assert!(page.results.is_empty());
}

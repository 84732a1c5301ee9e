//! The category-scoped post family: its record shape, its error taxonomy,
//! and the paginated collection result. A page holds at most `page_size`
//! records, carries a previous-page index exactly on pages after the first,
//! and carries a next-page index exactly where a further page exists.

use vstd::prelude::*;

use crate::resolvers::ApiError;

verus! {

/// One post record. The publication instant is carried as a plain count of
/// seconds, so the record is all scalar fields.
#[derive(Debug)]
pub struct Post {
    pub id: i32,
    pub title: String,
    pub category: Option<String>,
    pub contents: Option<String>,
    pub pub_date: i64,
    pub open_flag: i8,
}

/// Mathematical value of a post record.
pub ghost struct PostV {
    pub id: int,
    pub title: Seq<char>,
    pub category: Option<Seq<char>>,
    pub contents: Option<Seq<char>>,
    pub pub_date: int,
    pub open_flag: int,
}

impl View for Post {
    type V = PostV;

    open spec fn view(&self) -> PostV {
        PostV {
            id: self.id as int,
            title: self.title@,
            category: match self.category {
                Some(c) => Some(c@),
                None => None,
            },
            contents: match self.contents {
                Some(c) => Some(c@),
                None => None,
            },
            pub_date: self.pub_date as int,
            open_flag: self.open_flag as int,
        }
    }
}

/// The views of a post collection, in order.
pub open spec fn post_seq_view(posts: Seq<Post>) -> Seq<PostV> {
    posts.map_values(|p: Post| p@)
}

/// One page of a post collection, with its pagination metadata.
#[derive(Debug)]
pub struct Posts {
    pub current: i32,
    pub next: Option<i32>,
    pub prev: Option<i32>,
    pub category: String,
    pub page_size: i32,
    pub results: Vec<Post>,
}

impl Posts {
    /// The invariant of a page: it holds at most `page_size` records, the
    /// previous-page index is present exactly on pages after the first and
    /// names the page before, and the next-page index, where present, names
    /// the page after.
    pub open spec fn wf(self) -> bool {
        &&& self.results@.len() <= self.page_size as int
        &&& (self.prev is Some <==> self.current > 0)
        &&& (self.prev is Some ==> self.prev->Some_0 == self.current - 1)
        &&& (self.next is Some ==> self.next->Some_0 == self.current + 1)
    }
}

/// The post family's error taxonomy: the two not-found kinds and a backend
/// failure carrying a diagnostic string.
#[derive(Debug, PartialEq, Eq)]
pub enum BlogError {
    NotFoundPost,
    NotFoundPosts,
    ServerError(String),
}

impl BlogError {
    /// The human-readable display text of this error.
    pub open spec fn message_spec(self) -> Seq<char> {
        match self {
            BlogError::NotFoundPost => "投稿が存在しません"@,
            BlogError::NotFoundPosts => "投稿が存在しません"@,
            BlogError::ServerError(_) => "ServerError"@,
        }
    }

    /// The machine-readable code of this error: the not-found code for the
    /// two absence kinds, the backend reason string for a server failure.
    pub open spec fn code_spec(self) -> Seq<char> {
        match self {
            BlogError::NotFoundPost => "NOT_FOUND"@,
            BlogError::NotFoundPosts => "NOT_FOUND"@,
            BlogError::ServerError(reason) => reason@,
        }
    }

    /// The display text, as an owned string.
    pub fn message(&self) -> (r: String)
        ensures
            r@ == self.message_spec(),
    {
        match self {
            BlogError::NotFoundPost => "投稿が存在しません".to_owned(),
            BlogError::NotFoundPosts => "投稿が存在しません".to_owned(),
            BlogError::ServerError(_) => "ServerError".to_owned(),
        }
    }

    /// The machine-readable code, as an owned string.
    pub fn code(&self) -> (r: String)
        ensures
            r@ == self.code_spec(),
    {
        match self {
            BlogError::NotFoundPost => "NOT_FOUND".to_owned(),
            BlogError::NotFoundPosts => "NOT_FOUND".to_owned(),
            BlogError::ServerError(reason) => reason.clone(),
        }
    }

    /// Classifies this error into the structured payload a caller receives.
    pub fn extend(&self) -> (r: ApiError)
        ensures
            r.message@ == self.message_spec(),
            r.code@ == self.code_spec(),
    {
        ApiError { message: self.message(), code: self.code() }
    }
}

/// Copies one post record.
fn clone_post(p: &Post) -> (r: Post)
    ensures
        r@ == p@,
{
    Post {
        id: p.id,
        title: p.title.clone(),
        category: match &p.category {
            Some(c) => Some(c.clone()),
            None => None,
        },
        contents: match &p.contents {
            Some(c) => Some(c.clone()),
            None => None,
        },
        pub_date: p.pub_date,
        open_flag: p.open_flag,
    }
}

/// Builds page `current` of the collection `all`: the records from position
/// `current * page_size` up to the page size or the end of the collection,
/// a next-page index exactly where records remain beyond this page, and a
/// previous-page index exactly on pages after the first.
pub fn paginate(all: &Vec<Post>, category: String, current: i32, page_size: i32) -> (r: Posts)
    requires
        0 <= current < i32::MAX,
        0 < page_size,
        (current as int) * (page_size as int) <= all@.len(),
    ensures
        r.wf(),
        r.current == current,
        r.page_size == page_size,
        r.category@ == category@,
        ({
            let start = (current as int) * (page_size as int);
            let end = if start + page_size as int <= all@.len() {
                start + page_size as int
            } else {
                all@.len() as int
            };
            &&& post_seq_view(r.results@) == post_seq_view(all@).subrange(start, end)
            &&& (r.next is Some <==> end < all@.len())
            &&& (r.prev is Some <==> current > 0)
        }),
{
    let n: usize = all.len();
    proof {
        assert((current as int) * (page_size as int) <= n as int);
    }
    let start: usize = (current as usize) * (page_size as usize);
    let end: usize = if n - start >= page_size as usize {
        start + page_size as usize
    } else {
        all.len()
    };
    let ghost all_v = post_seq_view(all@);
    let mut results: Vec<Post> = Vec::new();
    let mut k: usize = start;
    while k < end
        invariant
            start <= k <= end <= all@.len(),
            all_v == post_seq_view(all@),
            all_v.len() == all@.len(),
            post_seq_view(results@) == all_v.subrange(start as int, k as int),
        decreases end - k,
    {
        let ghost pre = results@;
        results.push(clone_post(&all[k]));
        proof {
            assert(post_seq_view(results@) =~= post_seq_view(pre).push(results@.last()@));
            assert(post_seq_view(results@) =~= all_v.subrange(start as int, k as int + 1));
        }
        k = k + 1;
    }
    let next: Option<i32> = if end < all.len() {
        Some(current + 1)
    } else {
        None
    };
    let prev: Option<i32> = if current > 0 {
        Some(current - 1)
    } else {
        None
    };
    Posts { current, next, prev, category, page_size, results }
}

} // verus!

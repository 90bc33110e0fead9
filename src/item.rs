use vstd::prelude::*;

use crate::errors::MyError;
use crate::ids::{uuid_hyphenated, uuid_text};
use crate::paging::{page_offset, page_take, page_window};
use crate::text::{decimal, push_decimal, same_text};

verus! {

/// The stock of an item: how many units are available.
#[derive(Clone, Copy, Debug, PartialEq, Eq)]
pub struct ItemStock {
    pub item_id: u128,
    pub quantity: i32,
}

/// Names an item.
#[derive(Clone, Copy, Debug, PartialEq, Eq)]
pub struct ItemId {
    pub item_id: u128,
}

/// A rating of an item, with a comment.
#[derive(Debug, PartialEq, Eq)]
pub struct RateForm {
    pub rating: i32,
    pub content: String,
    pub item_id: u128,
}

/// A request for one page of items.
#[derive(Debug, PartialEq, Eq)]
pub struct ItemsQuery {
    /// Number of items to fetch per page.
    pub take: Option<u32>,
    /// Page number to fetch, from 1.
    pub page_no: Option<u32>,
    /// One of `Price`, `Rating`, `DateOfCreation`, `Alphabetical`, each
    /// optionally followed by `(Inc)` or `(Dec)`.
    pub filter: Option<String>,
    /// Words to search the items' title and content for.
    pub search_string: Option<String>,
}

/// A request for one page of the comments on an item.
#[derive(Debug, PartialEq, Eq)]
pub struct CommentQuery {
    pub take: Option<u32>,
    pub page_no: Option<u32>,
    /// One of `Rating`, `DateOfCreation`, each optionally followed by
    /// `(Inc)` or `(Dec)`.
    pub filter: Option<String>,
    pub item_id: u128,
}

/// A search for completions.
#[derive(Debug, PartialEq, Eq)]
pub struct SearchQuery {
    pub query: String,
}

/// A sort direction.
#[derive(Clone, Copy, Debug, PartialEq, Eq)]
pub enum Order {
    Inc,
    Dec,
}

/// How a page of items is sorted.
#[derive(Clone, Copy, Debug, PartialEq, Eq)]
pub enum Filters {
    Rating(Order),
    DateOfCreation(Order),
    Alphabetical(Order),
    Price(Order),
}

/// How a page of comments is sorted.
#[derive(Clone, Copy, Debug, PartialEq, Eq)]
pub enum CommentFilters {
    Rating(Order),
    DateOfCreation(Order),
}

/// The item sort that `s` names; a bare name sorts increasing.
pub open spec fn filter_named(s: Seq<char>) -> Option<Filters> {
    if s == "Rating"@ || s == "Rating(Inc)"@ {
        Some(Filters::Rating(Order::Inc))
    } else if s == "Rating(Dec)"@ {
        Some(Filters::Rating(Order::Dec))
    } else if s == "DateOfCreation(Inc)"@ {
        Some(Filters::DateOfCreation(Order::Inc))
    } else if s == "DateOfCreation(Dec)"@ {
        Some(Filters::DateOfCreation(Order::Dec))
    } else if s == "Alphabetical"@ || s == "Alphabetical(Inc)"@ {
        Some(Filters::Alphabetical(Order::Inc))
    } else if s == "Alphabetical(Dec)"@ {
        Some(Filters::Alphabetical(Order::Dec))
    } else if s == "Price"@ || s == "Price(Inc)"@ {
        Some(Filters::Price(Order::Inc))
    } else if s == "Price(Dec)"@ {
        Some(Filters::Price(Order::Dec))
    } else {
        None
    }
}

/// The comment sort that `s` names; a bare name sorts increasing.
pub open spec fn comment_filter_named(s: Seq<char>) -> Option<CommentFilters> {
    if s == "Rating"@ || s == "Rating(Inc)"@ {
        Some(CommentFilters::Rating(Order::Inc))
    } else if s == "Rating(Dec)"@ {
        Some(CommentFilters::Rating(Order::Dec))
    } else if s == "DateOfCreation"@ || s == "DateOfCreation(Inc)"@ {
        Some(CommentFilters::DateOfCreation(Order::Inc))
    } else if s == "DateOfCreation(Dec)"@ {
        Some(CommentFilters::DateOfCreation(Order::Dec))
    } else {
        None
    }
}

impl Filters {
    /// Reads an item sort from its name.
    pub fn from_name(s: &str) -> (r: Option<Filters>)
        ensures
            r == filter_named(s@),
    {
        if same_text(s, "Rating") || same_text(s, "Rating(Inc)") {
            Some(Filters::Rating(Order::Inc))
        } else if same_text(s, "Rating(Dec)") {
            Some(Filters::Rating(Order::Dec))
        } else if same_text(s, "DateOfCreation(Inc)") {
            Some(Filters::DateOfCreation(Order::Inc))
        } else if same_text(s, "DateOfCreation(Dec)") {
            Some(Filters::DateOfCreation(Order::Dec))
        } else if same_text(s, "Alphabetical") || same_text(s, "Alphabetical(Inc)") {
            Some(Filters::Alphabetical(Order::Inc))
        } else if same_text(s, "Alphabetical(Dec)") {
            Some(Filters::Alphabetical(Order::Dec))
        } else if same_text(s, "Price") || same_text(s, "Price(Inc)") {
            Some(Filters::Price(Order::Inc))
        } else if same_text(s, "Price(Dec)") {
            Some(Filters::Price(Order::Dec))
        } else {
            None
        }
    }
}

impl CommentFilters {
    /// Reads a comment sort from its name.
    pub fn from_name(s: &str) -> (r: Option<CommentFilters>)
        ensures
            r == comment_filter_named(s@),
    {
        if same_text(s, "Rating") || same_text(s, "Rating(Inc)") {
            Some(CommentFilters::Rating(Order::Inc))
        } else if same_text(s, "Rating(Dec)") {
            Some(CommentFilters::Rating(Order::Dec))
        } else if same_text(s, "DateOfCreation") || same_text(s, "DateOfCreation(Inc)") {
            Some(CommentFilters::DateOfCreation(Order::Inc))
        } else if same_text(s, "DateOfCreation(Dec)") {
            Some(CommentFilters::DateOfCreation(Order::Dec))
        } else {
            None
        }
    }
}

/// The `LIMIT ... OFFSET ...` clause of a page request.
pub open spec fn pagination_text(take: Option<u32>, page_no: Option<u32>) -> Seq<char> {
    "LIMIT "@ + decimal(page_take(take)) + " OFFSET "@ + decimal(page_offset(take, page_no))
}

/// Appends the `LIMIT ... OFFSET ...` clause of a page request to `s`.
pub(crate) fn push_pagination(s: &mut String, take: Option<u32>, page_no: Option<u32>)
    ensures
        final(s)@ == old(s)@ + pagination_text(take, page_no),
{
    let (t, offset) = page_window(take, page_no);
    s.append("LIMIT ");
    push_decimal(s, t);
    s.append(" OFFSET ");
    push_decimal(s, offset);
    assert(final(s)@ =~= old(s)@ + pagination_text(take, page_no));
}

/// The pagination clause of an items request.
pub fn fetch_pagination_params(params: &ItemsQuery) -> (r: String)
    ensures
        r@ == pagination_text(params.take, params.page_no),
{
    let mut s = String::new();
    push_pagination(&mut s, params.take, params.page_no);
    assert(s@ =~= pagination_text(params.take, params.page_no));
    s
}

/// The full-text search condition for `search`, empty without one.
pub open spec fn search_text(search: Option<String>) -> Seq<char> {
    match search {
        Some(t) => "WHERE to_tsvector(\"title\"|| ' ' ||\"content\") @@ websearch_to_tsquery('english','"@
            + t@ + "')"@,
        None => Seq::empty(),
    }
}

/// The sort clause of an items query.
pub open spec fn item_order_text(f: Option<Filters>) -> Seq<char> {
    match f {
        None => Seq::empty(),
        Some(Filters::Alphabetical(Order::Inc)) => "ORDER BY \"title\" ASC "@,
        Some(Filters::Alphabetical(Order::Dec)) => "ORDER BY \"title\" DESC "@,
        Some(Filters::DateOfCreation(Order::Inc)) => "ORDER BY \"date_created\" ASC "@,
        Some(Filters::DateOfCreation(Order::Dec)) => "ORDER BY \"date_created\" DESC "@,
        Some(Filters::Rating(Order::Inc)) => "ORDER BY \"rating\" ASC "@,
        Some(Filters::Rating(Order::Dec)) => "ORDER BY \"rating\" DESC NULLS LAST"@,
        Some(Filters::Price(Order::Inc)) => "ORDER BY \"price\" ASC "@,
        Some(Filters::Price(Order::Dec)) => "ORDER BY \"price\" DESC "@,
    }
}

/// The inner selection of an items query: search and page, unsorted.
pub open spec fn item_selection_text(p: ItemsQuery, f: Option<Filters>) -> Seq<char> {
    let head = "SELECT * FROM \"item\""@ + " "@ + search_text(p.search_string);
    let page = pagination_text(p.take, p.page_no);
    match f {
        None => head + " "@ + page + " "@,
        Some(Filters::Rating(Order::Dec)) => head + "  "@ + page,
        Some(_) => head + " "@ + page,
    }
}

/// The query that fetches one page of items with their stock.
pub open spec fn items_query_text(p: ItemsQuery, f: Option<Filters>) -> Seq<char> {
    "SELECT \n        t1.item_id, t1.user_id,t1.title,t1.content,t1.price,t1.rating,t2.stock \n         FROM ("@
        + item_selection_text(p, f)
        + ") AS t1 \n         LEFT JOIN \n         ( SELECT \"item_id\",\"quantity\" as stock from \"stock\") AS t2 \n         ON t1.\"item_id\" = t2.\"item_id\" "@
        + item_order_text(f)
}

fn push_item_order(s: &mut String, f: Option<Filters>)
    ensures
        final(s)@ == old(s)@ + item_order_text(f),
{
    match f {
        None => {},
        Some(Filters::Alphabetical(Order::Inc)) => s.append("ORDER BY \"title\" ASC "),
        Some(Filters::Alphabetical(Order::Dec)) => s.append("ORDER BY \"title\" DESC "),
        Some(Filters::DateOfCreation(Order::Inc)) => s.append("ORDER BY \"date_created\" ASC "),
        Some(Filters::DateOfCreation(Order::Dec)) => s.append("ORDER BY \"date_created\" DESC "),
        Some(Filters::Rating(Order::Inc)) => s.append("ORDER BY \"rating\" ASC "),
        Some(Filters::Rating(Order::Dec)) => s.append("ORDER BY \"rating\" DESC NULLS LAST"),
        Some(Filters::Price(Order::Inc)) => s.append("ORDER BY \"price\" ASC "),
        Some(Filters::Price(Order::Dec)) => s.append("ORDER BY \"price\" DESC "),
    }
    assert(final(s)@ =~= old(s)@ + item_order_text(f));
}

/// The query that fetches the page of items that `pagination` asks for,
/// or `UnproccessableEntityError` where its filter names no sort.
pub fn paginate_items(pagination: ItemsQuery) -> (r: Result<String, MyError>)
    ensures
        match pagination.filter {
            Some(name) => match filter_named(name@) {
                None => r == Err::<String, MyError>(MyError::UnproccessableEntityError),
                Some(f) => r matches Ok(q) && q@ == items_query_text(pagination, Some(f)),
            },
            None => r matches Ok(q) && q@ == items_query_text(pagination, None),
        },
{
    let f: Option<Filters> = match &pagination.filter {
        Some(name) => match Filters::from_name(name.as_str()) {
            Some(f) => Some(f),
            None => { return Err(MyError::UnproccessableEntityError); },
        },
        None => None,
    };
    let mut q = String::from_str(
        "SELECT \n        t1.item_id, t1.user_id,t1.title,t1.content,t1.price,t1.rating,t2.stock \n         FROM (",
    );
    q.append("SELECT * FROM \"item\"");
    q.append(" ");
    match &pagination.search_string {
        Some(t) => {
            q.append("WHERE to_tsvector(\"title\"|| ' ' ||\"content\") @@ websearch_to_tsquery('english','");
            q.append(t.as_str());
            q.append("')");
        },
        None => {},
    }
    match f {
        Some(Filters::Rating(Order::Dec)) => q.append("  "),
        _ => q.append(" "),
    }
    push_pagination(&mut q, pagination.take, pagination.page_no);
    if f.is_none() {
        q.append(" ");
    }
    q.append(
        ") AS t1 \n         LEFT JOIN \n         ( SELECT \"item_id\",\"quantity\" as stock from \"stock\") AS t2 \n         ON t1.\"item_id\" = t2.\"item_id\" ",
    );
    push_item_order(&mut q, f);
    assert(q@ =~= items_query_text(pagination, f));
    Ok(q)
}

/// The sort clause of a comments query.
pub open spec fn comment_order_text(f: Option<CommentFilters>) -> Seq<char> {
    match f {
        None => Seq::empty(),
        Some(CommentFilters::DateOfCreation(Order::Inc)) => "ORDER BY \"date_created\" ASC "@,
        Some(CommentFilters::DateOfCreation(Order::Dec)) => "ORDER BY \"date_created\" DESC "@,
        Some(CommentFilters::Rating(Order::Inc)) => "ORDER BY \"rating\" ASC "@,
        Some(CommentFilters::Rating(Order::Dec)) => "ORDER BY \"rating\" DESC "@,
    }
}

/// The query that fetches one page of the comments on an item.
pub open spec fn comments_query_text(p: CommentQuery, f: Option<CommentFilters>) -> Seq<char> {
    "SELECT \"rating\",\"content\",\"item_id\" FROM \"comment\" where \"item_id\"= '"@
        + uuid_hyphenated(p.item_id) + "'"@ + " "@ + pagination_text(p.take, p.page_no) + " "@
        + comment_order_text(f)
}

/// The query that fetches the page of comments that `pagination` asks
/// for, or `UnproccessableEntityError` where its filter names no sort.
pub fn paginate_comments(pagination: CommentQuery) -> (r: Result<String, MyError>)
    ensures
        match pagination.filter {
            Some(name) => match comment_filter_named(name@) {
                None => r == Err::<String, MyError>(MyError::UnproccessableEntityError),
                Some(f) => r matches Ok(q) && q@ == comments_query_text(pagination, Some(f)),
            },
            None => r matches Ok(q) && q@ == comments_query_text(pagination, None),
        },
{
    let f: Option<CommentFilters> = match &pagination.filter {
        Some(name) => match CommentFilters::from_name(name.as_str()) {
            Some(f) => Some(f),
            None => { return Err(MyError::UnproccessableEntityError); },
        },
        None => None,
    };
    let mut q = String::from_str(
        "SELECT \"rating\",\"content\",\"item_id\" FROM \"comment\" where \"item_id\"= '",
    );
    let id = uuid_text(pagination.item_id);
    q.append(id.as_str());
    q.append("'");
    q.append(" ");
    push_pagination(&mut q, pagination.take, pagination.page_no);
    q.append(" ");
    match f {
        None => {},
        Some(CommentFilters::DateOfCreation(Order::Inc)) => q.append("ORDER BY \"date_created\" ASC "),
        Some(CommentFilters::DateOfCreation(Order::Dec)) => q.append("ORDER BY \"date_created\" DESC "),
        Some(CommentFilters::Rating(Order::Inc)) => q.append("ORDER BY \"rating\" ASC "),
        Some(CommentFilters::Rating(Order::Dec)) => q.append("ORDER BY \"rating\" DESC "),
    }
    assert(q@ =~= comments_query_text(pagination, f));
    Ok(q)
}

} // verus!

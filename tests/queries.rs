use sellorama::errors::MyError;
use sellorama::item::{
    fetch_pagination_params, paginate_comments, paginate_items, CommentFilters, CommentQuery,
    Filters, ItemsQuery, Order,
};
use sellorama::order::{paginate_orders, OrderQuery};
use sellorama::user::{paginate_orders as paginate_my_orders, MyOrderQuery};

fn items_query(take: Option<u32>, page_no: Option<u32>, filter: Option<&str>, search: Option<&str>) -> ItemsQuery {
    ItemsQuery {
        take,
        page_no,
        filter: filter.map(|f| f.to_string()),
        search_string: search.map(|s| s.to_string()),
    }
}

fn outer_items(inner: &str, order: &str) -> String {
    format!(
        r#"SELECT 
        t1.item_id, t1.user_id,t1.title,t1.content,t1.price,t1.rating,t2.stock 
         FROM ({}) AS t1 
         LEFT JOIN 
         ( SELECT "item_id","quantity" as stock from "stock") AS t2 
         ON t1."item_id" = t2."item_id" {}"#,
        inner, order
    )
}

#[test]
fn pagination_defaults() {
    assert_eq!(fetch_pagination_params(&items_query(None, None, None, None)), "LIMIT 10 OFFSET 0");
}

#[test]
fn pagination_pages_from_one() {
    assert_eq!(fetch_pagination_params(&items_query(Some(5), Some(3), None, None)), "LIMIT 5 OFFSET 10");
    assert_eq!(fetch_pagination_params(&items_query(Some(5), Some(1), None, None)), "LIMIT 5 OFFSET 0");
    assert_eq!(fetch_pagination_params(&items_query(Some(5), Some(0), None, None)), "LIMIT 5 OFFSET 0");
    assert_eq!(fetch_pagination_params(&items_query(None, Some(4), None, None)), "LIMIT 10 OFFSET 30");
}

#[test]
fn pagination_largest_page() {
    let expected = format!("LIMIT {} OFFSET {}", u32::MAX, (u32::MAX as u64 - 1) * u32::MAX as u64);
    assert_eq!(fetch_pagination_params(&items_query(Some(u32::MAX), Some(u32::MAX), None, None)), expected);
}

#[test]
fn filter_names() {
    assert_eq!(Filters::from_name("Rating"), Some(Filters::Rating(Order::Inc)));
    assert_eq!(Filters::from_name("Rating(Dec)"), Some(Filters::Rating(Order::Dec)));
    assert_eq!(Filters::from_name("DateOfCreation(Inc)"), Some(Filters::DateOfCreation(Order::Inc)));
    assert_eq!(Filters::from_name("DateOfCreation"), None);
    assert_eq!(Filters::from_name("Alphabetical"), Some(Filters::Alphabetical(Order::Inc)));
    assert_eq!(Filters::from_name("Price(Dec)"), Some(Filters::Price(Order::Dec)));
    assert_eq!(Filters::from_name("price"), None);
    assert_eq!(Filters::from_name(""), None);
    assert_eq!(CommentFilters::from_name("Rating(Dec)"), Some(CommentFilters::Rating(Order::Dec)));
    assert_eq!(CommentFilters::from_name("DateOfCreation"), Some(CommentFilters::DateOfCreation(Order::Inc)));
    assert_eq!(CommentFilters::from_name("Price"), None);
}

#[test]
fn items_query_without_filter() {
    let q = paginate_items(items_query(None, None, None, None)).unwrap();
    assert_eq!(q, outer_items(r#"SELECT * FROM "item"  LIMIT 10 OFFSET 0 "#, ""));
}

#[test]
fn items_query_with_search_and_filter() {
    let q = paginate_items(items_query(Some(2), Some(2), Some("Price(Dec)"), Some("red shoe"))).unwrap();
    let search = r#"WHERE to_tsvector("title"|| ' ' ||"content") @@ websearch_to_tsquery('english','red shoe')"#;
    let inner = format!(r#"{} {} {}"#, r#"SELECT * FROM "item""#, search, "LIMIT 2 OFFSET 2");
    assert_eq!(q, outer_items(&inner, r#"ORDER BY "price" DESC "#));
}

#[test]
fn items_query_rating_descending() {
    let q = paginate_items(items_query(None, None, Some("Rating(Dec)"), None)).unwrap();
    let inner = format!("{} {}  {}", r#"SELECT * FROM "item""#, "", "LIMIT 10 OFFSET 0");
    assert_eq!(q, outer_items(&inner, r#"ORDER BY "rating" DESC NULLS LAST"#));
}

#[test]
fn items_query_unknown_filter() {
    assert_eq!(
        paginate_items(items_query(None, None, Some("Colour"), None)),
        Err(MyError::UnproccessableEntityError)
    );
}

#[test]
fn comments_query_spells_item_uuid() {
    let q = paginate_comments(CommentQuery {
        take: Some(3),
        page_no: Some(2),
        filter: Some("Rating(Inc)".to_string()),
        item_id: 0x550e8400e29b41d4a716446655440000,
    })
    .unwrap();
    assert_eq!(
        q,
        r#"SELECT "rating","content","item_id" FROM "comment" where "item_id"= '550e8400-e29b-41d4-a716-446655440000' LIMIT 3 OFFSET 3 ORDER BY "rating" ASC "#
    );
}

#[test]
fn comments_query_unknown_filter() {
    let r = paginate_comments(CommentQuery {
        take: None,
        page_no: None,
        filter: Some("Price".to_string()),
        item_id: 1,
    });
    assert_eq!(r, Err(MyError::UnproccessableEntityError));
}

#[test]
fn seller_orders_query() {
    let q = paginate_orders(OrderQuery { page_no: Some(2), take: Some(20), dispatched: Some(true), order: Some(true) });
    let expected = format!(
        r#"SELECT t1."order_id",t1."item_id",t1."quantity",t2."order_date",t2."address_id",t1."dispatched" FROM 
        (SELECT * from "order_items" WHERE item_ownership("item_id",$1) IS TRUE ) as t1 
        INNER JOIN
        (SELECT * FROM "order" ) as t2
        ON t1."order_id" = t2."order_id"
        {} ORDER BY t2."order_date" {} LIMIT {} OFFSET {};"#,
        r#"WHERE "dispatched" = true"#, "ASC", 20, 20
    );
    assert_eq!(q, expected);
}

#[test]
fn seller_orders_query_defaults() {
    let q = paginate_orders(OrderQuery { page_no: None, take: None, dispatched: None, order: Some(false) });
    let expected = format!(
        r#"SELECT t1."order_id",t1."item_id",t1."quantity",t2."order_date",t2."address_id",t1."dispatched" FROM 
        (SELECT * from "order_items" WHERE item_ownership("item_id",$1) IS TRUE ) as t1 
        INNER JOIN
        (SELECT * FROM "order" ) as t2
        ON t1."order_id" = t2."order_id"
        {} ORDER BY t2."order_date" {} LIMIT {} OFFSET {};"#,
        "", "DESC", 10, 0
    );
    assert_eq!(q, expected);
}

#[test]
fn buyer_orders_query() {
    let q = paginate_my_orders(MyOrderQuery { page_no: Some(3), take: Some(4), dispatched: None });
    let expected = format!(
        r#"SELECT t1."order_id",t1."item_id",t1."quantity",t2."order_date",t2."address_id",t2."dispatched" FROM 
        (SELECT * from "order_items" ) as t1 
        INNER JOIN
        (SELECT * FROM "order" WHERE "user_id" = $1 ) as t2
        ON t1."order_id" = t2."order_id"
        WHERE "dispatched" = {} ORDER BY t2."order_date" DESC LIMIT {} OFFSET {};"#,
        false, 4, 8
    );
    assert_eq!(q, expected);
}


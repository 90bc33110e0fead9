use vstd::prelude::*;

use crate::cart::CartItem;
use crate::item::{pagination_text, push_pagination};
use crate::text::{bool_text, push_bool};

verus! {

/// The identity and date of a newly placed order.
#[derive(Clone, Copy, Debug, PartialEq, Eq)]
pub struct OrderDetails {
    pub order_id: u128,
    /// Seconds since the Unix epoch.
    pub order_date: i64,
}

/// The items behind a refused checkout.
#[derive(Debug, PartialEq, Eq)]
pub struct CartError {
    pub detail: Vec<CartItem>,
}

/// The delivery address an order is placed to.
#[derive(Clone, Copy, Debug, PartialEq, Eq)]
pub struct OrderForm {
    pub address_id: u128,
}

/// Names one line of an order: the order and the item.
#[derive(Clone, Copy, Debug, PartialEq, Eq)]
pub struct DispatchForm {
    pub order_id: u128,
    pub item_id: u128,
}

/// A request for one page of the order lines of the caller's items.
#[derive(Clone, Copy, Debug, PartialEq, Eq)]
pub struct OrderQuery {
    /// Page number, from 1.
    pub page_no: Option<u32>,
    /// Lines per page.
    pub take: Option<u32>,
    /// Only lines with this dispatch status.
    pub dispatched: Option<bool>,
    /// Oldest first where true; newest first otherwise.
    pub order: Option<bool>,
}

/// The dispatch status of an order line.
#[derive(Clone, Copy, Debug, PartialEq, Eq)]
pub struct DispatchStatus {
    pub dispatched: bool,
}

/// One order line with the order it belongs to.
#[derive(Clone, Copy, Debug, PartialEq, Eq)]
pub struct AllOrderDetails {
    pub order_id: u128,
    pub item_id: u128,
    pub quantity: i32,
    pub address_id: u128,
    /// Seconds since the Unix epoch.
    pub order_date: i64,
    pub dispatched: bool,
}

/// A page of order lines.
#[derive(Debug, PartialEq, Eq)]
pub struct Orders {
    pub detail: Vec<AllOrderDetails>,
}

/// The dispatch condition of an order-lines query, empty without one.
pub open spec fn dispatched_text(d: Option<bool>) -> Seq<char> {
    match d {
        Some(b) => "WHERE \"dispatched\" = "@ + bool_text(b),
        None => Seq::empty(),
    }
}

/// The sort direction of an order-lines query.
pub open spec fn direction_text(order: Option<bool>) -> Seq<char> {
    match order {
        Some(true) => "ASC"@,
        _ => "DESC"@,
    }
}

/// The query that fetches one page of the order lines of the caller's
/// items, the caller being bound as `$1`.
pub open spec fn orders_query_text(p: OrderQuery) -> Seq<char> {
    "SELECT t1.\"order_id\",t1.\"item_id\",t1.\"quantity\",t2.\"order_date\",t2.\"address_id\",t1.\"dispatched\" FROM \n        (SELECT * from \"order_items\" WHERE item_ownership(\"item_id\",$1) IS TRUE ) as t1 \n        INNER JOIN\n        (SELECT * FROM \"order\" ) as t2\n        ON t1.\"order_id\" = t2.\"order_id\"\n        "@
        + dispatched_text(p.dispatched) + " ORDER BY t2.\"order_date\" "@ + direction_text(p.order)
        + " "@ + pagination_text(p.take, p.page_no) + ";"@
}

/// The query for the page of order lines that `pagination` asks for.
pub fn paginate_orders(pagination: OrderQuery) -> (r: String)
    ensures
        r@ == orders_query_text(pagination),
{
    let mut q = String::from_str(
        "SELECT t1.\"order_id\",t1.\"item_id\",t1.\"quantity\",t2.\"order_date\",t2.\"address_id\",t1.\"dispatched\" FROM \n        (SELECT * from \"order_items\" WHERE item_ownership(\"item_id\",$1) IS TRUE ) as t1 \n        INNER JOIN\n        (SELECT * FROM \"order\" ) as t2\n        ON t1.\"order_id\" = t2.\"order_id\"\n        ",
    );
    match pagination.dispatched {
        Some(b) => {
            q.append("WHERE \"dispatched\" = ");
            push_bool(&mut q, b);
        },
        None => {},
    }
    q.append(" ORDER BY t2.\"order_date\" ");
    match pagination.order {
        Some(true) => q.append("ASC"),
        _ => q.append("DESC"),
    }
    q.append(" ");
    push_pagination(&mut q, pagination.take, pagination.page_no);
    q.append(";");
    assert(q@ =~= orders_query_text(pagination));
    q
}

} // verus!

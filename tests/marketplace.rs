use sellorama::cart::CartItem;
use sellorama::errors::MyError;
use sellorama::item::{ItemId, ItemStock};
use sellorama::market::{CartUpdate, Marketplace, OrderLine};
use sellorama::order::AllOrderDetails;
use sellorama::order::{DispatchForm, OrderDetails, OrderForm};

const ALICE: u128 = 1;
const BOB: u128 = 2;
const CAROL: u128 = 3;
const ITEM_X: u128 = 100;
const ITEM_Y: u128 = 200;
const ITEM_Z: u128 = 300;
const ADDR_A: u128 = 1000;
const ADDR_C: u128 = 3000;

fn line(item_id: u128, quantity: i32) -> CartItem {
    CartItem { item_id, quantity }
}

fn stock(item_id: u128, quantity: i32) -> ItemStock {
    ItemStock { item_id, quantity }
}

/// Bob sells X and Y, Carol sells Z; Alice and Carol have addresses.
fn market() -> Marketplace {
    let mut m = Marketplace::new();
    m.create_item(BOB, ITEM_X).unwrap();
    m.create_item(BOB, ITEM_Y).unwrap();
    m.create_item(CAROL, ITEM_Z).unwrap();
    m.create_user_address(ALICE, ADDR_A).unwrap();
    m.create_user_address(CAROL, ADDR_C).unwrap();
    m
}

#[test]
fn stock_drop_makes_checkout_conflict() {
    let mut m = market();
    m.edit_stock(BOB, stock(ITEM_X, 5)).unwrap();
    assert_eq!(m.add_item(ALICE, line(ITEM_X, 3)), Ok(()));
    assert_eq!(m.edit_stock(BOB, stock(ITEM_X, 2)), Ok(()));
    let r = m.create_order(ALICE, OrderForm { address_id: ADDR_A }, 9, 1_700_000_000);
    let err = r.unwrap_err();
    assert_eq!(err.detail, vec![line(ITEM_X, 3)]);
    assert!(m.get_cart(ALICE).is_empty());
    assert_eq!(m.stock_of(ITEM_X), Some(2));
    assert!(m.order_lines_of(9).is_empty());
}

#[test]
fn order_drains_cart_and_stock() {
    let mut m = market();
    m.edit_stock(BOB, stock(ITEM_Y, 10)).unwrap();
    assert_eq!(m.add_item(ALICE, line(ITEM_Y, 2)), Ok(()));
    let r = m.create_order(ALICE, OrderForm { address_id: ADDR_A }, 7, 1_700_000_123);
    assert_eq!(r, Ok(OrderDetails { order_id: 7, order_date: 1_700_000_123 }));
    assert_eq!(m.stock_of(ITEM_Y), Some(8));
    assert!(m.get_cart(ALICE).is_empty());
    assert_eq!(
        m.order_lines_of(7),
        vec![OrderLine { order_id: 7, item_id: ITEM_Y, quantity: 2, dispatched: false }]
    );
}

#[test]
fn order_keeps_other_users_cart() {
    let mut m = market();
    m.edit_stock(BOB, stock(ITEM_Y, 10)).unwrap();
    m.add_item(ALICE, line(ITEM_Y, 2)).unwrap();
    m.add_item(CAROL, line(ITEM_X, 4)).unwrap();
    m.add_item(ALICE, line(ITEM_Z, 1)).unwrap();
    m.create_order(ALICE, OrderForm { address_id: ADDR_A }, 7, 5).unwrap();
    assert_eq!(m.get_cart(CAROL), vec![line(ITEM_X, 4)]);
    assert_eq!(
        m.order_lines_of(7),
        vec![
            OrderLine { order_id: 7, item_id: ITEM_Y, quantity: 2, dispatched: false },
            OrderLine { order_id: 7, item_id: ITEM_Z, quantity: 1, dispatched: false },
        ]
    );
    // Z is not tracked: its stock stays unrecorded.
    assert_eq!(m.stock_of(ITEM_Z), None);
}

#[test]
fn adding_twice_merges_quantities() {
    let mut m = market();
    m.edit_stock(BOB, stock(ITEM_X, 5)).unwrap();
    assert_eq!(m.add_item(ALICE, line(ITEM_X, 2)), Ok(()));
    assert_eq!(m.add_item(ALICE, line(ITEM_X, 3)), Ok(()));
    assert_eq!(m.get_cart(ALICE), vec![line(ITEM_X, 5)]);
    assert_eq!(m.add_item(ALICE, line(ITEM_X, 1)), Err(MyError::ConflictError));
    assert_eq!(m.get_cart(ALICE), vec![line(ITEM_X, 5)]);
}

#[test]
fn add_item_errors() {
    let mut m = market();
    m.edit_stock(BOB, stock(ITEM_X, 1)).unwrap();
    assert_eq!(m.add_item(ALICE, line(ITEM_X, 0)), Err(MyError::UnproccessableEntityError));
    assert_eq!(m.add_item(ALICE, line(ITEM_X, -4)), Err(MyError::UnproccessableEntityError));
    assert_eq!(m.add_item(ALICE, line(999, 1)), Err(MyError::NotFound));
    assert_eq!(m.add_item(BOB, line(ITEM_X, 1)), Err(MyError::Forbidden));
    assert_eq!(m.add_item(ALICE, line(ITEM_X, 2)), Err(MyError::ConflictError));
    assert!(m.get_cart(ALICE).is_empty());
    assert!(m.get_cart(BOB).is_empty());
}

#[test]
fn untracked_item_admits_any_quantity() {
    let mut m = market();
    assert_eq!(m.add_item(ALICE, line(ITEM_X, i32::MAX)), Ok(()));
    assert_eq!(m.add_item(ALICE, line(ITEM_X, 1)), Err(MyError::ConflictError));
    assert_eq!(m.get_cart(ALICE), vec![line(ITEM_X, i32::MAX)]);
}

#[test]
fn nonpositive_quantity_removes_line() {
    let mut m = market();
    m.add_item(ALICE, line(ITEM_X, 2)).unwrap();
    m.add_item(ALICE, line(ITEM_Y, 1)).unwrap();
    assert_eq!(m.update_cart_item(ALICE, line(ITEM_X, 0)), CartUpdate::Removed);
    assert_eq!(m.get_cart(ALICE), vec![line(ITEM_Y, 1)]);
    assert_eq!(m.update_cart_item(ALICE, line(ITEM_Y, -1)), CartUpdate::Removed);
    assert!(m.get_cart(ALICE).is_empty());
    // Removing a line that is not there is still a removal.
    assert_eq!(m.update_cart_item(ALICE, line(ITEM_Y, 0)), CartUpdate::Removed);
}

#[test]
fn update_respects_stock_and_existing_line() {
    let mut m = market();
    m.edit_stock(BOB, stock(ITEM_X, 4)).unwrap();
    m.add_item(ALICE, line(ITEM_X, 1)).unwrap();
    assert_eq!(m.update_cart_item(ALICE, line(ITEM_X, 4)), CartUpdate::Updated);
    assert_eq!(m.get_cart(ALICE), vec![line(ITEM_X, 4)]);
    assert_eq!(m.update_cart_item(ALICE, line(ITEM_X, 5)), CartUpdate::NotUpdated);
    assert_eq!(m.get_cart(ALICE), vec![line(ITEM_X, 4)]);
    assert_eq!(m.update_cart_item(ALICE, line(ITEM_Y, 1)), CartUpdate::NotUpdated);
    assert_eq!(m.get_cart(ALICE), vec![line(ITEM_X, 4)]);
}

#[test]
fn owner_cannot_buy_own_item() {
    let mut m = market();
    assert_eq!(m.add_item(CAROL, line(ITEM_Z, 1)), Err(MyError::Forbidden));
    assert_eq!(m.add_item(CAROL, line(ITEM_Z, 0)), Err(MyError::Forbidden));
    assert_eq!(m.add_item(CAROL, line(ITEM_Z, -3)), Err(MyError::Forbidden));
    assert_eq!(m.update_cart_item(CAROL, line(ITEM_Z, 1)), CartUpdate::Forbidden);
    assert_eq!(m.update_cart_item(CAROL, line(ITEM_Z, 0)), CartUpdate::Removed);
    assert!(m.get_cart(CAROL).is_empty());
}

#[test]
fn conflict_creates_no_order_and_keeps_stock() {
    let mut m = market();
    m.edit_stock(BOB, stock(ITEM_X, 3)).unwrap();
    m.edit_stock(BOB, stock(ITEM_Y, 3)).unwrap();
    m.add_item(ALICE, line(ITEM_X, 3)).unwrap();
    m.add_item(ALICE, line(ITEM_Y, 1)).unwrap();
    m.edit_stock(BOB, stock(ITEM_X, 1)).unwrap();
    let err = m.create_order(ALICE, OrderForm { address_id: ADDR_A }, 11, 0).unwrap_err();
    assert_eq!(err.detail, vec![line(ITEM_X, 3)]);
    assert!(m.order_lines_of(11).is_empty());
    assert_eq!(m.stock_of(ITEM_X), Some(1));
    assert_eq!(m.stock_of(ITEM_Y), Some(3));
    assert_eq!(m.get_cart(ALICE), vec![line(ITEM_Y, 1)]);
    // The cleaned cart now goes through.
    assert!(m.create_order(ALICE, OrderForm { address_id: ADDR_A }, 11, 0).is_ok());
    assert_eq!(m.stock_of(ITEM_Y), Some(2));
}

#[test]
fn bad_address_or_empty_cart_is_conflict_with_cart() {
    let mut m = market();
    let err = m.create_order(ALICE, OrderForm { address_id: ADDR_A }, 1, 0).unwrap_err();
    assert!(err.detail.is_empty());
    m.add_item(ALICE, line(ITEM_X, 2)).unwrap();
    let err = m.create_order(ALICE, OrderForm { address_id: ADDR_C }, 1, 0).unwrap_err();
    assert_eq!(err.detail, vec![line(ITEM_X, 2)]);
    assert_eq!(m.get_cart(ALICE), vec![line(ITEM_X, 2)]);
    m.create_order(ALICE, OrderForm { address_id: ADDR_A }, 1, 0).unwrap();
    m.add_item(ALICE, line(ITEM_Y, 1)).unwrap();
    // The order id is taken.
    let err = m.create_order(ALICE, OrderForm { address_id: ADDR_A }, 1, 0).unwrap_err();
    assert_eq!(err.detail, vec![line(ITEM_Y, 1)]);
}

#[test]
fn single_unit_sells_once() {
    let mut m = market();
    m.create_user_address(CAROL, 3001).unwrap();
    m.edit_stock(BOB, stock(ITEM_X, 1)).unwrap();
    m.add_item(ALICE, line(ITEM_X, 1)).unwrap();
    m.add_item(CAROL, line(ITEM_X, 1)).unwrap();
    assert!(m.create_order(ALICE, OrderForm { address_id: ADDR_A }, 21, 0).is_ok());
    let err = m.create_order(CAROL, OrderForm { address_id: ADDR_C }, 22, 0).unwrap_err();
    assert_eq!(err.detail, vec![line(ITEM_X, 1)]);
    assert!(m.get_cart(CAROL).is_empty());
    assert_eq!(m.stock_of(ITEM_X), Some(0));
    assert!(m.order_lines_of(22).is_empty());
}

#[test]
fn check_cart_twice_settles() {
    let mut m = market();
    m.edit_stock(BOB, stock(ITEM_X, 5)).unwrap();
    m.add_item(ALICE, line(ITEM_X, 5)).unwrap();
    m.add_item(ALICE, line(ITEM_Y, 2)).unwrap();
    m.edit_stock(BOB, stock(ITEM_X, 0)).unwrap();
    let err = m.check_cart(ALICE).unwrap_err();
    assert_eq!(err.detail, vec![line(ITEM_X, 5)]);
    assert_eq!(m.check_cart(ALICE), Ok(()));
    assert_eq!(m.get_cart(ALICE), vec![line(ITEM_Y, 2)]);
}

#[test]
fn dispatch_is_a_latch() {
    let mut m = market();
    m.add_item(ALICE, line(ITEM_X, 1)).unwrap();
    m.create_order(ALICE, OrderForm { address_id: ADDR_A }, 5, 0).unwrap();
    let form = DispatchForm { order_id: 5, item_id: ITEM_X };
    assert_eq!(m.set_dispatch_by_item_id(ALICE, form), Err(MyError::Forbidden));
    assert_eq!(m.set_dispatch_by_item_id(BOB, form), Ok(()));
    assert_eq!(m.set_dispatch_by_item_id(BOB, form), Err(MyError::Forbidden));
    assert_eq!(
        m.order_lines_of(5),
        vec![OrderLine { order_id: 5, item_id: ITEM_X, quantity: 1, dispatched: true }]
    );
    let missing = DispatchForm { order_id: 5, item_id: ITEM_Y };
    assert_eq!(m.set_dispatch_by_item_id(BOB, missing), Err(MyError::NotFound));
}

#[test]
fn edit_stock_errors() {
    let mut m = market();
    assert_eq!(m.edit_stock(BOB, stock(999, 1)), Err(MyError::NotFound));
    assert_eq!(m.edit_stock(ALICE, stock(ITEM_X, 1)), Err(MyError::Forbidden));
    assert_eq!(m.edit_stock(BOB, stock(ITEM_X, -1)), Err(MyError::UnproccessableEntityError));
    assert_eq!(m.stock_of(ITEM_X), None);
    assert_eq!(m.edit_stock(BOB, stock(ITEM_X, 0)), Ok(()));
    assert_eq!(m.stock_of(ITEM_X), Some(0));
}

#[test]
fn duplicate_listing_and_address_conflict() {
    let mut m = market();
    assert_eq!(m.create_item(ALICE, ITEM_X), Err(MyError::ConflictError));
    assert_eq!(m.create_user_address(BOB, ADDR_A), Err(MyError::ConflictError));
}

#[test]
fn error_parts() {
    let (code, body) = MyError::NotFound.into_parts();
    assert_eq!((code, body.detail.as_str()), (404, "Not Found"));
    let (code, body) = MyError::UnauthorizedError.into_parts();
    assert_eq!((code, body.detail.as_str()), (401, "User Is Not Authorized"));
    let (code, body) = MyError::ConflictError.into_parts();
    assert_eq!((code, body.detail.as_str()), (409, "Conflict Error"));
    let (code, body) = MyError::Forbidden.into_parts();
    assert_eq!((code, body.detail.as_str()), (403, "Forbidden"));
    let (code, body) = MyError::UnproccessableEntityError.into_parts();
    assert_eq!((code, body.detail.as_str()), (422, "Unproccessable Entity"));
    let (code, body) = MyError::CustomError((418, "teapot".to_string())).into_parts();
    assert_eq!((code, body.detail.as_str()), (418, "teapot"));
}

#[test]
fn deleting_listing_clears_carts_and_stock() {
    let mut m = market();
    m.edit_stock(BOB, stock(ITEM_X, 3)).unwrap();
    m.add_item(ALICE, line(ITEM_X, 2)).unwrap();
    m.add_item(ALICE, line(ITEM_Y, 1)).unwrap();
    assert_eq!(m.delete_item(ALICE, ItemId { item_id: ITEM_X }), Err(MyError::Forbidden));
    assert_eq!(m.delete_item(BOB, ItemId { item_id: ITEM_X }), Ok(()));
    assert_eq!(m.get_cart(ALICE), vec![line(ITEM_Y, 1)]);
    assert_eq!(m.stock_of(ITEM_X), None);
    assert_eq!(m.add_item(ALICE, line(ITEM_X, 1)), Err(MyError::NotFound));
    assert_eq!(m.delete_item(BOB, ItemId { item_id: ITEM_X }), Err(MyError::NotFound));
}

#[test]
fn ownership_query() {
    let m = market();
    assert!(m.is_owner(BOB, ITEM_X));
    assert!(!m.is_owner(ALICE, ITEM_X));
    assert!(!m.is_owner(BOB, 999));
}

#[test]
fn first_order_refused_lets_second_buy_single_unit() {
    let mut m = market();
    m.create_user_address(CAROL, 3001).unwrap();
    m.edit_stock(BOB, stock(ITEM_X, 1)).unwrap();
    m.add_item(ALICE, line(ITEM_X, 1)).unwrap();
    m.add_item(CAROL, line(ITEM_X, 1)).unwrap();
    // Alice names Carol's address: her order is refused and changes nothing.
    let err = m.create_order(ALICE, OrderForm { address_id: ADDR_C }, 31, 0).unwrap_err();
    assert_eq!(err.detail, vec![line(ITEM_X, 1)]);
    assert_eq!(m.stock_of(ITEM_X), Some(1));
    assert!(m.create_order(CAROL, OrderForm { address_id: ADDR_C }, 32, 0).is_ok());
    assert_eq!(m.stock_of(ITEM_X), Some(0));
    // Now Alice's retry is refused with the item listed as offending.
    let err = m.create_order(ALICE, OrderForm { address_id: ADDR_A }, 33, 0).unwrap_err();
    assert_eq!(err.detail, vec![line(ITEM_X, 1)]);
    assert_eq!(m.stock_of(ITEM_X), Some(0));
}

#[test]
fn owner_check_distinguishes_missing_and_foreign() {
    let m = market();
    assert_eq!(m.check_owner(BOB, ITEM_X), Ok(()));
    assert_eq!(m.check_owner(ALICE, ITEM_X), Err(MyError::Forbidden));
    assert_eq!(m.check_owner(BOB, 999), Err(MyError::NotFound));
}

#[test]
fn nobody_rates_own_item() {
    let mut m = market();
    assert_eq!(m.rate_item(ALICE, ITEM_X, 5), Ok(()));
    assert_eq!(m.rate_item(BOB, ITEM_X, 5), Err(MyError::Forbidden));
    assert_eq!(m.rate_item(ALICE, 999, 5), Err(MyError::NotFound));
}

#[test]
fn order_listings_for_seller_and_buyer() {
    let mut m = market();
    m.add_item(ALICE, line(ITEM_X, 2)).unwrap();
    m.add_item(ALICE, line(ITEM_Z, 1)).unwrap();
    m.create_order(ALICE, OrderForm { address_id: ADDR_A }, 41, 1234).unwrap();
    assert_eq!(
        m.get_orders(BOB),
        vec![OrderLine { order_id: 41, item_id: ITEM_X, quantity: 2, dispatched: false }]
    );
    assert_eq!(
        m.get_orders(CAROL),
        vec![OrderLine { order_id: 41, item_id: ITEM_Z, quantity: 1, dispatched: false }]
    );
    assert!(m.get_orders(ALICE).is_empty());
    let mine = m.get_user_orders(ALICE);
    assert_eq!(mine.len(), 2);
    assert_eq!(
        mine[0],
        AllOrderDetails { order_id: 41, item_id: ITEM_X, quantity: 2, address_id: ADDR_A, order_date: 1234, dispatched: false }
    );
    assert_eq!(mine[1].item_id, ITEM_Z);
    assert!(m.get_user_orders(BOB).is_empty());
}

//! Properties that relate the marketplace's operations to each other and to
//! its invariant, stated over the transition functions of `market`.

use vstd::prelude::*;

use crate::cart::CartItem;
use crate::errors::MyError;
use crate::item::ItemStock;
use crate::market::{
    add_outcome, after_add, after_check, after_delete, after_dispatch, after_order,
    after_update, cart_keys_unique, cart_lines_valid, cart_quantity, dispatch_outcome, has_line,
    has_order_line, lemma_cart_remove_valid, lemma_cart_set_valid, lemma_check_keeps_wf,
    lemma_delete_keeps_wf, lemma_keep_where, lemma_line_at, lemma_no_offending,
    lemma_order_keeps_wf, lemma_purge_settles, line_index, listed, market_wf, merged_quantity,
    not_of_user, not_offending, offending_items, offends, order_line_index, order_outcome,
    ordered_lines, owns, purged_cart, stock_allows, update_outcome, user_items, CartLine,
    CartUpdate, MarketView, OrderLine, OrderOutcome, PlacedOrder,
};

verus! {

proof fn lemma_add_keeps_wf(m: MarketView, user: u128, item: u128, qty: int)
    requires
        market_wf(m),
    ensures
        market_wf(after_add(m, user, item, qty)),
{
    if add_outcome(m, user, item, qty) is Ok {
        let total = merged_quantity(m, user, item, qty);
        if has_line(m.cart, user, item) {
            let j = line_index(m.cart, user, item);
            assert(m.cart[j].quantity > 0);
        }
        lemma_cart_set_valid(m.listings, m.cart, user, item, total as i32);
    }
}

proof fn lemma_update_keeps_wf(m: MarketView, user: u128, item: u128, qty: i32)
    requires
        market_wf(m),
    ensures
        market_wf(after_update(m, user, item, qty)),
{
    lemma_cart_remove_valid(m.listings, m.cart, user, item);
    if update_outcome(m, user, item, qty as int) == CartUpdate::Updated {
        let j = line_index(m.cart, user, item);
        assert(listed(m.listings, m.cart[j].item_id));
        lemma_cart_set_valid(m.listings, m.cart, user, item, qty);
    }
}

/// Every cart line that any operation on carts leaves in storage (adding,
/// setting a quantity, validating, placing an order, withdrawing a listing)
/// has a positive quantity, names a listed item, and is not for an item that
/// its own user owns.
pub proof fn law_cart_lines_stay_valid(
    m: MarketView,
    user: u128,
    item: u128,
    qty: i32,
    address: u128,
    order: u128,
    date: i64,
)
    requires
        market_wf(m),
    ensures
        market_wf(after_add(m, user, item, qty as int)),
        market_wf(after_update(m, user, item, qty)),
        market_wf(after_check(m, user)),
        market_wf(after_order(m, user, address, order, date)),
        market_wf(after_delete(m, user, item)),
        cart_lines_valid(after_add(m, user, item, qty as int).listings, after_add(m, user, item, qty as int).cart),
        cart_lines_valid(after_update(m, user, item, qty).listings, after_update(m, user, item, qty).cart),
        cart_lines_valid(after_check(m, user).listings, after_check(m, user).cart),
        cart_lines_valid(
            after_order(m, user, address, order, date).listings,
            after_order(m, user, address, order, date).cart,
        ),
        cart_lines_valid(after_delete(m, user, item).listings, after_delete(m, user, item).cart),
{
    lemma_add_keeps_wf(m, user, item, qty as int);
    lemma_update_keeps_wf(m, user, item, qty);
    lemma_check_keeps_wf(m, user);
    lemma_order_keeps_wf(m, user, address, order, date);
    lemma_delete_keeps_wf(m, user, item);
}

/// Setting a cart line's quantity to zero or less deletes the line.
pub proof fn law_nonpositive_quantity_removes_line(m: MarketView, user: u128, item: u128, qty: i32)
    requires
        market_wf(m),
        qty <= 0,
    ensures
        update_outcome(m, user, item, qty as int) == CartUpdate::Removed,
        !has_line(after_update(m, user, item, qty).cart, user, item),
{
    lemma_cart_remove_valid(m.listings, m.cart, user, item);
}

/// A user can never add, or set the quantity of, a cart line for an item
/// they own: adding is refused as forbidden whatever the quantity, setting
/// a positive quantity is refused as forbidden, and the state is left as it
/// was; the user holds no line for the item before or after.
pub proof fn law_no_self_purchase(m: MarketView, user: u128, item: u128, qty: i32)
    requires
        market_wf(m),
        owns(m.listings, user, item),
    ensures
        add_outcome(m, user, item, qty as int) == Err::<(), MyError>(MyError::Forbidden),
        after_add(m, user, item, qty as int) == m,
        qty > 0 ==> update_outcome(m, user, item, qty as int) == CartUpdate::Forbidden,
        after_update(m, user, item, qty) == m,
        !has_line(m.cart, user, item),
{
    let k = choose|k: int| 0 <= k < m.listings.len() && (#[trigger] m.listings[k]).item_id == item && m.listings[k].owner == user;
    assert(listed(m.listings, item));
    if has_line(m.cart, user, item) {
        let j = choose|j: int| 0 <= j < m.cart.len() && (#[trigger] m.cart[j]).user_id == user && m.cart[j].item_id == item;
        assert(!owns(m.listings, m.cart[j].user_id, m.cart[j].item_id));
    }
}

/// A refused order creates no order and no order line and changes no stock
/// record; at most the offending cart lines are gone.
pub proof fn law_conflict_changes_no_order_or_stock(m: MarketView, user: u128, address: u128, order: u128, date: i64)
    requires
        market_wf(m),
        order_outcome(m, user, address, order, date) is Conflict,
    ensures
        after_order(m, user, address, order, date).orders == m.orders,
        after_order(m, user, address, order, date).order_lines == m.order_lines,
        after_order(m, user, address, order, date).stock == m.stock,
        after_order(m, user, address, order, date).cart == purged_cart(m.cart, m.stock, user),
        market_wf(after_order(m, user, address, order, date)),
{
    lemma_check_keeps_wf(m, user);
    if offending_items(m.cart, m.stock, user).len() == 0 {
        lemma_no_offending(m.cart, m.stock, user);
    }
}

proof fn lemma_lines_match_items(cart: Seq<CartLine>, user: u128, order: u128)
    ensures
        ordered_lines(cart, user, order).len() == user_items(cart, user).len(),
        forall|a: int| 0 <= a < ordered_lines(cart, user, order).len() ==>
            (#[trigger] ordered_lines(cart, user, order)[a]) == (OrderLine {
                order_id: order,
                item_id: user_items(cart, user)[a].item_id,
                quantity: user_items(cart, user)[a].quantity,
                dispatched: false,
            }),
    decreases cart.len(),
{
    if cart.len() > 0 {
        lemma_lines_match_items(cart.drop_last(), user, order);
    }
}

proof fn lemma_user_items_cover(cart: Seq<CartLine>, user: u128, j: int)
    requires
        0 <= j < cart.len(),
        cart[j].user_id == user,
    ensures
        user_items(cart, user).contains(CartItem { item_id: cart[j].item_id, quantity: cart[j].quantity }),
    decreases cart.len(),
{
    let c0 = cart.drop_last();
    let x = CartItem { item_id: cart[j].item_id, quantity: cart[j].quantity };
    if j < cart.len() - 1 {
        assert(c0[j] == cart[j]);
        lemma_user_items_cover(c0, user, j);
        let r0 = user_items(c0, user);
        let a = choose|a: int| 0 <= a < r0.len() && r0[a] == x;
        assert(user_items(cart, user)[a] == r0[a]);
    } else {
        let r = user_items(cart, user);
        assert(r[r.len() - 1] == x);
    }
}

/// A successful order consumes exactly `user`'s cart: each of its lines
/// becomes one order line with the same item and quantity, not yet
/// dispatched, the cart keeps no line of `user`, and each stock record
/// decreases by exactly the quantity consumed of its item.
pub proof fn law_created_order_consumes_cart(m: MarketView, user: u128, address: u128, order: u128, date: i64)
    requires
        market_wf(m),
        order_outcome(m, user, address, order, date) is Created,
    ensures
        ({
            let m1 = after_order(m, user, address, order, date);
            let items = user_items(m.cart, user);
            &&& m1.orders == m.orders.push(PlacedOrder { order_id: order, user_id: user, address_id: address, order_date: date })
            &&& m1.order_lines.len() == m.order_lines.len() + items.len()
            &&& m1.order_lines.subrange(0, m.order_lines.len() as int) == m.order_lines
            &&& forall|a: int| 0 <= a < items.len() ==> m1.order_lines[m.order_lines.len() + a] == (OrderLine {
                order_id: order,
                item_id: (#[trigger] items[a]).item_id,
                quantity: items[a].quantity,
                dispatched: false,
            })
            &&& forall|k: int| 0 <= k < m1.cart.len() ==> (#[trigger] m1.cart[k]).user_id != user
            &&& m1.stock.len() == m.stock.len()
            &&& forall|k: int| 0 <= k < m.stock.len() ==> (#[trigger] m1.stock[k]).item_id == m.stock[k].item_id
                && m1.stock[k].quantity == m.stock[k].quantity - cart_quantity(m.cart, user, m.stock[k].item_id)
            &&& market_wf(m1)
        }),
{
    let m1 = after_order(m, user, address, order, date);
    lemma_no_offending(m.cart, m.stock, user);
    lemma_lines_match_items(m.cart, user, order);
    lemma_keep_where(m.listings, m.cart, not_of_user(user));
    let items = user_items(m.cart, user);
    let new_lines = ordered_lines(m.cart, user, order);
    assert(m1.order_lines.subrange(0, m.order_lines.len() as int) =~= m.order_lines);
    assert forall|a: int| 0 <= a < items.len() implies m1.order_lines[m.order_lines.len() + a] == (OrderLine {
        order_id: order,
        item_id: (#[trigger] items[a]).item_id,
        quantity: items[a].quantity,
        dispatched: false,
    }) by {
        assert(m1.order_lines[m.order_lines.len() + a] == new_lines[a]);
    }
    assert forall|k: int| 0 <= k < m.stock.len() implies (#[trigger] m1.stock[k]).item_id == m.stock[k].item_id
        && m1.stock[k].quantity == m.stock[k].quantity - cart_quantity(m.cart, user, m.stock[k].item_id) by {
        let it = m.stock[k].item_id;
        if has_line(m.cart, user, it) {
            let j = line_index(m.cart, user, it);
            assert(stock_allows(m.stock, m.cart[j].item_id, m.cart[j].quantity as int));
            assert(m.cart[j].quantity > 0);
        }
    }
    lemma_order_keeps_wf(m, user, address, order, date);
}

proof fn lemma_offending_listed(cart: Seq<CartLine>, stock: Seq<ItemStock>, user: u128, j: int)
    requires
        0 <= j < cart.len(),
        offends(stock, user, cart[j]),
    ensures
        offending_items(cart, stock, user).contains(CartItem { item_id: cart[j].item_id, quantity: cart[j].quantity }),
    decreases cart.len(),
{
    let c0 = cart.drop_last();
    let x = CartItem { item_id: cart[j].item_id, quantity: cart[j].quantity };
    if j < cart.len() - 1 {
        assert(c0[j] == cart[j]);
        lemma_offending_listed(c0, stock, user, j);
        let r0 = offending_items(c0, stock, user);
        let a = choose|a: int| 0 <= a < r0.len() && r0[a] == x;
        assert(offending_items(cart, stock, user)[a] == r0[a]);
    } else {
        let r = offending_items(cart, stock, user);
        assert(r[r.len() - 1] == x);
    }
}

/// Two users whose carts both hold an item of which one unit is in stock
/// cannot both order it: once the first order is created, the second is
/// refused, lists that item as offending, and loses the line.
pub proof fn law_single_unit_sells_once(
    m: MarketView,
    a: u128,
    b: u128,
    item: u128,
    address_a: u128,
    order_a: u128,
    date_a: i64,
    address_b: u128,
    order_b: u128,
    date_b: i64,
)
    requires
        market_wf(m),
        a != b,
        m.stock.contains(ItemStock { item_id: item, quantity: 1 }),
        has_line(m.cart, a, item),
        has_line(m.cart, b, item),
        order_outcome(m, a, address_a, order_a, date_a) is Created,
    ensures
        ({
            let m1 = after_order(m, a, address_a, order_a, date_a);
            let q = cart_quantity(m.cart, b, item);
            &&& order_outcome(m1, b, address_b, order_b, date_b) matches OrderOutcome::Conflict(items)
                && items.contains(CartItem { item_id: item, quantity: q as i32 })
            &&& after_order(m1, b, address_b, order_b, date_b).orders == m1.orders
            &&& after_order(m1, b, address_b, order_b, date_b).stock == m1.stock
            &&& !has_line(after_order(m1, b, address_b, order_b, date_b).cart, b, item)
        }),
{
    let m1 = after_order(m, a, address_a, order_a, date_a);
    law_created_order_consumes_cart(m, a, address_a, order_a, date_a);
    let k = choose|k: int| 0 <= k < m.stock.len() && m.stock[k] == ItemStock { item_id: item, quantity: 1 };
    assert(m.stock[k].item_id == item);
    let ja = line_index(m.cart, a, item);
    assert(m.cart[ja].quantity > 0);
    assert(m1.stock[k].quantity == 0);
    let jb = line_index(m.cart, b, item);
    let lb = m.cart[jb];
    assert(lb.quantity > 0);
    lemma_line_at(m.cart, jb, b, item);
    lemma_keep_where(m.listings, m.cart, not_of_user(a));
    assert(not_of_user(a)(lb));
    assert(m1.cart.contains(lb));
    let c = choose|c: int| 0 <= c < m1.cart.len() && m1.cart[c] == lb;
    assert(!stock_allows(m1.stock, item, lb.quantity as int));
    assert(offends(m1.stock, b, m1.cart[c]));
    lemma_offending_listed(m1.cart, m1.stock, b, c);
    assert(offending_items(m1.cart, m1.stock, b).len() > 0);
    let m2 = after_order(m1, b, address_b, order_b, date_b);
    lemma_keep_where(m1.listings, m1.cart, not_offending(m1.stock, b));
    if has_line(m2.cart, b, item) {
        let d = choose|d: int| 0 <= d < m2.cart.len() && (#[trigger] m2.cart[d]).user_id == b && m2.cart[d].item_id == item;
        assert(not_offending(m1.stock, b)(m2.cart[d]));
        let e = choose|e: int| 0 <= e < m1.cart.len() && m1.cart[e] == m2.cart[d];
        if e != c {
            assert(cart_keys_unique(m1.cart));
            assert(!(m1.cart[e].user_id == m1.cart[c].user_id && m1.cart[e].item_id == m1.cart[c].item_id));
        }
    }
}

/// Validating a cart twice in a row changes nothing the second time, and
/// the second validation reports no offending line.
pub proof fn law_check_cart_idempotent(m: MarketView, user: u128)
    ensures
        offending_items(after_check(m, user).cart, after_check(m, user).stock, user).len() == 0,
        after_check(after_check(m, user), user) == after_check(m, user),
{
    lemma_purge_settles(m.cart, m.stock, user);
    let m1 = after_check(m, user);
    lemma_no_offending(m1.cart, m1.stock, user);
}

/// Marking an order line as dispatched is a one-way latch: once it has
/// succeeded, marking the same line again is forbidden and changes nothing.
pub proof fn law_dispatch_is_a_latch(m: MarketView, actor: u128, order: u128, item: u128)
    requires
        market_wf(m),
        dispatch_outcome(m, actor, order, item) is Ok,
    ensures
        dispatch_outcome(after_dispatch(m, actor, order, item), actor, order, item)
            == Err::<(), MyError>(MyError::Forbidden),
        after_dispatch(after_dispatch(m, actor, order, item), actor, order, item) == after_dispatch(m, actor, order, item),
{
    let m1 = after_dispatch(m, actor, order, item);
    let k = order_line_index(m.order_lines, order, item);
    let lines = m1.order_lines;
    assert(lines[k].order_id == order && lines[k].item_id == item && lines[k].dispatched);
    assert(has_order_line(lines, order, item));
    let c = order_line_index(lines, order, item);
    if c != k {
        assert(!(m.order_lines[c].order_id == m.order_lines[k].order_id && m.order_lines[c].item_id == m.order_lines[k].item_id));
    }
}

/// Two users whose carts both hold an item of which one unit is in stock
/// place their orders one after the other: at most one of the two orders is
/// created, and the item's stock ends at one less for each created order,
/// never below zero. If the first is created, the second is refused and
/// lists the item.
pub proof fn law_single_unit_at_most_one_order(
    m: MarketView,
    a: u128,
    b: u128,
    item: u128,
    k: int,
    address_a: u128,
    order_a: u128,
    date_a: i64,
    address_b: u128,
    order_b: u128,
    date_b: i64,
)
    requires
        market_wf(m),
        a != b,
        0 <= k < m.stock.len(),
        m.stock[k] == (ItemStock { item_id: item, quantity: 1 }),
        has_line(m.cart, a, item),
        has_line(m.cart, b, item),
    ensures
        ({
            let o1 = order_outcome(m, a, address_a, order_a, date_a);
            let m1 = after_order(m, a, address_a, order_a, date_a);
            let o2 = order_outcome(m1, b, address_b, order_b, date_b);
            let m2 = after_order(m1, b, address_b, order_b, date_b);
            &&& !(o1 is Created && o2 is Created)
            &&& m2.stock.len() == m.stock.len()
            &&& m2.stock[k].item_id == item
            &&& m2.stock[k].quantity == 1 - (if o1 is Created { 1int } else { 0int }) - (if o2 is Created { 1int } else { 0int })
            &&& m2.stock[k].quantity >= 0
            &&& o1 is Created ==> (o2 matches OrderOutcome::Conflict(items)
                && items.contains(CartItem { item_id: item, quantity: cart_quantity(m.cart, b, item) as i32 }))
        }),
{
    let m1 = after_order(m, a, address_a, order_a, date_a);
    let m2 = after_order(m1, b, address_b, order_b, date_b);
    lemma_order_keeps_wf(m, a, address_a, order_a, date_a);
    lemma_order_keeps_wf(m1, b, address_b, order_b, date_b);
    let jb = line_index(m.cart, b, item);
    let lb = m.cart[jb];
    assert(lb.quantity > 0);
    if order_outcome(m, a, address_a, order_a, date_a) is Created {
        assert(m.stock.contains(ItemStock { item_id: item, quantity: 1 }));
        law_single_unit_sells_once(m, a, b, item, address_a, order_a, date_a, address_b, order_b, date_b);
        law_created_order_consumes_cart(m, a, address_a, order_a, date_a);
        lemma_no_offending(m.cart, m.stock, a);
        let ja = line_index(m.cart, a, item);
        assert(m.cart[ja].quantity > 0);
        assert(stock_allows(m.stock, m.cart[ja].item_id, m.cart[ja].quantity as int));
        assert(m1.stock[k].quantity == 0);
    } else {
        law_conflict_changes_no_order_or_stock(m, a, address_a, order_a, date_a);
        assert(m1.stock == m.stock);
        if order_outcome(m1, b, address_b, order_b, date_b) is Created {
            law_created_order_consumes_cart(m1, b, address_b, order_b, date_b);
            lemma_keep_where(m.listings, m.cart, not_offending(m.stock, a));
            assert(not_offending(m.stock, a)(lb));
            assert(m1.cart.contains(lb));
            let c = choose|c: int| 0 <= c < m1.cart.len() && m1.cart[c] == lb;
            lemma_line_at(m.cart, jb, b, item);
            lemma_line_at(m1.cart, c, b, item);
            lemma_no_offending(m1.cart, m1.stock, b);
            assert(stock_allows(m1.stock, m1.cart[c].item_id, m1.cart[c].quantity as int));
            assert(m2.stock[k].quantity == 0);
        } else {
            law_conflict_changes_no_order_or_stock(m1, b, address_b, order_b, date_b);
        }
    }
}

} // verus!

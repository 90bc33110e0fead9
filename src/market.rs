use vstd::prelude::*;

use crate::cart::CartItem;
use crate::errors::MyError;
use crate::item::{ItemId, ItemStock};
use crate::order::{AllOrderDetails, CartError, DispatchForm, OrderDetails, OrderForm};

verus! {

/// An item listed for sale and the user who owns it.
#[derive(Clone, Copy, Debug, PartialEq, Eq)]
pub struct Listing {
    pub item_id: u128,
    pub owner: u128,
}

/// One line of a user's cart: a positive quantity of one item.
#[derive(Clone, Copy, Debug, PartialEq, Eq)]
pub struct CartLine {
    pub user_id: u128,
    pub item_id: u128,
    pub quantity: i32,
}

/// A placed order; immutable once created.
#[derive(Clone, Copy, Debug, PartialEq, Eq)]
pub struct PlacedOrder {
    pub order_id: u128,
    pub user_id: u128,
    pub address_id: u128,
    pub order_date: i64,
}

/// One item of a placed order; only `dispatched` ever changes, from false
/// to true.
#[derive(Clone, Copy, Debug, PartialEq, Eq)]
pub struct OrderLine {
    pub order_id: u128,
    pub item_id: u128,
    pub quantity: i32,
    pub dispatched: bool,
}

/// A delivery address and the user it belongs to.
#[derive(Clone, Copy, Debug, PartialEq, Eq)]
pub struct AddressRecord {
    pub address_id: u128,
    pub user_id: u128,
}

/// The persistent state of the marketplace: listings, the stock ledger,
/// every user's cart, addresses, and the placed orders with their lines.
pub struct Marketplace {
    listings: Vec<Listing>,
    stock: Vec<ItemStock>,
    cart: Vec<CartLine>,
    addresses: Vec<AddressRecord>,
    orders: Vec<PlacedOrder>,
    order_lines: Vec<OrderLine>,
    ratings: Vec<ItemRating>,
}

/// A rating that a user gave an item.
#[derive(Clone, Copy, Debug, PartialEq, Eq)]
pub struct ItemRating {
    pub user_id: u128,
    pub item_id: u128,
    pub rating: i32,
}

/// The abstract state of a `Marketplace`.
pub struct MarketView {
    pub listings: Seq<Listing>,
    pub stock: Seq<ItemStock>,
    pub cart: Seq<CartLine>,
    pub addresses: Seq<AddressRecord>,
    pub orders: Seq<PlacedOrder>,
    pub order_lines: Seq<OrderLine>,
    pub ratings: Seq<ItemRating>,
}

impl View for Marketplace {
    type V = MarketView;

    closed spec fn view(&self) -> MarketView {
        MarketView {
            listings: self.listings@,
            stock: self.stock@,
            cart: self.cart@,
            addresses: self.addresses@,
            orders: self.orders@,
            order_lines: self.order_lines@,
            ratings: self.ratings@,
        }
    }
}

// ---------------------------------------------------------------------------
// Lookups over the abstract state

/// `item` is listed.
pub open spec fn listed(listings: Seq<Listing>, item: u128) -> bool {
    exists|k: int| 0 <= k < listings.len() && (#[trigger] listings[k]).item_id == item
}

/// `user` owns the listed item `item`.
pub open spec fn owns(listings: Seq<Listing>, user: u128, item: u128) -> bool {
    exists|k: int|
        0 <= k < listings.len() && (#[trigger] listings[k]).item_id == item
            && listings[k].owner == user
}

/// A stock record for `item` exists.
pub open spec fn has_stock_record(stock: Seq<ItemStock>, item: u128) -> bool {
    exists|k: int| 0 <= k < stock.len() && (#[trigger] stock[k]).item_id == item
}

/// Current stock admits `qty` units of `item`: a missing record means the
/// item is not tracked, and then any quantity is admitted.
pub open spec fn stock_allows(stock: Seq<ItemStock>, item: u128, qty: int) -> bool {
    forall|k: int| 0 <= k < stock.len() && (#[trigger] stock[k]).item_id == item ==> qty <= stock[k].quantity
}

/// `user` has a cart line for `item`.
pub open spec fn has_line(cart: Seq<CartLine>, user: u128, item: u128) -> bool {
    exists|k: int|
        0 <= k < cart.len() && (#[trigger] cart[k]).user_id == user && cart[k].item_id == item
}

/// The position of `user`'s cart line for `item`, where there is one.
pub open spec fn line_index(cart: Seq<CartLine>, user: u128, item: u128) -> int {
    choose|k: int|
        0 <= k < cart.len() && (#[trigger] cart[k]).user_id == user && cart[k].item_id == item
}

/// The quantity of `item` in `user`'s cart, 0 where there is no line.
pub open spec fn cart_quantity(cart: Seq<CartLine>, user: u128, item: u128) -> int {
    if has_line(cart, user, item) {
        cart[line_index(cart, user, item)].quantity as int
    } else {
        0
    }
}

/// The address `address` exists and belongs to `user`.
pub open spec fn address_of(addresses: Seq<AddressRecord>, user: u128, address: u128) -> bool {
    exists|k: int|
        0 <= k < addresses.len() && (#[trigger] addresses[k]).address_id == address
            && addresses[k].user_id == user
}

/// An order with id `order` exists.
pub open spec fn order_exists(orders: Seq<PlacedOrder>, order: u128) -> bool {
    exists|k: int| 0 <= k < orders.len() && (#[trigger] orders[k]).order_id == order
}

/// An order line for `item` in order `order` exists.
pub open spec fn has_order_line(lines: Seq<OrderLine>, order: u128, item: u128) -> bool {
    exists|k: int|
        0 <= k < lines.len() && (#[trigger] lines[k]).order_id == order && lines[k].item_id == item
}

/// The position of the order line for `item` in order `order`.
pub open spec fn order_line_index(lines: Seq<OrderLine>, order: u128, item: u128) -> int {
    choose|k: int|
        0 <= k < lines.len() && (#[trigger] lines[k]).order_id == order && lines[k].item_id == item
}

// ---------------------------------------------------------------------------
// The invariant

/// Cart lines are keyed by (user, item).
pub open spec fn cart_keys_unique(cart: Seq<CartLine>) -> bool {
    forall|i: int, j: int|
        0 <= i < cart.len() && 0 <= j < cart.len() && i != j ==> !(#[trigger] cart[i].user_id
            == #[trigger] cart[j].user_id && cart[i].item_id == cart[j].item_id)
}

/// Every stored cart line has a positive quantity and is for a listed item
/// that its user does not own.
pub open spec fn cart_lines_valid(listings: Seq<Listing>, cart: Seq<CartLine>) -> bool {
    forall|k: int|
        0 <= k < cart.len() ==> (#[trigger] cart[k]).quantity > 0 && listed(listings, cart[k].item_id)
            && !owns(listings, cart[k].user_id, cart[k].item_id)
}

/// Stock records are keyed by item and never negative.
pub open spec fn stock_valid(stock: Seq<ItemStock>) -> bool {
    &&& forall|i: int, j: int|
        0 <= i < stock.len() && 0 <= j < stock.len() && i != j ==> (#[trigger] stock[i]).item_id
            != (#[trigger] stock[j]).item_id
    &&& forall|k: int| 0 <= k < stock.len() ==> (#[trigger] stock[k]).quantity >= 0
}

/// Order lines are keyed by (order, item) and belong to existing orders.
pub open spec fn order_lines_valid(orders: Seq<PlacedOrder>, lines: Seq<OrderLine>) -> bool {
    &&& forall|i: int, j: int|
        0 <= i < lines.len() && 0 <= j < lines.len() && i != j ==> !(#[trigger] lines[i].order_id
            == #[trigger] lines[j].order_id && lines[i].item_id == lines[j].item_id)
    &&& forall|k: int| 0 <= k < lines.len() ==> order_exists(orders, (#[trigger] lines[k]).order_id)
}

/// The invariant of the marketplace state.
pub open spec fn market_wf(m: MarketView) -> bool {
    &&& forall|i: int, j: int|
        0 <= i < m.listings.len() && 0 <= j < m.listings.len() && i != j
            ==> (#[trigger] m.listings[i]).item_id != (#[trigger] m.listings[j]).item_id
    &&& forall|i: int, j: int|
        0 <= i < m.addresses.len() && 0 <= j < m.addresses.len() && i != j
            ==> (#[trigger] m.addresses[i]).address_id != (#[trigger] m.addresses[j]).address_id
    &&& forall|i: int, j: int|
        0 <= i < m.orders.len() && 0 <= j < m.orders.len() && i != j
            ==> (#[trigger] m.orders[i]).order_id != (#[trigger] m.orders[j]).order_id
    &&& stock_valid(m.stock)
    &&& cart_keys_unique(m.cart)
    &&& cart_lines_valid(m.listings, m.cart)
    &&& order_lines_valid(m.orders, m.order_lines)
}

// ---------------------------------------------------------------------------
// Transitions: listings, addresses and the stock ledger

/// Outcome of listing `item` for `user`.
pub open spec fn create_item_outcome(m: MarketView, user: u128, item: u128) -> Result<(), MyError> {
    if listed(m.listings, item) {
        Err(MyError::ConflictError)
    } else {
        Ok(())
    }
}

/// State after listing `item` for `user`.
pub open spec fn after_create_item(m: MarketView, user: u128, item: u128) -> MarketView {
    if listed(m.listings, item) {
        m
    } else {
        MarketView { listings: m.listings.push(Listing { item_id: item, owner: user }), ..m }
    }
}

/// Outcome of registering `address` for `user`.
pub open spec fn address_outcome(m: MarketView, user: u128, address: u128) -> Result<(), MyError> {
    if exists|k: int| 0 <= k < m.addresses.len() && (#[trigger] m.addresses[k]).address_id == address {
        Err(MyError::ConflictError)
    } else {
        Ok(())
    }
}

/// State after registering `address` for `user`.
pub open spec fn after_address(m: MarketView, user: u128, address: u128) -> MarketView {
    if address_outcome(m, user, address) is Ok {
        MarketView {
            addresses: m.addresses.push(AddressRecord { address_id: address, user_id: user }),
            ..m
        }
    } else {
        m
    }
}

/// Outcome of `actor` setting the stock of `item` to `qty`.
pub open spec fn stock_outcome(m: MarketView, actor: u128, item: u128, qty: int) -> Result<(), MyError> {
    if !listed(m.listings, item) {
        Err(MyError::NotFound)
    } else if !owns(m.listings, actor, item) {
        Err(MyError::Forbidden)
    } else if qty < 0 {
        Err(MyError::UnproccessableEntityError)
    } else {
        Ok(())
    }
}

/// The stock ledger with the record of `item` set to `qty` (inserted where
/// missing).
pub open spec fn stock_set(stock: Seq<ItemStock>, item: u128, qty: i32) -> Seq<ItemStock> {
    if has_stock_record(stock, item) {
        let k = choose|k: int| 0 <= k < stock.len() && (#[trigger] stock[k]).item_id == item;
        stock.update(k, ItemStock { item_id: item, quantity: qty })
    } else {
        stock.push(ItemStock { item_id: item, quantity: qty })
    }
}

/// State after `actor` sets the stock of `item` to `qty`.
pub open spec fn after_stock(m: MarketView, actor: u128, item: u128, qty: i32) -> MarketView {
    if stock_outcome(m, actor, item, qty as int) is Ok {
        MarketView { stock: stock_set(m.stock, item, qty), ..m }
    } else {
        m
    }
}

// ---------------------------------------------------------------------------
// Transitions: the cart store

/// The quantity a cart line for `item` would hold after adding `qty`
/// (additive merge).
pub open spec fn merged_quantity(m: MarketView, user: u128, item: u128, qty: int) -> int {
    cart_quantity(m.cart, user, item) + qty
}

/// Outcome of `user` adding `qty` units of `item` to the cart.
/// Ownership is tested first: a user's own item is refused whatever the
/// quantity.
pub open spec fn add_outcome(m: MarketView, user: u128, item: u128, qty: int) -> Result<(), MyError> {
    if !listed(m.listings, item) {
        Err(MyError::NotFound)
    } else if owns(m.listings, user, item) {
        Err(MyError::Forbidden)
    } else if qty <= 0 {
        Err(MyError::UnproccessableEntityError)
    } else if merged_quantity(m, user, item, qty) > i32::MAX || !stock_allows(
        m.stock,
        item,
        merged_quantity(m, user, item, qty),
    ) {
        Err(MyError::ConflictError)
    } else {
        Ok(())
    }
}

/// The cart with `user`'s line for `item` set to `qty`: the line is
/// updated in place where it exists, appended otherwise.
pub open spec fn cart_set(cart: Seq<CartLine>, user: u128, item: u128, qty: i32) -> Seq<CartLine> {
    let line = CartLine { user_id: user, item_id: item, quantity: qty };
    if has_line(cart, user, item) {
        cart.update(line_index(cart, user, item), line)
    } else {
        cart.push(line)
    }
}

/// State after `user` adds `qty` units of `item` to the cart.
pub open spec fn after_add(m: MarketView, user: u128, item: u128, qty: int) -> MarketView {
    if add_outcome(m, user, item, qty) is Ok {
        MarketView {
            cart: cart_set(m.cart, user, item, merged_quantity(m, user, item, qty) as i32),
            ..m
        }
    } else {
        m
    }
}


/// The result of setting the quantity of a cart line.
#[derive(Clone, Copy, Debug, PartialEq, Eq)]
pub enum CartUpdate {
    /// The line now holds the requested quantity.
    Updated,
    /// The quantity was not positive: the line is gone.
    Removed,
    /// No line, or the stock does not admit the quantity: nothing changed.
    NotUpdated,
    /// The item is the user's own: refused, nothing changed.
    Forbidden,
}

/// Outcome of `user` setting the quantity of `item` in the cart to `qty`.
pub open spec fn update_outcome(m: MarketView, user: u128, item: u128, qty: int) -> CartUpdate {
    if qty <= 0 {
        CartUpdate::Removed
    } else if owns(m.listings, user, item) {
        CartUpdate::Forbidden
    } else if has_line(m.cart, user, item) && stock_allows(m.stock, item, qty) {
        CartUpdate::Updated
    } else {
        CartUpdate::NotUpdated
    }
}

/// The cart without `user`'s line for `item`.
pub open spec fn cart_remove(cart: Seq<CartLine>, user: u128, item: u128) -> Seq<CartLine> {
    if has_line(cart, user, item) {
        cart.remove(line_index(cart, user, item))
    } else {
        cart
    }
}

/// State after `user` sets the quantity of `item` in the cart to `qty`.
pub open spec fn after_update(m: MarketView, user: u128, item: u128, qty: i32) -> MarketView {
    match update_outcome(m, user, item, qty as int) {
        CartUpdate::Removed => MarketView { cart: cart_remove(m.cart, user, item), ..m },
        CartUpdate::Updated => MarketView { cart: cart_set(m.cart, user, item, qty), ..m },
        CartUpdate::NotUpdated => m,
        CartUpdate::Forbidden => m,
    }
}

/// The items of `user`'s cart lines, in cart order.
pub open spec fn user_items(cart: Seq<CartLine>, user: u128) -> Seq<CartItem>
    decreases cart.len(),
{
    if cart.len() == 0 {
        Seq::empty()
    } else {
        let rest = user_items(cart.drop_last(), user);
        let l = cart.last();
        if l.user_id == user {
            rest.push(CartItem { item_id: l.item_id, quantity: l.quantity })
        } else {
            rest
        }
    }
}

/// The recorded stock of `item`, if it is tracked.
pub open spec fn stock_record(stock: Seq<ItemStock>, item: u128) -> Option<i32> {
    if has_stock_record(stock, item) {
        Some(stock[choose|k: int| 0 <= k < stock.len() && (#[trigger] stock[k]).item_id == item].quantity)
    } else {
        None
    }
}

/// The lines of order `order`, in the order they were placed.
pub open spec fn lines_of_order(lines: Seq<OrderLine>, order: u128) -> Seq<OrderLine>
    decreases lines.len(),
{
    if lines.len() == 0 {
        lines
    } else {
        let rest = lines_of_order(lines.drop_last(), order);
        if lines.last().order_id == order {
            rest.push(lines.last())
        } else {
            rest
        }
    }
}

// ---------------------------------------------------------------------------
// Lemmas on keyed sequences

pub(crate) proof fn lemma_listing_owner(listings: Seq<Listing>, k: int, user: u128, item: u128)
    requires
        forall|i: int, j: int|
            0 <= i < listings.len() && 0 <= j < listings.len() && i != j
                ==> (#[trigger] listings[i]).item_id != (#[trigger] listings[j]).item_id,
        0 <= k < listings.len(),
        listings[k].item_id == item,
    ensures
        listed(listings, item),
        owns(listings, user, item) <==> listings[k].owner == user,
{
    if owns(listings, user, item) {
        let i = choose|i: int|
            0 <= i < listings.len() && (#[trigger] listings[i]).item_id == item
                && listings[i].owner == user;
        assert(i == k);
    }
}

pub(crate) proof fn lemma_line_at(cart: Seq<CartLine>, j: int, user: u128, item: u128)
    requires
        cart_keys_unique(cart),
        0 <= j < cart.len(),
        cart[j].user_id == user,
        cart[j].item_id == item,
    ensures
        has_line(cart, user, item),
        line_index(cart, user, item) == j,
        cart_quantity(cart, user, item) == cart[j].quantity,
{
    assert(has_line(cart, user, item));
    let i = line_index(cart, user, item);
    if i != j {
        assert(!(cart[i].user_id == cart[j].user_id && cart[i].item_id == cart[j].item_id));
    }
}

pub(crate) proof fn lemma_cart_set_valid(listings: Seq<Listing>, cart: Seq<CartLine>, user: u128, item: u128, qty: i32)
    requires
        cart_keys_unique(cart),
        cart_lines_valid(listings, cart),
        qty > 0,
        listed(listings, item),
        !owns(listings, user, item),
    ensures
        cart_keys_unique(cart_set(cart, user, item, qty)),
        cart_lines_valid(listings, cart_set(cart, user, item, qty)),
        has_line(cart_set(cart, user, item, qty), user, item),
{
    let c2 = cart_set(cart, user, item, qty);
    if has_line(cart, user, item) {
        let j = line_index(cart, user, item);
        assert(c2[j].user_id == user && c2[j].item_id == item);
        assert forall|a: int, b: int| 0 <= a < c2.len() && 0 <= b < c2.len() && a != b implies
            !(#[trigger] c2[a].user_id == #[trigger] c2[b].user_id && c2[a].item_id == c2[b].item_id) by {
            assert(!(cart[a].user_id == cart[b].user_id && cart[a].item_id == cart[b].item_id));
        }
    } else {
        let n = cart.len() as int;
        assert(c2[n].user_id == user && c2[n].item_id == item);
        assert forall|a: int, b: int| 0 <= a < c2.len() && 0 <= b < c2.len() && a != b implies
            !(#[trigger] c2[a].user_id == #[trigger] c2[b].user_id && c2[a].item_id == c2[b].item_id) by {
            if a < n && b < n {
                assert(!(cart[a].user_id == cart[b].user_id && cart[a].item_id == cart[b].item_id));
            } else if a < n {
                assert(cart[a] == c2[a]);
            } else if b < n {
                assert(cart[b] == c2[b]);
            }
        }
    }
}

pub(crate) proof fn lemma_cart_remove_valid(listings: Seq<Listing>, cart: Seq<CartLine>, user: u128, item: u128)
    requires
        cart_keys_unique(cart),
        cart_lines_valid(listings, cart),
    ensures
        cart_keys_unique(cart_remove(cart, user, item)),
        cart_lines_valid(listings, cart_remove(cart, user, item)),
        !has_line(cart_remove(cart, user, item), user, item),
{
    if has_line(cart, user, item) {
        let j = line_index(cart, user, item);
        let c2 = cart_remove(cart, user, item);
        assert forall|a: int| 0 <= a < c2.len() implies #[trigger] c2[a] == (if a < j { cart[a] } else { cart[a + 1] }) by {}
        assert forall|a: int, b: int| 0 <= a < c2.len() && 0 <= b < c2.len() && a != b implies
            !(#[trigger] c2[a].user_id == #[trigger] c2[b].user_id && c2[a].item_id == c2[b].item_id) by {
            let a0 = if a < j { a } else { a + 1 };
            let b0 = if b < j { b } else { b + 1 };
            assert(c2[a] == cart[a0] && c2[b] == cart[b0]);
            assert(!(cart[a0].user_id == cart[b0].user_id && cart[a0].item_id == cart[b0].item_id));
        }
        assert forall|k: int| 0 <= k < c2.len() implies (#[trigger] c2[k]).quantity > 0 && listed(listings, c2[k].item_id)
            && !owns(listings, c2[k].user_id, c2[k].item_id) by {
            let k0 = if k < j { k } else { k + 1 };
            assert(c2[k] == cart[k0]);
        }
        if has_line(c2, user, item) {
            let a = choose|a: int| 0 <= a < c2.len() && (#[trigger] c2[a]).user_id == user && c2[a].item_id == item;
            let a0 = if a < j { a } else { a + 1 };
            assert(c2[a] == cart[a0]);
            assert(!(cart[a0].user_id == cart[j].user_id && cart[a0].item_id == cart[j].item_id));
        }
    }
}

proof fn lemma_stock_set_valid(stock: Seq<ItemStock>, item: u128, qty: i32)
    requires
        stock_valid(stock),
        qty >= 0,
    ensures
        stock_valid(stock_set(stock, item, qty)),
{
    let s2 = stock_set(stock, item, qty);
    if has_stock_record(stock, item) {
        let k = choose|k: int| 0 <= k < stock.len() && (#[trigger] stock[k]).item_id == item;
        assert forall|i: int, j: int| 0 <= i < s2.len() && 0 <= j < s2.len() && i != j implies
            (#[trigger] s2[i]).item_id != (#[trigger] s2[j]).item_id by {
            assert(stock[i].item_id != stock[j].item_id);
        }
    } else {
        let n = stock.len() as int;
        assert forall|i: int, j: int| 0 <= i < s2.len() && 0 <= j < s2.len() && i != j implies
            (#[trigger] s2[i]).item_id != (#[trigger] s2[j]).item_id by {
            if i < n && j < n {
                assert(stock[i].item_id != stock[j].item_id);
            } else if i < n {
                assert(s2[i] == stock[i]);
            } else if j < n {
                assert(s2[j] == stock[j]);
            }
        }
    }
}

// ---------------------------------------------------------------------------
// Transitions: the checkout validator and the order committer

/// The cart line `l` of `user` asks for more than current stock admits.
pub open spec fn offends(stock: Seq<ItemStock>, user: u128, l: CartLine) -> bool {
    l.user_id == user && !stock_allows(stock, l.item_id, l.quantity as int)
}

/// The lines of `cart` for which `keep` holds, in order.
pub open spec fn keep_where(cart: Seq<CartLine>, keep: spec_fn(CartLine) -> bool) -> Seq<CartLine>
    decreases cart.len(),
{
    if cart.len() == 0 {
        cart
    } else {
        let rest = keep_where(cart.drop_last(), keep);
        if keep(cart.last()) {
            rest.push(cart.last())
        } else {
            rest
        }
    }
}

/// Keeps the lines that do not offend against current stock.
pub open spec fn not_offending(stock: Seq<ItemStock>, user: u128) -> spec_fn(CartLine) -> bool {
    |l: CartLine| !offends(stock, user, l)
}

/// Keeps the lines of users other than `user`.
pub open spec fn not_of_user(user: u128) -> spec_fn(CartLine) -> bool {
    |l: CartLine| l.user_id != user
}

/// The cart with `user`'s offending lines removed.
pub open spec fn purged_cart(cart: Seq<CartLine>, stock: Seq<ItemStock>, user: u128) -> Seq<CartLine> {
    keep_where(cart, not_offending(stock, user))
}

/// The items of `user`'s offending lines, in cart order.
pub open spec fn offending_items(cart: Seq<CartLine>, stock: Seq<ItemStock>, user: u128) -> Seq<CartItem>
    decreases cart.len(),
{
    if cart.len() == 0 {
        Seq::empty()
    } else {
        let rest = offending_items(cart.drop_last(), stock, user);
        let l = cart.last();
        if offends(stock, user, l) {
            rest.push(CartItem { item_id: l.item_id, quantity: l.quantity })
        } else {
            rest
        }
    }
}

/// State after validating `user`'s cart: offending lines are gone.
pub open spec fn after_check(m: MarketView, user: u128) -> MarketView {
    MarketView { cart: purged_cart(m.cart, m.stock, user), ..m }
}

/// The order lines that `user`'s cart lines become in order `order`.
pub open spec fn ordered_lines(cart: Seq<CartLine>, user: u128, order: u128) -> Seq<OrderLine>
    decreases cart.len(),
{
    if cart.len() == 0 {
        Seq::empty()
    } else {
        let rest = ordered_lines(cart.drop_last(), user, order);
        let l = cart.last();
        if l.user_id == user {
            rest.push(OrderLine { order_id: order, item_id: l.item_id, quantity: l.quantity, dispatched: false })
        } else {
            rest
        }
    }
}

/// The stock ledger after each record is decreased by the quantity that
/// `user`'s cart holds of its item.
pub open spec fn drained_stock(stock: Seq<ItemStock>, cart: Seq<CartLine>, user: u128) -> Seq<ItemStock> {
    Seq::new(
        stock.len(),
        |k: int|
            ItemStock {
                item_id: stock[k].item_id,
                quantity: (stock[k].quantity - cart_quantity(cart, user, stock[k].item_id)) as i32,
            },
    )
}

/// What placing an order reports.
pub enum OrderOutcome {
    /// The order was created.
    Created(OrderDetails),
    /// No order was created; these are the offending items that were
    /// removed from the cart, or, where none was, the cart as it stands.
    Conflict(Seq<CartItem>),
}

/// An order can be committed: no line offends, the address is `user`'s,
/// the order id is fresh and the cart is not empty.
pub open spec fn order_committable(m: MarketView, user: u128, address: u128, order: u128) -> bool {
    &&& offending_items(m.cart, m.stock, user).len() == 0
    &&& address_of(m.addresses, user, address)
    &&& !order_exists(m.orders, order)
    &&& user_items(m.cart, user).len() > 0
}

/// Outcome of `user` placing an order to `address`, with id `order` and
/// date `date` assigned by the server.
pub open spec fn order_outcome(m: MarketView, user: u128, address: u128, order: u128, date: i64) -> OrderOutcome {
    if offending_items(m.cart, m.stock, user).len() > 0 {
        OrderOutcome::Conflict(offending_items(m.cart, m.stock, user))
    } else if !order_committable(m, user, address, order) {
        OrderOutcome::Conflict(user_items(m.cart, user))
    } else {
        OrderOutcome::Created(OrderDetails { order_id: order, order_date: date })
    }
}

/// State after `user` places an order: either only the offending lines are
/// gone, or nothing changed, or the cart was drained into a new order and
/// the stock decreased accordingly, all at once.
pub open spec fn after_order(m: MarketView, user: u128, address: u128, order: u128, date: i64) -> MarketView {
    if offending_items(m.cart, m.stock, user).len() > 0 {
        after_check(m, user)
    } else if !order_committable(m, user, address, order) {
        m
    } else {
        MarketView {
            cart: keep_where(m.cart, not_of_user(user)),
            stock: drained_stock(m.stock, m.cart, user),
            orders: m.orders.push(
                PlacedOrder { order_id: order, user_id: user, address_id: address, order_date: date },
            ),
            order_lines: m.order_lines + ordered_lines(m.cart, user, order),
            ..m
        }
    }
}

/// Outcome of `actor` marking `item` of order `order` as dispatched.
pub open spec fn dispatch_outcome(m: MarketView, actor: u128, order: u128, item: u128) -> Result<(), MyError> {
    if !has_order_line(m.order_lines, order, item) {
        Err(MyError::NotFound)
    } else if !owns(m.listings, actor, item) || m.order_lines[order_line_index(m.order_lines, order, item)].dispatched {
        Err(MyError::Forbidden)
    } else {
        Ok(())
    }
}

/// State after `actor` marks `item` of order `order` as dispatched.
pub open spec fn after_dispatch(m: MarketView, actor: u128, order: u128, item: u128) -> MarketView {
    if dispatch_outcome(m, actor, order, item) is Ok {
        let k = order_line_index(m.order_lines, order, item);
        MarketView { order_lines: m.order_lines.update(k, OrderLine { dispatched: true, ..m.order_lines[k] }), ..m }
    } else {
        m
    }
}


/// Keeps the cart lines of items other than `item`.
pub open spec fn not_for_item(item: u128) -> spec_fn(CartLine) -> bool {
    |l: CartLine| l.item_id != item
}

/// Outcome of `actor` withdrawing the listing of `item`.
pub open spec fn delete_outcome(m: MarketView, actor: u128, item: u128) -> Result<(), MyError> {
    owner_outcome(m, actor, item)
}

/// Whether `actor` may change the listed item `item`: `NotFound` where it
/// is not listed, `Forbidden` where another user owns it.
pub open spec fn owner_outcome(m: MarketView, actor: u128, item: u128) -> Result<(), MyError> {
    if !listed(m.listings, item) {
        Err(MyError::NotFound)
    } else if !owns(m.listings, actor, item) {
        Err(MyError::Forbidden)
    } else {
        Ok(())
    }
}

/// Outcome of `user` rating `item`: `NotFound` where it is not listed,
/// `Forbidden` where it is the user's own item.
pub open spec fn rate_outcome(m: MarketView, user: u128, item: u128) -> Result<(), MyError> {
    if !listed(m.listings, item) {
        Err(MyError::NotFound)
    } else if owns(m.listings, user, item) {
        Err(MyError::Forbidden)
    } else {
        Ok(())
    }
}

/// State after `actor` withdraws the listing of `item`: the listing, its
/// stock record and every cart line for it are gone; placed orders stay.
pub open spec fn after_delete(m: MarketView, actor: u128, item: u128) -> MarketView {
    if delete_outcome(m, actor, item) is Ok {
        let k = choose|k: int| 0 <= k < m.listings.len() && (#[trigger] m.listings[k]).item_id == item;
        MarketView {
            listings: m.listings.remove(k),
            stock: if has_stock_record(m.stock, item) {
                m.stock.remove(choose|j: int| 0 <= j < m.stock.len() && (#[trigger] m.stock[j]).item_id == item)
            } else {
                m.stock
            },
            cart: keep_where(m.cart, not_for_item(item)),
            ..m
        }
    } else {
        m
    }
}

/// State after `user` rates `item` with `rating`.
pub open spec fn after_rate(m: MarketView, user: u128, item: u128, rating: i32) -> MarketView {
    if rate_outcome(m, user, item) is Ok {
        MarketView { ratings: m.ratings.push(ItemRating { user_id: user, item_id: item, rating }), ..m }
    } else {
        m
    }
}

/// The lines of orders placed for items that `seller` owns, in the order
/// they were placed.
pub open spec fn seller_lines(m: MarketView, seller: u128, lines: Seq<OrderLine>) -> Seq<OrderLine>
    decreases lines.len(),
{
    if lines.len() == 0 {
        lines
    } else {
        let rest = seller_lines(m, seller, lines.drop_last());
        if owns(m.listings, seller, lines.last().item_id) {
            rest.push(lines.last())
        } else {
            rest
        }
    }
}

/// The order that has id `order`, where there is one.
pub open spec fn order_with_id(orders: Seq<PlacedOrder>, order: u128) -> PlacedOrder {
    orders[choose|k: int| 0 <= k < orders.len() && (#[trigger] orders[k]).order_id == order]
}

/// The lines of the orders that `buyer` placed, with their order's address
/// and date, in the order they were placed.
pub open spec fn buyer_lines(orders: Seq<PlacedOrder>, buyer: u128, lines: Seq<OrderLine>) -> Seq<AllOrderDetails>
    decreases lines.len(),
{
    if lines.len() == 0 {
        Seq::empty()
    } else {
        let rest = buyer_lines(orders, buyer, lines.drop_last());
        let l = lines.last();
        let o = order_with_id(orders, l.order_id);
        if o.user_id == buyer {
            rest.push(AllOrderDetails {
                order_id: l.order_id,
                item_id: l.item_id,
                quantity: l.quantity,
                address_id: o.address_id,
                order_date: o.order_date,
                dispatched: l.dispatched,
            })
        } else {
            rest
        }
    }
}

// ---------------------------------------------------------------------------
// Lemmas on the checkout

pub(crate) proof fn lemma_keep_where(listings: Seq<Listing>, cart: Seq<CartLine>, keep: spec_fn(CartLine) -> bool)
    requires
        cart_keys_unique(cart),
        cart_lines_valid(listings, cart),
    ensures
        cart_keys_unique(keep_where(cart, keep)),
        cart_lines_valid(listings, keep_where(cart, keep)),
        forall|a: int| 0 <= a < keep_where(cart, keep).len() ==> exists|b: int| 0 <= b < cart.len() && cart[b] == #[trigger] keep_where(cart, keep)[a],
        forall|a: int| 0 <= a < keep_where(cart, keep).len() ==> keep(#[trigger] keep_where(cart, keep)[a]),
        forall|b: int| 0 <= b < cart.len() && keep(#[trigger] cart[b]) ==> keep_where(cart, keep).contains(cart[b]),
    decreases cart.len(),
{
    if cart.len() > 0 {
        let c0 = cart.drop_last();
        assert forall|i: int, j: int| 0 <= i < c0.len() && 0 <= j < c0.len() && i != j implies
            !(#[trigger] c0[i].user_id == #[trigger] c0[j].user_id && c0[i].item_id == c0[j].item_id) by {
            assert(c0[i] == cart[i] && c0[j] == cart[j]);
        }
        assert forall|k: int| 0 <= k < c0.len() implies (#[trigger] c0[k]).quantity > 0 && listed(listings, c0[k].item_id)
            && !owns(listings, c0[k].user_id, c0[k].item_id) by {
            assert(c0[k] == cart[k]);
        }
        lemma_keep_where(listings, c0, keep);
        let r0 = keep_where(c0, keep);
        let r = keep_where(cart, keep);
        let x = cart.last();
        let n = cart.len() - 1;
        assert forall|a: int| 0 <= a < r0.len() implies exists|b: int| 0 <= b < cart.len() && cart[b] == #[trigger] r0[a] by {
            let b = choose|b: int| 0 <= b < c0.len() && c0[b] == r0[a];
            assert(cart[b] == r0[a]);
        }
        if keep(x) {
            assert(r == r0.push(x));
            assert forall|a: int| 0 <= a < r.len() implies exists|b: int| 0 <= b < cart.len() && cart[b] == #[trigger] r[a] by {
                if a < r0.len() {
                    assert(r[a] == r0[a]);
                } else {
                    assert(cart[n] == r[a]);
                }
            }
            assert forall|i: int, j: int| 0 <= i < r.len() && 0 <= j < r.len() && i != j implies
                !(#[trigger] r[i].user_id == #[trigger] r[j].user_id && r[i].item_id == r[j].item_id) by {
                if i < r0.len() && j < r0.len() {
                    assert(r[i] == r0[i] && r[j] == r0[j]);
                } else if i < r0.len() {
                    let b = choose|b: int| 0 <= b < c0.len() && c0[b] == r0[i];
                    assert(r[i] == r0[i]);
                    assert(cart[b] == r0[i]);
                    assert(!(cart[b].user_id == cart[n].user_id && cart[b].item_id == cart[n].item_id));
                } else if j < r0.len() {
                    let b = choose|b: int| 0 <= b < c0.len() && c0[b] == r0[j];
                    assert(r[j] == r0[j]);
                    assert(cart[b] == r0[j]);
                    assert(!(cart[b].user_id == cart[n].user_id && cart[b].item_id == cart[n].item_id));
                }
            }
            assert forall|k: int| 0 <= k < r.len() implies (#[trigger] r[k]).quantity > 0 && listed(listings, r[k].item_id)
                && !owns(listings, r[k].user_id, r[k].item_id) by {
                if k < r0.len() {
                    assert(r[k] == r0[k]);
                } else {
                    assert(r[k] == cart[n]);
                }
            }
            assert forall|a: int| 0 <= a < r.len() implies keep(#[trigger] r[a]) by {
                if a < r0.len() {
                    assert(r[a] == r0[a]);
                }
            }
            assert forall|b: int| 0 <= b < cart.len() && keep(#[trigger] cart[b]) implies r.contains(cart[b]) by {
                if b < n {
                    assert(c0[b] == cart[b]);
                    assert(r0.contains(c0[b]));
                    let a = choose|a: int| 0 <= a < r0.len() && r0[a] == c0[b];
                    assert(r[a] == r0[a]);
                } else {
                    assert(r[r0.len() as int] == cart[b]);
                }
            }
        } else {
            assert(r == r0);
            assert forall|b: int| 0 <= b < cart.len() && keep(#[trigger] cart[b]) implies r.contains(cart[b]) by {
                if b < n {
                    assert(c0[b] == cart[b]);
                }
            }
        }
    }
}

pub(crate) proof fn lemma_no_offending(cart: Seq<CartLine>, stock: Seq<ItemStock>, user: u128)
    requires
        offending_items(cart, stock, user).len() == 0,
    ensures
        purged_cart(cart, stock, user) == cart,
        forall|k: int| 0 <= k < cart.len() && (#[trigger] cart[k]).user_id == user ==> stock_allows(stock, cart[k].item_id, cart[k].quantity as int),
    decreases cart.len(),
{
    if cart.len() > 0 {
        let c0 = cart.drop_last();
        assert(!offends(stock, user, cart.last()));
        lemma_no_offending(c0, stock, user);
        assert(cart == c0.push(cart.last()));
        assert forall|k: int| 0 <= k < cart.len() && (#[trigger] cart[k]).user_id == user implies stock_allows(stock, cart[k].item_id, cart[k].quantity as int) by {
            if k < c0.len() {
                assert(cart[k] == c0[k]);
            }
        }
    }
}

pub(crate) proof fn lemma_purge_settles(cart: Seq<CartLine>, stock: Seq<ItemStock>, user: u128)
    ensures
        offending_items(purged_cart(cart, stock, user), stock, user).len() == 0,
    decreases cart.len(),
{
    if cart.len() > 0 {
        let c0 = cart.drop_last();
        lemma_purge_settles(c0, stock, user);
        let p0 = purged_cart(c0, stock, user);
        let x = cart.last();
        if !offends(stock, user, x) {
            let p = p0.push(x);
            assert(purged_cart(cart, stock, user) == p);
            assert(p.drop_last() == p0);
        }
    }
}

/// The order line `x` stems from a cart line of `user` for the same item
/// and quantity.
pub open spec fn stems_from(cart: Seq<CartLine>, user: u128, order: u128, x: OrderLine) -> bool {
    exists|b: int|
        0 <= b < cart.len() && (#[trigger] cart[b]).user_id == user && cart[b].item_id == x.item_id
            && x.order_id == order && x.quantity == cart[b].quantity && !x.dispatched
}

pub(crate) proof fn lemma_user_items_lines(cart: Seq<CartLine>, user: u128, order: u128)
    ensures
        ordered_lines(cart, user, order).len() == user_items(cart, user).len(),
        forall|a: int| 0 <= a < ordered_lines(cart, user, order).len()
            ==> stems_from(cart, user, order, #[trigger] ordered_lines(cart, user, order)[a]),
    decreases cart.len(),
{
    if cart.len() > 0 {
        let c0 = cart.drop_last();
        lemma_user_items_lines(c0, user, order);
        let r0 = ordered_lines(c0, user, order);
        let r = ordered_lines(cart, user, order);
        assert forall|a: int| 0 <= a < r.len() implies stems_from(cart, user, order, #[trigger] r[a]) by {
            if a < r0.len() {
                assert(stems_from(c0, user, order, r0[a]));
                let b = choose|b: int| 0 <= b < c0.len() && (#[trigger] c0[b]).user_id == user && c0[b].item_id == r0[a].item_id
                    && r0[a].order_id == order && r0[a].quantity == c0[b].quantity && !r0[a].dispatched;
                assert(r[a] == r0[a]);
                assert(cart[b] == c0[b]);
            } else {
                let n = cart.len() - 1;
                assert(cart[n] == cart.last());
                assert(r[a].item_id == cart[n].item_id);
            }
        }
    }
}

pub(crate) proof fn lemma_ordered_unique(cart: Seq<CartLine>, user: u128, order: u128)
    requires
        cart_keys_unique(cart),
    ensures
        forall|i: int, j: int|
            0 <= i < ordered_lines(cart, user, order).len() && 0 <= j < ordered_lines(cart, user, order).len() && i != j
                ==> (#[trigger] ordered_lines(cart, user, order)[i]).item_id != (#[trigger] ordered_lines(cart, user, order)[j]).item_id,
    decreases cart.len(),
{
    if cart.len() > 0 {
        let c0 = cart.drop_last();
        assert forall|i: int, j: int| 0 <= i < c0.len() && 0 <= j < c0.len() && i != j implies
            !(#[trigger] c0[i].user_id == #[trigger] c0[j].user_id && c0[i].item_id == c0[j].item_id) by {
            assert(c0[i] == cart[i] && c0[j] == cart[j]);
        }
        lemma_ordered_unique(c0, user, order);
        lemma_user_items_lines(c0, user, order);
        let r0 = ordered_lines(c0, user, order);
        let r = ordered_lines(cart, user, order);
        let n = cart.len() - 1;
        if cart.last().user_id == user {
            assert forall|i: int, j: int| 0 <= i < r.len() && 0 <= j < r.len() && i != j implies
                (#[trigger] r[i]).item_id != (#[trigger] r[j]).item_id by {
                if i < r0.len() && j < r0.len() {
                    assert(r[i] == r0[i] && r[j] == r0[j]);
                } else if i < r0.len() {
                    assert(stems_from(c0, user, order, r0[i]));
                    let b = choose|b: int| 0 <= b < c0.len() && (#[trigger] c0[b]).user_id == user && c0[b].item_id == r0[i].item_id
                        && r0[i].order_id == order && r0[i].quantity == c0[b].quantity && !r0[i].dispatched;
                    assert(r[i] == r0[i]);
                    assert(cart[b] == c0[b]);
                    assert(!(cart[b].user_id == cart[n].user_id && cart[b].item_id == cart[n].item_id));
                } else if j < r0.len() {
                    assert(stems_from(c0, user, order, r0[j]));
                    let b = choose|b: int| 0 <= b < c0.len() && (#[trigger] c0[b]).user_id == user && c0[b].item_id == r0[j].item_id
                        && r0[j].order_id == order && r0[j].quantity == c0[b].quantity && !r0[j].dispatched;
                    assert(r[j] == r0[j]);
                    assert(cart[b] == c0[b]);
                    assert(!(cart[b].user_id == cart[n].user_id && cart[b].item_id == cart[n].item_id));
                }
            }
        }
    }
}

pub(crate) proof fn lemma_check_keeps_wf(m: MarketView, user: u128)
    requires
        market_wf(m),
    ensures
        market_wf(after_check(m, user)),
{
    lemma_keep_where(m.listings, m.cart, not_offending(m.stock, user));
}

pub(crate) proof fn lemma_order_keeps_wf(m: MarketView, user: u128, address: u128, order: u128, date: i64)
    requires
        market_wf(m),
    ensures
        market_wf(after_order(m, user, address, order, date)),
{
    lemma_check_keeps_wf(m, user);
    if offending_items(m.cart, m.stock, user).len() == 0 && order_committable(m, user, address, order) {
        let m1 = after_order(m, user, address, order, date);
        lemma_no_offending(m.cart, m.stock, user);
        lemma_keep_where(m.listings, m.cart, not_of_user(user));
        lemma_ordered_unique(m.cart, user, order);
        lemma_user_items_lines(m.cart, user, order);
        let n = m.orders.len() as int;
        assert(m1.orders[n].order_id == order);
        assert forall|i: int, j: int| 0 <= i < m1.orders.len() && 0 <= j < m1.orders.len() && i != j implies
            (#[trigger] m1.orders[i]).order_id != (#[trigger] m1.orders[j]).order_id by {
            if i < n && j < n {
                assert(m.orders[i].order_id != m.orders[j].order_id);
            } else if i < n {
                assert(m1.orders[i] == m.orders[i]);
            } else if j < n {
                assert(m1.orders[j] == m.orders[j]);
            }
        }
        assert forall|i: int, j: int| 0 <= i < m1.stock.len() && 0 <= j < m1.stock.len() && i != j implies
            (#[trigger] m1.stock[i]).item_id != (#[trigger] m1.stock[j]).item_id by {
            assert(m.stock[i].item_id != m.stock[j].item_id);
        }
        assert forall|k: int| 0 <= k < m1.stock.len() implies (#[trigger] m1.stock[k]).quantity >= 0 by {
            let it = m.stock[k].item_id;
            if has_line(m.cart, user, it) {
                let j = line_index(m.cart, user, it);
                assert(stock_allows(m.stock, m.cart[j].item_id, m.cart[j].quantity as int));
            }
            assert(m.stock[k].quantity >= 0);
        }
        let old_lines = m.order_lines;
        let new_lines = ordered_lines(m.cart, user, order);
        let o = old_lines.len() as int;
        assert forall|k: int| 0 <= k < m1.order_lines.len() implies order_exists(m1.orders, (#[trigger] m1.order_lines[k]).order_id) by {
            if k < o {
                assert(m1.order_lines[k] == old_lines[k]);
                assert(order_exists(m.orders, old_lines[k].order_id));
                let c = choose|c: int| 0 <= c < m.orders.len() && (#[trigger] m.orders[c]).order_id == old_lines[k].order_id;
                assert(m1.orders[c] == m.orders[c]);
            } else {
                assert(m1.order_lines[k] == new_lines[k - o]);
                assert(stems_from(m.cart, user, order, new_lines[k - o]));
            }
        }
        assert forall|i: int, j: int| 0 <= i < m1.order_lines.len() && 0 <= j < m1.order_lines.len() && i != j implies
            !(#[trigger] m1.order_lines[i].order_id == #[trigger] m1.order_lines[j].order_id
                && m1.order_lines[i].item_id == m1.order_lines[j].item_id) by {
            if i < o && j < o {
                assert(m1.order_lines[i] == old_lines[i] && m1.order_lines[j] == old_lines[j]);
            } else if i >= o && j >= o {
                assert(m1.order_lines[i] == new_lines[i - o] && m1.order_lines[j] == new_lines[j - o]);
            } else if i < o {
                assert(m1.order_lines[i] == old_lines[i]);
                assert(order_exists(m.orders, old_lines[i].order_id));
                assert(m1.order_lines[j] == new_lines[j - o]);
                assert(stems_from(m.cart, user, order, new_lines[j - o]));
            } else {
                assert(m1.order_lines[j] == old_lines[j]);
                assert(order_exists(m.orders, old_lines[j].order_id));
                assert(m1.order_lines[i] == new_lines[i - o]);
                assert(stems_from(m.cart, user, order, new_lines[i - o]));
            }
        }
    }
}


pub(crate) proof fn lemma_delete_keeps_wf(m: MarketView, actor: u128, item: u128)
    requires
        market_wf(m),
    ensures
        market_wf(after_delete(m, actor, item)),
{
    if delete_outcome(m, actor, item) is Ok {
        let m1 = after_delete(m, actor, item);
        let k = choose|k: int| 0 <= k < m.listings.len() && (#[trigger] m.listings[k]).item_id == item;
        let l0 = m.listings;
        let l1 = m1.listings;
        assert forall|a: int| 0 <= a < l1.len() implies #[trigger] l1[a] == (if a < k { l0[a] } else { l0[a + 1] }) by {}
        assert forall|i: int, j: int| 0 <= i < l1.len() && 0 <= j < l1.len() && i != j implies
            (#[trigger] l1[i]).item_id != (#[trigger] l1[j]).item_id by {
            let i0 = if i < k { i } else { i + 1 };
            let j0 = if j < k { j } else { j + 1 };
            assert(l1[i] == l0[i0] && l1[j] == l0[j0]);
            assert(l0[i0].item_id != l0[j0].item_id);
        }
        if has_stock_record(m.stock, item) {
            let c = choose|j: int| 0 <= j < m.stock.len() && (#[trigger] m.stock[j]).item_id == item;
            let s0 = m.stock;
            let s1 = m1.stock;
            assert forall|a: int| 0 <= a < s1.len() implies #[trigger] s1[a] == (if a < c { s0[a] } else { s0[a + 1] }) by {}
            assert forall|i: int, j: int| 0 <= i < s1.len() && 0 <= j < s1.len() && i != j implies
                (#[trigger] s1[i]).item_id != (#[trigger] s1[j]).item_id by {
                let i0 = if i < c { i } else { i + 1 };
                let j0 = if j < c { j } else { j + 1 };
                assert(s1[i] == s0[i0] && s1[j] == s0[j0]);
                assert(s0[i0].item_id != s0[j0].item_id);
            }
            assert forall|a: int| 0 <= a < s1.len() implies (#[trigger] s1[a]).quantity >= 0 by {
                let a0 = if a < c { a } else { a + 1 };
                assert(s1[a] == s0[a0]);
            }
        }
        lemma_keep_where(m.listings, m.cart, not_for_item(item));
        let c1 = m1.cart;
        assert forall|a: int| 0 <= a < c1.len() implies (#[trigger] c1[a]).quantity > 0 && listed(l1, c1[a].item_id)
            && !owns(l1, c1[a].user_id, c1[a].item_id) by {
            let x = c1[a];
            assert(not_for_item(item)(x));
            assert(listed(l0, x.item_id));
            let j = choose|j: int| 0 <= j < l0.len() && (#[trigger] l0[j]).item_id == x.item_id;
            assert(j != k);
            let j1 = if j < k { j } else { j - 1 };
            assert(l1[j1] == l0[j]);
            if owns(l1, x.user_id, x.item_id) {
                let i = choose|i: int| 0 <= i < l1.len() && (#[trigger] l1[i]).item_id == x.item_id && l1[i].owner == x.user_id;
                let i0 = if i < k { i } else { i + 1 };
                assert(l1[i] == l0[i0]);
            }
        }
    }
}

// ---------------------------------------------------------------------------
// Executable operations

impl Marketplace {
    /// The invariant of this marketplace.
    pub open spec fn wf(&self) -> bool {
        market_wf(self@)
    }

    /// An empty marketplace.
    pub fn new() -> (r: Marketplace)
        ensures
            r.wf(),
            r@.listings.len() == 0,
            r@.stock.len() == 0,
            r@.cart.len() == 0,
            r@.addresses.len() == 0,
            r@.orders.len() == 0,
            r@.order_lines.len() == 0,
            r@.ratings.len() == 0,
    {
        Marketplace {
            listings: Vec::new(),
            stock: Vec::new(),
            cart: Vec::new(),
            addresses: Vec::new(),
            orders: Vec::new(),
            order_lines: Vec::new(),
            ratings: Vec::new(),
        }
    }

    fn find_listing(&self, item: u128) -> (r: Option<usize>)
        ensures
            match r {
                Some(k) => k < self@.listings.len() && self@.listings[k as int].item_id == item,
                None => !listed(self@.listings, item),
            },
    {
        let mut i: usize = 0;
        while i < self.listings.len()
            invariant
                i <= self.listings.len(),
                forall|k: int| 0 <= k < i ==> (#[trigger] self.listings@[k]).item_id != item,
            decreases self.listings.len() - i,
        {
            if self.listings[i].item_id == item {
                return Some(i);
            }
            i = i + 1;
        }
        None
    }

    fn find_stock(&self, item: u128) -> (r: Option<usize>)
        ensures
            match r {
                Some(k) => k < self@.stock.len() && self@.stock[k as int].item_id == item,
                None => !has_stock_record(self@.stock, item),
            },
    {
        let mut i: usize = 0;
        while i < self.stock.len()
            invariant
                i <= self.stock.len(),
                forall|k: int| 0 <= k < i ==> (#[trigger] self.stock@[k]).item_id != item,
            decreases self.stock.len() - i,
        {
            if self.stock[i].item_id == item {
                return Some(i);
            }
            i = i + 1;
        }
        None
    }

    fn find_line(&self, user: u128, item: u128) -> (r: Option<usize>)
        ensures
            match r {
                Some(k) => k < self@.cart.len() && self@.cart[k as int].user_id == user
                    && self@.cart[k as int].item_id == item,
                None => !has_line(self@.cart, user, item),
            },
    {
        let mut i: usize = 0;
        while i < self.cart.len()
            invariant
                i <= self.cart.len(),
                forall|k: int|
                    0 <= k < i ==> !((#[trigger] self.cart@[k]).user_id == user
                        && self.cart@[k].item_id == item),
            decreases self.cart.len() - i,
        {
            if self.cart[i].user_id == user && self.cart[i].item_id == item {
                return Some(i);
            }
            i = i + 1;
        }
        None
    }

    /// Whether current stock admits `qty` units of `item`.
    fn allows(&self, item: u128, qty: i64) -> (r: bool)
        requires
            self.wf(),
        ensures
            r == stock_allows(self@.stock, item, qty as int),
    {
        match self.find_stock(item) {
            Some(k) => {
                proof {
                    assert forall|j: int|
                        0 <= j < self@.stock.len() && (#[trigger] self@.stock[j]).item_id
                            == item implies qty <= self@.stock[j].quantity <==> qty
                        <= self@.stock[k as int].quantity by {
                        if j != k as int {
                            assert(self@.stock[j].item_id != self@.stock[k as int].item_id);
                        }
                    }
                }
                qty <= self.stock[k].quantity as i64
            },
            None => true,
        }
    }

    /// Lists `item`, owned by `user`.
    pub fn create_item(&mut self, user: u128, item: u128) -> (r: Result<(), MyError>)
        requires
            old(self).wf(),
        ensures
            final(self).wf(),
            r == create_item_outcome(old(self)@, user, item),
            final(self)@ == after_create_item(old(self)@, user, item),
    {
        match self.find_listing(item) {
            Some(_) => Err(MyError::ConflictError),
            None => {
                let ghost m0 = self@;
                self.listings.push(Listing { item_id: item, owner: user });
                proof {
                    let m1 = self@;
                    assert(m1 == after_create_item(m0, user, item));
                    assert forall|k: int| 0 <= k < m1.cart.len() implies (#[trigger] m1.cart[k]).quantity > 0
                        && listed(m1.listings, m1.cart[k].item_id) && !owns(m1.listings, m1.cart[k].user_id, m1.cart[k].item_id) by {
                        let c = m0.cart[k];
                        let j = choose|j: int| 0 <= j < m0.listings.len() && (#[trigger] m0.listings[j]).item_id == c.item_id;
                        assert(m1.listings[j] == m0.listings[j]);
                        if owns(m1.listings, c.user_id, c.item_id) {
                            let i = choose|i: int| 0 <= i < m1.listings.len() && (#[trigger] m1.listings[i]).item_id == c.item_id && m1.listings[i].owner == c.user_id;
                            assert(i < m0.listings.len());
                            assert(m0.listings[i] == m1.listings[i]);
                        }
                    }
                }
                Ok(())
            },
        }
    }

    fn address_taken(&self, address: u128) -> (r: bool)
        ensures
            r == exists|k: int| 0 <= k < self@.addresses.len() && (#[trigger] self@.addresses[k]).address_id == address,
    {
        let mut i: usize = 0;
        while i < self.addresses.len()
            invariant
                i <= self.addresses.len(),
                forall|k: int| 0 <= k < i ==> (#[trigger] self.addresses@[k]).address_id != address,
            decreases self.addresses.len() - i,
        {
            if self.addresses[i].address_id == address {
                assert(self@.addresses[i as int].address_id == address);
                return true;
            }
            i = i + 1;
        }
        false
    }

    /// Registers `address` as a delivery address of `user`.
    pub fn create_user_address(&mut self, user: u128, address: u128) -> (r: Result<(), MyError>)
        requires
            old(self).wf(),
        ensures
            final(self).wf(),
            r == address_outcome(old(self)@, user, address),
            final(self)@ == after_address(old(self)@, user, address),
    {
        if self.address_taken(address) {
            return Err(MyError::ConflictError);
        }
        let ghost m0 = self@;
        self.addresses.push(AddressRecord { address_id: address, user_id: user });
        proof {
            let m1 = self@;
            assert(m1 == after_address(m0, user, address));
            let n = m0.addresses.len() as int;
            assert forall|a: int, b: int| 0 <= a < m1.addresses.len() && 0 <= b < m1.addresses.len() && a != b implies
                (#[trigger] m1.addresses[a]).address_id != (#[trigger] m1.addresses[b]).address_id by {
                if a < n && b < n {
                    assert(m0.addresses[a].address_id != m0.addresses[b].address_id);
                } else if a < n {
                    assert(m1.addresses[a] == m0.addresses[a]);
                } else if b < n {
                    assert(m1.addresses[b] == m0.addresses[b]);
                }
            }
        }
        Ok(())
    }

    /// Sets the stock of an item, on behalf of `actor`, who must own it.
    pub fn edit_stock(&mut self, actor: u128, form: ItemStock) -> (r: Result<(), MyError>)
        requires
            old(self).wf(),
        ensures
            final(self).wf(),
            r == stock_outcome(old(self)@, actor, form.item_id, form.quantity as int),
            final(self)@ == after_stock(old(self)@, actor, form.item_id, form.quantity),
    {
        let item = form.item_id;
        let qty = form.quantity;
        let k = match self.find_listing(item) {
            Some(k) => k,
            None => { return Err(MyError::NotFound); },
        };
        proof { lemma_listing_owner(self@.listings, k as int, actor, item); }
        if self.listings[k].owner != actor {
            return Err(MyError::Forbidden);
        }
        if qty < 0 {
            return Err(MyError::UnproccessableEntityError);
        }
        let ghost m0 = self@;
        proof { lemma_stock_set_valid(m0.stock, item, qty); }
        match self.find_stock(item) {
            Some(j) => {
                proof {
                    let c = choose|c: int| 0 <= c < m0.stock.len() && (#[trigger] m0.stock[c]).item_id == item;
                    if c != j as int {
                        assert(m0.stock[c].item_id != m0.stock[j as int].item_id);
                    }
                }
                self.stock.set(j, ItemStock { item_id: item, quantity: qty });
            },
            None => {
                self.stock.push(ItemStock { item_id: item, quantity: qty });
            },
        }
        proof { assert(self@ == after_stock(m0, actor, item, qty)); }
        Ok(())
    }

    /// Adds `form.quantity` units of `form.item_id` to `user`'s cart,
    /// merging into an existing line by addition.
    pub fn add_item(&mut self, user: u128, form: CartItem) -> (r: Result<(), MyError>)
        requires
            old(self).wf(),
        ensures
            final(self).wf(),
            r == add_outcome(old(self)@, user, form.item_id, form.quantity as int),
            final(self)@ == after_add(old(self)@, user, form.item_id, form.quantity as int),
    {
        let item = form.item_id;
        let qty = form.quantity;
        let k = match self.find_listing(item) {
            Some(k) => k,
            None => { return Err(MyError::NotFound); },
        };
        proof { lemma_listing_owner(self@.listings, k as int, user, item); }
        if self.listings[k].owner == user {
            return Err(MyError::Forbidden);
        }
        if qty <= 0 {
            return Err(MyError::UnproccessableEntityError);
        }
        let found = self.find_line(user, item);
        let current: i64 = match found {
            Some(j) => {
                proof { lemma_line_at(self@.cart, j as int, user, item); }
                self.cart[j].quantity as i64
            },
            None => 0,
        };
        let total: i64 = current + qty as i64;
        if total > i32::MAX as i64 || !self.allows(item, total) {
            return Err(MyError::ConflictError);
        }
        let ghost m0 = self@;
        proof {
            if found is Some {
                assert(self@.cart[found->0 as int].quantity > 0);
            }
            lemma_cart_set_valid(m0.listings, m0.cart, user, item, total as i32);
        }
        let line = CartLine { user_id: user, item_id: item, quantity: total as i32 };
        match found {
            Some(j) => { self.cart.set(j, line); },
            None => { self.cart.push(line); },
        }
        proof { assert(self@ == after_add(m0, user, item, qty as int)); }
        Ok(())
    }

    /// Sets the quantity of `user`'s cart line for `form.item_id`; a
    /// quantity that is not positive removes the line, and a positive one
    /// for the user's own item is refused.
    pub fn update_cart_item(&mut self, user: u128, form: CartItem) -> (r: CartUpdate)
        requires
            old(self).wf(),
        ensures
            final(self).wf(),
            r == update_outcome(old(self)@, user, form.item_id, form.quantity as int),
            final(self)@ == after_update(old(self)@, user, form.item_id, form.quantity),
    {
        let item = form.item_id;
        let qty = form.quantity;
        let ghost m0 = self@;
        let found = self.find_line(user, item);
        if qty <= 0 {
            proof { lemma_cart_remove_valid(m0.listings, m0.cart, user, item); }
            match found {
                Some(j) => {
                    proof { lemma_line_at(m0.cart, j as int, user, item); }
                    self.cart.remove(j);
                },
                None => {},
            }
            proof { assert(self@ == after_update(m0, user, item, qty)); }
            return CartUpdate::Removed;
        }
        match self.find_listing(item) {
            Some(k) => {
                proof { lemma_listing_owner(m0.listings, k as int, user, item); }
                if self.listings[k].owner == user {
                    return CartUpdate::Forbidden;
                }
            },
            None => {},
        }
        let j = match found {
            Some(j) => j,
            None => { return CartUpdate::NotUpdated; },
        };
        proof {
            lemma_line_at(m0.cart, j as int, user, item);
            assert(listed(m0.listings, item));
        }
        if !self.allows(item, qty as i64) {
            return CartUpdate::NotUpdated;
        }
        proof { lemma_cart_set_valid(m0.listings, m0.cart, user, item, qty); }
        self.cart.set(j, CartLine { user_id: user, item_id: item, quantity: qty });
        proof { assert(self@ == after_update(m0, user, item, qty)); }
        CartUpdate::Updated
    }

    /// The items of `user`'s cart, in cart order.
    pub fn get_cart(&self, user: u128) -> (r: Vec<CartItem>)
        ensures
            r@ == user_items(self@.cart, user),
    {
        let mut out: Vec<CartItem> = Vec::new();
        let mut i: usize = 0;
        while i < self.cart.len()
            invariant
                i <= self.cart.len(),
                out@ == user_items(self@.cart.subrange(0, i as int), user),
            decreases self.cart.len() - i,
        {
            let l = self.cart[i];
            proof {
                assert(self@.cart.subrange(0, i + 1).drop_last() =~= self@.cart.subrange(0, i as int));
            }
            if l.user_id == user {
                out.push(CartItem { item_id: l.item_id, quantity: l.quantity });
            }
            i = i + 1;
        }
        proof { assert(self@.cart.subrange(0, self@.cart.len() as int) =~= self@.cart); }
        out
    }

    /// Removes `user`'s offending cart lines and returns their items.
    fn purge(&mut self, user: u128) -> (removed: Vec<CartItem>)
        requires
            old(self).wf(),
        ensures
            final(self).wf(),
            final(self)@ == after_check(old(self)@, user),
            removed@ == offending_items(old(self)@.cart, old(self)@.stock, user),
    {
        let ghost m0 = self@;
        let ghost keep = not_offending(m0.stock, user);
        let mut kept: Vec<CartLine> = Vec::new();
        let mut removed: Vec<CartItem> = Vec::new();
        let mut i: usize = 0;
        while i < self.cart.len()
            invariant
                self@ == m0,
                self.wf(),
                keep == not_offending(m0.stock, user),
                i <= self.cart.len(),
                kept@ == keep_where(m0.cart.subrange(0, i as int), keep),
                removed@ == offending_items(m0.cart.subrange(0, i as int), m0.stock, user),
            decreases self.cart.len() - i,
        {
            let l = self.cart[i];
            proof {
                assert(m0.cart.subrange(0, i + 1).drop_last() =~= m0.cart.subrange(0, i as int));
                assert(m0.cart.subrange(0, i + 1).last() == l);
            }
            if l.user_id == user && !self.allows(l.item_id, l.quantity as i64) {
                removed.push(CartItem { item_id: l.item_id, quantity: l.quantity });
            } else {
                kept.push(l);
            }
            i = i + 1;
        }
        proof {
            assert(m0.cart.subrange(0, m0.cart.len() as int) =~= m0.cart);
            lemma_keep_where(m0.listings, m0.cart, keep);
        }
        self.cart = kept;
        proof { assert(self@ == after_check(m0, user)); }
        removed
    }

    /// Validates `user`'s cart against current stock: offending lines are
    /// removed, and reported where there were any.
    pub fn check_cart(&mut self, user: u128) -> (r: Result<(), CartError>)
        requires
            old(self).wf(),
        ensures
            final(self).wf(),
            final(self)@ == after_check(old(self)@, user),
            r is Ok <==> offending_items(old(self)@.cart, old(self)@.stock, user).len() == 0,
            r matches Err(e) ==> e.detail@ == offending_items(old(self)@.cart, old(self)@.stock, user),
    {
        let removed = self.purge(user);
        if removed.len() == 0 {
            Ok(())
        } else {
            Err(CartError { detail: removed })
        }
    }

    fn address_belongs(&self, user: u128, address: u128) -> (r: bool)
        ensures
            r == address_of(self@.addresses, user, address),
    {
        let mut i: usize = 0;
        while i < self.addresses.len()
            invariant
                i <= self.addresses.len(),
                forall|k: int| 0 <= k < i ==> !((#[trigger] self.addresses@[k]).address_id == address
                    && self.addresses@[k].user_id == user),
            decreases self.addresses.len() - i,
        {
            if self.addresses[i].address_id == address && self.addresses[i].user_id == user {
                assert(self@.addresses[i as int].address_id == address);
                return true;
            }
            i = i + 1;
        }
        false
    }

    fn order_taken(&self, order: u128) -> (r: bool)
        ensures
            r == order_exists(self@.orders, order),
    {
        let mut i: usize = 0;
        while i < self.orders.len()
            invariant
                i <= self.orders.len(),
                forall|k: int| 0 <= k < i ==> (#[trigger] self.orders@[k]).order_id != order,
            decreases self.orders.len() - i,
        {
            if self.orders[i].order_id == order {
                assert(self@.orders[i as int].order_id == order);
                return true;
            }
            i = i + 1;
        }
        false
    }

    /// The stock ledger with `user`'s cart quantities taken off.
    fn drain_stock(&self, user: u128) -> (r: Vec<ItemStock>)
        requires
            self.wf(),
            offending_items(self@.cart, self@.stock, user).len() == 0,
        ensures
            r@ == drained_stock(self@.stock, self@.cart, user),
            forall|k: int| 0 <= k < r@.len() ==> (#[trigger] r@[k]).quantity >= 0,
    {
        proof { lemma_no_offending(self@.cart, self@.stock, user); }
        let mut out: Vec<ItemStock> = Vec::new();
        let mut k: usize = 0;
        while k < self.stock.len()
            invariant
                self.wf(),
                forall|c: int| 0 <= c < self@.cart.len() && (#[trigger] self@.cart[c]).user_id == user
                    ==> stock_allows(self@.stock, self@.cart[c].item_id, self@.cart[c].quantity as int),
                k <= self.stock.len(),
                out@.len() == k,
                forall|j: int| 0 <= j < k ==> out@[j] == #[trigger] drained_stock(self@.stock, self@.cart, user)[j],
                forall|j: int| 0 <= j < k ==> (#[trigger] out@[j]).quantity >= 0,
            decreases self.stock.len() - k,
        {
            let rec = self.stock[k];
            let q: i64 = match self.find_line(user, rec.item_id) {
                Some(j) => {
                    proof {
                        lemma_line_at(self@.cart, j as int, user, rec.item_id);
                        assert(stock_allows(self@.stock, rec.item_id, self@.cart[j as int].quantity as int));
                        assert(self@.stock[k as int] == rec);
                    }
                    self.cart[j].quantity as i64
                },
                None => 0,
            };
            proof { assert(self@.stock[k as int].quantity >= 0); }
            out.push(ItemStock { item_id: rec.item_id, quantity: (rec.quantity as i64 - q) as i32 });
            k = k + 1;
        }
        proof { assert(out@ =~= drained_stock(self@.stock, self@.cart, user)); }
        out
    }

    /// Splits the cart into the lines of other users and the order lines
    /// that `user`'s lines become.
    fn split_cart(&self, user: u128, order: u128) -> (r: (Vec<CartLine>, Vec<OrderLine>))
        ensures
            r.0@ == keep_where(self@.cart, not_of_user(user)),
            r.1@ == ordered_lines(self@.cart, user, order),
    {
        let ghost keep = not_of_user(user);
        let mut kept: Vec<CartLine> = Vec::new();
        let mut placed: Vec<OrderLine> = Vec::new();
        let mut i: usize = 0;
        while i < self.cart.len()
            invariant
                keep == not_of_user(user),
                i <= self.cart.len(),
                kept@ == keep_where(self@.cart.subrange(0, i as int), keep),
                placed@ == ordered_lines(self@.cart.subrange(0, i as int), user, order),
            decreases self.cart.len() - i,
        {
            let l = self.cart[i];
            proof {
                assert(self@.cart.subrange(0, i + 1).drop_last() =~= self@.cart.subrange(0, i as int));
                assert(self@.cart.subrange(0, i + 1).last() == l);
            }
            if l.user_id == user {
                placed.push(OrderLine { order_id: order, item_id: l.item_id, quantity: l.quantity, dispatched: false });
            } else {
                kept.push(l);
            }
            i = i + 1;
        }
        proof { assert(self@.cart.subrange(0, self@.cart.len() as int) =~= self@.cart); }
        (kept, placed)
    }

    /// Places an order for everything in `user`'s cart, to the address of
    /// `form`, under the fresh id `order_id` and the date `order_date`.
    /// Offending lines are removed first; if there were any, or the order
    /// cannot be made, no order is created and no stock changes.
    pub fn create_order(&mut self, user: u128, form: OrderForm, order_id: u128, order_date: i64) -> (r: Result<OrderDetails, CartError>)
        requires
            old(self).wf(),
        ensures
            final(self).wf(),
            final(self)@ == after_order(old(self)@, user, form.address_id, order_id, order_date),
            match r {
                Ok(d) => order_outcome(old(self)@, user, form.address_id, order_id, order_date) == OrderOutcome::Created(d),
                Err(e) => order_outcome(old(self)@, user, form.address_id, order_id, order_date) == OrderOutcome::Conflict(e.detail@),
            },
    {
        let ghost m0 = self@;
        let address = form.address_id;
        let removed = self.purge(user);
        if removed.len() > 0 {
            return Err(CartError { detail: removed });
        }
        proof {
            lemma_no_offending(m0.cart, m0.stock, user);
            assert(self@ == m0);
        }
        let items = self.get_cart(user);
        if items.len() == 0 || !self.address_belongs(user, address) || self.order_taken(order_id) {
            return Err(CartError { detail: items });
        }
        let new_stock = self.drain_stock(user);
        let (kept, mut placed) = self.split_cart(user, order_id);
        self.stock = new_stock;
        self.cart = kept;
        self.orders.push(PlacedOrder { order_id, user_id: user, address_id: address, order_date });
        self.order_lines.append(&mut placed);
        proof {
            lemma_order_keeps_wf(m0, user, address, order_id, order_date);
            assert(self@ == after_order(m0, user, address, order_id, order_date));
        }
        Ok(OrderDetails { order_id, order_date })
    }

    fn find_order_line(&self, order: u128, item: u128) -> (r: Option<usize>)
        requires
            self.wf(),
        ensures
            match r {
                Some(k) => has_order_line(self@.order_lines, order, item)
                    && k as int == order_line_index(self@.order_lines, order, item)
                    && k < self@.order_lines.len(),
                None => !has_order_line(self@.order_lines, order, item),
            },
    {
        let mut i: usize = 0;
        while i < self.order_lines.len()
            invariant
                self.wf(),
                i <= self.order_lines.len(),
                forall|k: int|
                    0 <= k < i ==> !((#[trigger] self.order_lines@[k]).order_id == order
                        && self.order_lines@[k].item_id == item),
            decreases self.order_lines.len() - i,
        {
            if self.order_lines[i].order_id == order && self.order_lines[i].item_id == item {
                proof {
                    let lines = self@.order_lines;
                    assert(lines[i as int].order_id == order && lines[i as int].item_id == item);
                    assert(has_order_line(lines, order, item));
                    let c = order_line_index(lines, order, item);
                    if c != i as int {
                        assert(!(lines[c].order_id == lines[i as int].order_id && lines[c].item_id == lines[i as int].item_id));
                    }
                }
                return Some(i);
            }
            i = i + 1;
        }
        None
    }

    /// Marks one line of an order as dispatched, on behalf of `actor`, who
    /// must own its item; a line is dispatched at most once.
    pub fn set_dispatch_by_item_id(&mut self, actor: u128, form: DispatchForm) -> (r: Result<(), MyError>)
        requires
            old(self).wf(),
        ensures
            final(self).wf(),
            r == dispatch_outcome(old(self)@, actor, form.order_id, form.item_id),
            final(self)@ == after_dispatch(old(self)@, actor, form.order_id, form.item_id),
    {
        let ghost m0 = self@;
        let order = form.order_id;
        let item = form.item_id;
        let k = match self.find_order_line(order, item) {
            Some(k) => k,
            None => { return Err(MyError::NotFound); },
        };
        match self.find_listing(item) {
            Some(j) => {
                proof { lemma_listing_owner(m0.listings, j as int, actor, item); }
                if self.listings[j].owner != actor {
                    return Err(MyError::Forbidden);
                }
            },
            None => { return Err(MyError::Forbidden); },
        }
        let line = self.order_lines[k];
        if line.dispatched {
            return Err(MyError::Forbidden);
        }
        self.order_lines.set(k, OrderLine { dispatched: true, ..line });
        proof {
            let m1 = self@;
            assert(m1 == after_dispatch(m0, actor, order, item));
            assert forall|i: int, j: int| 0 <= i < m1.order_lines.len() && 0 <= j < m1.order_lines.len() && i != j implies
                !(#[trigger] m1.order_lines[i].order_id == #[trigger] m1.order_lines[j].order_id
                    && m1.order_lines[i].item_id == m1.order_lines[j].item_id) by {
                assert(!(m0.order_lines[i].order_id == m0.order_lines[j].order_id
                    && m0.order_lines[i].item_id == m0.order_lines[j].item_id));
            }
            assert forall|c: int| 0 <= c < m1.order_lines.len() implies order_exists(m1.orders, (#[trigger] m1.order_lines[c]).order_id) by {
                assert(order_exists(m0.orders, m0.order_lines[c].order_id));
            }
        }
        Ok(())
    }

    /// The recorded stock of `item`; nothing where it is not tracked.
    pub fn stock_of(&self, item: u128) -> (r: Option<i32>)
        requires
            self.wf(),
        ensures
            r == stock_record(self@.stock, item),
    {
        match self.find_stock(item) {
            Some(k) => {
                proof {
                    let c = choose|c: int| 0 <= c < self@.stock.len() && (#[trigger] self@.stock[c]).item_id == item;
                    if c != k as int {
                        assert(self@.stock[c].item_id != self@.stock[k as int].item_id);
                    }
                }
                Some(self.stock[k].quantity)
            },
            None => None,
        }
    }

    /// The lines of order `order`.
    pub fn order_lines_of(&self, order: u128) -> (r: Vec<OrderLine>)
        ensures
            r@ == lines_of_order(self@.order_lines, order),
    {
        let mut out: Vec<OrderLine> = Vec::new();
        let mut i: usize = 0;
        while i < self.order_lines.len()
            invariant
                i <= self.order_lines.len(),
                out@ == lines_of_order(self@.order_lines.subrange(0, i as int), order),
            decreases self.order_lines.len() - i,
        {
            let l = self.order_lines[i];
            proof {
                assert(self@.order_lines.subrange(0, i + 1).drop_last() =~= self@.order_lines.subrange(0, i as int));
            }
            if l.order_id == order {
                out.push(l);
            }
            i = i + 1;
        }
        proof { assert(self@.order_lines.subrange(0, self@.order_lines.len() as int) =~= self@.order_lines); }
        out
    }

    /// Withdraws the listing of `form.item_id` on behalf of `actor`, who
    /// must own it; its stock record and all cart lines for it go with it.
    pub fn delete_item(&mut self, actor: u128, form: ItemId) -> (r: Result<(), MyError>)
        requires
            old(self).wf(),
        ensures
            final(self).wf(),
            r == delete_outcome(old(self)@, actor, form.item_id),
            final(self)@ == after_delete(old(self)@, actor, form.item_id),
    {
        let item = form.item_id;
        let ghost m0 = self@;
        let k = match self.find_listing(item) {
            Some(k) => k,
            None => { return Err(MyError::NotFound); },
        };
        proof {
            lemma_listing_owner(m0.listings, k as int, actor, item);
            let c = choose|c: int| 0 <= c < m0.listings.len() && (#[trigger] m0.listings[c]).item_id == item;
            if c != k as int {
                assert(m0.listings[c].item_id != m0.listings[k as int].item_id);
            }
            lemma_delete_keeps_wf(m0, actor, item);
        }
        if self.listings[k].owner != actor {
            return Err(MyError::Forbidden);
        }
        let ghost keep = not_for_item(item);
        let mut kept: Vec<CartLine> = Vec::new();
        let mut i: usize = 0;
        while i < self.cart.len()
            invariant
                self@ == m0,
                keep == not_for_item(item),
                i <= self.cart.len(),
                kept@ == keep_where(m0.cart.subrange(0, i as int), keep),
            decreases self.cart.len() - i,
        {
            let l = self.cart[i];
            proof {
                assert(m0.cart.subrange(0, i + 1).drop_last() =~= m0.cart.subrange(0, i as int));
                assert(m0.cart.subrange(0, i + 1).last() == l);
            }
            if l.item_id != item {
                kept.push(l);
            }
            i = i + 1;
        }
        proof { assert(m0.cart.subrange(0, m0.cart.len() as int) =~= m0.cart); }
        match self.find_stock(item) {
            Some(j) => {
                proof {
                    let c = choose|c: int| 0 <= c < m0.stock.len() && (#[trigger] m0.stock[c]).item_id == item;
                    if c != j as int {
                        assert(m0.stock[c].item_id != m0.stock[j as int].item_id);
                    }
                }
                self.stock.remove(j);
            },
            None => {},
        }
        self.listings.remove(k);
        self.cart = kept;
        proof { assert(self@ == after_delete(m0, actor, item)); }
        Ok(())
    }

    /// Whether `user` owns the listed item `item`.
    pub fn is_owner(&self, user: u128, item: u128) -> (r: bool)
        requires
            self.wf(),
        ensures
            r == owns(self@.listings, user, item),
    {
        match self.find_listing(item) {
            Some(k) => {
                proof { lemma_listing_owner(self@.listings, k as int, user, item); }
                self.listings[k].owner == user
            },
            None => false,
        }
    }

    /// Whether `actor` may change the listed item `item`.
    pub fn check_owner(&self, actor: u128, item: u128) -> (r: Result<(), MyError>)
        requires
            self.wf(),
        ensures
            r == owner_outcome(self@, actor, item),
    {
        match self.find_listing(item) {
            Some(k) => {
                proof { lemma_listing_owner(self@.listings, k as int, actor, item); }
                if self.listings[k].owner == actor {
                    Ok(())
                } else {
                    Err(MyError::Forbidden)
                }
            },
            None => Err(MyError::NotFound),
        }
    }

    /// Records `user`'s rating of `item`; nobody rates their own item.
    pub fn rate_item(&mut self, user: u128, item: u128, rating: i32) -> (r: Result<(), MyError>)
        requires
            old(self).wf(),
        ensures
            final(self).wf(),
            r == rate_outcome(old(self)@, user, item),
            final(self)@ == after_rate(old(self)@, user, item, rating),
    {
        let k = match self.find_listing(item) {
            Some(k) => k,
            None => { return Err(MyError::NotFound); },
        };
        proof { lemma_listing_owner(self@.listings, k as int, user, item); }
        if self.listings[k].owner == user {
            return Err(MyError::Forbidden);
        }
        let ghost m0 = self@;
        self.ratings.push(ItemRating { user_id: user, item_id: item, rating });
        proof { assert(self@ == after_rate(m0, user, item, rating)); }
        Ok(())
    }

    /// The lines of orders placed for items that `seller` owns.
    pub fn get_orders(&self, seller: u128) -> (r: Vec<OrderLine>)
        requires
            self.wf(),
        ensures
            r@ == seller_lines(self@, seller, self@.order_lines),
    {
        let mut out: Vec<OrderLine> = Vec::new();
        let mut i: usize = 0;
        while i < self.order_lines.len()
            invariant
                self.wf(),
                i <= self.order_lines.len(),
                out@ == seller_lines(self@, seller, self@.order_lines.subrange(0, i as int)),
            decreases self.order_lines.len() - i,
        {
            let l = self.order_lines[i];
            proof {
                assert(self@.order_lines.subrange(0, i + 1).drop_last() =~= self@.order_lines.subrange(0, i as int));
            }
            if self.is_owner(seller, l.item_id) {
                out.push(l);
            }
            i = i + 1;
        }
        proof { assert(self@.order_lines.subrange(0, self@.order_lines.len() as int) =~= self@.order_lines); }
        out
    }

    fn find_order(&self, order: u128) -> (r: Option<usize>)
        requires
            self.wf(),
        ensures
            match r {
                Some(k) => k < self@.orders.len() && order_exists(self@.orders, order)
                    && order_with_id(self@.orders, order) == self@.orders[k as int],
                None => !order_exists(self@.orders, order),
            },
    {
        let mut i: usize = 0;
        while i < self.orders.len()
            invariant
                self.wf(),
                i <= self.orders.len(),
                forall|k: int| 0 <= k < i ==> (#[trigger] self.orders@[k]).order_id != order,
            decreases self.orders.len() - i,
        {
            if self.orders[i].order_id == order {
                proof {
                    let os = self@.orders;
                    assert(os[i as int].order_id == order);
                    let c = choose|c: int| 0 <= c < os.len() && (#[trigger] os[c]).order_id == order;
                    if c != i as int {
                        assert(os[c].order_id != os[i as int].order_id);
                    }
                }
                return Some(i);
            }
            i = i + 1;
        }
        None
    }

    /// The lines of the orders that `buyer` placed, with their order's
    /// address and date.
    pub fn get_user_orders(&self, buyer: u128) -> (r: Vec<AllOrderDetails>)
        requires
            self.wf(),
        ensures
            r@ == buyer_lines(self@.orders, buyer, self@.order_lines),
    {
        let mut out: Vec<AllOrderDetails> = Vec::new();
        let mut i: usize = 0;
        while i < self.order_lines.len()
            invariant
                self.wf(),
                i <= self.order_lines.len(),
                out@ == buyer_lines(self@.orders, buyer, self@.order_lines.subrange(0, i as int)),
            decreases self.order_lines.len() - i,
        {
            let l = self.order_lines[i];
            proof {
                assert(self@.order_lines.subrange(0, i + 1).drop_last() =~= self@.order_lines.subrange(0, i as int));
                assert(order_exists(self@.orders, self@.order_lines[i as int].order_id));
            }
            match self.find_order(l.order_id) {
                Some(k) => {
                    let o = self.orders[k];
                    if o.user_id == buyer {
                        out.push(AllOrderDetails {
                            order_id: l.order_id,
                            item_id: l.item_id,
                            quantity: l.quantity,
                            address_id: o.address_id,
                            order_date: o.order_date,
                            dispatched: l.dispatched,
                        });
                    }
                },
                None => {},
            }
            i = i + 1;
        }
        proof { assert(self@.order_lines.subrange(0, self@.order_lines.len() as int) =~= self@.order_lines); }
        out
    }
}

} // verus!

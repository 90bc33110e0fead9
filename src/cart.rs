use vstd::prelude::*;

verus! {

/// One item of a cart as a client sees it: which item, and how many.
#[derive(Clone, Copy, Debug, PartialEq, Eq)]
pub struct CartItem {
    pub item_id: u128,
    pub quantity: i32,
}

/// The contents of one user's cart.
#[derive(Debug, PartialEq, Eq)]
pub struct Cart {
    pub items: Vec<CartItem>,
}

/// The body returned when a cart is listed.
#[derive(Debug, PartialEq, Eq)]
pub struct CartResponse {
    pub detail: Cart,
}

} // verus!

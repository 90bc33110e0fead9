//! Marketplace backend logic: a stock ledger, per-user carts, a checkout
//! validator and a transactional order committer, together with the
//! accounts and sessions that identify users and the request helpers (query
//! text, session header, sign-up checks) that surround them.

pub mod accounts;
pub mod cart;
pub mod errors;
pub mod ids;
pub mod item;
pub mod laws;
pub mod market;
pub mod objects;
pub mod order;
pub mod paging;
pub mod text;
pub mod user;

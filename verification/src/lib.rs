//! A small user-record service core: a `User` entity with a calendar birth
//! date, a storage capability trait (`Repository`), and a concurrent
//! in-memory implementation guarded by a reader/writer lock.

mod clock;
pub mod repository;
pub mod store;
pub mod user;

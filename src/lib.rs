//! A small URL shortener: a store of links, visit records and accounts,
//! password and session handling, and the request handlers built on them.

pub mod db;
pub mod users;
pub mod agent;
pub mod views;
pub mod laws;

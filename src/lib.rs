//! A small todo-list service: entries with store-assigned ids, an HTML page
//! listing them, and the request handling that turns form posts into store
//! commands and store results into HTTP responses.
pub mod entry;
pub mod form;
pub mod laws;
pub mod page;
pub mod service;
pub mod store;

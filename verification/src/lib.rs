//! A small HTTP request router: route keys, a per-method route table,
//! blueprints that group routes under a prefix, and the dispatch of one
//! request to one handler.
pub mod blueprint;
pub mod context;
pub mod engine;
pub mod path;
pub mod request;
pub mod response;
pub mod routes;
pub mod table;
pub mod text;

//! Family finance tracker: the rules behind its REST API, verified with Verus.
//!
//! Request handlers are split into what they decide (here) and the database
//! and HTTP work around it (in `app/`).
pub mod text;
pub mod number;
pub mod error;
pub mod models;
pub mod sql;
pub mod handlers;
pub mod db;

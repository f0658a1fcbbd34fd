//! A request-handling pipeline for an HTTP server: typed extraction of handler
//! arguments, composable services and middleware, and conversion of handler
//! results into responses.
pub mod compress;
pub mod condition;
pub mod either;
pub mod extract;
pub mod form;
pub mod handler;
pub mod message;
pub mod names;
pub mod responder;
pub mod service;
pub mod text;

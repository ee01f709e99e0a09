//! The core of a command-line HTTP client: validation of the URL, the request
//! that the arguments ask for, and the report that ends the run.
//!
//! The library sends nothing and prints nothing. `dispatch::prepare` turns the
//! arguments into trace lines and a request, or into the report of an input
//! error. The caller sends the request and hands what came back to
//! `dispatch::conclude`, which renders the response or names the failure.

pub mod cli;
pub mod dispatch;
pub mod form;
pub mod handlers;
pub mod ipv4;
pub mod ipv6;
pub mod json;
pub mod text;
pub mod theorems;
pub mod validators;

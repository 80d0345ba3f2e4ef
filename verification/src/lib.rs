//! Assembles one outbound HTTP request from what a command line asks for.
//!
//! The pieces, leaf first: [`item`] reads the shorthand of one request item
//! and [`items`] a list of them; [`headers`] holds the headers of a request;
//! [`body`] decides its one body, [`url`] resolves its address, [`auth`] its
//! credentials and [`print`] what is shown of the exchange; [`request`] puts
//! the request together, and [`invocation`] does all of it for one command
//! line. [`json`] carries JSON values, [`text`] searches and cuts text, and
//! [`failure`] names what can go wrong.

pub mod auth;
pub mod body;
pub mod failure;
pub mod headers;
pub mod invocation;
pub mod item;
pub mod items;
pub mod json;
pub mod print;
pub mod request;
pub mod text;
pub mod url;

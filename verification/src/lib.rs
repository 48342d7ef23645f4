//! A read-only companion archive for WeChat conversations.

pub mod answers;
pub mod backend;
pub mod bootstrap;
pub mod content;
pub mod context;
pub mod cursor;
pub mod dialect;
pub mod fault;
pub mod filter;
pub mod frame;
pub mod import;
pub mod index;
pub mod json;
pub mod media;
pub mod model;
pub mod paging;
pub mod primitives;
pub mod progress;
pub mod query;
pub mod requests;
pub mod search;
pub mod service;
pub mod source;
pub mod sql;
pub mod sync;
pub mod text;
pub mod window;

//! The data that the site works on.

pub mod book;
pub mod user;

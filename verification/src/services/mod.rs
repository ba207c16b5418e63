//! The services that requests are answered from.

pub mod auth_service;
pub mod book_service;
pub mod cookie;
pub mod token;

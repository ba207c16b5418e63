//! Storybuilder: the core of a small interactive-fiction site.
//!
//! Visitors browse a fixed library of branching books. This crate holds the
//! parts that decide things: the session token and cookie rules, the lookups
//! over the library, and the choice of what each request is answered with.
//! Rendering and transport are left to the program around it.

pub mod handlers;
pub mod models;
pub mod navigation;
pub mod services;
pub mod text;

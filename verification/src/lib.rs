//! Rendering and request logic for the salyut.one website.

pub mod text;
pub mod web;
pub mod time;
pub mod protocol;
pub mod feed;
pub mod templates;
pub mod view;
pub mod response;
pub mod now;
pub mod bbs;
pub mod site;

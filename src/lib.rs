//! Markdown rendering core: source positions, an inline tokenizer that
//! recognises wikilinks, a tree-building renderer over a flat stream of
//! markup events, the registry of custom components it dispatches to, and a
//! cache of parsed sources.

pub mod position;
pub mod token;
pub mod wikilink;
pub mod event;
pub mod html;
pub mod render;
pub mod laws;
pub mod textmap;
pub mod components;
pub mod cache;

//! Markdown rendering with class-based syntax highlighting and promoted
//! footnotes, and the content model of a static site generator around it.
pub mod text;
pub mod event;
pub mod machine;
pub mod catalog;
pub mod stream;
pub mod markdown;
pub mod metadata;
pub mod feed;
pub mod validated_types;
pub mod yaml_util;
pub mod paths;
pub mod config;
pub mod page;
pub mod cli;
pub mod laws;
pub mod syntax_highlighting;

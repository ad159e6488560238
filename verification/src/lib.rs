//! A static-site build pipeline.
//!
//! The crate turns a tree of markdown content files into a list of rendered
//! HTML pages. A theme of page templates decides how pages look, and a small
//! site-wide configuration feeds every render. The pipeline works on values
//! held in memory: the caller reads the content and theme directories and
//! writes the pages that come back.
//!
//! - [`tree`] holds a directory listing in memory and walks it for markdown
//!   files.
//! - [`theme`] binds a content type to its listing and its detail template.
//! - [`plan`] decides which template is rendered for which page and where
//!   each page goes; [`plan_proofs`] states what holds of every plan.
//! - [`front_matter`] and [`markdown`] call the parsers; [`engine`] says what
//!   a render call comes to. The template engine itself is run by the caller,
//!   one render call at a time.
//! - [`context`] assembles the variables that a template sees.
//! - [`commands`] holds the build and the smaller commands around it,
//!   [`utils`] the configuration and the skeleton of a new theme.
//! - [`text`] and [`error`] serve all of them.

pub mod commands;
pub mod context;
pub mod engine;
pub mod error;
pub mod front_matter;
pub mod markdown;
pub mod plan;
pub mod plan_proofs;
pub mod text;
pub mod theme;
pub mod tree;
pub mod utils;

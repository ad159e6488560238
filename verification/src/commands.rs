//! The commands of the site generator, as far as they decide and compute.
//! Reading and writing files, and running the template engine, is the
//! caller's part.

pub mod build_site;
pub mod create_theme;
pub mod init;
pub mod theme_handler;

//! The verified core of an image viewer: file lists and their navigation,
//! archives and bookmarks, pixel filters, container expansion and the window's
//! decisions.

pub mod archive;
pub mod bookmark;
pub mod config;
pub mod document;
pub mod editing;
pub mod export;
pub mod extension_registry;
pub mod file_info;
pub mod file_list;
pub mod file_ops;
pub mod filter;
pub mod image;
pub mod ordering;
pub mod paths;
pub mod pdf_renderer;
pub mod persistent_filter;
pub mod selection;
pub mod text;
pub mod window;

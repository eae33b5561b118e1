//! A static site generator's core: frontmatter, post metadata, output
//! placement and per-category listings, with machine-checked contracts.

pub mod category;
pub mod frontmatter;
pub mod markdown;
pub mod metadata;
pub mod page;
pub mod paths;
pub mod site;
pub mod template;
pub mod text;

//! Social-preview card synthesis: text layout, gradient and card backgrounds,
//! masked compositing, a bounded render cache, the sizing of tweet cards and
//! the steps that fetch a tweet. Glyph rasterisation, image codecs and
//! network access are supplied by the caller.
//!
//! The site around the cards keeps a few small pieces here too: its page
//! cache, content tree, project and recommendation lists, code fence info
//! strings and static-file caching rule.

pub mod pixel;
pub mod text;
pub mod layout;
pub mod shape;
pub mod gradient;
pub mod canvas;
pub mod card;
pub mod tweet;
pub mod pipeline;
pub mod og;
pub mod cache;

pub mod markdown_cache;
pub mod file_tree;
pub mod code_fence;
pub mod projects;
pub mod kino;
pub mod site;

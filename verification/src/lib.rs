//! Streaming markdown renderer core: rewrites a stream of structural document
//! events, composing syntax highlighting, shortcode expansion, header anchor
//! allocation and relative-link resolution, and assembles the final outcome.

pub mod text;
pub mod shortcode;
pub mod anchors;
pub mod links;
pub mod toc;
pub mod events;
pub mod context;
pub mod engine;

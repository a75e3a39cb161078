//! A verified URL-resolution and rewriting engine for a content-rewriting
//! proxy: it classifies and resolves references found in HTML and CSS text,
//! encodes resolved targets into reversible tokens, and rewrites the text so
//! every reference routes back through the proxy's own endpoints.
pub mod bytes;
pub mod codec;
pub mod lit;
pub mod html;
pub mod media;
pub mod scrape;
pub mod rewrite;
pub mod urls;

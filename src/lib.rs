//! Builds a sitemap document from a list of page source paths and encodes it as XML.

pub mod text;
pub mod xml;
pub mod sitemap;

pub use sitemap::{SerializationError, Url, UrlSet};

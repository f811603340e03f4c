//! Turns an archived chost, with the posts it shares, into one Markdown
//! document with front matter.
//!
//! [`model`] holds the post as the archive gives it. [`document`] has the
//! entry point, [`model::Chost::generate_markdown`], and puts the document
//! together from the parts that [`header`], [`post`], [`blocks`] and
//! [`share`] describe. [`clock`] reads timestamps in the local time zone,
//! [`ordered`] keeps names in the order of first mention, [`text`] trims.
//! [`laws`] states what holds of every document.

pub mod model;
pub mod error;
pub mod text;
pub mod clock;
pub mod ordered;
pub mod share;
pub mod blocks;
pub mod post;
pub mod header;
pub mod document;
pub mod laws;

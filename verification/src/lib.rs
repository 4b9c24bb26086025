//! Core of a local HLS proxy: URL resolution, manifest detection,
//! line-oriented manifest rewriting, and response planning.
//!
//! The proxy sits between a media player and remote HLS origins. It fetches a
//! requested resource, and, when the resource is a playlist manifest, rewrites
//! every embedded reference into a locator that routes back through the proxy;
//! binary segments are passed through untouched. Everything here works on
//! plain bytes; the surrounding application performs the actual network I/O.

pub mod bytes;
pub mod numfmt;
pub mod percent;
pub mod locator;
pub mod resolve;
pub mod lines;
pub mod rewrite;
pub mod detect;
pub mod reply;
pub mod port;

//! Bookmarklet generator core: percent- and base64-encoding of an opaque
//! payload, and deterministic assembly of the encoded token into a
//! self-contained presentational document with accurate size metrics.

pub mod base64;
pub mod numfmt;
pub mod page;
pub mod percent;
pub mod stamp;
pub mod text;

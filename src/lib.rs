//! A small HTTP client core: command-line request validation, key-value body
//! encoding, content-type driven rendering decisions and line-by-line syntax
//! highlighting of response bodies.

pub mod body;
pub mod error;
pub mod highlight;
pub mod kv;
pub mod media;
pub mod request;
pub mod uri;

pub use body::{encode_body, EncodedBody};
pub use error::CliError;
pub use highlight::{BodyHighlighter, Highlighter};
pub use kv::{parse_kv_pair, KvPair};
pub use media::{
    content_type_of, decide_rendering, parse_media_type, render_decision, MediaType,
    RenderDecision,
};
pub use request::{Method, RequestDescriptor};
pub use uri::parse_url;

//! Core of a media batch uploader: classification of files, parsing of probe
//! output, thumbnail synthesis, caption assembly and batch dispatch.

pub mod caption;
pub mod decimal;
pub mod dispatch;
pub mod kind;
pub mod probe;
pub mod request;
pub mod text;
pub mod thumbnail;

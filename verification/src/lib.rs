//! Records of a live-streaming tariff domain and a small event record, with
//! the codecs that carry them to and from a name-keyed document.

pub mod error;
pub mod text;
pub mod date_field;
pub mod document;
pub mod identifier;
pub mod span;
pub mod timestamp;
pub mod locator;
pub mod fields;
pub mod tariff;
pub mod stream;
pub mod request;
pub mod event;
pub mod round_trip;

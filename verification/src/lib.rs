//! Builders for chat skill response messages and a verified codec for their
//! wire format.
//!
//! A response is assembled from typed parts (simple texts, images, cards,
//! carousels, buttons and quick replies) into a [`basics::Template`], which
//! serializes to the platform's JSON schema and can be decoded back into the
//! same typed model.

pub mod json;
pub mod text;
pub mod parse;
pub mod buttons;
pub mod basics;
pub mod cards;
pub mod prelude;

//! Adapter between a vendor-neutral chat request model and the Mistral
//! chat-completions wire format.
//!
//! The two directions are:
//! - [`translate::into_mistral`]: shape a neutral request into one wire
//!   request, honouring the provider's structural constraints;
//! - [`mapper::MistralEventMapper`]: consume decoded stream chunks one at a
//!   time and reassemble them into completion events, accumulating partial
//!   tool-call fragments until the stream's finish signal.

pub mod auth;
pub mod deep;
pub mod events;
pub mod json;
pub mod laws;
pub mod mapper;
pub mod request;
pub mod settings;
pub mod stream;
pub mod translate;
pub mod wire;

//! Provider settings: the API endpoint and the models the user declared.

use vstd::prelude::*;

verus! {

/// A model the user made available through settings.
#[derive(Clone, PartialEq, Debug)]
pub struct AvailableModel {
    pub name: String,
    pub display_name: Option<String>,
    pub max_tokens: u64,
    pub max_output_tokens: Option<u64>,
    pub max_completion_tokens: Option<u64>,
    pub supports_tools: Option<bool>,
    pub supports_images: Option<bool>,
}

/// Settings for the provider.
#[derive(Clone, PartialEq, Debug)]
pub struct MistralSettings {
    pub api_url: String,
    pub available_models: Vec<AvailableModel>,
}

} // verus!

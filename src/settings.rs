//! Application settings and their defaults.
use vstd::prelude::*;

verus! {

/// Settings of the AI assistant.
#[derive(Debug, Clone, PartialEq)]
pub struct AISettings {
    pub api_key: String,
    pub model: String,
    pub translation_language: Option<String>,
    /// The user-supplied meeting brief.
    pub meeting_context: Option<String>,
}

/// Settings of the captioning front end.
#[derive(Debug, Clone, PartialEq)]
pub struct Settings {
    pub model_path: String,
    /// `"mic"` or `"monitor"`.
    pub audio_source: String,
    pub font_size: u32,
    /// `"light"` or `"dark"`.
    pub theme: String,
    /// `"en"` or `"vi"`.
    pub language: String,
    pub ai: Option<AISettings>,
}

/// The generative model used when the settings name none.
pub fn default_model() -> (r: String)
    ensures
        r@ == "gemini-2.5-flash"@,
{
    String::from_str("gemini-2.5-flash")
}

/// The interface language used when the settings name none.
pub fn default_language() -> (r: String)
    ensures
        r@ == "en"@,
{
    String::from_str("en")
}

impl Default for AISettings {
    fn default() -> (r: Self)
        ensures
            r.api_key@.len() == 0,
            r.model@.len() == 0,
            r.translation_language is None,
            r.meeting_context is None,
    {
        AISettings {
            api_key: String::new(),
            model: String::new(),
            translation_language: None,
            meeting_context: None,
        }
    }
}

impl Default for Settings {
    fn default() -> (r: Self)
        ensures
            r.model_path@.len() == 0,
            r.audio_source@ == "mic"@,
            r.font_size == 24,
            r.theme@ == "dark"@,
            r.language@ == "en"@,
            r.ai is None,
    {
        Settings {
            model_path: String::new(),
            audio_source: String::from_str("mic"),
            font_size: 24,
            theme: String::from_str("dark"),
            language: String::from_str("en"),
            ai: None,
        }
    }
}

} // verus!

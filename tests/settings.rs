use zipy::settings::{default_language, default_model, AISettings, Settings};

#[test]
fn settings_defaults() {
    let s = Settings::default();
    assert_eq!(s.model_path, "");
    assert_eq!(s.audio_source, "mic");
    assert_eq!(s.font_size, 24);
    assert_eq!(s.theme, "dark");
    assert_eq!(s.language, "en");
    assert_eq!(s.ai, None);
    assert_eq!(default_language(), "en");
    assert_eq!(default_model(), "gemini-2.5-flash");
    let ai = AISettings::default();
    assert_eq!(ai.api_key, "");
    assert_eq!(ai.meeting_context, None);
}

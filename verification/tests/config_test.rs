use pick_up_sound_text::config::AppConfig;

#[test]
fn default_config() {
    let c = AppConfig::default();
    assert_eq!(c.asr.provider, "dashscope");
    assert_eq!(c.asr.model, "paraformer-realtime-v2");
    assert_eq!(c.asr.api_key, "");
    assert_eq!(c.asr.language, "auto");
    assert_eq!(c.asr.workspace_id, None);
    assert_eq!(c.translate.provider, "openai");
    assert_eq!(c.translate.base_url, "https://api.openai.com/v1");
    assert_eq!(c.translate.model, "gpt-3.5-turbo");
    assert_eq!(c.translate.api_key, "");
    assert_eq!(c.translate.target_lang, "zh");
    assert!(c.oss.is_none());
}

//! Application settings: recognition, translation and object storage.

use vstd::prelude::*;

verus! {

/// Speech recognition settings.
#[derive(Clone, Debug)]
pub struct AsrConfig {
    pub provider: String,
    pub model: String,
    pub api_key: String,
    pub language: String,
    pub workspace_id: Option<String>,
}

/// Translation service settings.
#[derive(Clone, Debug)]
pub struct TranslateConfig {
    pub provider: String,
    pub base_url: String,
    pub model: String,
    pub api_key: String,
    pub target_lang: String,
}

/// Object storage (OSS) settings used to host audio for recognition.
#[derive(Clone, Debug)]
pub struct OssConfig {
    pub endpoint: String,
    pub bucket: String,
    pub access_key_id: String,
    pub access_key_secret: String,
    pub path_prefix: Option<String>,
}

/// All settings of the application.
#[derive(Clone, Debug)]
pub struct AppConfig {
    pub asr: AsrConfig,
    pub translate: TranslateConfig,
    pub oss: Option<OssConfig>,
}

impl Default for AppConfig {
    /// DashScope `paraformer-realtime-v2` recognition with automatic language
    /// detection, OpenAI `gpt-3.5-turbo` translation into Chinese, no keys,
    /// no workspace and no object storage.
    fn default() -> (r: AppConfig)
        ensures
            r.asr.provider@ == "dashscope"@,
            r.asr.model@ == "paraformer-realtime-v2"@,
            r.asr.api_key@ == ""@,
            r.asr.language@ == "auto"@,
            r.asr.workspace_id is None,
            r.translate.provider@ == "openai"@,
            r.translate.base_url@ == "https://api.openai.com/v1"@,
            r.translate.model@ == "gpt-3.5-turbo"@,
            r.translate.api_key@ == ""@,
            r.translate.target_lang@ == "zh"@,
            r.oss is None,
    {
        AppConfig {
            asr: AsrConfig {
                provider: String::from_str("dashscope"),
                model: String::from_str("paraformer-realtime-v2"),
                api_key: String::from_str(""),
                language: String::from_str("auto"),
                workspace_id: None,
            },
            translate: TranslateConfig {
                provider: String::from_str("openai"),
                base_url: String::from_str("https://api.openai.com/v1"),
                model: String::from_str("gpt-3.5-turbo"),
                api_key: String::from_str(""),
                target_lang: String::from_str("zh"),
            },
            oss: None,
        }
    }
}

} // verus!

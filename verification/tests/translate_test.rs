use pick_up_sound_text::error::AppError;
use pick_up_sound_text::translate::{OpenAiCompatibleProvider, TranslateRequest};

fn request(context: Vec<&str>) -> TranslateRequest {
    TranslateRequest {
        text: "Hello".to_string(),
        source_lang: "en".to_string(),
        target_lang: "zh".to_string(),
        context: context.into_iter().map(|s| s.to_string()).collect(),
        glossary: None,
    }
}

fn provider() -> OpenAiCompatibleProvider {
    OpenAiCompatibleProvider {
        base_url: "https://api.openai.com/v1".to_string(),
        model: "gpt-3.5-turbo".to_string(),
        api_key: "test_key".to_string(),
    }
}

#[test]
fn endpoint_and_header() {
    let p = provider();
    assert_eq!(p.chat_completions_url(), "https://api.openai.com/v1/chat/completions");
    assert_eq!(p.authorization(), "Bearer test_key");
}

#[test]
fn prompt_without_context() {
    assert_eq!(
        OpenAiCompatibleProvider::user_prompt(&request(vec![])),
        format!("{} from en to zh:\n\nHello", "Translate")
    );
}

#[test]
fn prompt_with_context() {
    assert_eq!(
        OpenAiCompatibleProvider::user_prompt(&request(vec!["one", "two"])),
        format!("Previous context:\none\ntwo\n\n{} from en to zh:\n\nHello", "Translate")
    );
}

#[test]
fn conversation_has_examples_then_request() {
    let m = OpenAiCompatibleProvider::chat_messages(&request(vec![]));
    let roles: Vec<&str> = m.iter().map(|x| x.role.as_str()).collect();
    assert_eq!(roles, vec!["system", "user", "assistant", "user", "assistant", "user"]);
    assert!(m[0].content.starts_with("You are a professional subtitle translator."));
    assert_eq!(m[2].content, "主发动机启动，4、3、2、1。");
    assert_eq!(m[5].content, format!("{} from en to zh:\n\nHello", "Translate"));
}

#[test]
fn reply_content() {
    let ok = OpenAiCompatibleProvider::translation_from_reply(Some("你好".to_string())).unwrap();
    assert_eq!(ok.translated_text, "你好");
    match OpenAiCompatibleProvider::translation_from_reply(None) {
        Err(AppError::Translate(m)) => assert_eq!(m, "Invalid response format"),
        other => panic!("unexpected {:?}", other),
    }
}

#[test]
fn service_error_texts() {

    let msg = |e: AppError| match e {
        AppError::Translate(m) => m,
        other => panic!("unexpected {:?}", other),
    };
    assert_eq!(msg(OpenAiCompatibleProvider::request_failed("timeout")), "HTTP request failed: timeout");
    assert_eq!(msg(OpenAiCompatibleProvider::connection_test_failed("refused")), "Connection test failed: refused");
    assert_eq!(msg(OpenAiCompatibleProvider::unreadable_reply("EOF")), "Failed to parse response: EOF");
    assert_eq!(msg(OpenAiCompatibleProvider::api_error("401 Unauthorized", "bad key")), "API error 401 Unauthorized: bad key");
}

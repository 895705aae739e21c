use base64::Engine;
use hmac::Mac;
use pick_up_sound_text::config::OssConfig;
use pick_up_sound_text::error::AppError;
use pick_up_sound_text::oss::{OssUploader, SIGNED_URL_SECONDS};

fn config(prefix: Option<&str>) -> OssConfig {
    OssConfig {
        endpoint: "oss-cn-beijing.aliyuncs.com".to_string(),
        bucket: "media".to_string(),
        access_key_id: "LTAI a/b".to_string(),
        access_key_secret: "secret".to_string(),
        path_prefix: prefix.map(|p| p.to_string()),
    }
}

fn expected_signature(secret: &str, text: &str) -> String {
    let mut mac = hmac::Hmac::<sha1::Sha1>::new_from_slice(secret.as_bytes()).unwrap();
    mac.update(text.as_bytes());
    base64::engine::general_purpose::STANDARD.encode(mac.finalize().into_bytes())
}

#[test]
fn object_keys_and_urls() {
    let u = OssUploader::new(config(None));
    assert_eq!(u.object_key("a.wav"), "a.wav");
    let u = OssUploader::new(config(Some("//audio/tmp/")));
    assert_eq!(u.object_key("a.wav"), "audio/tmp/a.wav");
    let u = OssUploader::new(config(Some("///")));
    assert_eq!(u.object_key("a.wav"), "/a.wav");
    assert_eq!(u.object_url("x/y.wav"), "https://media.oss-cn-beijing.aliyuncs.com/x/y.wav");
}

#[test]
fn signature_is_hmac_sha1_of_string_to_sign() {
    let u = OssUploader::new(config(None));
    let sig = u.generate_signature("PUT", "md5", "audio/wav", "Mon, 01 Jan 2024 00:00:00 GMT", "k.wav");
    let text = "PUT\nmd5\naudio/wav\nMon, 01 Jan 2024 00:00:00 GMT\n/media/k.wav";
    assert_eq!(sig, expected_signature("secret", text));
    assert_eq!(sig.len(), 28);
}

#[test]
fn put_request_headers() {
    let u = OssUploader::new(config(Some("audio")));
    let date = "Mon, 01 Jan 2024 00:00:00 GMT";
    let r = u.put_request_at(b"", "a.wav", date);
    assert_eq!(r.object_key, "audio/a.wav");
    assert_eq!(r.url, "https://media.oss-cn-beijing.aliyuncs.com/audio/a.wav");
    assert_eq!(r.content_type, "audio/wav");
    // MD5 of the empty input.
    assert_eq!(r.content_md5, "1B2M2Y8AsgTpgAmY7PhCfg==");
    assert_eq!(r.date, date);
    let text = format!("PUT\n1B2M2Y8AsgTpgAmY7PhCfg==\naudio/wav\n{}\n/media/audio/a.wav", date);
    assert_eq!(r.authorization, format!("OSS LTAI a/b:{}", expected_signature("secret", &text)));
    let now = u.put_request(b"abc", "a.wav").unwrap();
    assert_eq!(now.content_md5, "kAFQmDzST7DWlj99KOF/cg==");
    assert!(now.date.ends_with(" GMT"));
}

#[test]
fn delete_request_headers() {
    let u = OssUploader::new(config(None));
    let date = "Tue, 02 Jan 2024 00:00:00 GMT";
    let r = u.delete_request_at("a.wav", date);
    assert_eq!(r.url, "https://media.oss-cn-beijing.aliyuncs.com/a.wav");
    let text = format!("DELETE\n\n\n{}\n/media/a.wav", date);
    assert_eq!(r.authorization, format!("OSS LTAI a/b:{}", expected_signature("secret", &text)));
}

#[test]
fn signed_url() {
    let u = OssUploader::new(config(None));
    let url = u.signed_url_at("a.wav", 1700003600);
    let sig = expected_signature("secret", "GET\n\n\n1700003600\n/media/a.wav");
    let enc: String = urlencoding::encode(&sig).into_owned();
    assert_eq!(
        url,
        format!(
            "https://media.oss-cn-beijing.aliyuncs.com/a.wav?OSSAccessKeyId=LTAI%20a%2Fb&Expires=1700003600&Signature={}",
            enc
        )
    );
    let neg = u.signed_url_at("a.wav", -5);
    assert!(neg.contains("&Expires=-5&"));
    let live = u.generate_signed_url("a.wav", 3600).unwrap();
    assert!(live.starts_with("https://media.oss-cn-beijing.aliyuncs.com/a.wav?OSSAccessKeyId=LTAI%20a%2Fb&Expires="));
}

#[test]
fn signed_url_expires_after_the_requested_time() {
    let u = OssUploader::new(config(None));
    assert_eq!(u.signed_url_valid_for("a.wav", 1700000000, 3600), u.signed_url_at("a.wav", 1700003600));
    assert_eq!(u.signed_url_valid_for("a.wav", i64::MAX, 1), u.signed_url_at("a.wav", i64::MIN));
}

#[test]
fn upload_answer_gives_one_hour_url_or_error() {
    let u = OssUploader::new(config(Some("audio")));
    assert_eq!(SIGNED_URL_SECONDS, 3600);
    let ok = u.finish_upload_at("audio/a.wav", true, "200 OK", "", 1700000000).unwrap();
    assert_eq!(ok, u.signed_url_at("audio/a.wav", 1700003600));
    match u.finish_upload_at("audio/a.wav", false, "403 Forbidden", "denied", 1700000000) {
        Err(AppError::Config(m)) => assert_eq!(m, "OSS upload failed 403 Forbidden: denied"),
        other => panic!("unexpected {:?}", other),
    }
    let live = u.finish_upload("audio/a.wav", true, "200 OK", "").unwrap();
    assert!(live.contains("&Expires="));
    match u.finish_upload("audio/a.wav", false, "500 Internal Server Error", "x") {
        Err(AppError::Config(m)) => assert_eq!(m, "OSS upload failed 500 Internal Server Error: x"),
        other => panic!("unexpected {:?}", other),
    }
}

#[test]
fn delete_answer() {
    assert!(OssUploader::finish_delete(true, "204 No Content", "").is_ok());
    match OssUploader::finish_delete(false, "404 Not Found", "none") {
        Err(AppError::Config(m)) => assert_eq!(m, "OSS delete failed 404 Not Found: none"),
        other => panic!("unexpected {:?}", other),
    }
    let u = OssUploader::new(config(None));
    let live = u.delete_request("a.wav").unwrap();
    assert!(live.date.ends_with(" GMT"));
}

#[test]
fn transport_error_texts() {
    let msg = |e: AppError| match e {
        AppError::Config(m) => m,
        other => panic!("unexpected {:?}", other),
    };
    assert_eq!(msg(OssUploader::file_unreadable("No such file")), "Failed to read file: No such file");
    assert_eq!(msg(OssUploader::upload_not_sent("dns")), "OSS upload failed: dns");
    assert_eq!(msg(OssUploader::delete_not_sent("dns")), "OSS delete failed: dns");
}

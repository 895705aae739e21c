//! Signed requests to Alibaba Cloud object storage (OSS): object keys and
//! URLs, the HMAC-SHA1 request signature, the `Authorization` header, and
//! time-limited signed URLs for private objects.

use vstd::prelude::*;
use vstd::utf8::encode_utf8;
use crate::config::OssConfig;
use crate::fmt::{decimal, push_decimal};
use crate::keystore::{base64_encode, base64_encode_bytes};
use crate::text::push_char;
use crate::error::{AppError, ErrorView};
use vstd::wrapping::i64_specs::wrapping_add;
use hmac::Mac;

verus! {

/// The 20-byte HMAC-SHA1 of `msg` under `key`.
pub uninterp spec fn hmac_sha1_tag(key: Seq<u8>, msg: Seq<u8>) -> Seq<u8>;

/// The 16-byte MD5 digest of `data`.
pub uninterp spec fn md5_digest(data: Seq<u8>) -> Seq<u8>;

/// Whether `urlencoding` leaves a byte as it is: ASCII letters, digits and
/// `-`, `.`, `_`, `~`.
pub open spec fn url_safe(b: u8) -> bool {
    (48 <= b <= 57) || (65 <= b <= 90) || (97 <= b <= 122) || b == 45 || b == 46 || b == 95 || b
        == 126
}

/// Uppercase hexadecimal digit of a value below 16.
pub open spec fn hex_upper(d: u8) -> char {
    if d < 10 {
        (48 + d) as char
    } else {
        (55 + d) as char
    }
}

/// Percent-encoding of bytes: safe bytes kept, every other byte as `%XX`
/// with uppercase hexadecimal digits.
pub open spec fn url_encode_bytes(b: Seq<u8>) -> Seq<char>
    decreases b.len(),
{
    if b.len() == 0 {
        seq![]
    } else {
        let x = b[0];
        (if url_safe(x) {
            seq![x as char]
        } else {
            seq!['%', hex_upper(x / 16), hex_upper(x % 16)]
        }) + url_encode_bytes(b.drop_first())
    }
}

/// `urlencoding::encode`: percent-encodes every byte of the text's UTF-8
/// form except alphanumerics and `-`, `_`, `.`, `~`.
pub open spec fn url_encode(s: Seq<char>) -> Seq<char> {
    url_encode_bytes(encode_utf8(s))
}

/// `Hmac::<Sha1>::new_from_slice(key)` (which accepts a key of any length),
/// `update(msg)`, `finalize()`: the HMAC-SHA1 tag.
#[verifier::external_body]
fn hmac_sha1(key: &[u8], msg: &[u8]) -> (r: Vec<u8>)
    ensures
        r@ == hmac_sha1_tag(key@, msg@),
        r@.len() == 20,
{
    let mut mac = hmac::Hmac::<sha1::Sha1>::new_from_slice(key).expect("HMAC can take key of any size");
    mac.update(msg);
    mac.finalize().into_bytes().to_vec()
}

/// `md5::compute(data)`: the MD5 digest.
#[verifier::external_body]
fn md5_compute(data: &[u8]) -> (r: Vec<u8>)
    ensures
        r@ == md5_digest(data@),
        r@.len() == 16,
{
    md5::compute(data).0.to_vec()
}

/// `urlencoding::encode(s)`, as stated by [`url_encode`].
#[verifier::external_body]
fn url_encode_str(s: &str) -> (r: String)
    ensures
        r@ == url_encode(s@),
{
    urlencoding::encode(s).into_owned()
}

/// Seconds since the Unix epoch by the system clock
/// (`SystemTime::now().duration_since(UNIX_EPOCH)`), or `None` when the clock
/// reads before the epoch. It depends on the clock, so nothing more is
/// promised.
#[verifier::external_body]
fn seconds_since_epoch() -> (r: Option<u64>) {
    match std::time::SystemTime::now().duration_since(std::time::UNIX_EPOCH) {
        Ok(d) => Some(d.as_secs()),
        Err(_) => None,
    }
}

/// The HTTP date (`%a, %d %b %Y %H:%M:%S GMT`) of the instant `secs` Unix
/// seconds, or `None` when chrono cannot represent that instant.
pub uninterp spec fn http_date(secs: i64) -> Option<Seq<char>>;

/// `DateTime::from_timestamp(secs, 0)` written with
/// `format("%a, %d %b %Y %H:%M:%S GMT")`: the HTTP date of that instant, or
/// `None` when it is out of chrono's range.
#[verifier::external_body]
fn http_date_of(secs: i64) -> (r: Option<String>)
    ensures
        match r {
            Some(d) => http_date(secs) == Some(d@),
            None => http_date(secs) is None,
        },
{
    match chrono::DateTime::from_timestamp(secs, 0) {
        Some(d) => Some(d.format("%a, %d %b %Y %H:%M:%S GMT").to_string()),
        None => None,
    }
}

/// The error when the system clock reads before the Unix epoch.
pub open spec fn clock_before_epoch() -> ErrorView {
    ErrorView::Config("System time before Unix epoch"@)
}

/// The error when the system clock reads an instant that cannot be dated.
pub open spec fn clock_out_of_range() -> ErrorView {
    ErrorView::Config("System time out of range"@)
}

/// An error of reading the clock.
pub open spec fn clock_error(e: ErrorView) -> bool {
    e == clock_before_epoch() || e == clock_out_of_range()
}

/// The current time: Unix seconds, and the same instant as an HTTP date.
fn clock_now() -> (r: Result<(i64, String), AppError>)
    ensures
        match r {
            Ok((secs, date)) => secs >= 0 && http_date(secs) == Some(date@),
            Err(e) => clock_error(e@),
        },
{
    match seconds_since_epoch() {
        None => Err(AppError::Config(String::from_str("System time before Unix epoch"))),
        Some(s) => {
            if s > 0x7FFF_FFFF_FFFF_FFFF {
                return Err(AppError::Config(String::from_str("System time out of range")));
            }
            let secs = s as i64;
            match http_date_of(secs) {
                Some(d) => Ok((secs, d)),
                None => Err(AppError::Config(String::from_str("System time out of range"))),
            }
        },
    }
}

/// Seconds for which the URL returned after an upload stays valid.
pub const SIGNED_URL_SECONDS: i64 = 3600;

/// The error of an upload answered with `status` and `body`.
pub open spec fn upload_failure(status: Seq<char>, body: Seq<char>) -> ErrorView {
    ErrorView::Config("OSS upload failed "@ + status + ": "@ + body)
}

/// The error of a deletion answered with `status` and `body`.
pub open spec fn delete_failure(status: Seq<char>, body: Seq<char>) -> ErrorView {
    ErrorView::Config("OSS delete failed "@ + status + ": "@ + body)
}

/// `prefix`, `status`, `": "` and `body` as a configuration error.
fn failure(prefix: &str, status: &str, body: &str) -> (e: AppError)
    ensures
        e@ == ErrorView::Config(prefix@ + status@ + ": "@ + body@),
{
    let mut m = String::from_str(prefix);
    m.append(status);
    m.append(": ");
    m.append(body);
    AppError::Config(m)
}

/// `s` without its leading `/` characters.
pub open spec fn trim_start_slashes(s: Seq<char>) -> Seq<char>
    decreases s.len(),
{
    if s.len() > 0 && s[0] == '/' {
        trim_start_slashes(s.drop_first())
    } else {
        s
    }
}

/// `s` without its trailing `/` characters.
pub open spec fn trim_end_slashes(s: Seq<char>) -> Seq<char>
    decreases s.len(),
{
    if s.len() > 0 && s.last() == '/' {
        trim_end_slashes(s.drop_last())
    } else {
        s
    }
}

/// `s.trim_matches('/')`.
pub open spec fn trim_slashes(s: Seq<char>) -> Seq<char> {
    trim_end_slashes(trim_start_slashes(s))
}

/// A signed integer in decimal, with a leading `-` when negative.
pub open spec fn int_text(x: int) -> Seq<char> {
    if x < 0 {
        seq!['-'] + decimal((-x) as nat)
    } else {
        decimal(x as nat)
    }
}

/// The key under which `object_name` is stored: below the configured path
/// prefix (its surrounding slashes removed) when there is one.
pub open spec fn object_key_spec(config: OssConfig, object_name: Seq<char>) -> Seq<char> {
    match config.path_prefix {
        Some(p) => trim_slashes(p@) + seq!['/'] + object_name,
        None => object_name,
    }
}

/// `https://<bucket>.<endpoint>/<key>`.
pub open spec fn object_url_spec(config: OssConfig, key: Seq<char>) -> Seq<char> {
    "https://"@ + config.bucket@ + seq!['.'] + config.endpoint@ + seq!['/'] + key
}

/// The text OSS signs for a request: method, content MD5, content type and
/// date on lines of their own, then the resource `/<bucket>/<key>`.
pub open spec fn string_to_sign(
    method: Seq<char>,
    content_md5: Seq<char>,
    content_type: Seq<char>,
    date: Seq<char>,
    bucket: Seq<char>,
    key: Seq<char>,
) -> Seq<char> {
    method + seq!['\n'] + content_md5 + seq!['\n'] + content_type + seq!['\n'] + date + seq![
        '\n',
        '/',
    ] + bucket + seq!['/'] + key
}

/// The Base64 of the HMAC-SHA1 of `text` under the access key secret.
pub open spec fn signature_spec(config: OssConfig, text: Seq<char>) -> Seq<char> {
    base64_encode(hmac_sha1_tag(encode_utf8(config.access_key_secret@), encode_utf8(text)))
}

/// `OSS <access key id>:<signature>`.
pub open spec fn authorization_spec(config: OssConfig, signature: Seq<char>) -> Seq<char> {
    "OSS "@ + config.access_key_id@ + seq![':'] + signature
}

/// A URL that grants access to `key` until `expires` (Unix seconds): the
/// object URL with the access key id, the expiry and the signature of
/// `GET\n\n\n<expires>\n/<bucket>/<key>` as percent-encoded query values.
pub open spec fn signed_url_spec(config: OssConfig, key: Seq<char>, expires: i64) -> Seq<char> {
    let sig = signature_spec(
        config,
        string_to_sign("GET"@, seq![], seq![], int_text(expires as int), config.bucket@, key),
    );
    object_url_spec(config, key) + "?OSSAccessKeyId="@ + url_encode(config.access_key_id@)
        + "&Expires="@ + int_text(expires as int) + "&Signature="@ + url_encode(sig)
}

/// The content type of uploaded audio.
pub open spec fn audio_content_type() -> Seq<char> {
    "audio/wav"@
}

/// Everything needed to send an upload: where, and its headers.
#[derive(Clone, Debug)]
pub struct PutRequest {
    pub object_key: String,
    pub url: String,
    pub authorization: String,
    pub content_type: String,
    pub content_md5: String,
    pub date: String,
}

/// Everything needed to send a deletion: where, and its headers.
#[derive(Clone, Debug)]
pub struct DeleteRequest {
    pub object_key: String,
    pub url: String,
    pub authorization: String,
    pub date: String,
}

/// Appends a signed integer in decimal.
fn push_int(out: &mut String, x: i64)
    ensures
        final(out)@ == old(out)@ + int_text(x as int),
{
    if x < 0 {
        push_char(out, '-');
        let m: u64 = (0 - (x as i128)) as u64;
        push_decimal(out, m);
    } else {
        push_decimal(out, x as u64);
    }
}

fn trim_slashes_exec(s: &str) -> (r: String)
    ensures
        r@ == trim_slashes(s@),
{
    let chars = crate::text::collect_chars(s);
    let n = chars.len();
    let mut a: usize = 0;
    assert(chars@.skip(0) =~= chars@);
    while a < n && chars[a] == '/'
        invariant
            a <= n,
            n == chars@.len(),
            trim_start_slashes(chars@) == trim_start_slashes(chars@.skip(a as int)),
        decreases n - a,
    {
        assert(chars@.skip(a as int).drop_first() =~= chars@.skip(a + 1));
        a = a + 1;
    }
    assert(chars@.skip(a as int) == trim_start_slashes(chars@)) by {
        if a < n {
            assert(chars@.skip(a as int)[0] == chars@[a as int]);
        } else {
            assert(chars@.skip(a as int).len() == 0);
        }
        assert(chars@.skip(0) =~= chars@);
    }
    let mut b: usize = n;
    while b > a && chars[b - 1] == '/'
        invariant
            a <= b <= n,
            n == chars@.len(),
            trim_end_slashes(chars@.skip(a as int)) == trim_end_slashes(chars@.subrange(a as int, b as int)),
        decreases b,
    {
        assert(chars@.subrange(a as int, b as int).drop_last() =~= chars@.subrange(a as int, b - 1));
        b = b - 1;
    }
    proof {
        assert(chars@.subrange(a as int, n as int) =~= chars@.skip(a as int));
        let t = chars@.subrange(a as int, b as int);
        if b > a {
            assert(t.last() == chars@[b - 1]);
        }
        assert(trim_end_slashes(t) == t);
    }
    let mut out = String::new();
    let mut i: usize = a;
    while i < b
        invariant
            a <= i <= b,
            b <= n,
            n == chars@.len(),
            out@ == chars@.subrange(a as int, i as int),
        decreases b - i,
    {
        push_char(&mut out, chars[i]);
        i = i + 1;
        assert(out@ =~= chars@.subrange(a as int, i as int));
    }
    out
}

/// Signs and addresses requests for one bucket.
#[derive(Clone, Debug)]
pub struct OssUploader {
    pub config: OssConfig,
}

impl OssUploader {
    /// An uploader for the bucket of `config`.
    pub fn new(config: OssConfig) -> (r: OssUploader)
        ensures
            r.config == config,
    {
        OssUploader { config }
    }

    /// The key under which `object_name` is stored.
    pub fn object_key(&self, object_name: &str) -> (r: String)
        ensures
            r@ == object_key_spec(self.config, object_name@),
    {
        match &self.config.path_prefix {
            Some(p) => {
                let mut k = trim_slashes_exec(p.as_str());
                push_char(&mut k, '/');
                k.append(object_name);
                k
            },
            None => object_name.to_owned(),
        }
    }

    /// The URL of the object stored under `key`.
    pub fn object_url(&self, key: &str) -> (r: String)
        ensures
            r@ == object_url_spec(self.config, key@),
    {
        let mut u = String::from_str("https://");
        u.append(self.config.bucket.as_str());
        push_char(&mut u, '.');
        u.append(self.config.endpoint.as_str());
        push_char(&mut u, '/');
        u.append(key);
        u
    }

    /// The signature of a request with this method, content MD5, content type
    /// and date on the object stored under `key`.
    pub fn generate_signature(
        &self,
        method: &str,
        content_md5: &str,
        content_type: &str,
        date: &str,
        key: &str,
    ) -> (r: String)
        ensures
            r@ == signature_spec(
                self.config,
                string_to_sign(method@, content_md5@, content_type@, date@, self.config.bucket@, key@),
            ),
    {
        let mut text = String::from_str(method);
        push_char(&mut text, '\n');
        text.append(content_md5);
        push_char(&mut text, '\n');
        text.append(content_type);
        push_char(&mut text, '\n');
        text.append(date);
        push_char(&mut text, '\n');
        push_char(&mut text, '/');
        text.append(self.config.bucket.as_str());
        push_char(&mut text, '/');
        text.append(key);
        assert(text@ =~= string_to_sign(method@, content_md5@, content_type@, date@, self.config.bucket@, key@));
        self.sign(text.as_str())
    }

    fn sign(&self, text: &str) -> (r: String)
        ensures
            r@ == signature_spec(self.config, text@),
    {
        let tag = hmac_sha1(self.config.access_key_secret.as_str().as_bytes(), text.as_bytes());
        base64_encode_bytes(tag.as_slice())
    }

    fn authorization(&self, signature: &str) -> (r: String)
        ensures
            r@ == authorization_spec(self.config, signature@),
    {
        let mut h = String::from_str("OSS ");
        h.append(self.config.access_key_id.as_str());
        push_char(&mut h, ':');
        h.append(signature);
        h
    }

    /// A URL granting access to the object under `key` until `expires`
    /// (Unix seconds).
    pub fn signed_url_at(&self, key: &str, expires: i64) -> (r: String)
        ensures
            r@ == signed_url_spec(self.config, key@, expires),
    {
        let mut exp = String::new();
        push_int(&mut exp, expires);
        let sig = self.generate_signature("GET", "", "", exp.as_str(), key);
        let mut u = self.object_url(key);
        u.append("?OSSAccessKeyId=");
        let ak = url_encode_str(self.config.access_key_id.as_str());
        u.append(ak.as_str());
        u.append("&Expires=");
        u.append(exp.as_str());
        u.append("&Signature=");
        let s = url_encode_str(sig.as_str());
        u.append(s.as_str());
        proof {
            reveal_strlit("");
        }
        u
    }

    /// A URL granting access to the object under `key` for `expires_in`
    /// seconds from `now` (Unix seconds; the sum wraps around as `i64`
    /// addition does in release builds).
    pub fn signed_url_valid_for(&self, key: &str, now: i64, expires_in: i64) -> (r: String)
        ensures
            r@ == signed_url_spec(self.config, key@, wrapping_add(now, expires_in)),
    {
        self.signed_url_at(key, now.wrapping_add(expires_in))
    }

    /// A URL granting access to the object under `key` for `expires_in`
    /// seconds from now, by the system clock; an error when the clock cannot
    /// be read.
    pub fn generate_signed_url(&self, key: &str, expires_in: i64) -> (r: Result<String, AppError>)
        ensures
            match r {
                Ok(u) => exists|now: i64|
                    now >= 0 && u@ == #[trigger] signed_url_spec(self.config, key@, wrapping_add(now, expires_in)),
                Err(e) => clock_error(e@),
            },
    {
        match clock_now() {
            Ok((now, _)) => Ok(self.signed_url_valid_for(key, now, expires_in)),
            Err(e) => Err(e),
        }
    }

    /// What an upload of the object under `key` gives, once the store has
    /// answered with `status` and `body` at time `now`: on success, a URL
    /// valid for [`SIGNED_URL_SECONDS`] from `now`; otherwise the failure.
    pub fn finish_upload_at(&self, key: &str, success: bool, status: &str, body: &str, now: i64) -> (r: Result<
        String,
        AppError,
    >)
        ensures
            success ==> (r matches Ok(u) && u@ == signed_url_spec(
                self.config,
                key@,
                wrapping_add(now, SIGNED_URL_SECONDS),
            )),
            !success ==> (r matches Err(e) && e@ == upload_failure(status@, body@)),
    {
        if success {
            Ok(self.signed_url_valid_for(key, now, SIGNED_URL_SECONDS))
        } else {
            Err(failure("OSS upload failed ", status, body))
        }
    }

    /// What an upload of the object under `key` gives, once the store has
    /// answered with `status` and `body`: on success, a URL valid for one
    /// hour from now by the system clock.
    pub fn finish_upload(&self, key: &str, success: bool, status: &str, body: &str) -> (r: Result<String, AppError>)
        ensures
            !success ==> (r matches Err(e) && e@ == upload_failure(status@, body@)),
            success ==> match r {
                Ok(u) => exists|now: i64|
                    now >= 0 && u@ == #[trigger] signed_url_spec(
                        self.config,
                        key@,
                        wrapping_add(now, SIGNED_URL_SECONDS),
                    ),
                Err(e) => clock_error(e@),
            },
    {
        if !success {
            return Err(failure("OSS upload failed ", status, body));
        }
        match clock_now() {
            Ok((now, _)) => self.finish_upload_at(key, true, status, body, now),
            Err(e) => Err(e),
        }
    }

    /// The error when the file to upload cannot be read; `detail` is the
    /// system's own message.
    pub fn file_unreadable(detail: &str) -> (e: AppError)
        ensures
            e@ == ErrorView::Config("Failed to read file: "@ + detail@),
    {
        let mut m = String::from_str("Failed to read file: ");
        m.append(detail);
        AppError::Config(m)
    }

    /// The error when an upload could not be sent.
    pub fn upload_not_sent(detail: &str) -> (e: AppError)
        ensures
            e@ == ErrorView::Config("OSS upload failed: "@ + detail@),
    {
        let mut m = String::from_str("OSS upload failed: ");
        m.append(detail);
        AppError::Config(m)
    }

    /// The error when a deletion could not be sent.
    pub fn delete_not_sent(detail: &str) -> (e: AppError)
        ensures
            e@ == ErrorView::Config("OSS delete failed: "@ + detail@),
    {
        let mut m = String::from_str("OSS delete failed: ");
        m.append(detail);
        AppError::Config(m)
    }

    /// What a deletion gives once the store has answered with `status` and
    /// `body`.
    pub fn finish_delete(success: bool, status: &str, body: &str) -> (r: Result<(), AppError>)
        ensures
            success ==> r is Ok,
            !success ==> (r matches Err(e) && e@ == delete_failure(status@, body@)),
    {
        if success {
            Ok(())
        } else {
            Err(failure("OSS delete failed ", status, body))
        }
    }

    /// The upload of `file_bytes` as `object_name`, dated `date`: the object
    /// key and URL, and the `audio/wav` content type, the Base64 MD5 of the
    /// content and the signed `Authorization` header.
    pub fn put_request_at(&self, file_bytes: &[u8], object_name: &str, date: &str) -> (r: PutRequest)
        ensures
            r.object_key@ == object_key_spec(self.config, object_name@),
            r.url@ == object_url_spec(self.config, r.object_key@),
            r.content_type@ == audio_content_type(),
            r.content_md5@ == base64_encode(md5_digest(file_bytes@)),
            r.date@ == date@,
            r.authorization@ == authorization_spec(
                self.config,
                signature_spec(
                    self.config,
                    string_to_sign(
                        "PUT"@,
                        r.content_md5@,
                        audio_content_type(),
                        date@,
                        self.config.bucket@,
                        r.object_key@,
                    ),
                ),
            ),
    {
        let digest = md5_compute(file_bytes);
        let content_md5 = base64_encode_bytes(digest.as_slice());
        let key = self.object_key(object_name);
        let url = self.object_url(key.as_str());
        let sig = self.generate_signature("PUT", content_md5.as_str(), "audio/wav", date, key.as_str());
        let authorization = self.authorization(sig.as_str());
        PutRequest {
            object_key: key,
            url,
            authorization,
            content_type: String::from_str("audio/wav"),
            content_md5,
            date: String::from_str(date),
        }
    }

    /// The upload of `file_bytes` as `object_name`, dated now by the system
    /// clock; an error when the clock cannot be read.
    pub fn put_request(&self, file_bytes: &[u8], object_name: &str) -> (r: Result<PutRequest, AppError>)
        ensures
            match r {
                Ok(q) => {
                    &&& exists|now: i64| now >= 0 && #[trigger] http_date(now) == Some(q.date@)
                    &&& q.object_key@ == object_key_spec(self.config, object_name@)
                    &&& q.url@ == object_url_spec(self.config, q.object_key@)
                    &&& q.content_type@ == audio_content_type()
                    &&& q.content_md5@ == base64_encode(md5_digest(file_bytes@))
                    &&& q.authorization@ == authorization_spec(
                        self.config,
                        signature_spec(
                            self.config,
                            string_to_sign(
                                "PUT"@,
                                q.content_md5@,
                                audio_content_type(),
                                q.date@,
                                self.config.bucket@,
                                q.object_key@,
                            ),
                        ),
                    )
                },
                Err(e) => clock_error(e@),
            },
    {
        match clock_now() {
            Ok((_, date)) => Ok(self.put_request_at(file_bytes, object_name, date.as_str())),
            Err(e) => Err(e),
        }
    }

    /// The deletion of `object_name`, dated `date`: empty content MD5 and
    /// content type in the signed text.
    pub fn delete_request_at(&self, object_name: &str, date: &str) -> (r: DeleteRequest)
        ensures
            r.object_key@ == object_key_spec(self.config, object_name@),
            r.url@ == object_url_spec(self.config, r.object_key@),
            r.date@ == date@,
            r.authorization@ == authorization_spec(
                self.config,
                signature_spec(
                    self.config,
                    string_to_sign("DELETE"@, seq![], seq![], date@, self.config.bucket@, r.object_key@),
                ),
            ),
    {
        let key = self.object_key(object_name);
        let url = self.object_url(key.as_str());
        let sig = self.generate_signature("DELETE", "", "", date, key.as_str());
        proof {
            reveal_strlit("");
        }
        let authorization = self.authorization(sig.as_str());
        DeleteRequest { object_key: key, url, authorization, date: String::from_str(date) }
    }

    /// The deletion of `object_name`, dated now by the system clock; an
    /// error when the clock cannot be read.
    pub fn delete_request(&self, object_name: &str) -> (r: Result<DeleteRequest, AppError>)
        ensures
            match r {
                Ok(q) => {
                    &&& exists|now: i64| now >= 0 && #[trigger] http_date(now) == Some(q.date@)
                    &&& q.object_key@ == object_key_spec(self.config, object_name@)
                    &&& q.url@ == object_url_spec(self.config, q.object_key@)
                    &&& q.authorization@ == authorization_spec(
                        self.config,
                        signature_spec(
                            self.config,
                            string_to_sign("DELETE"@, seq![], seq![], q.date@, self.config.bucket@, q.object_key@),
                        ),
                    )
                },
                Err(e) => clock_error(e@),
            },
    {
        match clock_now() {
            Ok((_, date)) => Ok(self.delete_request_at(object_name, date.as_str())),
            Err(e) => Err(e),
        }
    }
}

} // verus!

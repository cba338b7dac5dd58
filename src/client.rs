//! What a request needs besides the network: the API root, the key that
//! authenticates it, the timeout, and the reading of a response's status.
use vstd::prelude::*;
use vstd::string::*;

use crate::settings::Settings;
use crate::text::{decimal, u64_to_text};

verus! {

/// The path segment of the API version, after the host.
pub const API_PREFIX: &'static str = "/api/v1";

/// A character that an HTTP header value may hold.
pub open spec fn header_char_ok(c: char) -> bool {
    c == '\t' || (' ' <= c && c != '\x7f')
}

pub open spec fn header_value_ok(s: Seq<char>) -> bool {
    forall|i: int| 0 <= i < s.len() ==> header_char_ok(#[trigger] s[i])
}

/// Relies on `reqwest::header::HeaderValue::from_str` (http 1.x): it accepts
/// a text exactly when each of its bytes is a tab, or is at least 32 and not
/// 127. The bytes of a character beyond ASCII are all at least 128.
#[verifier::external_body]
fn header_value_accepts(text: &str) -> (r: bool)
    ensures
        r == header_value_ok(text@),
{
    reqwest::header::HeaderValue::from_str(text).is_ok()
}

/// The canonical reason phrase of an HTTP status code, as the HTTP layer
/// writes it (`<unknown status code>` for a code that has none).
pub uninterp spec fn reason_phrase(code: u16) -> Seq<char>;

/// Relies on `reqwest::StatusCode` (http 1.x): `from_u16` accepts the codes
/// from 100 to 999, and the `Display` of a code writes the number, a space
/// and the canonical reason phrase.
#[verifier::external_body]
fn status_display(code: u16) -> (r: String)
    requires
        100 <= code <= 999,
    ensures
        r@ == decimal(code as nat) + " "@ + reason_phrase(code),
{
    match reqwest::StatusCode::from_u16(code) {
        Ok(status) => status.to_string(),
        Err(e) => e.to_string(),
    }
}

/// `s` without the characters `c` at its end.
pub open spec fn trim_end(s: Seq<char>, c: char) -> Seq<char>
    decreases s.len(),
{
    if s.len() > 0 && s.last() == c {
        trim_end(s.drop_last(), c)
    } else {
        s
    }
}

/// `s` without the characters `c` at its start.
pub open spec fn trim_start(s: Seq<char>, c: char) -> Seq<char>
    decreases s.len(),
{
    if s.len() > 0 && s[0] == c {
        trim_start(s.drop_first(), c)
    } else {
        s
    }
}

/// The API root under a host.
pub open spec fn api_root(host: Seq<char>) -> Seq<char> {
    trim_end(host, '/') + API_PREFIX@
}

/// The target of a request for a path relative to the API root.
pub open spec fn target(root: Seq<char>, path: Seq<char>) -> Seq<char> {
    root + "/"@ + trim_start(path, '/')
}

/// `s` without the slashes at its end.
pub fn trim_end_slashes(s: &str) -> (r: String)
    ensures
        r@ == trim_end(s@, '/'),
{
    let n = s.unicode_len();
    let mut end: usize = n;
    assert(s@.subrange(0, n as int) =~= s@);
    while end > 0 && s.get_char(end - 1) == '/'
        invariant
            end <= n,
            n == s@.len(),
            trim_end(s@.subrange(0, end as int), '/') == trim_end(s@, '/'),
        decreases end,
    {
        assert(s@.subrange(0, end as int).drop_last() =~= s@.subrange(0, end - 1));
        end = end - 1;
    }
    String::from_str(s.substring_char(0, end))
}

/// `s` without the slashes at its start.
pub fn trim_start_slashes(s: &str) -> (r: String)
    ensures
        r@ == trim_start(s@, '/'),
{
    let n = s.unicode_len();
    let mut start: usize = 0;
    assert(s@.subrange(0, n as int) =~= s@);
    while start < n && s.get_char(start) == '/'
        invariant
            start <= n,
            n == s@.len(),
            trim_start(s@.subrange(start as int, n as int), '/') == trim_start(s@, '/'),
        decreases n - start,
    {
        assert(s@.subrange(start as int, n as int).drop_first() =~= s@.subrange(
            start + 1,
            n as int,
        ));
        start = start + 1;
    }
    String::from_str(s.substring_char(start, n))
}

/// Why a client could not be set up.
#[derive(Debug)]
pub enum ClientError {
    MissingApiKey,
    InvalidApiKey,
}

impl ClientError {
    pub fn message(&self) -> (r: String)
        ensures
            r@ == match self {
                ClientError::MissingApiKey => "API key is required — set it via --api-key, PLANE_CLI_API_KEY, or config file"@,
                ClientError::InvalidApiKey => "invalid API key value"@,
            },
    {
        match self {
            ClientError::MissingApiKey => String::from_str(
                "API key is required — set it via --api-key, PLANE_CLI_API_KEY, or config file",
            ),
            ClientError::InvalidApiKey => String::from_str("invalid API key value"),
        }
    }
}

/// A client's settings for its requests.
#[derive(Debug)]
pub struct Client {
    /// The API root that request paths are relative to.
    pub base_url: String,
    /// The key sent with every request.
    pub api_key: String,
    /// Seconds a request may take.
    pub timeout: u64,
    /// Whether a progress indicator is shown while a request is out.
    pub show_spinner: bool,
}

impl Client {
    /// Sets up a client from resolved settings. The API key is required and
    /// must be fit for an HTTP header.
    pub fn new(settings: &Settings, json_mode: bool) -> (r: Result<Client, ClientError>)
        ensures
            match settings.api_key {
                None => r matches Err(ClientError::MissingApiKey),
                Some(key) => if header_value_ok(key@) {
                    r matches Ok(c) && c.base_url@ == api_root(settings.base_url@) && c.api_key@
                        == key@ && c.timeout == settings.timeout && c.show_spinner == !json_mode
                } else {
                    r matches Err(ClientError::InvalidApiKey)
                },
            },
    {
        let api_key = match &settings.api_key {
            Some(key) => key,
            None => return Err(ClientError::MissingApiKey),
        };
        if !header_value_accepts(api_key.as_str()) {
            return Err(ClientError::InvalidApiKey);
        }
        let mut base_url = trim_end_slashes(settings.base_url.as_str());
        base_url.append(API_PREFIX);
        Ok(
            Client {
                base_url,
                api_key: api_key.clone(),
                timeout: settings.timeout,
                show_spinner: !json_mode,
            },
        )
    }

    /// The target of a request for `path`, relative to the API root; slashes
    /// at the start of `path` are dropped.
    pub fn url(&self, path: &str) -> (r: String)
        ensures
            r@ == target(self.base_url@, path@),
    {
        let mut r = self.base_url.clone();
        r.append("/");
        let rest = trim_start_slashes(path);
        r.append(rest.as_str());
        r
    }
}

/// How a request failed, by the response's status.
#[derive(Debug)]
pub enum ApiError {
    Unauthorized,
    NotFound { body: String },
    RateLimited,
    Server { status: u16, body: String },
    Failed { status: u16, body: String },
}

pub ghost enum ApiErrorView {
    Unauthorized,
    NotFound(Seq<char>),
    RateLimited,
    Server(u16, Seq<char>),
    Failed(u16, Seq<char>),
}

impl View for ApiError {
    type V = ApiErrorView;

    open spec fn view(&self) -> ApiErrorView {
        match self {
            ApiError::Unauthorized => ApiErrorView::Unauthorized,
            ApiError::NotFound { body } => ApiErrorView::NotFound(body@),
            ApiError::RateLimited => ApiErrorView::RateLimited,
            ApiError::Server { status, body } => ApiErrorView::Server(*status, body@),
            ApiError::Failed { status, body } => ApiErrorView::Failed(*status, body@),
        }
    }
}

/// What a response comes to: its body where the status is a success, else
/// the error that the status stands for.
pub open spec fn classify(status: u16, body: Seq<char>) -> Result<Seq<char>, ApiErrorView> {
    if 200 <= status <= 299 {
        Ok(body)
    } else if status == 401 {
        Err(ApiErrorView::Unauthorized)
    } else if status == 404 {
        Err(ApiErrorView::NotFound(body))
    } else if status == 429 {
        Err(ApiErrorView::RateLimited)
    } else if 500 <= status <= 599 {
        Err(ApiErrorView::Server(status, body))
    } else {
        Err(ApiErrorView::Failed(status, body))
    }
}

/// A status as it is reported: the number and, for a code that HTTP can
/// carry, its reason phrase.
pub open spec fn status_text(code: u16) -> Seq<char> {
    if 100 <= code <= 999 {
        decimal(code as nat) + " "@ + reason_phrase(code)
    } else {
        decimal(code as nat)
    }
}

/// The text of an error, where its status reads as `words`.
pub open spec fn error_text_with(e: ApiErrorView, words: Seq<char>) -> Seq<char> {
    match e {
        ApiErrorView::Unauthorized => "unauthorized — check your API key"@,
        ApiErrorView::NotFound(body) => "not found: "@ + body,
        ApiErrorView::RateLimited => "rate limited — try again later"@,
        ApiErrorView::Server(_, body) => "server error ("@ + words + "): "@ + body,
        ApiErrorView::Failed(_, body) => "request failed ("@ + words + "): "@ + body,
    }
}

/// The status that an error carries, where it carries one.
pub open spec fn error_status(e: ApiErrorView) -> u16 {
    match e {
        ApiErrorView::Server(s, _) => s,
        ApiErrorView::Failed(s, _) => s,
        _ => 0,
    }
}

/// The text by which an error is reported.
pub open spec fn api_error_text(e: ApiErrorView) -> Seq<char> {
    error_text_with(e, status_text(error_status(e)))
}

/// Reads a response: the body of a success, or the error for its status.
pub fn handle_response(status: u16, body: String) -> (r: Result<String, ApiError>)
    ensures
        match (r, classify(status, body@)) {
            (Ok(b), Ok(c)) => b@ == c,
            (Err(e), Err(c)) => e@ == c,
            _ => false,
        },
{
    if 200 <= status && status <= 299 {
        Ok(body)
    } else if status == 401 {
        Err(ApiError::Unauthorized)
    } else if status == 404 {
        Err(ApiError::NotFound { body })
    } else if status == 429 {
        Err(ApiError::RateLimited)
    } else if 500 <= status && status <= 599 {
        Err(ApiError::Server { status, body })
    } else {
        Err(ApiError::Failed { status, body })
    }
}

/// Each failing status that the API signals in its own way is reported
/// under its own words, at the start of the text: "unauthorized" for 401,
/// "not found" for 404, "rate limited" for 429 and "server error" for 500
/// to 599, whatever the body.
pub proof fn lemma_status_words(status: u16, body: Seq<char>)
    ensures
        status == 401 ==> api_error_text(classify(status, body)->Err_0).take(12)
            == "unauthorized"@,
        status == 404 ==> api_error_text(classify(status, body)->Err_0).take(9) == "not found"@,
        status == 429 ==> api_error_text(classify(status, body)->Err_0).take(12)
            == "rate limited"@,
        500 <= status <= 599 ==> api_error_text(classify(status, body)->Err_0).take(12)
            == "server error"@,
{
    reveal_strlit("unauthorized");
    reveal_strlit("unauthorized — check your API key");
    reveal_strlit("not found");
    reveal_strlit("not found: ");
    reveal_strlit("rate limited");
    reveal_strlit("rate limited — try again later");
    reveal_strlit("server error");
    reveal_strlit("server error (");
    let t = api_error_text(classify(status, body)->Err_0);
    if status == 401 {
        assert(t.take(12) =~= "unauthorized"@);
    } else if status == 404 {
        assert(t.take(9) =~= "not found"@);
    } else if status == 429 {
        assert(t.take(12) =~= "rate limited"@);
    } else if 500 <= status <= 599 {
        assert(t.take(12) =~= "server error"@);
    }
}

fn status_words(code: u16) -> (r: String)
    ensures
        r@ == status_text(code),
{
    if 100 <= code && code <= 999 {
        status_display(code)
    } else {
        u64_to_text(code as u64)
    }
}

impl ApiError {
    /// The text of this error, where its status reads as `words`.
    pub fn describe(&self, words: &str) -> (r: String)
        ensures
            r@ == error_text_with(self@, words@),
    {
        match self {
            ApiError::Unauthorized => String::from_str("unauthorized — check your API key"),
            ApiError::NotFound { body } => {
                let mut m = String::from_str("not found: ");
                m.append(body.as_str());
                m
            },
            ApiError::RateLimited => String::from_str("rate limited — try again later"),
            ApiError::Server { body, .. } => {
                let mut m = String::from_str("server error (");
                m.append(words);
                m.append("): ");
                m.append(body.as_str());
                m
            },
            ApiError::Failed { body, .. } => {
                let mut m = String::from_str("request failed (");
                m.append(words);
                m.append("): ");
                m.append(body.as_str());
                m
            },
        }
    }

    /// The text by which this error is reported.
    pub fn message(&self) -> (r: String)
        ensures
            r@ == api_error_text(self@),
    {
        let code = match self {
            ApiError::Server { status, .. } => *status,
            ApiError::Failed { status, .. } => *status,
            _ => 0,
        };
        let words = status_words(code);
        self.describe(words.as_str())
    }
}

} // verus!

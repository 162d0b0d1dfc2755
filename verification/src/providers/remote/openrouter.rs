//! The OpenRouter provider's configuration and request addressing.
use vstd::prelude::*;
use vstd::string::*;
use crate::error::ProviderError;
use crate::providers::remote::trim_char;
use crate::text::{chars_of, string_of, strip_leading_vec, strip_trailing, strip_trailing_vec};

verus! {

/// The endpoint used when none is configured.
pub open spec fn default_base_url() -> Seq<char> {
    "https://openrouter.ai/api/v1"@
}

/// The model used when none is given.
pub open spec fn default_model() -> Seq<char> {
    "google/gemini-3-flash-preview"@
}

/// Request timeout, in seconds.
pub const REQUEST_TIMEOUT_SECS: u64 = 60;

/// Connection settings for the OpenRouter chat API.
pub struct OpenRouter {
    pub base_url: String,
    pub api_key: String,
    pub model: String,
    pub timeout_secs: u64,
}

impl OpenRouter {
    /// Settings from the given model, API key and base URL (each possibly absent). The key is
    /// required; the base URL and model fall back to their defaults.
    pub fn new(model: Option<String>, api_key: Option<String>, base_url: Option<String>) -> (r:
        Result<OpenRouter, String>)
        ensures
            api_key is None <==> r is Err,
            r matches Err(m) ==> m@ == "OpenRouter API key is required (OPENROUTER_API_KEY)"@,
            r matches Ok(o) ==> {
                &&& api_key matches Some(k) && o.api_key@ == k@
                &&& o.base_url@ == match base_url {
                    Some(b) => b@,
                    None => default_base_url(),
                }
                &&& o.model@ == match model {
                    Some(m) => m@,
                    None => default_model(),
                }
                &&& o.timeout_secs == REQUEST_TIMEOUT_SECS
            },
    {
        let api_key = match api_key {
            Some(k) => k,
            None => {
                return Err(String::from_str("OpenRouter API key is required (OPENROUTER_API_KEY)"));
            },
        };
        let base_url = match base_url {
            Some(b) => b,
            None => String::from_str("https://openrouter.ai/api/v1"),
        };
        let model = match model {
            Some(m) => m,
            None => String::from_str("google/gemini-3-flash-preview"),
        };
        Ok(OpenRouter { base_url, api_key, model, timeout_secs: REQUEST_TIMEOUT_SECS })
    }

    /// The chat completions endpoint: the base URL without trailing slashes, then
    /// "/chat/completions".
    pub fn chat_url(&self) -> (r: String)
        ensures
            r@ == strip_trailing(self.base_url@, "/"@) + "/chat/completions"@,
    {
        let v = chars_of(self.base_url.as_str());
        let t = strip_trailing_vec(&v, "/");
        let mut r = string_of(&t);
        r.append("/chat/completions");
        r
    }

    /// The Authorization header value.
    pub fn authorization(&self) -> (r: String)
        ensures
            r@ == "Bearer "@ + self.api_key@,
    {
        let mut r = String::from_str("Bearer ");
        r.append(self.api_key.as_str());
        r
    }
}

/// One element of an array-valued message content.
pub enum ContentPart {
    /// A JSON object: each field's name with its value as compact JSON text, in map order.
    Object(Vec<(String, String)>),
    /// Any other JSON value.
    Other,
}

/// A message content as returned by the chat API.
pub enum ContentValue {
    /// A JSON string.
    Text(String),
    /// A JSON array.
    Parts(Vec<ContentPart>),
    /// Any other JSON value, as compact JSON text.
    Other(String),
}

/// The value of the first field named `key`, if any.
pub open spec fn field(fields: Seq<(String, String)>, key: Seq<char>) -> Option<Seq<char>>
    decreases fields.len(),
{
    if fields.len() == 0 {
        None
    } else if fields[0].0@ == key {
        Some(fields[0].1@)
    } else {
        field(fields.drop_first(), key)
    }
}

/// The text a content part contributes: its "text" field, else its "content" field, with
/// surrounding double quotes removed; nothing for other parts.
pub open spec fn part_text(p: ContentPart) -> Seq<char> {
    match p {
        ContentPart::Object(fields) => match field(fields@, "text"@) {
            Some(v) => trim_char(v, '"'),
            None => match field(fields@, "content"@) {
                Some(v) => trim_char(v, '"'),
                None => Seq::empty(),
            },
        },
        ContentPart::Other => Seq::empty(),
    }
}

/// The concatenated text of the parts.
pub open spec fn parts_text(ps: Seq<ContentPart>) -> Seq<char>
    decreases ps.len(),
{
    if ps.len() == 0 {
        Seq::empty()
    } else {
        parts_text(ps.drop_last()) + part_text(ps.last())
    }
}

/// The reply text of a message content.
pub open spec fn content_text(v: ContentValue) -> Seq<char> {
    match v {
        ContentValue::Text(s) => s@,
        ContentValue::Parts(ps) => parts_text(ps@),
        ContentValue::Other(t) => t@,
    }
}

fn find_field<'a>(fields: &'a Vec<(String, String)>, key: &str) -> (r: Option<&'a String>)
    ensures
        match field(fields@, key@) {
            Some(v) => r matches Some(x) && x@ == v,
            None => r is None,
        },
{
    let n = fields.len();
    assert(fields@.skip(0) == fields@);
    for i in 0..n
        invariant
            n == fields@.len(),
            field(fields@, key@) == field(fields@.skip(i as int), key@),
    {
        assert(fields@.skip(i as int).drop_first() == fields@.skip(i + 1));
        assert(fields@.skip(i as int)[0] == fields@[i as int]);
        if fields[i].0.eq(&String::from_str(key)) {
            return Some(&fields[i].1);
        }
    }
    assert(fields@.skip(n as int).len() == 0);
    None
}

fn unquote(v: &String) -> (r: String)
    ensures
        r@ == trim_char(v@, '"'),
{
    let c = chars_of(v.as_str());
    proof {
        reveal_strlit("\"");
    }
    let a = strip_leading_vec(&c, "\"");
    let b = strip_trailing_vec(&a, "\"");
    assert("\""@ == seq!['"']);
    string_of(&b)
}

impl OpenRouter {
    /// The reply text of a message content: a string as is; for an array, the concatenated
    /// "text" (else "content") fields of its objects, unquoted; anything else as JSON text.
    pub fn extract_content_text(value: &ContentValue) -> (r: String)
        ensures
            r@ == content_text(*value),
    {
        match value {
            ContentValue::Text(s) => s.clone(),
            ContentValue::Other(t) => t.clone(),
            ContentValue::Parts(ps) => {
                let mut chunks = String::new();
                let n = ps.len();
                for i in 0..n
                    invariant
                        n == ps@.len(),
                        chunks@ == parts_text(ps@.take(i as int)),
                {
                    assert(ps@.take(i + 1).drop_last() == ps@.take(i as int));
                    assert(ps@.take(i + 1).last() == ps@[i as int]);
                    match &ps[i] {
                        ContentPart::Object(fields) => {
                            match find_field(fields, "text") {
                                Some(v) => {
                                    let t = unquote(v);
                                    chunks.append(t.as_str());
                                },
                                None => match find_field(fields, "content") {
                                    Some(v) => {
                                        let t = unquote(v);
                                        chunks.append(t.as_str());
                                    },
                                    None => {
                                        assert(chunks@ + Seq::<char>::empty() == chunks@);
                                    },
                                },
                            }
                        },
                        ContentPart::Other => {
                            assert(chunks@ + Seq::<char>::empty() == chunks@);
                        },
                    }
                }
                assert(ps@.take(n as int) == ps@);
                chunks
            },
        }
    }
}

// ── Reading the chat API's answer ─────────────────────────────────────────────

/// What `serde_json` reads from a chat response's text: the value at
/// `/choices/0/message/content` (absent when there is none), or the parse error's message.
pub uninterp spec fn response_content(text: Seq<char>) -> Result<Option<ContentValue>, Seq<char>>;

/// Parses `text` with `serde_json::from_str::<serde_json::Value>` and takes the value at
/// `/choices/0/message/content` with `Value::pointer_mut`, converted to a `ContentValue` (a
/// string as text, an array as its parts with each object's fields as JSON text, anything
/// else as JSON text). The result is named by `response_content`.
#[verifier::external_body]
fn parse_response_content(text: &str) -> (r: Result<Option<ContentValue>, String>)
    ensures
        match r {
            Ok(c) => response_content(text@) == Ok::<Option<ContentValue>, Seq<char>>(c),
            Err(e) => response_content(text@) == Err::<Option<ContentValue>, Seq<char>>(e@),
        },
{
    let mut json: serde_json::Value = serde_json::from_str(text).map_err(|e| e.to_string())?;
    Ok(json.pointer_mut("/choices/0/message/content").map(|v| match v.take() {
        serde_json::Value::String(s) => ContentValue::Text(s),
        serde_json::Value::Array(items) => ContentValue::Parts(items.into_iter().map(|i| match i {
            serde_json::Value::Object(m) => ContentPart::Object(m.into_iter().map(|(k, v)| (k, v.to_string())).collect()),
            _ => ContentPart::Other,
        }).collect()),
        other => ContentValue::Other(other.to_string()),
    }))
}

/// The provider's answer to a chat request, from the HTTP status and the response text: an API
/// error for a status outside 200..=299, a parse error when the text is not JSON or has no
/// message content, else the reply text of that content.
pub fn chat_reply(status: u16, text: String) -> (r: Result<String, ProviderError>)
    ensures
        !(200 <= status <= 299) ==> r == Err::<String, ProviderError>(
            ProviderError::ApiError { status, body: text },
        ),
        200 <= status <= 299 ==> match response_content(text@) {
            Err(m) => r matches Err(ProviderError::Parse(e)) && e@ == m,
            Ok(None) => r matches Err(ProviderError::Parse(e)) && e@
                == "OpenRouter response missing content"@,
            Ok(Some(c)) => r matches Ok(t) && t@ == content_text(c),
        },
{
    if status < 200 || status > 299 {
        return Err(ProviderError::ApiError { status, body: text });
    }
    match parse_response_content(text.as_str()) {
        Err(e) => Err(ProviderError::Parse(e)),
        Ok(None) => Err(ProviderError::Parse(String::from_str("OpenRouter response missing content"))),
        Ok(Some(c)) => Ok(OpenRouter::extract_content_text(&c)),
    }
}

} // verus!

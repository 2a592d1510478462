//! Backend addressing and response envelopes.
//!
//! The transcription request goes either to a Google-style endpoint (URL
//! built from the model name and API key) or to an OpenAI-compatible chat
//! endpoint (a configured base URL, or a well-known one per provider).
//! The response envelope differs accordingly; pulling the message content
//! out of it is delegated to the JSON library behind two trusted wrappers.

use vstd::prelude::*;

use serde_json::Value;

use crate::text::chars_of;
use crate::text::eq_at;
use crate::text::is_blank;
use crate::text::str_eq;
use crate::text::string_from_chars;
use crate::text::subvec;

verus! {

/// The well-known OpenAI-compatible chat endpoints, by provider name.
pub open spec fn provider_url_spec(provider: Seq<char>) -> Option<Seq<char>> {
    if provider == "openrouter"@ {
        Some("https://openrouter.ai/api/v1/chat/completions"@)
    } else if provider == "302ai"@ {
        Some("https://api.302.ai/v1/chat/completions"@)
    } else if provider == "moonshot"@ {
        Some("https://api.moonshot.cn/v1/chat/completions"@)
    } else if provider == "openai"@ {
        Some("https://api.openai.com/v1/chat/completions"@)
    } else {
        None
    }
}

/// Whether the provider uses the Google response envelope.
pub fn is_google_provider(provider: &str) -> (r: bool)
    ensures
        r == (provider@ == "google"@ || provider@ == "google-ai-studio"@),
{
    str_eq(provider, "google") || str_eq(provider, "google-ai-studio")
}

/// `s` with every trailing `c` removed.
pub open spec fn strip_trailing(s: Seq<char>, c: char) -> Seq<char>
    decreases s.len(),
{
    if s.len() > 0 && s.last() == c {
        strip_trailing(s.drop_last(), c)
    } else {
        s
    }
}

/// Whether `s` ends with `pat`.
pub open spec fn ends_with(s: Seq<char>, pat: Seq<char>) -> bool {
    s.len() >= pat.len() && s.skip(s.len() - pat.len()) == pat
}

/// How the transcription URL resolves for an OpenAI-compatible provider.
pub enum UrlResolution {
    /// Send the request here.
    Resolved { url: String },
    /// The provider needs a configured base URL and none was given.
    BaseUrlRequired,
    /// The provider is not supported for transcription.
    UnsupportedProvider,
}

/// The URL owed for a configured base: trailing slashes dropped, and the
/// chat-completions path appended unless already present.
pub open spec fn base_resolved_url(base: Seq<char>) -> Seq<char> {
    let t = strip_trailing(base, '/');
    if ends_with(t, "/chat/completions"@) {
        t
    } else {
        t + "/chat/completions"@
    }
}

/// Resolve the endpoint for an OpenAI-compatible transcription call: a
/// non-blank configured base URL wins; otherwise the provider's well-known
/// endpoint; a provider without one either demands a base URL
/// (`openai-compatible`) or is unsupported.
pub fn resolve_transcription_url(provider: &str, base_url: Option<&str>) -> (r: UrlResolution)
    ensures
        match r {
            UrlResolution::Resolved { url } => {
                if custom_base_applies(base_url) {
                    url@ == base_resolved_url(base_view(base_url))
                } else {
                    provider_url_spec(provider@) == Some(url@)
                }
            },
            UrlResolution::BaseUrlRequired => !custom_base_applies(base_url) && provider@
                == "openai-compatible"@,
            UrlResolution::UnsupportedProvider => !custom_base_applies(base_url) && provider@
                != "openai-compatible"@ && provider_url_spec(provider@) is None,
        },
{
    match base_url {
        Some(b) => {
            let bc: Vec<char> = chars_of(b);
            if !is_blank(&bc) {
                let t: Vec<char> = strip_trailing_slashes(&bc);
                let url: String = append_chat_path(&t);
                return UrlResolution::Resolved { url };
            }
        },
        None => {},
    }
    if str_eq(provider, "openrouter") {
        UrlResolution::Resolved {
            url: String::from_str("https://openrouter.ai/api/v1/chat/completions"),
        }
    } else if str_eq(provider, "302ai") {
        UrlResolution::Resolved { url: String::from_str("https://api.302.ai/v1/chat/completions") }
    } else if str_eq(provider, "moonshot") {
        UrlResolution::Resolved {
            url: String::from_str("https://api.moonshot.cn/v1/chat/completions"),
        }
    } else if str_eq(provider, "openai") {
        UrlResolution::Resolved { url: String::from_str("https://api.openai.com/v1/chat/completions") }
    } else if str_eq(provider, "openai-compatible") {
        UrlResolution::BaseUrlRequired
    } else {
        UrlResolution::UnsupportedProvider
    }
}

/// Whether a configured base URL is present and not blank.
pub open spec fn custom_base_applies(base_url: Option<&str>) -> bool {
    match base_url {
        Some(b) => crate::text::trimmed(b@).len() != 0,
        None => false,
    }
}

/// The configured base URL's characters (empty when absent).
pub open spec fn base_view(base_url: Option<&str>) -> Seq<char> {
    match base_url {
        Some(b) => b@,
        None => Seq::empty(),
    }
}

/// Drop every trailing slash.
fn strip_trailing_slashes(s: &Vec<char>) -> (r: Vec<char>)
    ensures
        r@ == strip_trailing(s@, '/'),
{
    let mut hi: usize = s.len();
    proof {
        assert(s@.take(s@.len() as int) =~= s@);
    }
    while hi > 0 && s[hi - 1] == '/'
        invariant
            hi <= s@.len(),
            strip_trailing(s@.take(hi as int), '/') == strip_trailing(s@, '/'),
        decreases hi,
    {
        proof {
            assert(s@.take(hi as int).last() == s@[hi - 1]);
            assert(s@.take(hi as int).drop_last() =~= s@.take(hi - 1));
        }
        hi = hi - 1;
    }
    proof {
        assert(strip_trailing(s@.take(hi as int), '/') == s@.take(hi as int));
    }
    subvec(s, 0, hi)
}

/// Append `/chat/completions` unless the URL already ends with it.
fn append_chat_path(t: &Vec<char>) -> (r: String)
    ensures
        r@ == (if ends_with(t@, "/chat/completions"@) {
            t@
        } else {
            t@ + "/chat/completions"@
        }),
{
    let pat: Vec<char> = chars_of("/chat/completions");
    let n: usize = t.len();
    let m: usize = pat.len();
    let has: bool = if m <= n {
        let r = eq_at(t, &pat, n - m);
        proof {
            if r {
                assert(t@.skip(n - m as int) =~= t@.subrange(n - m as int, n as int));
            } else {
                assert(t@.subrange(n - m as int, n as int) =~= t@.skip(n - m as int));
            }
        }
        r
    } else {
        false
    };
    if has {
        string_from_chars(t)
    } else {
        let mut out: String = string_from_chars(t);
        out.append("/chat/completions");
        out
    }
}

/// The Google-style request URL: endpoint, model (with one leading
/// `models/` stripped), the generate-content action and the API key.
pub open spec fn google_url_spec(model: Seq<char>, api_key: Seq<char>) -> Seq<char> {
    let stripped = if model.len() >= "models/"@.len() && model.take("models/"@.len() as int)
        == "models/"@ {
        model.skip("models/"@.len() as int)
    } else {
        model
    };
    "https://generativelanguage.googleapis.com/v1beta/models"@ + "/"@ + stripped
        + ":generateContent?key="@ + api_key
}

/// Build the Google-style request URL.
pub fn google_request_url(model: &str, api_key: &str) -> (r: String)
    ensures
        r@ == google_url_spec(model@, api_key@),
{
    let mc: Vec<char> = chars_of(model);
    let pat: Vec<char> = chars_of("models/");
    let n: usize = mc.len();
    let m: usize = pat.len();
    let stripped: Vec<char> = if m <= n && eq_at(&mc, &pat, 0) {
        proof {
            assert(mc@.subrange(0, m as int) =~= mc@.take(m as int));
        }
        let v = subvec(&mc, m, n);
        proof {
            assert(v@ =~= mc@.skip(m as int));
        }
        v
    } else {
        proof {
            if m <= n {
                assert(mc@.take(m as int) =~= mc@.subrange(0, m as int));
            }
        }
        subvec(&mc, 0, n)
    };
    let mut out: String = String::from_str(
        "https://generativelanguage.googleapis.com/v1beta/models",
    );
    out.append("/");
    let stripped_str: String = string_from_chars(&stripped);
    out.append(stripped_str.as_str());
    out.append(":generateContent?key=");
    out.append(api_key);
    proof {
        if !(m <= n && mc@.take(m as int) == pat@) {
            assert(stripped@ =~= mc@);
        }
    }
    out
}

/// The message content inside an OpenAI-style response body (the first
/// choice's message content, an empty string when that field is not a
/// string), or nothing when the body is not JSON.  A pure function of the
/// body text.
pub uninterp spec fn openai_content_of(body: Seq<char>) -> Option<Seq<char>>;

/// Relies on `serde_json::from_str::<Value>`, `Value::pointer` and
/// `Value::as_str`: reads `choices[0].message.content` from the response
/// body, an empty string when the field is missing or not a string, and
/// reports a body that is not JSON.
#[verifier::external_body]
pub fn openai_message_content(body: &str) -> (r: Option<String>)
    ensures
        r is Some <==> openai_content_of(body@) is Some,
        r matches Some(s) ==> openai_content_of(body@) == Some(s@),
{
    match serde_json::from_str::<Value>(body) {
        Ok(v) => Some(
            v.pointer("/choices/0/message/content").and_then(Value::as_str).unwrap_or("").to_string(),
        ),
        Err(_) => None,
    }
}

/// The message content inside a Google-style response body (the first
/// candidate's first part text, an empty string when that field is not a
/// string), or nothing when the body is not JSON.  A pure function of the
/// body text.
pub uninterp spec fn google_content_of(body: Seq<char>) -> Option<Seq<char>>;

/// Relies on `serde_json::from_str::<Value>`, `Value::pointer` and
/// `Value::as_str`: reads `candidates[0].content.parts[0].text` from the
/// response body, an empty string when the field is missing or not a
/// string, and reports a body that is not JSON.
#[verifier::external_body]
pub fn google_message_content(body: &str) -> (r: Option<String>)
    ensures
        r is Some <==> google_content_of(body@) is Some,
        r matches Some(s) ==> google_content_of(body@) == Some(s@),
{
    match serde_json::from_str::<Value>(body) {
        Ok(v) => Some(
            v.pointer("/candidates/0/content/parts/0/text")
                .and_then(Value::as_str)
                .unwrap_or("")
                .to_string(),
        ),
        Err(_) => None,
    }
}

} // verus!

//! LiteLLM proxy settings: the defaults read at start-up and the screening
//! of an operator's update (length caps and the SSRF guard on the base URL).
use vstd::prelude::*;

use crate::text::{chars_of, opt_chars, str_eq, trim, trim_bounds};

verus! {

/// Longest base URL accepted, in bytes.
pub const MAX_BASE_URL_BYTES: usize = 512;

/// Longest model name accepted, in bytes.
pub const MAX_MODEL_BYTES: usize = 256;

/// The byte length of a string (its UTF-8 encoding's length).
pub open spec fn byte_len(s: Seq<char>) -> usize {
    vstd::utf8::encode_utf8(s).len() as usize
}

/// The settings of the proxy the shell talks to.
#[derive(Debug, Clone, PartialEq, Eq)]
pub struct LitellmSettings {
    pub base_url: String,
    pub api_key: String,
    pub model: String,
}

fn or_default(v: Option<String>, d: &str) -> (r: String)
    ensures
        r@ == match v {
            Some(s) => s@,
            None => d@,
        },
{
    match v {
        Some(s) => s,
        None => String::from_str(d),
    }
}

/// The settings from the three environment values, each falling back to
/// its local default: `http://localhost:4000`, `la-local-dev`, `local-llama`.
pub fn settings_from(base_url: Option<String>, api_key: Option<String>, model: Option<String>) -> (s:
    LitellmSettings)
    ensures
        s.base_url@ == match base_url {
            Some(b) => b@,
            None => "http://localhost:4000"@,
        },
        s.api_key@ == match api_key {
            Some(k) => k@,
            None => "la-local-dev"@,
        },
        s.model@ == match model {
            Some(m) => m@,
            None => "local-llama"@,
        },
{
    LitellmSettings {
        base_url: or_default(base_url, "http://localhost:4000"),
        api_key: or_default(api_key, "la-local-dev"),
        model: or_default(model, "local-llama"),
    }
}

/// Whether a key is stored: the key is not empty.
pub fn has_key(api_key: &str) -> (b: bool)
    ensures
        b == (api_key@.len() > 0),
{
    chars_of(api_key).len() > 0
}

/// The parts of a parsed URL that the guard reads: its scheme and its host.
pub uninterp spec fn url_parts_of(s: Seq<char>) -> Result<(Seq<char>, Option<Seq<char>>), Seq<char>>;

pub open spec fn parts_view(r: Result<(String, Option<String>), String>) -> Result<
    (Seq<char>, Option<Seq<char>>),
    Seq<char>,
> {
    match r {
        Ok((scheme, host)) => Ok((scheme@, opt_chars(host))),
        Err(e) => Err(e@),
    }
}

/// `url::Url::parse(s)`, then its `scheme()` and `host_str()`; on failure
/// the parse error's message.  Claimed of it: the result is a function of
/// `s` alone, named `url_parts_of`.
#[verifier::external_body]
fn url_parts(s: &str) -> (r: Result<(String, Option<String>), String>)
    ensures
        parts_view(r) == url_parts_of(s@),
{
    match url::Url::parse(s) {
        Ok(u) => Ok((u.scheme().to_string(), u.host_str().map(|h| h.to_string()))),
        Err(e) => Err(e.to_string()),
    }
}

/// The hosts that plain `http` may name.
pub open spec fn loopback_host(h: Seq<char>) -> bool {
    h == "127.0.0.1"@ || h == "localhost"@ || h == "::1"@ || h == "[::1]"@
}

/// The refusal of a parsed base URL, if any: `https` to any host passes,
/// `http` only to a loopback host, and any other scheme is refused.
pub open spec fn url_refusal(parts: Result<(Seq<char>, Option<Seq<char>>), Seq<char>>) -> Option<
    Seq<char>,
> {
    match parts {
        Err(e) => Some("invalid base_url: "@ + e),
        Ok((scheme, host)) => if scheme == "https"@ {
            None
        } else if scheme == "http"@ {
            let h = match host {
                Some(h) => h,
                None => Seq::empty(),
            };
            if loopback_host(h) {
                None
            } else {
                Some("http base_url only permitted for localhost; use https for remote proxies"@)
            }
        } else {
            Some("unsupported scheme '"@ + scheme + "' — use https or http://localhost"@)
        },
    }
}

pub open spec fn err_view(r: Result<(), String>) -> Option<Seq<char>> {
    match r {
        Ok(_) => None,
        Err(e) => Some(e@),
    }
}

/// Screen the parts of a parsed base URL.
pub fn screen_url_parts(parts: Result<(String, Option<String>), String>) -> (r: Result<(), String>)
    ensures
        err_view(r) == url_refusal(parts_view(parts)),
{
    match parts {
        Err(e) => Err(String::from_str("invalid base_url: ").concat(e.as_str())),
        Ok((scheme, host)) => {
            if str_eq(scheme.as_str(), "https") {
                Ok(())
            } else if str_eq(scheme.as_str(), "http") {
                let h = match host {
                    Some(h) => h,
                    None => String::new(),
                };
                if str_eq(h.as_str(), "127.0.0.1") || str_eq(h.as_str(), "localhost") || str_eq(
                    h.as_str(),
                    "::1",
                ) || str_eq(h.as_str(), "[::1]") {
                    Ok(())
                } else {
                    Err(
                        String::from_str(
                            "http base_url only permitted for localhost; use https for remote proxies",
                        ),
                    )
                }
            } else {
                Err(
                    String::from_str("unsupported scheme '").concat(scheme.as_str()).concat(
                        "' — use https or http://localhost",
                    ),
                )
            }
        },
    }
}

/// The refusal of a base URL: over 512 bytes, else what the guard says of
/// its parse.
pub open spec fn base_url_refusal(s: Seq<char>) -> Option<Seq<char>> {
    if byte_len(s) > MAX_BASE_URL_BYTES {
        Some("base_url exceeds 512-byte limit"@)
    } else {
        url_refusal(url_parts_of(s))
    }
}

/// Screen a base URL: the length cap, then the SSRF guard.
pub fn validate_base_url(base_url: &str) -> (r: Result<(), String>)
    ensures
        err_view(r) == base_url_refusal(base_url@),
{
    if base_url.len() > MAX_BASE_URL_BYTES {
        return Err(String::from_str("base_url exceeds 512-byte limit"));
    }
    screen_url_parts(url_parts(base_url))
}

/// An operator's update of the settings.
#[derive(Debug, Clone)]
pub struct ConfigUpdateRequest {
    pub base_url: String,
    pub api_key: String,
    pub model: String,
}

/// The refusal of an update (all 400): an empty key (after trimming),
/// then the base URL's length, the model's length, and the URL guard.
pub open spec fn update_refusal(base_url: Seq<char>, api_key: Seq<char>, model: Seq<char>) -> Option<
    Seq<char>,
> {
    if trim(api_key).len() == 0 {
        Some("api_key must not be empty"@)
    } else if byte_len(base_url) > MAX_BASE_URL_BYTES {
        Some("base_url exceeds 512-byte limit"@)
    } else if byte_len(model) > MAX_MODEL_BYTES {
        Some("model exceeds 256-byte limit"@)
    } else {
        url_refusal(url_parts_of(base_url))
    }
}

/// Screen an update before the key is stored.
pub fn validate_config_update(req: &ConfigUpdateRequest) -> (r: Result<(), String>)
    ensures
        err_view(r) == update_refusal(req.base_url@, req.api_key@, req.model@),
{
    let key = chars_of(req.api_key.as_str());
    let (lo, hi) = trim_bounds(&key);
    if lo >= hi {
        return Err(String::from_str("api_key must not be empty"));
    }
    if req.base_url.as_str().len() > MAX_BASE_URL_BYTES {
        return Err(String::from_str("base_url exceeds 512-byte limit"));
    }
    if req.model.as_str().len() > MAX_MODEL_BYTES {
        return Err(String::from_str("model exceeds 256-byte limit"));
    }
    screen_url_parts(url_parts(req.base_url.as_str()))
}

} // verus!

use lightarchitects_webshell::litellm::{
    has_key, settings_from, validate_base_url, validate_config_update, ConfigUpdateRequest,
};

#[test]
fn ssrf_guard_accepts_https_any_host() {
    assert!(validate_base_url("https://litellm.example.com").is_ok());
    assert!(validate_base_url("https://api.openai.com/v1").is_ok());
    assert!(validate_base_url("https://10.0.0.1:4000").is_ok());
}

#[test]
fn ssrf_guard_accepts_http_localhost_variants() {
    assert!(validate_base_url("http://localhost:4000").is_ok());
    assert!(validate_base_url("http://127.0.0.1:4000").is_ok());
    assert!(validate_base_url("http://localhost").is_ok());
    assert!(validate_base_url("http://[::1]:4000").is_ok());
}

#[test]
fn ssrf_guard_rejects_http_remote_host() {
    assert!(validate_base_url("http://litellm.example.com").is_err());
    assert!(validate_base_url("http://10.0.0.1").is_err());
    assert!(validate_base_url("http://169.254.169.254/metadata").is_err());
    assert_eq!(
        validate_base_url("http://10.0.0.1"),
        Err("http base_url only permitted for localhost; use https for remote proxies".to_string())
    );
}

#[test]
fn ssrf_guard_rejects_non_http_schemes() {
    assert!(validate_base_url("ftp://example.com").is_err());
    assert!(validate_base_url("file:///etc/passwd").is_err());
    assert!(validate_base_url("javascript:alert(1)").is_err());
    assert_eq!(
        validate_base_url("ftp://example.com"),
        Err("unsupported scheme 'ftp' — use https or http://localhost".to_string())
    );
}

#[test]
fn ssrf_guard_rejects_malformed_url() {
    assert!(validate_base_url("not_a_url").is_err());
    assert!(validate_base_url("").is_err());
    assert!(validate_base_url("not_a_url").unwrap_err().starts_with("invalid base_url: "));
}

#[test]
fn length_cap_rejects_oversized_base_url() {
    let oversized = format!("https://example.com/{}", "a".repeat(500));
    assert_eq!(validate_base_url(&oversized), Err("base_url exceeds 512-byte limit".to_string()));
}

#[test]
fn from_env_defaults_to_localhost() {
    let cfg = settings_from(None, None, None);
    assert!(!cfg.base_url.is_empty());
    assert!(!cfg.model.is_empty());
    assert_eq!(cfg.base_url, "http://localhost:4000");
    assert_eq!(cfg.api_key, "la-local-dev");
    assert_eq!(cfg.model, "local-llama");
    let set = settings_from(Some("https://p".into()), Some("k".into()), Some("m".into()));
    assert_eq!((set.base_url.as_str(), set.api_key.as_str(), set.model.as_str()), ("https://p", "k", "m"));
}

#[test]
fn default_config_has_key_false_when_empty() {
    assert!(!has_key(""));
    assert!(has_key("sk-real-secret"));
}

#[test]
fn update_is_screened_in_order() {
    let req = |b: &str, k: &str, m: &str| ConfigUpdateRequest {
        base_url: b.to_string(),
        api_key: k.to_string(),
        model: m.to_string(),
    };
    assert_eq!(
        validate_config_update(&req("ftp://x", "  \t", "m")),
        Err("api_key must not be empty".to_string())
    );
    assert_eq!(
        validate_config_update(&req("https://x", "k", &"m".repeat(257))),
        Err("model exceeds 256-byte limit".to_string())
    );
    assert_eq!(validate_config_update(&req("https://x", "k", "gpt-4o")), Ok(()));
}

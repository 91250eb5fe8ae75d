use moltis_work::telemetry::{build_langfuse_traces_endpoint, build_langfuse_tracing, langfuse_headers, LangfuseSettings};

fn header<'a>(headers: &'a [(String, String)], name: &str) -> Option<&'a str> {
    headers.iter().find(|(key, _)| key == name).map(|(_, value)| value.as_str())
}

#[test]
fn builds_langfuse_traces_endpoint() {
    assert_eq!(
        build_langfuse_traces_endpoint("https://cloud.langfuse.com/"),
        "https://cloud.langfuse.com/api/public/otel/v1/traces"
    );
}

#[test]
fn langfuse_headers_include_basic_auth_and_ingestion_version() {
    let headers = langfuse_headers("pk", "sk");
    assert_eq!(header(&headers, "Authorization"), Some("Basic cGs6c2s="));
    assert_eq!(header(&headers, "x-langfuse-ingestion-version"), Some("4"));
}

#[test]
fn disabled_langfuse_returns_none() {
    let settings = LangfuseSettings::default();
    assert!(build_langfuse_tracing(&settings).expect("ok").is_none());
}

#[test]
fn enabled_langfuse_requires_credentials() {
    let settings = LangfuseSettings {
        enabled: true,
        host: Some("https://cloud.langfuse.com".to_string()),
        ..LangfuseSettings::default()
    };
    let error = build_langfuse_tracing(&settings).expect_err("should fail");
    assert!(error.message().contains("public_key"));
}

#[test]
fn endpoint_trims_space_and_every_trailing_slash() {
    assert_eq!(build_langfuse_traces_endpoint("  http://localhost:3000///  "), "http://localhost:3000/api/public/otel/v1/traces");
    assert_eq!(build_langfuse_traces_endpoint(""), "/api/public/otel/v1/traces");
}

#[test]
fn blank_host_and_missing_secret_are_refused() {
    let blank = LangfuseSettings { enabled: true, host: Some("   ".to_string()), ..LangfuseSettings::default() };
    assert!(build_langfuse_tracing(&blank).expect_err("blank host").message().contains("host"));
    let no_secret = LangfuseSettings {
        enabled: true,
        host: Some("https://cloud.langfuse.com".to_string()),
        public_key: Some("pk".to_string()),
        ..LangfuseSettings::default()
    };
    assert!(build_langfuse_tracing(&no_secret).expect_err("no secret").message().contains("secret_key"));
}

#[test]
fn complete_settings_give_endpoint_headers_and_environment() {
    let settings = LangfuseSettings {
        enabled: true,
        host: Some(" https://eu.langfuse.com/ ".to_string()),
        public_key: Some("public".to_string()),
        secret_key: Some("secret".to_string()),
        environment: Some("  staging ".to_string()),
    };
    let tracing = build_langfuse_tracing(&settings).expect("ok").expect("enabled");
    assert_eq!(tracing.endpoint, "https://eu.langfuse.com/api/public/otel/v1/traces");
    assert_eq!(header(&tracing.headers, "Authorization"), Some("Basic cHVibGljOnNlY3JldA=="));
    assert_eq!(tracing.environment.as_deref(), Some("staging"));
    let blank_env = LangfuseSettings { environment: Some("  ".to_string()), ..settings };
    assert!(build_langfuse_tracing(&blank_env).expect("ok").expect("enabled").environment.is_none());
}

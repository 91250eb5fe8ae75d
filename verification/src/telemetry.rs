//! Settings for exporting traces to Langfuse over OTLP: the endpoint, the
//! authentication headers and the checks on the configuration.  Building the
//! exporter and installing it is the caller's part.

use base64::Engine;
use vstd::prelude::*;

use crate::error::WorkError;
use crate::text::{chars_of, pop_trailing, push_str, string_from_chars, strip_trailing, trim, trim_chars};

verus! {

/// The standard base64 encoding, with padding, of the UTF-8 bytes of a
/// text.
pub uninterp spec fn base64_of_text(text: Seq<char>) -> Seq<char>;

/// `base64::engine::general_purpose::STANDARD.encode` on the text's bytes:
/// the standard alphabet with `=` padding.  What the encoding gives is named
/// by `base64_of_text`, not restated.  (Its length computation cannot
/// overflow for a text that fits in memory.)
#[verifier::external_body]
fn base64_encode(text: &str) -> (r: String)
    ensures
        r@ == base64_of_text(text@),
{
    base64::engine::general_purpose::STANDARD.encode(text)
}

/// The path of Langfuse's OTLP trace intake.
pub open spec fn traces_path() -> Seq<char> {
    "/api/public/otel/v1/traces"@
}

/// The trace endpoint of a host: the host trimmed, without trailing
/// slashes, followed by the intake path.
pub open spec fn endpoint_spec(host: Seq<char>) -> Seq<char> {
    strip_trailing(trim(host), '/') + traces_path()
}

/// The endpoint traces are sent to for a Langfuse host.
pub fn build_langfuse_traces_endpoint(host: &str) -> (r: String)
    ensures
        r@ == endpoint_spec(host@),
{
    let mut out = trim_chars(&chars_of(host));
    pop_trailing(&mut out, '/');
    push_str(&mut out, "/api/public/otel/v1/traces");
    string_from_chars(out.as_slice())
}

/// The headers sent with traces, for an encoded credential pair.
pub open spec fn headers_spec(auth: Seq<char>) -> Seq<(Seq<char>, Seq<char>)> {
    seq![("Authorization"@, "Basic "@ + auth), ("x-langfuse-ingestion-version"@, "4"@)]
}

/// The texts of header pairs.
pub open spec fn header_views(h: Seq<(String, String)>) -> Seq<(Seq<char>, Seq<char>)> {
    h.map_values(|p: (String, String)| (p.0@, p.1@))
}

/// The credential pair as it is encoded: `public:secret`.
pub open spec fn credentials(public_key: Seq<char>, secret_key: Seq<char>) -> Seq<char> {
    public_key + ":"@ + secret_key
}

/// The headers for an encoded credential pair: basic authentication and
/// the ingestion version.
pub fn langfuse_auth_headers(auth: &str) -> (r: Vec<(String, String)>)
    ensures
        header_views(r@) == headers_spec(auth@),
{
    let mut value: Vec<char> = Vec::new();
    push_str(&mut value, "Basic ");
    push_str(&mut value, auth);
    let mut r: Vec<(String, String)> = Vec::new();
    r.push((crate::text::owned("Authorization"), string_from_chars(value.as_slice())));
    r.push((crate::text::owned("x-langfuse-ingestion-version"), crate::text::owned("4")));
    assert(header_views(r@) =~= headers_spec(auth@));
    r
}

/// The headers that authenticate trace exports with a key pair.
pub fn langfuse_headers(public_key: &str, secret_key: &str) -> (r: Vec<(String, String)>)
    ensures
        header_views(r@) == headers_spec(base64_of_text(credentials(public_key@, secret_key@))),
{
    let mut pair: Vec<char> = Vec::new();
    push_str(&mut pair, public_key);
    push_str(&mut pair, ":");
    push_str(&mut pair, secret_key);
    let text = string_from_chars(pair.as_slice());
    let auth = base64_encode(text.as_str());
    langfuse_auth_headers(auth.as_str())
}

/// The Langfuse part of the metrics configuration.
#[derive(Debug, Clone, Default)]
pub struct LangfuseSettings {
    pub enabled: bool,
    pub host: Option<String>,
    pub public_key: Option<String>,
    pub secret_key: Option<String>,
    pub environment: Option<String>,
}

/// Where and how traces are exported.
#[derive(Debug, Clone)]
pub struct LangfuseTracing {
    pub endpoint: String,
    pub headers: Vec<(String, String)>,
    pub environment: Option<String>,
}

/// An optional setting, trimmed, when something is left of it.
pub open spec fn nonblank(o: Option<String>) -> Option<Seq<char>> {
    match o {
        Some(s) => if trim(s@).len() > 0 {
            Some(trim(s@))
        } else {
            None
        },
        None => None,
    }
}

fn nonblank_of(o: &Option<String>) -> (r: Option<String>)
    ensures
        match r {
            Some(s) => nonblank(*o) == Some(s@),
            None => nonblank(*o) is None,
        },
{
    match o {
        Some(s) => {
            let t = trim_chars(&chars_of(s.as_str()));
            if t.len() > 0 {
                Some(string_from_chars(t.as_slice()))
            } else {
                None
            }
        },
        None => None,
    }
}

/// Checks the Langfuse settings and works out the export: nothing when
/// disabled; otherwise a host that is not blank and both keys are required.
pub fn build_langfuse_tracing(settings: &LangfuseSettings) -> (r: Result<Option<LangfuseTracing>, WorkError>)
    ensures
        !settings.enabled ==> r matches Ok(None),
        settings.enabled && nonblank(settings.host) is None ==> (r matches Err(e) && e is LangfuseHostMissing),
        settings.enabled && nonblank(settings.host) is Some && settings.public_key is None ==> (r matches Err(e)
            && e is LangfusePublicKeyMissing),
        settings.enabled && nonblank(settings.host) is Some && settings.public_key is Some
            && settings.secret_key is None ==> (r matches Err(e) && e is LangfuseSecretKeyMissing),
        settings.enabled && nonblank(settings.host) is Some && settings.public_key is Some
            && settings.secret_key is Some ==> (r matches Ok(Some(t)) && t.endpoint@ == endpoint_spec(
            nonblank(settings.host)->0,
        ) && header_views(t.headers@) == headers_spec(
            base64_of_text(credentials(settings.public_key->0@, settings.secret_key->0@)),
        ) && match t.environment {
            Some(e) => nonblank(settings.environment) == Some(e@),
            None => nonblank(settings.environment) is None,
        }),
{
    if !settings.enabled {
        return Ok(None);
    }
    let host = match nonblank_of(&settings.host) {
        Some(h) => h,
        None => return Err(WorkError::LangfuseHostMissing),
    };
    let public_key = match &settings.public_key {
        Some(k) => k,
        None => return Err(WorkError::LangfusePublicKeyMissing),
    };
    let secret_key = match &settings.secret_key {
        Some(k) => k,
        None => return Err(WorkError::LangfuseSecretKeyMissing),
    };
    let endpoint = build_langfuse_traces_endpoint(host.as_str());
    let headers = langfuse_headers(public_key.as_str(), secret_key.as_str());
    let environment = nonblank_of(&settings.environment);
    Ok(Some(LangfuseTracing { endpoint, headers, environment }))
}

} // verus!

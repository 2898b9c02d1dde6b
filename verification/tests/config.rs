use audit_http::config::{
    default_max_batch_events, default_max_retries, default_retry_backoff_ms, default_timeout_ms,
};
use audit_http::{ConfigError, ConfigFields, HttpSinkConfig};
use serde::de::{Deserialize, Deserializer, Error, MapAccess, Visitor};

const FIELDS: &[&str] = &[
    "url",
    "token",
    "timeout_ms",
    "max_retries",
    "retry_backoff_ms",
    "max_batch_events",
];

/// The JSON object that a configuration is written as.
struct Wire(ConfigFields);

struct WireVisitor;

impl<'de> Visitor<'de> for WireVisitor {
    type Value = Wire;

    fn expecting(&self, f: &mut std::fmt::Formatter<'_>) -> std::fmt::Result {
        f.write_str("struct HttpSinkConfig")
    }

    fn visit_map<A: MapAccess<'de>>(self, mut map: A) -> Result<Wire, A::Error> {
        let mut seen: Vec<String> = Vec::new();
        let mut url: Option<String> = None;
        let mut fields = ConfigFields {
            url: String::new(),
            token: None,
            timeout_ms: None,
            max_retries: None,
            retry_backoff_ms: None,
            max_batch_events: None,
        };
        while let Some(key) = map.next_key::<String>()? {
            if seen.contains(&key) {
                return Err(Error::custom(format!("duplicate field `{key}`")));
            }
            match key.as_str() {
                "url" => url = Some(map.next_value()?),
                "token" => fields.token = map.next_value()?,
                "timeout_ms" => fields.timeout_ms = Some(map.next_value()?),
                "max_retries" => fields.max_retries = Some(map.next_value()?),
                "retry_backoff_ms" => fields.retry_backoff_ms = Some(map.next_value()?),
                "max_batch_events" => fields.max_batch_events = Some(map.next_value()?),
                _ => return Err(Error::unknown_field(&key, FIELDS)),
            }
            seen.push(key);
        }
        fields.url = url.ok_or_else(|| Error::missing_field("url"))?;
        Ok(Wire(fields))
    }
}

impl<'de> Deserialize<'de> for Wire {
    fn deserialize<D: Deserializer<'de>>(deserializer: D) -> Result<Wire, D::Error> {
        deserializer.deserialize_struct("HttpSinkConfig", FIELDS, WireVisitor)
    }
}

fn decode(text: &str) -> Result<ConfigFields, String> {
    match serde_json::from_str::<Wire>(text) {
        Ok(wire) => Ok(wire.0),
        Err(e) => Err(e.to_string()),
    }
}

fn parse(text: &str) -> Result<HttpSinkConfig, ConfigError> {
    HttpSinkConfig::parse(text, decode)
}

fn config(url: &str) -> HttpSinkConfig {
    HttpSinkConfig {
        url: url.to_owned(),
        token: None,
        timeout_ms: 2_000,
        max_retries: 1,
        retry_backoff_ms: 10,
        max_batch_events: 256,
    }
}

fn fault(cfg: &HttpSinkConfig) -> String {
    match cfg.validate() {
        Ok(()) => "valid".to_owned(),
        Err(ConfigError::Invalid(text)) => text,
    }
}

#[test]
fn minimal_config_parses_with_defaults() {
    let cfg = parse(r#"{"url":"https://c.example/v1/audit"}"#).unwrap();
    assert_eq!(cfg.timeout_ms, 5_000);
    assert_eq!(cfg.max_retries, 2);
    assert_eq!(cfg.max_batch_events, 256);
    assert!(cfg.token.is_none());
    assert_eq!(cfg.retry_backoff_ms, 250);
    assert_eq!(cfg.url, "https://c.example/v1/audit");
}

#[test]
fn non_http_url_is_refused() {
    assert!(parse(r#"{"url":"ftp://c.example"}"#).is_err());
}

#[test]
fn unknown_fields_are_refused() {
    assert!(parse(r#"{"url":"https://c","linger_ms":5}"#).is_err());
}

#[test]
fn every_field_can_be_set() {
    let cfg = parse(
        r#"{"url":"http://c","token":"t","timeout_ms":1,"max_retries":0,"retry_backoff_ms":7,"max_batch_events":1}"#,
    )
    .unwrap();
    assert_eq!(cfg.url, "http://c");
    assert_eq!(cfg.token.as_deref(), Some("t"));
    assert_eq!(cfg.timeout_ms, 1);
    assert_eq!(cfg.max_retries, 0);
    assert_eq!(cfg.retry_backoff_ms, 7);
    assert_eq!(cfg.max_batch_events, 1);
}

#[test]
fn decoding_errors_keep_their_text() {
    let ConfigError::Invalid(text) = parse("{}").unwrap_err();
    assert_eq!(text, "missing field `url` at line 1 column 2");
}

#[test]
fn the_decoder_is_given_the_text() {
    let decoded = HttpSinkConfig::parse("some text", |text: &str| Err(format!("<{text}>")));
    let ConfigError::Invalid(text) = decoded.unwrap_err();
    assert_eq!(text, "<some text>");
}

#[test]
fn defaults_are_those_of_the_table() {
    assert_eq!(default_timeout_ms(), 5_000);
    assert_eq!(default_max_retries(), 2);
    assert_eq!(default_retry_backoff_ms(), 250);
    assert_eq!(default_max_batch_events(), 256);
}

#[test]
fn both_schemes_are_accepted() {
    assert_eq!(fault(&config("http://c")), "valid");
    assert_eq!(fault(&config("https://c")), "valid");
    assert_eq!(fault(&config("http://")), "valid");
}

#[test]
fn other_urls_are_named_in_the_fault() {
    assert_eq!(
        fault(&config("ftp://c.example")),
        "`url` must be http(s)://, got `ftp://c.example`"
    );
    assert_eq!(fault(&config("")), "`url` must be http(s)://, got ``");
    assert_eq!(fault(&config("http:/")), "`url` must be http(s)://, got `http:/`");
    assert_eq!(fault(&config("HTTP://c")), "`url` must be http(s)://, got `HTTP://c`");
}

#[test]
fn zero_ceiling_and_zero_timeout_are_refused() {
    let mut cfg = config("http://c");
    cfg.timeout_ms = 0;
    assert_eq!(fault(&cfg), "`timeout_ms` must be non-zero");
    cfg.max_batch_events = 0;
    assert_eq!(fault(&cfg), "`max_batch_events` must be at least 1");
    cfg.url = "c".to_owned();
    assert_eq!(fault(&cfg), "`url` must be http(s)://, got `c`");
}

#[test]
fn errors_are_shown_with_their_origin() {
    let error = ConfigError::Invalid("x".to_owned());
    assert_eq!(error.message(), "invalid audit.http config: x");
}

#[test]
fn an_empty_token_is_no_token() {
    let mut cfg = config("http://c");
    assert_eq!(cfg.bearer(), None);
    cfg.token = Some(String::new());
    assert_eq!(cfg.bearer(), None);
    cfg.token = Some("sekret".to_owned());
    assert_eq!(cfg.bearer().as_deref(), Some("sekret"));
    assert_eq!(cfg.clone().bearer().as_deref(), Some("sekret"));
}

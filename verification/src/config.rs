//! Operator-supplied configuration of `dev.mcpg.audit.http`.
//!
//! ```yaml
//! plugins:
//!   - id: dev.mcpg.audit.http
//!     config:
//!       url: https://collector.example/v1/audit
//!       token: ${env.AUDIT_COLLECTOR_TOKEN}   # optional bearer
//! ```

use crate::text::{has_prefix, join};
use vstd::prelude::*;

verus! {

/// Where and how batches are shipped.
#[derive(Debug)]
pub struct HttpSinkConfig {
    /// Collector endpoint. Every batch is one `POST` of a JSON array of audit
    /// records; any 2xx answer commits the batch.
    pub url: String,
    /// Bearer token for the `Authorization` header. Absent or empty means that
    /// no such header is sent.
    pub token: Option<String>,
    /// Per-attempt request timeout.
    pub timeout_ms: u64,
    /// Retries after the first attempt, for 429, 5xx and transport errors only.
    pub max_retries: u32,
    /// Backoff before the first retry, doubled for each further one.
    pub retry_backoff_ms: u64,
    /// Ceiling on events per batch.
    pub max_batch_events: usize,
}

/// The mathematical content of an [`HttpSinkConfig`].
pub struct ConfigView {
    pub url: Seq<char>,
    pub token: Option<Seq<char>>,
    pub timeout_ms: u64,
    pub max_retries: u32,
    pub retry_backoff_ms: u64,
    pub max_batch_events: usize,
}

impl View for HttpSinkConfig {
    type V = ConfigView;

    open spec fn view(&self) -> ConfigView {
        ConfigView {
            url: self.url@,
            token: match self.token {
                Some(token) => Some(token@),
                None => None,
            },
            timeout_ms: self.timeout_ms,
            max_retries: self.max_retries,
            retry_backoff_ms: self.retry_backoff_ms,
            max_batch_events: self.max_batch_events,
        }
    }
}

impl ConfigView {
    /// The endpoint is reached over http or https.
    pub open spec fn http_url(self) -> bool {
        "http://"@.is_prefix_of(self.url) || "https://"@.is_prefix_of(self.url)
    }

    /// A sink may run with this configuration.
    pub open spec fn valid(self) -> bool {
        &&& self.http_url()
        &&& self.max_batch_events >= 1
        &&& self.timeout_ms >= 1
    }

    /// What is wrong with an invalid configuration: the first fault in the
    /// order endpoint, batch ceiling, timeout.
    pub open spec fn fault(self) -> Seq<char> {
        if !self.http_url() {
            "`url` must be http(s)://, got `"@ + self.url + "`"@
        } else if self.max_batch_events == 0 {
            "`max_batch_events` must be at least 1"@
        } else {
            "`timeout_ms` must be non-zero"@
        }
    }

    /// The token sent in the `Authorization` header, if one is.
    pub open spec fn bearer(self) -> Option<Seq<char>> {
        match self.token {
            Some(token) => if token.len() == 0 {
                None
            } else {
                Some(token)
            },
            None => None,
        }
    }
}

/// The fields that the operator set. Only the endpoint has to be.
#[derive(Debug)]
pub struct ConfigFields {
    pub url: String,
    pub token: Option<String>,
    pub timeout_ms: Option<u64>,
    pub max_retries: Option<u32>,
    pub retry_backoff_ms: Option<u64>,
    pub max_batch_events: Option<usize>,
}

impl ConfigFields {
    /// The configuration that the fields amount to: what is not set takes its
    /// default.
    pub open spec fn completed(self) -> ConfigView {
        ConfigView {
            url: self.url@,
            token: match self.token {
                Some(token) => Some(token@),
                None => None,
            },
            timeout_ms: match self.timeout_ms {
                Some(ms) => ms,
                None => 5_000,
            },
            max_retries: match self.max_retries {
                Some(n) => n,
                None => 2,
            },
            retry_backoff_ms: match self.retry_backoff_ms {
                Some(ms) => ms,
                None => 250,
            },
            max_batch_events: match self.max_batch_events {
                Some(n) => n,
                None => 256,
            },
        }
    }
}

/// What decoded fields, or the text of the error of decoding them, amount to: a
/// valid configuration, or the text of the fault.
pub open spec fn checked(decoded: Result<ConfigFields, String>) -> Result<ConfigView, Seq<char>> {
    match decoded {
        Ok(fields) => if fields.completed().valid() {
            Ok(fields.completed())
        } else {
            Err(fields.completed().fault())
        },
        Err(text) => Err(text@),
    }
}

/// The content of the outcome of parsing a configuration.
pub open spec fn parse_outcome(parsed: Result<HttpSinkConfig, ConfigError>) -> Result<
    ConfigView,
    Seq<char>,
> {
    match parsed {
        Ok(cfg) => Ok(cfg@),
        Err(error) => Err(error@),
    }
}

/// Timeout of one attempt when the operator sets none.
pub fn default_timeout_ms() -> (ms: u64)
    ensures
        ms == 5_000,
{
    5_000
}

/// Retries of a batch when the operator sets no number.
pub fn default_max_retries() -> (n: u32)
    ensures
        n == 2,
{
    2
}

/// First backoff when the operator sets none.
pub fn default_retry_backoff_ms() -> (ms: u64)
    ensures
        ms == 250,
{
    250
}

/// Ceiling on events per batch when the operator sets none.
pub fn default_max_batch_events() -> (n: usize)
    ensures
        n == 256,
{
    256
}

/// Why a configuration is refused.
#[derive(Debug)]
pub enum ConfigError {
    Invalid(String),
}

impl View for ConfigError {
    type V = Seq<char>;

    open spec fn view(&self) -> Seq<char> {
        match *self {
            ConfigError::Invalid(text) => text@,
        }
    }
}

impl ConfigError {
    /// The error as shown to the operator.
    pub fn message(&self) -> (shown: String)
        ensures
            shown@ == "invalid audit.http config: "@ + self@,
            match *self {
                ConfigError::Invalid(text) => shown@ == "invalid audit.http config: "@ + text@,
            },
    {
        match self {
            ConfigError::Invalid(text) => join("invalid audit.http config: ", text.as_str()),
        }
    }
}

impl HttpSinkConfig {
    /// Reads a configuration from its JSON text. `decode` turns the text into the
    /// fields that it sets, or into the text of an error. Whatever `decode`
    /// answers to `config_json` is completed with the defaults and passed on if
    /// that is a valid configuration, and is refused otherwise.
    pub fn parse<D: Fn(&str) -> Result<ConfigFields, String>>(config_json: &str, decode: D) -> (parsed:
        Result<HttpSinkConfig, ConfigError>)
        requires
            decode.requires((config_json,)),
        ensures
            exists|decoded: Result<ConfigFields, String>| #[trigger]
                decode.ensures((config_json,), decoded) && parse_outcome(parsed) == checked(decoded)
                    && match (decoded, parsed) {
                    (Ok(fields), Ok(cfg)) => {
                        &&& "http://"@.is_prefix_of(fields.url@) || "https://"@.is_prefix_of(
                            fields.url@,
                        )
                        &&& cfg.url == fields.url
                        &&& cfg.token == fields.token
                        &&& fields.timeout_ms matches Some(ms) ==> cfg.timeout_ms == ms
                        &&& fields.timeout_ms is None ==> cfg.timeout_ms == 5_000
                        &&& fields.max_retries matches Some(n) ==> cfg.max_retries == n
                        &&& fields.max_retries is None ==> cfg.max_retries == 2
                        &&& fields.retry_backoff_ms matches Some(ms) ==> cfg.retry_backoff_ms == ms
                        &&& fields.retry_backoff_ms is None ==> cfg.retry_backoff_ms == 250
                        &&& fields.max_batch_events matches Some(n) ==> cfg.max_batch_events == n
                        &&& fields.max_batch_events is None ==> cfg.max_batch_events == 256
                        &&& cfg.max_batch_events != 0
                        &&& cfg.timeout_ms != 0
                    },
                    (Ok(fields), Err(_)) => {
                        ||| !("http://"@.is_prefix_of(fields.url@) || "https://"@.is_prefix_of(
                            fields.url@,
                        ))
                        ||| fields.max_batch_events == Some(0usize)
                        ||| fields.timeout_ms == Some(0u64)
                    },
                    (Err(text), Err(ConfigError::Invalid(told))) => told@ == text@,
                    (Err(_), Ok(_)) => false,
                },
    {
        let decoded = decode(config_json);
        Self::from_decoded(decoded)
    }

    /// Completes decoded fields with the defaults and accepts the result if it is
    /// valid. An error of decoding is refused with its own text.
    pub fn from_decoded(decoded: Result<ConfigFields, String>) -> (parsed: Result<
        HttpSinkConfig,
        ConfigError,
    >)
        ensures
            parse_outcome(parsed) == checked(decoded),
            parsed is Ok <==> match decoded {
                Ok(fields) => {
                    &&& "http://"@.is_prefix_of(fields.url@) || "https://"@.is_prefix_of(
                        fields.url@,
                    )
                    &&& fields.max_batch_events != Some(0usize)
                    &&& fields.timeout_ms != Some(0u64)
                },
                Err(_) => false,
            },
            match (decoded, parsed) {
                (Ok(fields), Ok(cfg)) => {
                    &&& cfg.url == fields.url
                    &&& cfg.token == fields.token
                    &&& fields.timeout_ms matches Some(ms) ==> cfg.timeout_ms == ms
                    &&& fields.timeout_ms is None ==> cfg.timeout_ms == 5_000
                    &&& fields.max_retries matches Some(n) ==> cfg.max_retries == n
                    &&& fields.max_retries is None ==> cfg.max_retries == 2
                    &&& fields.retry_backoff_ms matches Some(ms) ==> cfg.retry_backoff_ms == ms
                    &&& fields.retry_backoff_ms is None ==> cfg.retry_backoff_ms == 250
                    &&& fields.max_batch_events matches Some(n) ==> cfg.max_batch_events == n
                    &&& fields.max_batch_events is None ==> cfg.max_batch_events == 256
                },
                (Ok(fields), Err(ConfigError::Invalid(told))) => if !("http://"@.is_prefix_of(
                    fields.url@,
                ) || "https://"@.is_prefix_of(fields.url@)) {
                    told@ == "`url` must be http(s)://, got `"@ + fields.url@ + "`"@
                } else if fields.max_batch_events == Some(0usize) {
                    told@ == "`max_batch_events` must be at least 1"@
                } else {
                    fields.timeout_ms == Some(0u64) && told@ == "`timeout_ms` must be non-zero"@
                },
                (Err(text), Err(ConfigError::Invalid(told))) => told@ == text@,
                (Err(_), Ok(_)) => false,
            },
    {
        match decoded {
            Ok(fields) => {
                let cfg = Self::complete(fields);
                match cfg.validate() {
                    Ok(()) => Ok(cfg),
                    Err(error) => Err(error),
                }
            },
            Err(text) => Err(ConfigError::Invalid(text)),
        }
    }

    /// Completes the fields that the operator set with the defaults.
    pub fn complete(fields: ConfigFields) -> (cfg: HttpSinkConfig)
        ensures
            cfg@ == fields.completed(),
            cfg.url == fields.url,
            cfg.token == fields.token,
            fields.timeout_ms matches Some(ms) ==> cfg.timeout_ms == ms,
            fields.timeout_ms is None ==> cfg.timeout_ms == 5_000,
            fields.max_retries matches Some(n) ==> cfg.max_retries == n,
            fields.max_retries is None ==> cfg.max_retries == 2,
            fields.retry_backoff_ms matches Some(ms) ==> cfg.retry_backoff_ms == ms,
            fields.retry_backoff_ms is None ==> cfg.retry_backoff_ms == 250,
            fields.max_batch_events matches Some(n) ==> cfg.max_batch_events == n,
            fields.max_batch_events is None ==> cfg.max_batch_events == 256,
    {
        HttpSinkConfig {
            url: fields.url,
            token: fields.token,
            timeout_ms: match fields.timeout_ms {
                Some(ms) => ms,
                None => default_timeout_ms(),
            },
            max_retries: match fields.max_retries {
                Some(n) => n,
                None => default_max_retries(),
            },
            retry_backoff_ms: match fields.retry_backoff_ms {
                Some(ms) => ms,
                None => default_retry_backoff_ms(),
            },
            max_batch_events: match fields.max_batch_events {
                Some(n) => n,
                None => default_max_batch_events(),
            },
        }
    }

    /// Accepts exactly the valid configurations, and names the first fault of
    /// any other.
    pub fn validate(&self) -> (verdict: Result<(), ConfigError>)
        ensures
            verdict is Ok <==> self@.valid(),
            verdict matches Err(error) ==> error@ == self@.fault(),
            verdict is Ok <==> {
                &&& "http://"@.is_prefix_of(self.url@) || "https://"@.is_prefix_of(self.url@)
                &&& self.max_batch_events != 0
                &&& self.timeout_ms != 0
            },
            verdict matches Err(ConfigError::Invalid(told)) ==> if !("http://"@.is_prefix_of(
                self.url@,
            ) || "https://"@.is_prefix_of(self.url@)) {
                told@ == "`url` must be http(s)://, got `"@ + self.url@ + "`"@
            } else if self.max_batch_events == 0 {
                told@ == "`max_batch_events` must be at least 1"@
            } else {
                told@ == "`timeout_ms` must be non-zero"@
            },
    {
        if !has_prefix(self.url.as_str(), "http://") && !has_prefix(self.url.as_str(), "https://") {
            let head = join("`url` must be http(s)://, got `", self.url.as_str());
            return Err(ConfigError::Invalid(join(head.as_str(), "`")));
        }
        if self.max_batch_events == 0 {
            return Err(ConfigError::Invalid("`max_batch_events` must be at least 1".to_owned()));
        }
        if self.timeout_ms == 0 {
            return Err(ConfigError::Invalid("`timeout_ms` must be non-zero".to_owned()));
        }
        Ok(())
    }

    /// The token to authenticate with: the configured one, unless it is empty.
    pub fn bearer(&self) -> (token: Option<String>)
        ensures
            self@.bearer() == match token {
                Some(text) => Some(text@),
                None => None,
            },
            self.token matches Some(set) ==> if set@.len() > 0 {
                token matches Some(sent) && sent@ == set@
            } else {
                token is None
            },
            self.token is None ==> token is None,
    {
        match &self.token {
            Some(token) => if token.as_str().is_empty() {
                None
            } else {
                Some(token.clone())
            },
            None => None,
        }
    }
}

impl Clone for HttpSinkConfig {
    fn clone(&self) -> (copy: HttpSinkConfig)
        ensures
            copy@ == self@,
            copy.url@ == self.url@,
            copy.token is Some <==> self.token is Some,
            copy.token is Some ==> copy.token->0@ == self.token->0@,
            copy.timeout_ms == self.timeout_ms,
            copy.max_retries == self.max_retries,
            copy.retry_backoff_ms == self.retry_backoff_ms,
            copy.max_batch_events == self.max_batch_events,
    {
        HttpSinkConfig {
            url: self.url.clone(),
            token: match &self.token {
                Some(token) => Some(token.clone()),
                None => None,
            },
            timeout_ms: self.timeout_ms,
            max_retries: self.max_retries,
            retry_backoff_ms: self.retry_backoff_ms,
            max_batch_events: self.max_batch_events,
        }
    }
}

/// The content of a configuration is what its fields hold.
pub proof fn law_content_is_the_fields(cfg: HttpSinkConfig)
    ensures
        cfg@.url == cfg.url@,
        cfg.token matches Some(token) ==> cfg@.token == Some(token@),
        cfg.token is None ==> cfg@.token is None,
        cfg@.timeout_ms == cfg.timeout_ms,
        cfg@.max_retries == cfg.max_retries,
        cfg@.retry_backoff_ms == cfg.retry_backoff_ms,
        cfg@.max_batch_events == cfg.max_batch_events,
{
}

/// Parsing keeps what the operator set: every field that is set has that very
/// value, and every field that is not set has its documented default.
pub proof fn law_parsing_keeps_what_is_set(
    fields: ConfigFields,
    parsed: Result<HttpSinkConfig, ConfigError>,
)
    requires
        parse_outcome(parsed) == checked(Ok::<ConfigFields, String>(fields)),
    ensures
        parsed matches Ok(cfg) ==> {
            &&& cfg.url@ == fields.url@
            &&& fields.token matches Some(token) ==> (cfg.token matches Some(kept) && kept@
                == token@)
            &&& fields.token is None ==> cfg.token is None
            &&& fields.timeout_ms matches Some(ms) ==> cfg.timeout_ms == ms
            &&& fields.timeout_ms is None ==> cfg.timeout_ms == 5_000
            &&& fields.max_retries matches Some(n) ==> cfg.max_retries == n
            &&& fields.max_retries is None ==> cfg.max_retries == 2
            &&& fields.retry_backoff_ms matches Some(ms) ==> cfg.retry_backoff_ms == ms
            &&& fields.retry_backoff_ms is None ==> cfg.retry_backoff_ms == 250
            &&& fields.max_batch_events matches Some(n) ==> cfg.max_batch_events == n
            &&& fields.max_batch_events is None ==> cfg.max_batch_events == 256
        },
{
}

/// The fields that the operator set, completed with the documented defaults, are
/// the configuration, whether or not it is a valid one.
pub proof fn law_completion_keeps_what_is_set(fields: ConfigFields)
    ensures
        fields.completed().url == fields.url@,
        fields.token matches Some(token) ==> fields.completed().token == Some(token@),
        fields.token is None ==> fields.completed().token is None,
        fields.timeout_ms matches Some(ms) ==> fields.completed().timeout_ms == ms,
        fields.timeout_ms is None ==> fields.completed().timeout_ms == 5_000,
        fields.max_retries matches Some(n) ==> fields.completed().max_retries == n,
        fields.max_retries is None ==> fields.completed().max_retries == 2,
        fields.retry_backoff_ms matches Some(ms) ==> fields.completed().retry_backoff_ms == ms,
        fields.retry_backoff_ms is None ==> fields.completed().retry_backoff_ms == 250,
        fields.max_batch_events matches Some(n) ==> fields.completed().max_batch_events == n,
        fields.max_batch_events is None ==> fields.completed().max_batch_events == 256,
{
}

/// Parsing accepts exactly the texts that decode, name an http or https endpoint,
/// and set neither the ceiling nor the timeout to zero. What does not decode is
/// refused with the decoder's own words.
pub proof fn law_parsing_accepts_exactly(
    decoded: Result<ConfigFields, String>,
    parsed: Result<HttpSinkConfig, ConfigError>,
)
    requires
        parse_outcome(parsed) == checked(decoded),
    ensures
        match decoded {
            Ok(fields) => parsed is Ok <==> {
                &&& "http://"@.is_prefix_of(fields.url@) || "https://"@.is_prefix_of(fields.url@)
                &&& fields.max_batch_events != Some(0usize)
                &&& fields.timeout_ms != Some(0u64)
            },
            Err(text) => parsed matches Err(ConfigError::Invalid(told)) && told@ == text@,
        },
{
}

/// What decodes and is refused is told its first fault.
pub proof fn law_parsing_tells_first_fault(
    fields: ConfigFields,
    parsed: Result<HttpSinkConfig, ConfigError>,
)
    requires
        parse_outcome(parsed) == checked(Ok::<ConfigFields, String>(fields)),
    ensures
        match parsed {
            Ok(_) => true,
            Err(ConfigError::Invalid(told)) => if !("http://"@.is_prefix_of(fields.url@)
                || "https://"@.is_prefix_of(fields.url@)) {
                told@ == "`url` must be http(s)://, got `"@ + fields.url@ + "`"@
            } else if fields.max_batch_events == Some(0usize) {
                told@ == "`max_batch_events` must be at least 1"@
            } else {
                fields.timeout_ms == Some(0u64) && told@ == "`timeout_ms` must be non-zero"@
            },
        },
{
}

/// A configuration is valid exactly if its endpoint is http or https and neither
/// its ceiling nor its timeout is zero.
pub proof fn law_valid_means(cfg: ConfigView)
    ensures
        cfg.valid() <==> {
            &&& "http://"@.is_prefix_of(cfg.url) || "https://"@.is_prefix_of(cfg.url)
            &&& cfg.max_batch_events != 0
            &&& cfg.timeout_ms != 0
        },
{
}

/// A refused configuration is told its first fault: a wrong endpoint, which is
/// quoted, before a ceiling of zero, before a timeout of zero.
pub proof fn law_first_fault_is_told(cfg: HttpSinkConfig, error: ConfigError)
    requires
        !cfg@.valid(),
        error@ == cfg@.fault(),
    ensures
        match error {
            ConfigError::Invalid(told) => if !("http://"@.is_prefix_of(cfg.url@)
                || "https://"@.is_prefix_of(cfg.url@)) {
                told@ == "`url` must be http(s)://, got `"@ + cfg.url@ + "`"@
            } else if cfg.max_batch_events == 0 {
                told@ == "`max_batch_events` must be at least 1"@
            } else {
                cfg.timeout_ms == 0 && told@ == "`timeout_ms` must be non-zero"@
            },
        },
{
}

/// A token that is set and not empty is sent as it is, whatever else is set, and
/// no other token ever is.
pub proof fn law_token_is_sent(cfg: ConfigView)
    ensures
        cfg.token matches Some(token) && token.len() > 0 ==> cfg.bearer() == cfg.token,
        cfg.token matches Some(token) && token.len() == 0 ==> cfg.bearer() is None,
        cfg.token is None ==> cfg.bearer() is None,
{
}

/// What is sent depends on the token alone.
pub proof fn law_bearer_depends_on_token_alone(a: ConfigView, b: ConfigView)
    requires
        a.token == b.token,
    ensures
        a.bearer() == b.bearer(),
{
}

} // verus!

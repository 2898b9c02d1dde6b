//! The sink: a validated configuration, the plugin's manifest, and what its
//! callers are told.

use crate::batch::{Job, JobView};
use crate::config::{ConfigError, ConfigFields, ConfigView, HttpSinkConfig};
use crate::protocol::{
    AuditError, AuditErrorView, AuditReceipt, PluginClass, PluginManifest, PLUGIN_ID,
};
use crate::record::serialize_event;
use crate::text::{first_segment, join};
use crate::writer::{Action, ActionView, Writer, WriterView};
use vstd::prelude::*;

verus! {

/// The manifest introduces this plugin, in this version, built from this module
/// path.
pub open spec fn introduces(
    manifest: PluginManifest,
    version: Seq<char>,
    built_from: Seq<char>,
) -> bool {
    &&& manifest.id@ == PLUGIN_ID@
    &&& manifest.version@ == version
    &&& manifest.name@ == "HTTP Collector Audit Sink"@
    &&& manifest.plugin_class == PluginClass::AuditSink
    &&& manifest.protocol_version@ == "1.0"@
    &&& manifest.license is None
    &&& manifest.required_capabilities@.len() == 0
    &&& manifest.tags@.len() == 0
    &&& manifest.provides@.len() == 0
    &&& manifest.provides_schemes@.len() == 0
    &&& crate::text::is_first_segment(manifest.module_path_prefix@, built_from)
    &&& manifest.backend_profile is None
}

/// Why a sink does not load, given the text of the fault in its configuration.
pub open spec fn refusal(fault: Seq<char>) -> Seq<char> {
    "audit.http config parse failed: invalid audit.http config: "@ + fault
        + ". A misconfigured audit sink is a safety hole; refusing to load."@
}

/// The sink that a valid configuration gives, in the version `version`, built
/// from the module path `built_from`.
pub open spec fn built(
    sink: HttpAuditSink,
    cfg: ConfigView,
    version: Seq<char>,
    built_from: Seq<char>,
) -> bool {
    &&& sink.spec_config() == cfg
    &&& sink.well_formed()
    &&& introduces(sink.spec_manifest(), version, built_from)
}

/// What loading gives for decoded fields, or for the text of the error of
/// decoding them: a sink exactly for a valid configuration, and the fault
/// otherwise.
pub open spec fn loads(
    loaded: Result<HttpAuditSink, ConfigError>,
    decoded: Result<ConfigFields, String>,
    version: Seq<char>,
    built_from: Seq<char>,
) -> bool {
    match crate::config::checked(decoded) {
        Ok(cfg) => loaded matches Ok(sink) && built(sink, cfg, version, built_from),
        Err(fault) => loaded matches Err(error) && error@ == fault,
    }
}

/// A sink loads exactly if its configuration parses, and it is then the sink that
/// the parsed configuration gives. A configuration that does not parse gives no
/// sink, and the error is that of parsing. `decode` is taken to answer the text in
/// one way only.
pub proof fn law_loads_exactly_what_parses<D: Fn(&str) -> Result<ConfigFields, String>>(
    config_json: &str,
    decode: D,
    parsed: Result<HttpSinkConfig, ConfigError>,
    loaded: Result<HttpAuditSink, ConfigError>,
    version: Seq<char>,
    built_from: Seq<char>,
)
    requires
        forall|a: Result<ConfigFields, String>, b: Result<ConfigFields, String>| #[trigger]
            decode.ensures((config_json,), a) && #[trigger] decode.ensures((config_json,), b)
                ==> crate::config::checked(a) == crate::config::checked(b),
        exists|decoded: Result<ConfigFields, String>| #[trigger]
            decode.ensures((config_json,), decoded) && crate::config::parse_outcome(parsed)
                == crate::config::checked(decoded),
        exists|decoded: Result<ConfigFields, String>| #[trigger]
            decode.ensures((config_json,), decoded) && loads(loaded, decoded, version, built_from),
    ensures
        loaded is Err <==> parsed is Err,
        parsed matches Ok(cfg) ==> cfg@.valid() && (loaded matches Ok(sink) && built(
            sink,
            cfg@,
            version,
            built_from,
        )),
        parsed matches Err(fault) ==> (loaded matches Err(error) && error@ == fault@),
{
}

/// An audit sink that ships events to an HTTP collector.
#[derive(Debug)]
pub struct HttpAuditSink {
    cfg: HttpSinkConfig,
    manifest: PluginManifest,
}

/// What came of waiting for a reply.
#[derive(Debug)]
pub enum Awaited<T> {
    /// The writer takes no more jobs.
    NotQueued,
    /// The writer took the job and is gone without a reply.
    Abandoned,
    /// The writer replied.
    Replied(T),
}

impl HttpAuditSink {
    /// The configuration that the sink runs with.
    pub closed spec fn spec_config(self) -> ConfigView {
        self.cfg@
    }

    /// The manifest that the sink presents.
    pub closed spec fn spec_manifest(self) -> PluginManifest {
        self.manifest
    }

    /// The configuration is valid.
    pub open spec fn well_formed(self) -> bool {
        self.spec_config().valid()
    }

    /// There is no sink with a configuration that is refused.
    #[verifier::type_invariant]
    spec fn never_misconfigured(self) -> bool {
        self.cfg@.valid()
    }

    /// Loads a sink from the JSON text of its configuration; `decode` is as for
    /// [`HttpSinkConfig::parse`]. A misconfigured sink does not load: its host
    /// fails with what [`HttpAuditSink::refuse`] makes of the error.
    pub fn from_config_json<D: Fn(&str) -> Result<ConfigFields, String>>(
        config_json: &str,
        decode: D,
        version: &str,
        built_from: &str,
    ) -> (loaded: Result<HttpAuditSink, ConfigError>)
        requires
            decode.requires((config_json,)),
        ensures
            exists|decoded: Result<ConfigFields, String>| #[trigger]
                decode.ensures((config_json,), decoded) && loads(
                    loaded,
                    decoded,
                    version@,
                    built_from@,
                ),
    {
        match HttpSinkConfig::parse(config_json, decode) {
            Ok(cfg) => Ok(Self::from_validated_config(cfg, version, built_from)),
            Err(error) => Err(error),
        }
    }

    /// The text to fail with when a configuration is refused.
    pub fn refuse(error: &ConfigError) -> (text: String)
        ensures
            text@ == refusal(error@),
            match *error {
                ConfigError::Invalid(fault) => text@
                    == "audit.http config parse failed: invalid audit.http config: "@ + fault@
                    + ". A misconfigured audit sink is a safety hole; refusing to load."@,
            },
    {
        let shown = error.message();
        let head = join("audit.http config parse failed: ", shown.as_str());
        let text = join(
            head.as_str(),
            ". A misconfigured audit sink is a safety hole; refusing to load.",
        );
        proof {
            reveal_strlit("audit.http config parse failed: ");
            reveal_strlit("invalid audit.http config: ");
            reveal_strlit("audit.http config parse failed: invalid audit.http config: ");
            assert("audit.http config parse failed: "@ + "invalid audit.http config: "@
                =~= "audit.http config parse failed: invalid audit.http config: "@);
            assert(text@ =~= refusal(error@));
        }
        text
    }

    /// A sink that runs with `cfg`, in the version `version`, built from the
    /// module path `built_from`.
    pub fn from_validated_config(cfg: HttpSinkConfig, version: &str, built_from: &str) -> (sink:
        HttpAuditSink)
        requires
            cfg@.valid(),
        ensures
            built(sink, cfg@, version@, built_from@),
            sink.spec_config() == cfg@,
            sink.spec_manifest().id@ == "dev.mcpg.audit.http"@,
            sink.spec_manifest().version@ == version@,
            sink.spec_manifest().name@ == "HTTP Collector Audit Sink"@,
            sink.spec_manifest().plugin_class is AuditSink,
            sink.spec_manifest().protocol_version@ == "1.0"@,
    {
        HttpAuditSink {
            cfg,
            manifest: PluginManifest {
                id: PLUGIN_ID.to_owned(),
                version: version.to_owned(),
                name: "HTTP Collector Audit Sink".to_owned(),
                plugin_class: PluginClass::AuditSink,
                protocol_version: "1.0".to_owned(),
                license: None,
                required_capabilities: Vec::new(),
                tags: Vec::new(),
                provides: Vec::new(),
                provides_schemes: Vec::new(),
                module_path_prefix: first_segment(built_from),
                backend_profile: None,
            },
        }
    }

    /// The manifest that the sink presents.
    pub fn manifest(&self) -> (manifest: &PluginManifest)
        ensures
            *manifest == self.spec_manifest(),
    {
        &self.manifest
    }

    /// The configuration that the sink runs with.
    pub fn config(&self) -> (cfg: &HttpSinkConfig)
        ensures
            cfg@ == self.spec_config(),
            self.well_formed(),
    {
        proof {
            use_type_invariant(self);
        }
        &self.cfg
    }

    /// The sink's writer, and its first action.
    pub fn writer<E, F>(&self) -> (begun: (Writer<E, F>, Action<E, F>))
        ensures
            begun.0@ == WriterView::<E, F>::started(self.spec_config()),
            begun.0@.well_formed(),
            begun.1@ == ActionView::<E, F>::Receive,
            self.well_formed(),
    {
        proof {
            use_type_invariant(self);
        }
        Writer::start(self.cfg.clone())
    }

    /// The job that ships an event, with the handle `reply` of its waiter.
    /// `converted` is as for [`serialize_event`]. An event without a JSON text
    /// gives no job: its error is the answer to the emit.
    pub fn emit_job<E, F>(converted: Result<serde_json::Value, String>, reply: E) -> (job: Result<
        Job<E, F>,
        AuditError,
    >)
        ensures
            match crate::record::sealed(
                match converted {
                    Ok(value) => crate::record::json_encoding(value),
                    Err(text) => Err(text@),
                },
            ) {
                Ok((record, hash)) => job matches Ok(job) && job@ == (JobView::<E, F>::Emit {
                    record,
                    hash,
                    reply,
                }),
                Err(error) => job matches Err(told) && told@ == error,
            },
            job matches Ok(job) ==> job@ matches JobView::Emit { record, hash, .. } && hash
                == crate::record::record_hash(record),
            match converted {
                Ok(value) => match crate::record::json_encoding(value) {
                    Ok(text) => job matches Ok(Job::Emit { record, hash, reply: handle })
                        && record@ == text && hash@ == crate::record::hex_text(
                        crate::record::sha256(text),
                    ) && handle == reply,
                    Err(detail) => job matches Err(AuditError::WriteFailed { reason }) && reason@
                        == "serialize audit event: "@ + detail,
                },
                Err(detail) => job matches Err(AuditError::WriteFailed { reason }) && reason@
                    == "serialize audit event: "@ + detail@,
            },
    {
        match serialize_event(converted) {
            Ok((record, hash)) => Ok(Job::Emit { record, hash, reply }),
            Err(error) => Err(error),
        }
    }

    /// What an emit returns: the writer's own answer, or that the sink is closed
    /// if none came. It is `Ok` only if the writer answered so.
    pub fn emit_answer(awaited: Awaited<Result<AuditReceipt, AuditError>>) -> (answer: Result<
        AuditReceipt,
        AuditError,
    >)
        ensures
            match awaited {
                Awaited::Replied(told) => answer == told,
                _ => answer matches Err(error) && error@ == AuditErrorView::Closed,
            },
            !(awaited is Replied) ==> (answer matches Err(error) && error is Closed),
    {
        match awaited {
            Awaited::Replied(told) => told,
            Awaited::NotQueued => Err(AuditError::Closed),
            Awaited::Abandoned => Err(AuditError::Closed),
        }
    }

    /// What a flush returns; `None` stands for a wait that ran out of time.
    pub fn flush_answer(awaited: Option<Awaited<()>>) -> (answer: Result<(), AuditError>)
        ensures
            answer is Ok <==> (awaited matches Some(Awaited::Replied(_))),
            answer matches Err(error) ==> error@ == (if awaited is None {
                AuditErrorView::Timeout
            } else {
                AuditErrorView::Closed
            }),
            awaited is None ==> (answer matches Err(error) && error is Timeout),
            awaited matches Some(came) && !(came is Replied) ==> (answer matches Err(error)
                && error is Closed),
    {
        match awaited {
            Some(Awaited::Replied(())) => Ok(()),
            Some(_) => Err(AuditError::Closed),
            None => Err(AuditError::Timeout),
        }
    }
}

/// The manifest gives the plugin's name and class, the version, the protocol, and
/// the crate that it was built from; everything optional is left out.
pub proof fn law_manifest_says(manifest: PluginManifest, version: Seq<char>, built_from: Seq<char>)
    requires
        introduces(manifest, version, built_from),
    ensures
        manifest.id@ == "dev.mcpg.audit.http"@,
        manifest.version@ == version,
        manifest.name@ == "HTTP Collector Audit Sink"@,
        manifest.plugin_class is AuditSink,
        manifest.protocol_version@ == "1.0"@,
        manifest.license is None,
        manifest.required_capabilities@.len() == 0,
        manifest.tags@.len() == 0,
        manifest.provides@.len() == 0,
        manifest.provides_schemes@.len() == 0,
        manifest.module_path_prefix@ == built_from.take(manifest.module_path_prefix@.len() as int),
        manifest.module_path_prefix@.len() < built_from.len()
            ==> built_from[manifest.module_path_prefix@.len() as int] == ':'
            && built_from[manifest.module_path_prefix@.len() as int + 1] == ':',
        forall|k: int|
            0 <= k < manifest.module_path_prefix@.len() && k + 1 < built_from.len()
                && #[trigger] built_from[k] == ':' ==> built_from[k + 1] != ':',
        manifest.backend_profile is None,
{
    crate::text::law_first_segment(manifest.module_path_prefix@, built_from);
}

/// A refused configuration is quoted in the text that the host fails with.
pub proof fn law_refusal_says(fault: Seq<char>)
    ensures
        refusal(fault) == "audit.http config parse failed: invalid audit.http config: "@ + fault
            + ". A misconfigured audit sink is a safety hole; refusing to load."@,
{
}

/// A sink loads exactly from a text that decodes, names an http or https endpoint
/// and sets neither the ceiling nor the timeout to zero. It then runs with what
/// the operator set, and with the documented defaults for the rest.
pub proof fn law_sink_runs_with_what_is_set(
    decoded: Result<ConfigFields, String>,
    loaded: Result<HttpAuditSink, ConfigError>,
    version: Seq<char>,
    built_from: Seq<char>,
)
    requires
        loads(loaded, decoded, version, built_from),
    ensures
        loaded is Ok <==> match decoded {
            Ok(fields) => {
                &&& "http://"@.is_prefix_of(fields.url@) || "https://"@.is_prefix_of(fields.url@)
                &&& fields.max_batch_events != Some(0usize)
                &&& fields.timeout_ms != Some(0u64)
            },
            Err(_) => false,
        },
        match (decoded, loaded) {
            (Ok(fields), Ok(sink)) => {
                let cfg = sink.spec_config();
                &&& introduces(sink.spec_manifest(), version, built_from)
                &&& cfg.url == fields.url@
                &&& fields.token matches Some(token) ==> cfg.token == Some(token@)
                &&& fields.token is None ==> cfg.token is None
                &&& fields.timeout_ms matches Some(ms) ==> cfg.timeout_ms == ms
                &&& fields.timeout_ms is None ==> cfg.timeout_ms == 5_000
                &&& fields.max_retries matches Some(n) ==> cfg.max_retries == n
                &&& fields.max_retries is None ==> cfg.max_retries == 2
                &&& fields.retry_backoff_ms matches Some(ms) ==> cfg.retry_backoff_ms == ms
                &&& fields.retry_backoff_ms is None ==> cfg.retry_backoff_ms == 250
                &&& fields.max_batch_events matches Some(n) ==> cfg.max_batch_events == n
                &&& fields.max_batch_events is None ==> cfg.max_batch_events == 256
            },
            (Ok(fields), Err(ConfigError::Invalid(told))) => if !("http://"@.is_prefix_of(
                fields.url@,
            ) || "https://"@.is_prefix_of(fields.url@)) {
                told@ == "`url` must be http(s)://, got `"@ + fields.url@ + "`"@
            } else if fields.max_batch_events == Some(0usize) {
                told@ == "`max_batch_events` must be at least 1"@
            } else {
                fields.timeout_ms == Some(0u64) && told@ == "`timeout_ms` must be non-zero"@
            },
            (Err(text), Err(ConfigError::Invalid(told))) => told@ == text@,
            (Err(_), Ok(_)) => false,
        },
{
}

} // verus!

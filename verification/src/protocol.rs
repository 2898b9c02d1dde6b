//! What an audit sink answers and how it introduces itself to the gateway.

use vstd::prelude::*;

verus! {

/// The plugin's identity, and the sink named in every receipt.
pub const PLUGIN_ID: &'static str = "dev.mcpg.audit.http";

/// Why an event was not committed.
#[derive(Debug, PartialEq, Eq)]
pub enum AuditError {
    /// The record could not be written.
    WriteFailed { reason: String },
    /// The collector asked for a slower pace.
    Throttled,
    /// The collector, or the writer, did not answer in time.
    Timeout,
    /// The writer is gone.
    Closed,
}

/// The mathematical content of an [`AuditError`].
pub enum AuditErrorView {
    WriteFailed { reason: Seq<char> },
    Throttled,
    Timeout,
    Closed,
}

impl View for AuditError {
    type V = AuditErrorView;

    open spec fn view(&self) -> AuditErrorView {
        match *self {
            AuditError::WriteFailed { reason } => AuditErrorView::WriteFailed { reason: reason@ },
            AuditError::Throttled => AuditErrorView::Throttled,
            AuditError::Timeout => AuditErrorView::Timeout,
            AuditError::Closed => AuditErrorView::Closed,
        }
    }
}

impl Clone for AuditError {
    fn clone(&self) -> (copy: AuditError)
        ensures
            copy@ == self@,
            match *self {
                AuditError::WriteFailed { reason } => copy matches AuditError::WriteFailed {
                    reason: told,
                } && told@ == reason@,
                AuditError::Throttled => copy is Throttled,
                AuditError::Timeout => copy is Timeout,
                AuditError::Closed => copy is Closed,
            },
    {
        match self {
            AuditError::WriteFailed { reason } => AuditError::WriteFailed {
                reason: reason.clone(),
            },
            AuditError::Throttled => AuditError::Throttled,
            AuditError::Timeout => AuditError::Timeout,
            AuditError::Closed => AuditError::Closed,
        }
    }
}

/// Proof handed back for a committed event.
#[derive(Debug, PartialEq, Eq)]
pub struct AuditReceipt {
    /// The sink that committed the event.
    pub sink_id: String,
    /// When the batch carrying the event was committed.
    pub persisted_at: String,
    /// Hex SHA-256 over the event's canonical JSON bytes.
    pub durable_hash: String,
}

/// The mathematical content of an [`AuditReceipt`].
pub struct AuditReceiptView {
    pub sink_id: Seq<char>,
    pub persisted_at: Seq<char>,
    pub durable_hash: Seq<char>,
}

impl View for AuditReceipt {
    type V = AuditReceiptView;

    open spec fn view(&self) -> AuditReceiptView {
        AuditReceiptView {
            sink_id: self.sink_id@,
            persisted_at: self.persisted_at@,
            durable_hash: self.durable_hash@,
        }
    }
}

/// What an emit is answered.
pub type EmitAnswer = Result<AuditReceiptView, AuditErrorView>;

/// The content of an answer to an emit.
pub open spec fn emit_answer(answer: Result<AuditReceipt, AuditError>) -> EmitAnswer {
    match answer {
        Ok(receipt) => Ok(receipt@),
        Err(error) => Err(error@),
    }
}

/// The content of the outcome of posting a batch.
pub open spec fn unit_answer(answer: Result<(), AuditError>) -> Result<(), AuditErrorView> {
    match answer {
        Ok(()) => Ok(()),
        Err(error) => Err(error@),
    }
}

/// The class of plugin.
#[derive(Debug, Clone, Copy, PartialEq, Eq)]
pub enum PluginClass {
    AuditSink,
}

/// How the plugin introduces itself to the gateway.
#[derive(Debug, PartialEq, Eq)]
pub struct PluginManifest {
    pub id: String,
    pub version: String,
    pub name: String,
    pub plugin_class: PluginClass,
    pub protocol_version: String,
    pub license: Option<String>,
    pub required_capabilities: Vec<String>,
    pub tags: Vec<String>,
    pub provides: Vec<String>,
    pub provides_schemes: Vec<String>,
    pub module_path_prefix: String,
    pub backend_profile: Option<String>,
}

/// The content of an error is its kind and its reason.
pub proof fn law_error_content(error: AuditError)
    ensures
        match error {
            AuditError::WriteFailed { reason } => error@ == (AuditErrorView::WriteFailed {
                reason: reason@,
            }),
            AuditError::Throttled => error@ is Throttled,
            AuditError::Timeout => error@ is Timeout,
            AuditError::Closed => error@ is Closed,
        },
{
}

/// The content of a receipt is what its fields hold.
pub proof fn law_receipt_content(receipt: AuditReceipt)
    ensures
        receipt@.sink_id == receipt.sink_id@,
        receipt@.persisted_at == receipt.persisted_at@,
        receipt@.durable_hash == receipt.durable_hash@,
{
}

/// The content of an answer is the receipt's or the error's.
pub proof fn law_answer_content(
    answer: Result<AuditReceipt, AuditError>,
    posted: Result<(), AuditError>,
)
    ensures
        match answer {
            Ok(receipt) => emit_answer(answer) == Ok::<AuditReceiptView, AuditErrorView>(receipt@),
            Err(error) => emit_answer(answer) == Err::<AuditReceiptView, AuditErrorView>(error@),
        },
        match posted {
            Ok(()) => unit_answer(posted) == Ok::<(), AuditErrorView>(()),
            Err(error) => unit_answer(posted) == Err::<(), AuditErrorView>(error@),
        },
{
}

/// The plugin goes by one name.
pub proof fn law_plugin_id()
    ensures
        PLUGIN_ID@ == "dev.mcpg.audit.http"@,
{
}

} // verus!

use audit_http::batch::{Job, Reply};
use audit_http::protocol::{AuditError, AuditReceipt, PluginClass, PLUGIN_ID};
use audit_http::retry::Outcome;
use audit_http::sink::Awaited;
use audit_http::writer::{Action, CollectorRequest, Event, Writer};
use audit_http::{ConfigFields, HttpAuditSink, HttpSinkConfig};
use std::collections::VecDeque;

type Waiter = &'static str;

/// The event of the given id.
fn sample_event(id: &str) -> serde_json::Value {
    let text = r#"{
        "event_id": "ID",
        "occurred_at": "2026-08-31T00:00:00Z",
        "actor": {"kind": "verified", "trust_level": "verified", "subject_id": "user-1"},
        "action": "tools/call",
        "resource": "tool://kv.get",
        "outcome": "success",
        "request_id": "req-1",
        "upstream_request_id": "caller-req-1",
        "details": {}
    }"#;
    serde_json::from_str(&text.replace("ID", id)).unwrap()
}

fn config(url: &str, token: Option<&str>, max_batch_events: usize) -> HttpSinkConfig {
    HttpSinkConfig {
        url: url.to_owned(),
        token: token.map(str::to_owned),
        timeout_ms: 2_000,
        max_retries: 1,
        retry_backoff_ms: 10,
        max_batch_events,
    }
}

fn sink_for(url: &str, token: Option<&str>) -> HttpAuditSink {
    HttpAuditSink::from_validated_config(config(url, token, 256), "0.1.0", "plugin::sink")
}

fn emit(id: &str, reply: Waiter) -> Job<Waiter, Waiter> {
    HttpAuditSink::emit_job(Ok(sample_event(id)), reply).unwrap()
}

/// What a run of the writer did.
#[derive(Default)]
struct Log {
    requests: Vec<CollectorRequest>,
    waits: Vec<u64>,
    replies: Vec<Reply<Waiter, Waiter>>,
    posted: Vec<Option<Result<(), AuditError>>>,
}

impl Log {
    fn order(&self) -> Vec<Waiter> {
        self.replies
            .iter()
            .map(|reply| match reply {
                Reply::Emit { reply, .. } => *reply,
                Reply::Flush { done } => *done,
            })
            .collect()
    }

    fn answer(&self, waiter: Waiter) -> Result<AuditReceipt, AuditError> {
        for reply in &self.replies {
            if let Reply::Emit { reply, answer } = reply {
                if *reply == waiter {
                    return match answer {
                        Ok(receipt) => Ok(AuditReceipt {
                            sink_id: receipt.sink_id.clone(),
                            persisted_at: receipt.persisted_at.clone(),
                            durable_hash: receipt.durable_hash.clone(),
                        }),
                        Err(error) => Err(error.clone()),
                    };
                }
            }
        }
        HttpAuditSink::emit_answer(Awaited::Abandoned)
    }

    /// What a flush returns that waited for this run.
    fn flushed(&self, waiter: Waiter) -> Result<(), AuditError> {
        let done = self
            .replies
            .iter()
            .any(|reply| matches!(reply, Reply::Flush { done } if *done == waiter));
        HttpAuditSink::flush_answer(Some(if done {
            Awaited::Replied(())
        } else {
            Awaited::Abandoned
        }))
    }

    fn body(&self, i: usize) -> serde_json::Value {
        serde_json::from_slice(&self.requests[i].body).unwrap()
    }
}

/// Runs a writer on these jobs, all of them queued from the start, with a
/// collector that answers with these statuses in turn.
fn run(
    (mut writer, mut action): (Writer<Waiter, Waiter>, Action<Waiter, Waiter>),
    jobs: Vec<Job<Waiter, Waiter>>,
    statuses: &[u16],
) -> Log {
    let mut queue: VecDeque<Job<Waiter, Waiter>> = jobs.into();
    let mut statuses: VecDeque<u16> = statuses.iter().copied().collect();
    let mut log = Log::default();
    loop {
        let event = match action {
            Action::Receive => match queue.pop_front() {
                Some(job) => Event::Received(job),
                None => Event::QueueClosed,
            },
            Action::Poll => match queue.pop_front() {
                Some(job) => Event::Received(job),
                None => Event::QueueEmpty,
            },
            Action::Post(request) => {
                log.requests.push(request);
                Event::Attempted(Outcome::Status(statuses.pop_front().expect("status")))
            }
            Action::Wait(ms) => {
                log.waits.push(ms);
                Event::Waited
            }
            Action::Answer { posted, replies } => {
                log.posted.push(posted);
                log.replies.extend(replies);
                Event::Answered
            }
            Action::Stop => break,
        };
        action = writer.advance(event);
    }
    assert!(statuses.is_empty());
    log
}

#[test]
fn commits_with_bearer_and_array_body() {
    let sink = sink_for("http://collector/v1/audit", Some("sekret"));
    let log = run(sink.writer(), vec![emit("e1", "w1")], &[202]);
    assert_eq!(log.requests.len(), 1);
    assert_eq!(log.requests[0].url, "http://collector/v1/audit");
    assert_eq!(log.requests[0].content_type, "application/json");
    assert_eq!(log.requests[0].bearer.as_deref(), Some("sekret"));
    let body = log.body(0);
    assert_eq!(body.as_array().unwrap().len(), 1);
    assert_eq!(body[0]["event_id"], "e1");
    assert_eq!(body[0], sample_event("e1"));
    let receipt = log.answer("w1").expect("committed");
    assert_eq!(receipt.sink_id, PLUGIN_ID);
    assert_eq!(receipt.durable_hash.len(), 64);
}

#[test]
fn non_2xx_fails_closed_without_retry() {
    let sink = sink_for("http://collector", None);
    let log = run(sink.writer(), vec![emit("e2", "w2")], &[403]);
    assert_eq!(log.requests.len(), 1);
    let err = log.answer("w2").unwrap_err();
    assert!(matches!(err, AuditError::WriteFailed { .. }));
    assert_eq!(
        err,
        AuditError::WriteFailed { reason: "collector returned HTTP 403 Forbidden".to_owned() }
    );
    assert!(log.waits.is_empty());
}

#[test]
fn server_errors_retry_then_commit() {
    let sink = sink_for("http://collector", None);
    let log = run(sink.writer(), vec![emit("e3", "w3")], &[500, 200]);
    assert_eq!(log.requests.len(), 2);
    assert_eq!(log.requests[0].body, log.requests[1].body);
    assert_eq!(log.requests[0].bearer, None);
    assert_eq!(log.waits, vec![10]);
    log.answer("w3").expect("retried to commit");
}

#[test]
fn flush_waits_for_prior_emits() {
    let sink = sink_for("http://collector", None);
    let jobs = vec![emit("e4", "w4"), Job::Flush { done: "flush" }];
    let log = run(sink.writer(), jobs, &[200]);
    log.answer("w4").unwrap();
    assert_eq!(log.order(), vec!["w4", "flush"]);
    log.flushed("flush").expect("flush clean");
    assert_eq!(log.flushed("another"), Err(AuditError::Closed));
}

#[test]
fn queued_events_share_one_post() {
    let sink = sink_for("http://collector", None);
    let jobs = vec![emit("a", "a"), emit("b", "b"), Job::Flush { done: "f" }, emit("c", "c")];
    let log = run(sink.writer(), jobs, &[200]);
    assert_eq!(log.requests.len(), 1);
    let body = log.body(0);
    assert_eq!(body[0]["event_id"], "a");
    assert_eq!(body[1]["event_id"], "b");
    assert_eq!(body[2]["event_id"], "c");
    assert_eq!(log.order(), vec!["a", "b", "c", "f"]);
    assert_eq!(log.posted, vec![Some(Ok(()))]);
}

#[test]
fn the_ceiling_splits_the_queue() {
    let cfg = config("http://collector", None, 2);
    let jobs = vec![emit("a", "a"), emit("b", "b"), emit("c", "c")];
    let log = run(Writer::start(cfg), jobs, &[200, 403]);
    assert_eq!(log.requests.len(), 2);
    assert_eq!(log.body(0).as_array().unwrap().len(), 2);
    assert_eq!(log.body(1).as_array().unwrap().len(), 1);
    assert_eq!(log.order(), vec!["a", "b", "c"]);
    assert!(log.answer("a").is_ok());
    assert!(log.answer("b").is_ok());
    assert!(log.answer("c").is_err());
}

#[test]
fn batches_carry_the_events_received_in_order() {
    let cfg = config("http://collector", None, 2);
    let ids = ["a", "b", "c", "d", "e"];
    let mut jobs: Vec<Job<Waiter, Waiter>> = ids.iter().map(|id| emit(id, id)).collect();
    jobs.insert(1, Job::Flush { done: "f" });
    let log = run(Writer::start(cfg), jobs, &[200, 500, 200, 403]);
    let mut first_posts: Vec<&CollectorRequest> = log.requests.iter().collect();
    assert_eq!(first_posts[1].body, first_posts[2].body);
    first_posts.remove(2);
    let shipped: Vec<Vec<String>> = first_posts
        .iter()
        .map(|request| {
            let body: serde_json::Value = serde_json::from_slice(&request.body).unwrap();
            let records = body.as_array().unwrap();
            records.iter().map(|r| r["event_id"].as_str().unwrap().to_owned()).collect()
        })
        .collect();
    assert_eq!(shipped, vec![vec!["a", "b"], vec!["c", "d"], vec!["e"]]);
}

#[test]
fn a_batch_below_the_ceiling_ships_when_the_queue_is_empty() {
    let (mut writer, _) = Writer::<Waiter, Waiter>::start(config("http://collector", None, 3));
    assert!(matches!(writer.advance(Event::Received(emit("a", "a"))), Action::Poll));
    assert!(matches!(writer.advance(Event::Received(Job::Flush { done: "f" })), Action::Poll));
    assert!(matches!(writer.advance(Event::Received(emit("b", "b"))), Action::Poll));
    assert!(matches!(writer.advance(Event::QueueEmpty), Action::Post(_)));
}

#[test]
fn a_ceiling_of_one_posts_without_polling() {
    let (mut writer, _) = Writer::<Waiter, Waiter>::start(config("http://collector", None, 1));
    assert!(matches!(writer.advance(Event::Received(emit("a", "a"))), Action::Post(_)));
}

#[test]
fn an_idle_writer_ships_at_once() {
    let (mut writer, first) = Writer::<Waiter, Waiter>::start(config("http://collector", None, 8));
    assert!(matches!(first, Action::Receive));
    let job: Job<Waiter, Waiter> =
        Job::Emit { record: b"{}".to_vec(), hash: "h".to_owned(), reply: "w" };
    assert!(matches!(writer.advance(Event::Received(job)), Action::Poll));
    match writer.advance(Event::QueueEmpty) {
        Action::Post(request) => assert_eq!(request.body, b"[{}]".to_vec()),
        other => panic!("{other:?}"),
    }
}

#[test]
fn a_flush_alone_posts_nothing() {
    let sink = sink_for("http://collector", None);
    let log = run(sink.writer(), vec![Job::Flush { done: "f" }], &[]);
    assert!(log.requests.is_empty());
    assert_eq!(log.order(), vec!["f"]);
    assert_eq!(log.posted, vec![None]);
}

#[test]
fn a_failed_batch_fails_every_waiter() {
    let sink = sink_for("http://collector", None);
    let jobs = vec![emit("a", "a"), emit("b", "b")];
    let log = run(sink.writer(), jobs, &[429, 429]);
    assert_eq!(log.requests.len(), 2);
    assert_eq!(log.answer("a"), Err(AuditError::Throttled));
    assert_eq!(log.answer("b"), Err(AuditError::Throttled));
    assert_eq!(log.posted, vec![Some(Err(AuditError::Throttled))]);
}

#[test]
fn receipts_carry_the_records_hash_and_the_time() {
    let (mut writer, _) = Writer::<Waiter, Waiter>::start(config("http://collector", None, 8));
    writer.advance_at(Event::Received(emit("a", "a")), "t0");
    writer.advance_at(Event::QueueEmpty, "t1");
    let action = writer.advance_at(Event::Attempted(Outcome::Status(200)), "t2");
    let (_, hash) = audit_http::record::serialize_event(Ok(sample_event("a"))).unwrap();
    match action {
        Action::Answer { replies, .. } => match &replies[..] {
            [Reply::Emit { reply: "a", answer: Ok(receipt) }] => {
                assert_eq!(receipt.sink_id, "dev.mcpg.audit.http");
                assert_eq!(receipt.persisted_at, "t2");
                assert_eq!(receipt.durable_hash, hash);
            }
            other => panic!("{other:?}"),
        },
        other => panic!("{other:?}"),
    }
}

#[test]
fn the_receipt_hashes_the_bytes_in_the_body() {
    let sink = sink_for("http://collector", None);
    let log = run(sink.writer(), vec![emit("a", "a"), emit("b", "b")], &[200]);
    let body = &log.requests[0].body;
    let first = serde_json::to_vec(&sample_event("a")).unwrap().len();
    let second = serde_json::to_vec(&sample_event("b")).unwrap().len();
    let a = body[1..1 + first].to_vec();
    let b = body[2 + first..2 + first + second].to_vec();
    assert_eq!(body.len(), first + second + 3);
    let hash = |bytes: Vec<u8>| audit_http::record::seal_record(Ok(bytes)).unwrap().1;
    assert_eq!(log.answer("a").unwrap().durable_hash, hash(a));
    assert_eq!(log.answer("b").unwrap().durable_hash, hash(b));
}

#[test]
fn waits_double_and_keep_to_the_worst_case() {
    let mut cfg = config("http://collector", None, 8);
    cfg.max_retries = 3;
    cfg.retry_backoff_ms = 100;
    let log = run(Writer::start(cfg), vec![emit("a", "a")], &[500, 502, 503, 504]);
    assert_eq!(log.requests.len(), 4);
    assert_eq!(log.waits, vec![100, 200, 400]);
    assert_eq!(
        log.answer("a"),
        Err(AuditError::WriteFailed {
            reason: "collector returned HTTP 504 Gateway Timeout".to_owned()
        })
    );
}

#[test]
fn the_clock_gives_utc_milliseconds() {
    let sink = sink_for("http://collector", None);
    let log = run(sink.writer(), vec![emit("a", "a")], &[200]);
    let stamp: Vec<char> = log.answer("a").unwrap().persisted_at.chars().collect();
    assert_eq!(stamp.len(), 24);
    for (c, p) in stamp.iter().zip("0000-00-00T00:00:00.000Z".chars()) {
        assert!(if p == '0' { c.is_ascii_digit() } else { *c == p });
    }
    let number = |from: usize| -> u32 {
        stamp[from].to_digit(10).unwrap() * 10 + stamp[from + 1].to_digit(10).unwrap()
    };
    assert!((1..=12).contains(&number(5)));
    assert!((1..=31).contains(&number(8)));
    assert!(number(11) < 24);
    assert!(number(14) < 60);
    assert!(number(17) < 60);
}

#[test]
fn a_closed_sink_is_reported() {
    assert_eq!(HttpAuditSink::emit_answer(Awaited::NotQueued), Err(AuditError::Closed));
    assert_eq!(HttpAuditSink::emit_answer(Awaited::Abandoned), Err(AuditError::Closed));
    let told = Err(AuditError::Timeout);
    assert_eq!(HttpAuditSink::emit_answer(Awaited::Replied(told)), Err(AuditError::Timeout));
    assert_eq!(HttpAuditSink::flush_answer(Some(Awaited::NotQueued)), Err(AuditError::Closed));
    assert_eq!(HttpAuditSink::flush_answer(Some(Awaited::Abandoned)), Err(AuditError::Closed));
    assert_eq!(HttpAuditSink::flush_answer(None), Err(AuditError::Timeout));
}

#[test]
fn an_unserializable_event_gives_no_job() {
    let job = HttpAuditSink::emit_job::<Waiter, Waiter>(Err("no".to_owned()), "w");
    match job {
        Err(AuditError::WriteFailed { reason }) => assert_eq!(reason, "serialize audit event: no"),
        other => panic!("{other:?}"),
    }
}

#[test]
fn the_manifest_introduces_the_plugin() {
    let sink = sink_for("http://collector", None);
    let manifest = sink.manifest();
    assert_eq!(manifest.id, "dev.mcpg.audit.http");
    assert_eq!(manifest.version, "0.1.0");
    assert_eq!(manifest.name, "HTTP Collector Audit Sink");
    assert_eq!(manifest.plugin_class, PluginClass::AuditSink);
    assert_eq!(manifest.protocol_version, "1.0");
    assert_eq!(manifest.module_path_prefix, "plugin");
    assert!(manifest.license.is_none() && manifest.backend_profile.is_none());
    assert!(manifest.tags.is_empty() && manifest.provides.is_empty());
    assert!(manifest.provides_schemes.is_empty() && manifest.required_capabilities.is_empty());
}

fn fields(url: &str) -> ConfigFields {
    ConfigFields {
        url: url.to_owned(),
        token: None,
        timeout_ms: None,
        max_retries: None,
        retry_backoff_ms: None,
        max_batch_events: None,
    }
}

#[test]
fn a_sink_loads_from_its_configuration() {
    let sink =
        HttpAuditSink::from_config_json("http://c", |url: &str| Ok(fields(url)), "0.1.0", "p::q")
            .unwrap();
    assert_eq!(sink.config().url, "http://c");
    assert_eq!(sink.config().max_batch_events, 256);
    assert_eq!(sink.manifest().module_path_prefix, "p");
}

#[test]
fn a_sink_loads_exactly_if_its_configuration_parses() {
    let decode = |url: &str| {
        if url == "undecodable" {
            Err("no".to_owned())
        } else {
            Ok(fields(url))
        }
    };
    for text in ["http://c", "https://c", "ftp://c", "", "undecodable"] {
        let parsed = HttpSinkConfig::parse(text, decode);
        let loaded = HttpAuditSink::from_config_json(text, decode, "0.1.0", "p::q");
        match (parsed, loaded) {
            (Ok(cfg), Ok(sink)) => {
                let same = HttpAuditSink::from_validated_config(cfg, "0.1.0", "p::q");
                assert_eq!(format!("{sink:?}"), format!("{same:?}"));
            }
            (Err(fault), Err(error)) => assert_eq!(fault.message(), error.message()),
            other => panic!("{other:?}"),
        }
    }
}

#[test]
fn a_misconfigured_sink_does_not_load() {
    let refused =
        HttpAuditSink::from_config_json("ftp://c", |url: &str| Ok(fields(url)), "0.1.0", "p::q");
    let error = refused.unwrap_err();
    assert_eq!(
        error.message(),
        "invalid audit.http config: `url` must be http(s)://, got `ftp://c`"
    );
    assert_eq!(
        HttpAuditSink::refuse(&error),
        "audit.http config parse failed: invalid audit.http config: `url` must be http(s)://, \
         got `ftp://c`. A misconfigured audit sink is a safety hole; refusing to load."
    );
}

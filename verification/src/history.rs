//! What holds of a writer over its whole life: which jobs are answered, when,
//! and with what.

use crate::batch::{BatchView, JobView, ReplyView};
use crate::config::ConfigView;
use crate::protocol::{AuditErrorView, AuditReceiptView};
use crate::retry::OutcomeView;
use crate::writer::{ActionView, EventView, Phase, RequestView, WriterView};
use vstd::prelude::*;

verus! {

/// An event, and the time at which the writer takes it.
pub struct Input<E, F> {
    pub event: EventView<E, F>,
    pub now: Seq<char>,
}

/// The state after these inputs.
pub open spec fn state_after<E, F>(cfg: ConfigView, inputs: Seq<Input<E, F>>) -> WriterView<E, F>
    decreases inputs.len(),
{
    if inputs.len() == 0 {
        WriterView::started(cfg)
    } else {
        state_after(cfg, inputs.drop_last()).step(inputs.last().event, inputs.last().now).0
    }
}

/// The actions asked for, one for each input.
pub open spec fn actions_after<E, F>(cfg: ConfigView, inputs: Seq<Input<E, F>>) -> Seq<
    ActionView<E, F>,
>
    decreases inputs.len(),
{
    if inputs.len() == 0 {
        Seq::empty()
    } else {
        actions_after(cfg, inputs.drop_last()).push(
            state_after(cfg, inputs.drop_last()).step(inputs.last().event, inputs.last().now).1,
        )
    }
}

/// Every event may follow the action asked for before it.
pub open spec fn possible<E, F>(cfg: ConfigView, inputs: Seq<Input<E, F>>) -> bool
    decreases inputs.len(),
{
    inputs.len() > 0 ==> {
        &&& possible(cfg, inputs.drop_last())
        &&& state_after(cfg, inputs.drop_last()).expects(inputs.last().event)
    }
}

/// An event to ship: its record, the record's hash, and the handle of its
/// waiter.
pub struct EmitJob<E> {
    pub record: Seq<u8>,
    pub hash: Seq<char>,
    pub reply: E,
}

/// The emits received, in order.
pub open spec fn emits_received<E, F>(inputs: Seq<Input<E, F>>) -> Seq<EmitJob<E>>
    decreases inputs.len(),
{
    if inputs.len() == 0 {
        Seq::empty()
    } else {
        let before = emits_received(inputs.drop_last());
        match inputs.last().event {
            EventView::Received(JobView::Emit { record, hash, reply }) => before.push(
                EmitJob { record, hash, reply },
            ),
            _ => before,
        }
    }
}

/// The flushes received, in order.
pub open spec fn flushes_received<E, F>(inputs: Seq<Input<E, F>>) -> Seq<F>
    decreases inputs.len(),
{
    if inputs.len() == 0 {
        Seq::empty()
    } else {
        let before = flushes_received(inputs.drop_last());
        match inputs.last().event {
            EventView::Received(JobView::Flush { done }) => before.push(done),
            _ => before,
        }
    }
}

/// The replies that an action sends.
pub open spec fn replies_of<E, F>(action: ActionView<E, F>) -> Seq<ReplyView<E, F>> {
    match action {
        ActionView::Answer { replies, .. } => replies,
        _ => Seq::empty(),
    }
}

/// The replies sent by these actions, in order.
pub open spec fn replies_sent<E, F>(actions: Seq<ActionView<E, F>>) -> Seq<ReplyView<E, F>>
    decreases actions.len(),
{
    if actions.len() == 0 {
        Seq::empty()
    } else {
        replies_sent(actions.drop_last()) + replies_of(actions.last())
    }
}

/// The emits among some replies, by the handles of their waiters.
pub open spec fn emits_answered<E, F>(replies: Seq<ReplyView<E, F>>) -> Seq<E>
    decreases replies.len(),
{
    if replies.len() == 0 {
        Seq::empty()
    } else {
        let before = emits_answered(replies.drop_last());
        match replies.last() {
            ReplyView::Emit { reply, .. } => before.push(reply),
            ReplyView::Flush { .. } => before,
        }
    }
}

/// The flushes among some replies.
pub open spec fn flushes_answered<E, F>(replies: Seq<ReplyView<E, F>>) -> Seq<F>
    decreases replies.len(),
{
    if replies.len() == 0 {
        Seq::empty()
    } else {
        let before = flushes_answered(replies.drop_last());
        match replies.last() {
            ReplyView::Emit { .. } => before,
            ReplyView::Flush { done } => before.push(done),
        }
    }
}

/// The emits that a batch holds.
pub open spec fn emits_held<E, F>(batch: BatchView<E, F>) -> Seq<EmitJob<E>> {
    Seq::new(
        batch.records.len(),
        |i: int| EmitJob {
            record: batch.records[i],
            hash: batch.waiters[i].0,
            reply: batch.waiters[i].1,
        },
    )
}

/// The handles of the waiters of some emits.
pub open spec fn handles<E>(jobs: Seq<EmitJob<E>>) -> Seq<E> {
    Seq::new(jobs.len(), |i: int| jobs[i].reply)
}

/// How many times the collector was asked since the last replies were sent.
pub open spec fn posts_since_replies<E, F>(actions: Seq<ActionView<E, F>>) -> nat
    decreases actions.len(),
{
    if actions.len() == 0 {
        0
    } else {
        match actions.last() {
            ActionView::Post(_) => posts_since_replies(actions.drop_last()) + 1,
            ActionView::Answer { .. } => 0,
            _ => posts_since_replies(actions.drop_last()),
        }
    }
}

/// A writer stays well formed through every possible life.
proof fn lemma_well_formed<E, F>(cfg: ConfigView, inputs: Seq<Input<E, F>>)
    requires
        possible(cfg, inputs),
    ensures
        state_after(cfg, inputs).well_formed(),
        state_after(cfg, inputs).cfg == cfg,
        actions_after(cfg, inputs).len() == inputs.len(),
    decreases inputs.len(),
{
    if inputs.len() > 0 {
        lemma_well_formed(cfg, inputs.drop_last());
        crate::writer::lemma_step_well_formed(
            state_after(cfg, inputs.drop_last()),
            inputs.last().event,
            inputs.last().now,
        );
    }
}

/// Replies to one group after the other are the replies to both.
proof fn lemma_answered_concat<E, F>(a: Seq<ReplyView<E, F>>, b: Seq<ReplyView<E, F>>)
    ensures
        emits_answered(a + b) == emits_answered(a) + emits_answered(b),
        flushes_answered(a + b) == flushes_answered(a) + flushes_answered(b),
    decreases b.len(),
{
    if b.len() == 0 {
        assert(a + b == a);
    } else {
        assert((a + b).drop_last() == a + b.drop_last());
        lemma_answered_concat(a, b.drop_last());
    }
}

/// Replies to emits alone answer those emits and no flush.
proof fn lemma_emit_replies<E, F>(replies: Seq<ReplyView<E, F>>, reached: Seq<E>)
    requires
        replies.len() == reached.len(),
        forall|i: int|
            0 <= i < replies.len() ==> (#[trigger] replies[i] matches ReplyView::Emit {
                reply,
                ..
            } && reply == reached[i]),
    ensures
        emits_answered(replies) == reached,
        flushes_answered(replies) == Seq::<F>::empty(),
    decreases replies.len(),
{
    if replies.len() > 0 {
        let fewer = replies.drop_last();
        assert(replies.last() == replies[replies.len() - 1]);
        assert forall|i: int| 0 <= i < fewer.len() implies (
        #[trigger] fewer[i] matches ReplyView::Emit { reply, .. } && reply
            == reached.drop_last()[i]) by {
            assert(fewer[i] == replies[i]);
        }
        lemma_emit_replies(fewer, reached.drop_last());
        assert(reached.drop_last().push(reached.last()) == reached);
    }
}

/// Replies to flushes alone answer those flushes and no emit.
proof fn lemma_flush_replies<E, F>(replies: Seq<ReplyView<E, F>>, reached: Seq<F>)
    requires
        replies.len() == reached.len(),
        forall|i: int|
            0 <= i < replies.len() ==> (#[trigger] replies[i] matches ReplyView::Flush { done }
                && done == reached[i]),
    ensures
        emits_answered(replies) == Seq::<E>::empty(),
        flushes_answered(replies) == reached,
    decreases replies.len(),
{
    if replies.len() > 0 {
        let fewer = replies.drop_last();
        assert(replies.last() == replies[replies.len() - 1]);
        assert forall|i: int| 0 <= i < fewer.len() implies (
        #[trigger] fewer[i] matches ReplyView::Flush { done } && done
            == reached.drop_last()[i]) by {
            assert(fewer[i] == replies[i]);
        }
        lemma_flush_replies(fewer, reached.drop_last());
        assert(reached.drop_last().push(reached.last()) == reached);
    }
}

/// The replies to a batch answer what it holds, and nothing else.
proof fn lemma_batch_replies<E, F>(
    batch: BatchView<E, F>,
    posted: Result<(), AuditErrorView>,
    now: Seq<char>,
)
    requires
        batch.well_formed(),
    ensures
        emits_answered(batch.replies(posted, now)) == handles(emits_held(batch)),
        flushes_answered(batch.replies(posted, now)) == batch.flushes,
{
    let all = batch.replies(posted, now);
    let n = batch.waiters.len() as int;
    let emits = all.take(n);
    let flushes = all.skip(n);
    assert(all == emits + flushes);
    lemma_answered_concat(emits, flushes);
    lemma_emit_replies(emits, handles(emits_held(batch)));
    lemma_flush_replies(flushes, batch.flushes);
    assert(emits_answered(all) == handles(emits_held(batch)));
    assert(flushes_answered(all) == batch.flushes);
}

/// Nothing is lost and nothing is answered twice: at every point of every
/// possible life, the emits received are those answered, in the order in which
/// they came, followed by those that the batch still holds; and so are the
/// flushes.
pub proof fn law_every_job_answered_once<E, F>(cfg: ConfigView, inputs: Seq<Input<E, F>>)
    requires
        possible(cfg, inputs),
    ensures
        ({
            let answered = emits_answered(replies_sent(actions_after(cfg, inputs)));
            let held = emits_held(state_after(cfg, inputs).batch);
            let received = emits_received(inputs);
            &&& handles(received) == answered + handles(held)
            &&& received.skip(answered.len() as int) == held
        }),
        flushes_received(inputs) == flushes_answered(replies_sent(actions_after(cfg, inputs)))
            + state_after(cfg, inputs).batch.flushes,
    decreases inputs.len(),
{
    if inputs.len() > 0 {
        let earlier = inputs.drop_last();
        let input = inputs.last();
        law_every_job_answered_once(cfg, earlier);
        lemma_well_formed(cfg, earlier);
        let w = state_after(cfg, earlier);
        let (next, action) = w.step(input.event, input.now);
        let sent = replies_sent(actions_after(cfg, earlier));
        let actions = actions_after(cfg, inputs);
        assert(actions.drop_last() == actions_after(cfg, earlier));
        assert(replies_sent(actions) == sent + replies_of(action));
        lemma_answered_concat(sent, replies_of(action));
        let full = match input.event {
            EventView::Received(job) => w.batch.with(job),
            _ => w.batch,
        };
        let received = emits_received(inputs);
        let answered = emits_answered(sent);
        let received_before = emits_received(earlier);
        let n = answered.len() as int;
        assert(handles(received_before).len() == received_before.len());
        match input.event {
            EventView::Received(JobView::Emit { record, hash, reply }) => {
                let job = EmitJob { record, hash, reply };
                assert(received == received_before.push(job));
                assert(received.skip(n) == received_before.skip(n).push(job));
                assert(emits_held(full) == emits_held(w.batch).push(job));
                assert(handles(received) == handles(received_before).push(reply));
                assert(handles(emits_held(full)) == handles(emits_held(w.batch)).push(reply));
            },
            _ => {
                assert(emits_held(full) == emits_held(w.batch));
            },
        }
        assert(handles(received) == answered + handles(emits_held(full)));
        assert(flushes_received(inputs) == flushes_answered(sent) + full.flushes);
        match action {
            ActionView::Answer { posted, replies } => {
                let told = match posted {
                    Some(answer) => answer,
                    None => Ok(()),
                };
                lemma_batch_replies(full, told, input.now);
                assert(replies == full.replies(told, input.now));
                assert(handles(emits_held(next.batch)) == Seq::<E>::empty());
                let now_answered = emits_answered(replies_sent(actions));
                assert(received.skip(now_answered.len() as int) == emits_held(next.batch));
            },
            _ => {
                assert(sent + replies_of(action) == sent);
                assert(next.batch == full);
            },
        }
    }
}

/// While an attempt is under way, the last action was the request for the batch
/// that the writer holds.
proof fn lemma_posting_follows_request<E, F>(cfg: ConfigView, inputs: Seq<Input<E, F>>)
    requires
        state_after(cfg, inputs).phase is Posting,
    ensures
        inputs.len() > 0,
        actions_after(cfg, inputs).len() > 0,
        actions_after(cfg, inputs).last() == ActionView::<E, F>::Post(
            state_after(cfg, inputs).request(),
        ),
{
}

/// An emit is answered `Ok` only on a 2xx, and that 2xx answered a request whose
/// body carries the event's record: the request went to the configured endpoint
/// with the configured token, its body is the JSON array of the records held,
/// and the one at the reply's place is the record of the very job that is
/// answered. The receipt carries that job's hash.
pub proof fn law_ok_only_after_2xx<E, F>(
    cfg: ConfigView,
    inputs: Seq<Input<E, F>>,
    last: Input<E, F>,
    i: int,
    reply: E,
    receipt: AuditReceiptView,
)
    requires
        possible(cfg, inputs.push(last)),
        0 <= i < replies_of(actions_after(cfg, inputs.push(last)).last()).len(),
        replies_of(actions_after(cfg, inputs.push(last)).last())[i] == (ReplyView::<E, F>::Emit {
            reply,
            answer: Ok(receipt),
        }),
    ensures
        last.event matches EventView::Attempted(outcome) && outcome.committed(),
        last.event matches EventView::Attempted(OutcomeView::Status(code)) && 200 <= code <= 299,
        ({
            let records = state_after(cfg, inputs).batch.records;
            let earlier = emits_answered(replies_sent(actions_after(cfg, inputs))).len();
            let job = emits_received(inputs)[earlier + i];
            &&& inputs.len() > 0
            &&& actions_after(cfg, inputs).last() matches ActionView::Post(request)
            &&& request.url == cfg.url
            &&& request.content_type == "application/json"@
            &&& request.bearer == (match cfg.token {
                Some(token) => if token.len() > 0 {
                    Some(token)
                } else {
                    None
                },
                None => None,
            })
            &&& request.body == crate::record::json_array(records)
            &&& 0 <= i < records.len()
            &&& earlier + i < emits_received(inputs).len()
            &&& job == (EmitJob { record: records[i], hash: receipt.durable_hash, reply })
        }),
        receipt.sink_id == "dev.mcpg.audit.http"@,
        receipt.persisted_at == last.now,
{
    let all = inputs.push(last);
    assert(all.drop_last() == inputs);
    lemma_well_formed(cfg, inputs);
    law_every_job_answered_once(cfg, inputs);
    let w = state_after(cfg, inputs);
    let (_, action) = w.step(last.event, last.now);
    assert(actions_after(cfg, all).last() == action);
    let n = emits_answered(replies_sent(actions_after(cfg, inputs))).len();
    let received = emits_received(inputs);
    assert(handles(received).len() == received.len());
    assert(w.phase is Posting);
    lemma_posting_follows_request(cfg, inputs);
    assert(received.skip(n as int)[i] == received[n + i]);
}

/// The jobs that the writer is handed carry the hash of their own record.
pub open spec fn all_sealed<E, F>(inputs: Seq<Input<E, F>>) -> bool {
    forall|k: int|
        0 <= k < emits_received(inputs).len() ==> (#[trigger] emits_received(inputs)[k]).hash
            == crate::record::hex_text(crate::record::sha256(emits_received(inputs)[k].record))
}

/// If every job carries the hash of its own record, a receipt carries the hash of
/// a record that stands verbatim in the body that the collector answered 2xx.
pub proof fn law_receipt_hashes_shipped_record<E, F>(
    cfg: ConfigView,
    inputs: Seq<Input<E, F>>,
    last: Input<E, F>,
    i: int,
    reply: E,
    receipt: AuditReceiptView,
)
    requires
        possible(cfg, inputs.push(last)),
        all_sealed(inputs),
        0 <= i < replies_of(actions_after(cfg, inputs.push(last)).last()).len(),
        replies_of(actions_after(cfg, inputs.push(last)).last())[i] == (ReplyView::<E, F>::Emit {
            reply,
            answer: Ok(receipt),
        }),
    ensures
        ({
            let records = state_after(cfg, inputs).batch.records;
            let start = crate::record::record_start(records, i);
            &&& 0 <= i < records.len()
            &&& actions_after(cfg, inputs).last() matches ActionView::Post(request)
            &&& 0 < start
            &&& start + records[i].len() < request.body.len()
            &&& request.body.subrange(start, start + records[i].len()) == records[i]
            &&& receipt.durable_hash == crate::record::hex_text(
                crate::record::sha256(request.body.subrange(start, start + records[i].len())),
            )
        }),
{
    law_ok_only_after_2xx(cfg, inputs, last, i, reply, receipt);
    crate::record::law_records_verbatim(state_after(cfg, inputs).batch.records, i);
}

/// Everyone in a batch shares its outcome: the attempt that settled the batch
/// answers each of its emits, with a receipt if it was a 2xx and with its error
/// otherwise. A batch that was not posted answers no emit.
pub proof fn law_batch_shares_outcome<E, F>(
    cfg: ConfigView,
    inputs: Seq<Input<E, F>>,
    last: Input<E, F>,
    i: int,
)
    requires
        possible(cfg, inputs.push(last)),
        0 <= i < replies_of(actions_after(cfg, inputs.push(last)).last()).len(),
        replies_of(actions_after(cfg, inputs.push(last)).last())[i] is Emit,
    ensures
        last.event matches EventView::Attempted(outcome) && {
            &&& actions_after(cfg, inputs.push(last)).last() matches ActionView::Answer {
                posted: Some(posted),
                replies,
            }
            &&& posted == outcome.verdict()
            &&& replies[i] matches ReplyView::Emit { answer, .. }
            &&& answer is Ok <==> outcome.committed()
            &&& answer matches Err(error) ==> error == outcome.error()
        },
{
    assert(inputs.push(last).drop_last() == inputs);
    lemma_well_formed(cfg, inputs);
}

/// A flush is a barrier: whenever replies are sent, every job received so far has
/// been answered with them, and among them the emits come before the flushes.
pub proof fn law_flush_is_a_barrier<E, F>(cfg: ConfigView, inputs: Seq<Input<E, F>>)
    requires
        possible(cfg, inputs),
        inputs.len() > 0,
        actions_after(cfg, inputs).last() is Answer,
    ensures
        emits_answered(replies_sent(actions_after(cfg, inputs))) == handles(
            emits_received(inputs),
        ),
        flushes_answered(replies_sent(actions_after(cfg, inputs))) == flushes_received(inputs),
        forall|i: int, j: int|
            0 <= i < j < replies_of(actions_after(cfg, inputs).last()).len() && #[trigger]
                replies_of(actions_after(cfg, inputs).last())[i] is Flush ==> #[trigger]
                replies_of(actions_after(cfg, inputs).last())[j] is Flush,
{
    lemma_well_formed(cfg, inputs);
    law_every_job_answered_once(cfg, inputs);
    lemma_well_formed(cfg, inputs.drop_last());
    assert(state_after(cfg, inputs).phase is Settling);
    assert(handles(emits_held(state_after(cfg, inputs).batch)) == Seq::<E>::empty());
}

/// A writer that waits for the first job of a batch, or has stopped, owes nobody
/// an answer.
pub proof fn law_nothing_owed_between_batches<E, F>(cfg: ConfigView, inputs: Seq<Input<E, F>>)
    requires
        possible(cfg, inputs),
        state_after(cfg, inputs).phase is Idle || state_after(cfg, inputs).phase is Stopped,
    ensures
        emits_answered(replies_sent(actions_after(cfg, inputs))) == handles(
            emits_received(inputs),
        ),
        flushes_answered(replies_sent(actions_after(cfg, inputs))) == flushes_received(inputs),
{
    lemma_well_formed(cfg, inputs);
    law_every_job_answered_once(cfg, inputs);
    assert(handles(emits_held(state_after(cfg, inputs).batch)) == Seq::<E>::empty());
}

/// No batch carries more events than its ceiling, which is at least one in a valid
/// configuration.
pub proof fn law_batch_ceiling<E, F>(cfg: ConfigView, inputs: Seq<Input<E, F>>)
    requires
        cfg.max_batch_events >= 1,
        possible(cfg, inputs),
    ensures
        state_after(cfg, inputs).batch.records.len() <= cfg.max_batch_events,
{
    lemma_well_formed(cfg, inputs);
}

/// An idle sink ships a single event at once: with nothing else queued, the job
/// is followed by the `POST` of its record alone.
pub proof fn law_idle_ships_at_once<E, F>(
    cfg: ConfigView,
    inputs: Seq<Input<E, F>>,
    record: Seq<u8>,
    hash: Seq<char>,
    reply: E,
    now: Seq<char>,
    later: Seq<char>,
)
    requires
        possible(cfg, inputs),
        state_after(cfg, inputs).phase is Idle,
    ensures
        ({
            let job = JobView::Emit { record, hash, reply };
            let (taken, action) = state_after(cfg, inputs).step(EventView::Received(job), now);
            let (_, post) = if action is Poll {
                taken.step(EventView::QueueEmpty, later)
            } else {
                (taken, action)
            };
            post matches ActionView::Post(request) && request.body
                == seq![0x5bu8] + record + seq![0x5du8]
        }),
{
    lemma_well_formed(cfg, inputs);
    let job = JobView::<E, F>::Emit { record, hash, reply };
    let alone = state_after(cfg, inputs).batch.with(job);
    assert(alone.records == seq![record]);
}

/// A retry posts the very request of the attempt before it.
pub proof fn law_retry_repeats_request<E, F>(
    w: WriterView<E, F>,
    outcome: OutcomeView,
    now: Seq<char>,
    later: Seq<char>,
)
    requires
        w.phase is Posting,
        w.step(EventView::Attempted(outcome), now).1 is Wait,
    ensures
        w.step(EventView::Attempted(outcome), now).0.step(EventView::Waited, later).1
            == ActionView::<E, F>::Post(w.request()),
{
}

/// The collector is asked for one batch at most once more than there are
/// retries.
pub proof fn law_posts_bounded<E, F>(cfg: ConfigView, inputs: Seq<Input<E, F>>)
    requires
        possible(cfg, inputs),
    ensures
        posts_since_replies(actions_after(cfg, inputs)) <= cfg.max_retries + 1,
        match state_after(cfg, inputs).phase {
            Phase::Posting(post) => posts_since_replies(actions_after(cfg, inputs))
                == post.attempt + 1,
            Phase::Waiting(post) => posts_since_replies(actions_after(cfg, inputs))
                == post.attempt,
            _ => posts_since_replies(actions_after(cfg, inputs)) == 0,
        },
    decreases inputs.len(),
{
    lemma_well_formed(cfg, inputs);
    if inputs.len() > 0 {
        let earlier = inputs.drop_last();
        law_posts_bounded(cfg, earlier);
        lemma_well_formed(cfg, earlier);
        let actions = actions_after(cfg, inputs);
        assert(actions.drop_last() == actions_after(cfg, earlier));
    }
}

/// Between two attempts the writer waits: the configured backoff after the first
/// attempt, and twice the wait before it after each further one.
pub proof fn law_waits_follow_backoff<E, F>(
    cfg: ConfigView,
    inputs: Seq<Input<E, F>>,
    last: Input<E, F>,
    ms: u64,
)
    requires
        possible(cfg, inputs.push(last)),
        actions_after(cfg, inputs.push(last)).last() == ActionView::<E, F>::Wait(ms),
    ensures
        posts_since_replies(actions_after(cfg, inputs)) > 0,
        ms == crate::retry::backoff(
            cfg.retry_backoff_ms,
            (posts_since_replies(actions_after(cfg, inputs)) - 1) as nat,
        ),
{
    assert(inputs.push(last).drop_last() == inputs);
    lemma_well_formed(cfg, inputs);
    law_posts_bounded(cfg, inputs);
}

/// The last attempt allowed is answered, whatever its outcome.
pub proof fn law_last_attempt_is_answered<E, F>(
    cfg: ConfigView,
    inputs: Seq<Input<E, F>>,
    last: Input<E, F>,
)
    requires
        possible(cfg, inputs.push(last)),
        posts_since_replies(actions_after(cfg, inputs)) == cfg.max_retries + 1,
    ensures
        actions_after(cfg, inputs.push(last)).last() is Answer,
{
    assert(inputs.push(last).drop_last() == inputs);
    lemma_well_formed(cfg, inputs);
    law_posts_bounded(cfg, inputs);
}

/// A batch on its way: its records, the request of its first `POST`, and whether
/// it was closed because no further job was queued.
pub struct Shipment {
    pub records: Seq<Seq<u8>>,
    pub request: RequestView,
    pub queue_empty: bool,
}

/// The first posts of the batches, in order. A `POST` after a wait is a further
/// attempt at the batch before.
pub open spec fn shipments<E, F>(cfg: ConfigView, inputs: Seq<Input<E, F>>) -> Seq<Shipment>
    decreases inputs.len(),
{
    if inputs.len() == 0 {
        Seq::empty()
    } else {
        let before = shipments(cfg, inputs.drop_last());
        let event = inputs.last().event;
        match actions_after(cfg, inputs).last() {
            ActionView::Post(request) => if event is Waited {
                before
            } else {
                before.push(
                    Shipment {
                        records: state_after(cfg, inputs).batch.records,
                        request,
                        queue_empty: event is QueueEmpty,
                    },
                )
            },
            _ => before,
        }
    }
}

/// The records of some batches, one after the other.
pub open spec fn records_shipped(batches: Seq<Shipment>) -> Seq<Seq<u8>>
    decreases batches.len(),
{
    if batches.len() == 0 {
        Seq::empty()
    } else {
        records_shipped(batches.drop_last()) + batches.last().records
    }
}

/// The records of some emits.
pub open spec fn records_of<E>(jobs: Seq<EmitJob<E>>) -> Seq<Seq<u8>> {
    Seq::new(jobs.len(), |i: int| jobs[i].record)
}

/// The records taken off the queue and not posted yet.
pub open spec fn records_gathered<E, F>(w: WriterView<E, F>) -> Seq<Seq<u8>> {
    if w.phase is Draining {
        w.batch.records
    } else {
        Seq::empty()
    }
}

/// Events are grouped without loss, repetition or change of order: the records
/// of the batches, one batch after the other, are the records of the events
/// received, up to those that are still being gathered.
pub proof fn law_batches_partition_events<E, F>(cfg: ConfigView, inputs: Seq<Input<E, F>>)
    requires
        possible(cfg, inputs),
    ensures
        records_of(emits_received(inputs)) == records_shipped(shipments(cfg, inputs))
            + records_gathered(state_after(cfg, inputs)),
    decreases inputs.len(),
{
    if inputs.len() > 0 {
        let earlier = inputs.drop_last();
        let input = inputs.last();
        law_batches_partition_events(cfg, earlier);
        lemma_well_formed(cfg, earlier);
        let w = state_after(cfg, earlier);
        let next = state_after(cfg, inputs);
        let before = shipments(cfg, earlier);
        let after = shipments(cfg, inputs);
        let received = records_of(emits_received(inputs));
        let gathered = match input.event {
            EventView::Received(job) => w.batch.with(job).records,
            _ => records_gathered(w),
        };
        match input.event {
            EventView::Received(JobView::Emit { record, hash, reply }) => {
                assert(received == records_of(emits_received(earlier)).push(record));
                assert(gathered == records_gathered(w).push(record));
            },
            EventView::Received(JobView::Flush { .. }) => {
                assert(gathered == records_gathered(w));
            },
            _ => {},
        }
        assert(received == records_shipped(before) + gathered);
        if after.len() > before.len() {
            assert(after.drop_last() == before);
            assert(next.batch.records == gathered);
        } else {
            assert(after == before);
            assert(records_gathered(next) == gathered);
        }
    }
}

/// Every batch carries an event and keeps to the ceiling, and one below the
/// ceiling was shipped only because no further job was queued. It is one `POST`
/// of the JSON array of its records to the configured endpoint, with the
/// configured token.
pub proof fn law_batch_shape<E, F>(cfg: ConfigView, inputs: Seq<Input<E, F>>, k: int)
    requires
        possible(cfg, inputs),
        0 <= k < shipments(cfg, inputs).len(),
    ensures
        ({
            let batch = shipments(cfg, inputs)[k];
            &&& batch.records.len() >= 1
            &&& cfg.max_batch_events >= 1 ==> batch.records.len() <= cfg.max_batch_events
            &&& batch.records.len() < cfg.max_batch_events ==> batch.queue_empty
            &&& batch.request == (RequestView {
                url: cfg.url,
                content_type: "application/json"@,
                bearer: match cfg.token {
                    Some(token) => if token.len() > 0 {
                        Some(token)
                    } else {
                        None
                    },
                    None => None,
                },
                body: crate::record::json_array(batch.records),
            })
        }),
    decreases inputs.len(),
{
    let earlier = inputs.drop_last();
    lemma_well_formed(cfg, earlier);
    lemma_well_formed(cfg, inputs);
    if k < shipments(cfg, earlier).len() {
        law_batch_shape(cfg, earlier, k);
    }
}

/// While a batch is posted or about to be posted again, it is the last one
/// shipped.
proof fn lemma_last_shipment<E, F>(cfg: ConfigView, inputs: Seq<Input<E, F>>)
    requires
        possible(cfg, inputs),
        state_after(cfg, inputs).phase is Posting || state_after(cfg, inputs).phase is Waiting,
    ensures
        shipments(cfg, inputs).len() > 0,
        shipments(cfg, inputs).last().records == state_after(cfg, inputs).batch.records,
        shipments(cfg, inputs).last().request == state_after(cfg, inputs).request(),
    decreases inputs.len(),
{
    let earlier = inputs.drop_last();
    let w = state_after(cfg, earlier);
    if w.phase is Posting || w.phase is Waiting {
        lemma_last_shipment(cfg, earlier);
    }
}

/// Every `POST`, a repeated one too, is the request of the batch shipped last.
pub proof fn law_every_post_ships_last_batch<E, F>(
    cfg: ConfigView,
    inputs: Seq<Input<E, F>>,
    request: RequestView,
)
    requires
        possible(cfg, inputs),
        inputs.len() > 0,
        actions_after(cfg, inputs).last() == ActionView::<E, F>::Post(request),
    ensures
        shipments(cfg, inputs).len() > 0,
        shipments(cfg, inputs).last().request == request,
{
    assert(state_after(cfg, inputs).phase is Posting);
    lemma_last_shipment(cfg, inputs);
}

/// The writer takes what is queued up to the ceiling and no further: after a job
/// it asks for another one exactly while the batch is below the ceiling, and it
/// ships the batch, if there is an event in it, once the ceiling is reached or no
/// further job is queued.
pub proof fn law_drains_up_to_ceiling<E, F>(
    cfg: ConfigView,
    inputs: Seq<Input<E, F>>,
    last: Input<E, F>,
)
    requires
        possible(cfg, inputs.push(last)),
        last.event is Received || last.event is QueueEmpty,
    ensures
        ({
            let action = actions_after(cfg, inputs.push(last)).last();
            let events = match last.event {
                EventView::Received(job) => state_after(cfg, inputs).batch.with(job).records.len(),
                _ => state_after(cfg, inputs).batch.records.len(),
            };
            let open = last.event is Received && events < cfg.max_batch_events;
            &&& action is Poll <==> open
            &&& action is Post <==> !open && events > 0
            &&& action is Answer <==> !open && events == 0
        }),
{
    assert(inputs.push(last).drop_last() == inputs);
    lemma_well_formed(cfg, inputs);
}

/// What may follow an action: a job or the end of the queue while the writer waits
/// for one; a job or an empty queue when it asks for another; any status of three
/// digits and any failure after a `POST`; the end of a wait; and the sending of
/// the replies. Nothing follows a stop.
pub proof fn law_what_may_follow<E, F>(
    cfg: ConfigView,
    inputs: Seq<Input<E, F>>,
    event: EventView<E, F>,
)
    requires
        possible(cfg, inputs),
    ensures
        inputs.len() == 0 ==> (state_after(cfg, inputs).expects(event) <==> event is Received
            || event is QueueClosed),
        inputs.len() > 0 ==> (state_after(cfg, inputs).expects(event) <==> match actions_after(
            cfg,
            inputs,
        ).last() {
            ActionView::Receive => event is Received || event is QueueClosed,
            ActionView::Poll => event is Received || event is QueueEmpty,
            ActionView::Post(_) => match event {
                EventView::Attempted(OutcomeView::Status(code)) => 100 <= code <= 999,
                EventView::Attempted(OutcomeView::Failed { .. }) => true,
                _ => false,
            },
            ActionView::Wait(_) => event is Waited,
            ActionView::Answer { .. } => event is Answered,
            ActionView::Stop => false,
        }),
{
    if inputs.len() > 0 {
        lemma_well_formed(cfg, inputs.drop_last());
    }
}

/// What follows the events that leave no choice: the next job is waited for once
/// the replies are sent, the batch is posted again once the wait is over, and the
/// writer stops at the end of the queue. Replies come with an outcome exactly if
/// the batch was posted.
pub proof fn law_what_is_done_next<E, F>(
    cfg: ConfigView,
    inputs: Seq<Input<E, F>>,
    last: Input<E, F>,
)
    requires
        possible(cfg, inputs.push(last)),
    ensures
        ({
            let action = actions_after(cfg, inputs.push(last)).last();
            &&& action is Receive <==> last.event is Answered
            &&& action is Stop <==> last.event is QueueClosed
            &&& action is Wait ==> last.event is Attempted
            &&& last.event is Waited ==> action is Post
            &&& action is Poll ==> last.event is Received
            &&& action matches ActionView::Answer { posted, .. } ==> (posted is Some
                <==> last.event is Attempted)
        }),
{
    assert(inputs.push(last).drop_last() == inputs);
    lemma_well_formed(cfg, inputs);
}

/// What an attempt decides, by its number and its outcome alone. A 2xx commits
/// the batch. 429, any 5xx and any failure lead to a wait while the batch was
/// posted at most `max_retries` times. Anything else gives the batch up, and every
/// one of its emits is told the same error.
pub proof fn law_attempt_decides<E, F>(
    cfg: ConfigView,
    inputs: Seq<Input<E, F>>,
    outcome: OutcomeView,
    now: Seq<char>,
)
    requires
        possible(cfg, inputs.push(Input { event: EventView::Attempted(outcome), now })),
    ensures
        ({
            let all = inputs.push(Input { event: EventView::<E, F>::Attempted(outcome), now });
            let action = actions_after(cfg, all).last();
            let posts = posts_since_replies(actions_after(cfg, inputs));
            let commits = match outcome {
                OutcomeView::Status(code) => 200 <= code <= 299,
                OutcomeView::Failed { .. } => false,
            };
            let again = match outcome {
                OutcomeView::Status(code) => code == 429 || 500 <= code <= 599,
                OutcomeView::Failed { .. } => true,
            };
            let held = emits_held(state_after(cfg, inputs).batch);
            &&& 1 <= posts <= cfg.max_retries + 1
            &&& action is Wait <==> again && posts <= cfg.max_retries
            &&& action is Wait || action is Answer
            &&& action matches ActionView::Answer { posted, replies } ==> {
                &&& posted == Some(Ok::<(), AuditErrorView>(())) <==> commits
                &&& replies.len() >= held.len()
                &&& posted matches Some(Err(error)) ==> match outcome {
                    OutcomeView::Status(code) => if code == 429 {
                        error is Throttled
                    } else {
                        error == (AuditErrorView::WriteFailed {
                            reason: "collector returned HTTP "@ + crate::retry::status_text(code),
                        })
                    },
                    OutcomeView::Failed { timed_out, detail } => if timed_out {
                        error is Timeout
                    } else {
                        error == (AuditErrorView::WriteFailed {
                            reason: "collector unreachable: "@ + detail,
                        })
                    },
                }
                &&& posted is Some
                &&& forall|i: int|
                    0 <= i < held.len() ==> (#[trigger] replies[i] matches ReplyView::Emit {
                        reply,
                        answer,
                    } && reply == held[i].reply && match answer {
                        Ok(receipt) => {
                            &&& commits
                            &&& receipt.sink_id == "dev.mcpg.audit.http"@
                            &&& receipt.persisted_at == now
                            &&& receipt.durable_hash == held[i].hash
                        },
                        Err(told) => posted == Some(Err::<(), AuditErrorView>(told)),
                    })
            }
        }),
{
    let all = inputs.push(Input { event: EventView::<E, F>::Attempted(outcome), now });
    assert(all.drop_last() == inputs);
    lemma_well_formed(cfg, inputs);
    law_posts_bounded(cfg, inputs);
    let w = state_after(cfg, inputs);
    assert(w.phase is Posting);
    let post = w.phase->Posting_0;
    crate::retry::law_retried_while_retries_are_left(post, outcome);
    crate::batch::law_settled_batch_replies(w.batch, outcome.verdict(), now);
}

/// The emits of a batch are those received and not answered yet, in order: a batch
/// that is settled is the next stretch of them.
pub proof fn law_held_emits_are_the_oldest_unanswered<E, F>(
    cfg: ConfigView,
    inputs: Seq<Input<E, F>>,
    i: int,
)
    requires
        possible(cfg, inputs),
        0 <= i < emits_held(state_after(cfg, inputs).batch).len(),
    ensures
        ({
            let answered = emits_answered(replies_sent(actions_after(cfg, inputs))).len();
            &&& answered + i < emits_received(inputs).len()
            &&& emits_held(state_after(cfg, inputs).batch)[i] == emits_received(
                inputs,
            )[answered + i]
        }),
{
    law_every_job_answered_once(cfg, inputs);
    let answered = emits_answered(replies_sent(actions_after(cfg, inputs)));
    let received = emits_received(inputs);
    assert(handles(received).len() == received.len());
    assert(received.skip(answered.len() as int)[i] == received[answered.len() + i]);
}

} // verus!

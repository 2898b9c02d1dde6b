//! Jobs handed to the writer, the batch they are gathered in, and the replies
//! that the batch's outcome gives rise to.
//!
//! `E` is the handle by which the waiter of an emit is reached, `F` that of a
//! flush. The library only passes them on.

use crate::protocol::{AuditError, AuditErrorView, AuditReceipt, AuditReceiptView, PLUGIN_ID};
use crate::record::array_body;
use vstd::prelude::*;

verus! {

/// A job for the writer.
#[derive(Debug)]
pub enum Job<E, F> {
    /// Ship a record.
    Emit {
        /// The record as it will appear inside the batch array.
        record: Vec<u8>,
        /// The record's hash, for the receipt.
        hash: String,
        reply: E,
    },
    /// Barrier: replied to once every job queued before it has been answered.
    Flush { done: F },
}

/// The mathematical content of a [`Job`].
pub enum JobView<E, F> {
    Emit { record: Seq<u8>, hash: Seq<char>, reply: E },
    Flush { done: F },
}

impl<E, F> View for Job<E, F> {
    type V = JobView<E, F>;

    open spec fn view(&self) -> JobView<E, F> {
        match *self {
            Job::Emit { record, hash, reply } => JobView::Emit {
                record: record@,
                hash: hash@,
                reply,
            },
            Job::Flush { done } => JobView::Flush { done },
        }
    }
}

/// A reply to send.
#[derive(Debug)]
pub enum Reply<E, F> {
    /// What the waiter of an emit is told.
    Emit { reply: E, answer: Result<AuditReceipt, AuditError> },
    /// A flush is over.
    Flush { done: F },
}

/// The mathematical content of a [`Reply`].
pub enum ReplyView<E, F> {
    Emit { reply: E, answer: crate::protocol::EmitAnswer },
    Flush { done: F },
}

impl<E, F> View for Reply<E, F> {
    type V = ReplyView<E, F>;

    open spec fn view(&self) -> ReplyView<E, F> {
        match *self {
            Reply::Emit { reply, answer } => ReplyView::Emit {
                reply,
                answer: crate::protocol::emit_answer(answer),
            },
            Reply::Flush { done } => ReplyView::Flush { done },
        }
    }
}

/// The contents of replies.
pub open spec fn reply_contents<E, F>(replies: Seq<Reply<E, F>>) -> Seq<ReplyView<E, F>> {
    replies.map_values(|reply: Reply<E, F>| reply@)
}

/// Jobs taken off the queue and not answered yet.
#[derive(Debug)]
pub struct Batch<E, F> {
    records: Vec<Vec<u8>>,
    waiters: Vec<(String, E)>,
    flushes: Vec<F>,
}

/// The mathematical content of a [`Batch`], each part in the order in which the
/// jobs were taken: the records, the hash of each and its waiter, the flushes.
#[verifier::ext_equal]
pub struct BatchView<E, F> {
    pub records: Seq<Seq<u8>>,
    pub waiters: Seq<(Seq<char>, E)>,
    pub flushes: Seq<F>,
}

impl<E, F> View for Batch<E, F> {
    type V = BatchView<E, F>;

    closed spec fn view(&self) -> BatchView<E, F> {
        BatchView {
            records: crate::record::contents(self.records@),
            waiters: self.waiters@.map_values(|waiter: (String, E)| (waiter.0@, waiter.1)),
            flushes: self.flushes@,
        }
    }
}

/// What a waiter is told once its batch is settled: a receipt for its own record
/// if the batch was committed, and the error of the batch otherwise.
pub open spec fn waiter_answer(
    hash: Seq<char>,
    posted: Result<(), AuditErrorView>,
    now: Seq<char>,
) -> crate::protocol::EmitAnswer {
    match posted {
        Ok(()) => Ok(
            AuditReceiptView { sink_id: PLUGIN_ID@, persisted_at: now, durable_hash: hash },
        ),
        Err(error) => Err(error),
    }
}

impl<E, F> BatchView<E, F> {
    /// A batch without jobs.
    pub open spec fn empty() -> BatchView<E, F> {
        BatchView { records: Seq::empty(), waiters: Seq::empty(), flushes: Seq::empty() }
    }

    /// Every record has its waiter.
    pub open spec fn well_formed(self) -> bool {
        self.records.len() == self.waiters.len()
    }

    /// The batch with one more job.
    pub open spec fn with(self, job: JobView<E, F>) -> BatchView<E, F> {
        match job {
            JobView::Emit { record, hash, reply } => BatchView {
                records: self.records.push(record),
                waiters: self.waiters.push((hash, reply)),
                ..self
            },
            JobView::Flush { done } => BatchView { flushes: self.flushes.push(done), ..self },
        }
    }

    /// The replies once the batch is settled, in the order in which they are
    /// sent: to every emit, then to every flush.
    pub open spec fn replies(
        self,
        posted: Result<(), AuditErrorView>,
        now: Seq<char>,
    ) -> Seq<ReplyView<E, F>> {
        Seq::new(
            self.waiters.len(),
            |i: int| ReplyView::<E, F>::Emit {
                reply: self.waiters[i].1,
                answer: waiter_answer(self.waiters[i].0, posted, now),
            },
        ) + self.flush_replies()
    }

    /// The replies to every flush.
    pub open spec fn flush_replies(self) -> Seq<ReplyView<E, F>> {
        Seq::new(
            self.flushes.len(),
            |i: int| ReplyView::<E, F>::Flush { done: self.flushes[i] },
        )
    }
}

impl<E, F> Batch<E, F> {
    /// A batch without jobs.
    pub fn new() -> (batch: Batch<E, F>)
        ensures
            batch@ == BatchView::<E, F>::empty(),
            batch@.records.len() == 0,
            batch@.waiters.len() == 0,
            batch@.flushes.len() == 0,
    {
        let batch = Batch { records: Vec::new(), waiters: Vec::new(), flushes: Vec::new() };
        assert(batch@ =~= BatchView::<E, F>::empty());
        batch
    }

    /// Takes a job in.
    pub fn enqueue(&mut self, job: Job<E, F>)
        ensures
            final(self)@ == old(self)@.with(job@),
            match job {
                Job::Emit { record, hash, reply } => {
                    &&& final(self)@.records == old(self)@.records.push(record@)
                    &&& final(self)@.waiters == old(self)@.waiters.push((hash@, reply))
                    &&& final(self)@.flushes == old(self)@.flushes
                },
                Job::Flush { done } => {
                    &&& final(self)@.records == old(self)@.records
                    &&& final(self)@.waiters == old(self)@.waiters
                    &&& final(self)@.flushes == old(self)@.flushes.push(done)
                },
            },
    {
        match job {
            Job::Emit { record, hash, reply } => {
                self.records.push(record);
                self.waiters.push((hash, reply));
            },
            Job::Flush { done } => {
                self.flushes.push(done);
            },
        }
        assert(self@ =~= old(self)@.with(job@));
    }

    /// How many events the batch carries.
    pub fn events(&self) -> (n: usize)
        ensures
            n == self@.records.len(),
    {
        self.records.len()
    }

    /// The body that ships the batch.
    pub fn body(&self) -> (body: Vec<u8>)
        ensures
            body@ == crate::record::json_array(self@.records),
    {
        array_body(&self.records)
    }

    /// The replies once the batch is settled with `posted` at the time `now`.
    pub fn settle(self, posted: &Result<(), AuditError>, now: &str) -> (replies: Vec<Reply<E, F>>)
        ensures
            reply_contents(replies@) == self@.replies(crate::protocol::unit_answer(*posted), now@),
    {
        let ghost expected = self@.replies(crate::protocol::unit_answer(*posted), now@);
        let ghost waiters = self.waiters@;
        let ghost flushes = self@.flush_replies();
        let mut replies: Vec<Reply<E, F>> = Vec::new();
        for (hash, reply) in emits: self.waiters
            invariant
                emits.seq() == waiters,
                expected.len() == waiters.len() + flushes.len(),
                forall|i: int|
                    0 <= i < waiters.len() ==> #[trigger] expected[i] == (ReplyView::<E, F>::Emit {
                        reply: waiters[i].1,
                        answer: waiter_answer(
                            waiters[i].0@,
                            crate::protocol::unit_answer(*posted),
                            now@,
                        ),
                    }),
                reply_contents(replies@) == expected.take(emits.index() as int),
        {
            let answer = match posted {
                Ok(()) => Ok(
                    AuditReceipt {
                        sink_id: PLUGIN_ID.to_owned(),
                        persisted_at: now.to_owned(),
                        durable_hash: hash,
                    },
                ),
                Err(error) => Err(error.clone()),
            };
            let ghost before = replies@;
            replies.push(Reply::Emit { reply, answer });
            assert(reply_contents(replies@) == reply_contents(before).push(replies@.last()@));
            assert(expected.take(emits.index() + 1) == expected.take(emits.index() as int).push(
                expected[emits.index() as int],
            ));
        }
        let ghost emits = replies@;
        let mut barriers = Self::answer_flushes(self.flushes);
        let ghost rest = barriers@;
        replies.append(&mut barriers);
        assert(reply_contents(replies@) == reply_contents(emits) + reply_contents(rest));
        assert(expected == expected.take(waiters.len() as int) + flushes);
        replies
    }

    /// The replies to the flushes of a batch that carries no event: there is
    /// nothing to post, and nobody else waits.
    pub fn release(self) -> (replies: Vec<Reply<E, F>>)
        ensures
            reply_contents(replies@) == self@.flush_replies(),
    {
        let replies = Self::answer_flushes(self.flushes);
        assert(reply_contents(replies@) == self@.flush_replies());
        replies
    }

    /// A reply to each flush, in order.
    fn answer_flushes(flushes: Vec<F>) -> (replies: Vec<Reply<E, F>>)
        ensures
            reply_contents(replies@) == Seq::new(
                flushes@.len(),
                |i: int| ReplyView::<E, F>::Flush { done: flushes@[i] },
            ),
    {
        let ghost pending = flushes@;
        let ghost expected = Seq::new(
            pending.len(),
            |i: int| ReplyView::<E, F>::Flush { done: pending[i] },
        );
        let mut replies: Vec<Reply<E, F>> = Vec::new();
        for done in barriers: flushes
            invariant
                barriers.seq() == pending,
                expected.len() == pending.len(),
                forall|i: int|
                    0 <= i < pending.len() ==> #[trigger] expected[i] == (ReplyView::<E, F>::Flush {
                        done: pending[i],
                    }),
                reply_contents(replies@) == expected.take(barriers.index() as int),
        {
            let ghost before = replies@;
            replies.push(Reply::Flush { done });
            let ghost at = barriers.index() as int;
            assert(reply_contents(replies@) == reply_contents(before).push(replies@.last()@));
            assert(expected.take(at + 1) == expected.take(at).push(expected[at]));
        }
        assert(expected.take(expected.len() as int) == expected);
        replies
    }
}

/// The content of a job is its record, its hash and its handle, or its handle.
pub proof fn law_job_content<E, F>(job: Job<E, F>)
    ensures
        match job {
            Job::Emit { record, hash, reply } => job@ == (JobView::<E, F>::Emit {
                record: record@,
                hash: hash@,
                reply,
            }),
            Job::Flush { done } => job@ == (JobView::<E, F>::Flush { done }),
        },
{
}

/// The content of a reply is its handle and the answer, or its handle.
pub proof fn law_reply_content<E, F>(reply: Reply<E, F>)
    ensures
        match reply {
            Reply::Emit { reply: handle, answer: Ok(receipt) } => reply@ == (ReplyView::<
                E,
                F,
            >::Emit { reply: handle, answer: Ok(receipt@) }),
            Reply::Emit { reply: handle, answer: Err(error) } => reply@ == (ReplyView::<
                E,
                F,
            >::Emit { reply: handle, answer: Err(error@) }),
            Reply::Flush { done } => reply@ == (ReplyView::<E, F>::Flush { done }),
        },
{
}

/// The contents of replies are those of each, in order.
pub proof fn law_reply_contents<E, F>(replies: Seq<Reply<E, F>>)
    ensures
        reply_contents(replies).len() == replies.len(),
        forall|i: int|
            0 <= i < replies.len() ==> #[trigger] reply_contents(replies)[i] == replies[i]@,
{
}

/// A batch takes a job at its end and keeps what it held: an emit adds its record
/// and, beside it, its hash and handle; a flush adds its handle.
pub proof fn law_batch_takes_job<E, F>(batch: BatchView<E, F>, job: JobView<E, F>)
    ensures
        match job {
            JobView::Emit { record, hash, reply } => {
                &&& batch.with(job).records == batch.records.push(record)
                &&& batch.with(job).waiters == batch.waiters.push((hash, reply))
                &&& batch.with(job).flushes == batch.flushes
            },
            JobView::Flush { done } => {
                &&& batch.with(job).records == batch.records
                &&& batch.with(job).waiters == batch.waiters
                &&& batch.with(job).flushes == batch.flushes.push(done)
            },
        },
        BatchView::<E, F>::empty().records.len() == 0,
        BatchView::<E, F>::empty().waiters.len() == 0,
        BatchView::<E, F>::empty().flushes.len() == 0,
{
}

/// A settled batch has one reply for each waiter and then one for each flush. A
/// waiter of a committed batch gets a receipt of this sink with the time and its
/// own hash; a waiter of any other batch gets the batch's error.
pub proof fn law_settled_batch_replies<E, F>(
    batch: BatchView<E, F>,
    posted: Result<(), AuditErrorView>,
    now: Seq<char>,
)
    ensures
        ({
            let replies = batch.replies(posted, now);
            let n = batch.waiters.len() as int;
            &&& replies.len() == batch.waiters.len() + batch.flushes.len()
            &&& forall|i: int|
                0 <= i < n ==> (#[trigger] replies[i] matches ReplyView::Emit { reply, answer }
                    && reply == batch.waiters[i].1 && match (posted, answer) {
                    (Ok(()), Ok(receipt)) => {
                        &&& receipt.sink_id == "dev.mcpg.audit.http"@
                        &&& receipt.persisted_at == now
                        &&& receipt.durable_hash == batch.waiters[i].0
                    },
                    (Err(error), Err(told)) => told == error,
                    _ => false,
                })
            &&& forall|i: int|
                n <= i < replies.len() ==> (#[trigger] replies[i] matches ReplyView::Flush { done }
                    && done == batch.flushes[i - n])
        }),
        batch.flush_replies().len() == batch.flushes.len(),
        forall|i: int|
            0 <= i < batch.flushes.len() ==> (
            #[trigger] batch.flush_replies()[i] matches ReplyView::Flush { done } && done
                == batch.flushes[i]),
{
}

} // verus!

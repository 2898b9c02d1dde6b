//! The single writer: drains queued jobs into one batch per `POST` and answers
//! every waiter with that batch's outcome.
//!
//! The writer decides; its driver acts. A driver performs the [`Action`] that it
//! was last given and hands back what came of it as an [`Event`]. There is no
//! artificial linger: the writer takes what is queued, up to the ceiling, and
//! ships it.

use crate::batch::{Batch, BatchView, Job, JobView, Reply, ReplyView};
use crate::config::{ConfigView, HttpSinkConfig};
use crate::protocol::{AuditError, AuditErrorView};
use crate::retry::{Outcome, OutcomeView, PostBatch, PostStep, PostStepView};
use vstd::prelude::*;

verus! {

/// The media type of every batch.
pub const CONTENT_TYPE: &'static str = "application/json";

/// One `POST` to the collector.
#[derive(Debug)]
pub struct CollectorRequest {
    pub url: String,
    pub content_type: &'static str,
    /// The token of the `Authorization: Bearer` header, if one is to be sent.
    pub bearer: Option<String>,
    pub body: Vec<u8>,
}

/// The mathematical content of a [`CollectorRequest`].
pub struct RequestView {
    pub url: Seq<char>,
    pub content_type: Seq<char>,
    pub bearer: Option<Seq<char>>,
    pub body: Seq<u8>,
}

impl View for CollectorRequest {
    type V = RequestView;

    open spec fn view(&self) -> RequestView {
        RequestView {
            url: self.url@,
            content_type: self.content_type@,
            bearer: match self.bearer {
                Some(token) => Some(token@),
                None => None,
            },
            body: self.body@,
        }
    }
}

/// What came of an action.
#[derive(Debug)]
pub enum Event<E, F> {
    /// A job was taken off the queue.
    Received(Job<E, F>),
    /// No job is queued.
    QueueEmpty,
    /// No job is queued and none will be.
    QueueClosed,
    /// The batch was posted, with this outcome.
    Attempted(Outcome),
    /// The wait is over.
    Waited,
    /// The replies are sent.
    Answered,
}

/// The mathematical content of an [`Event`].
pub enum EventView<E, F> {
    Received(JobView<E, F>),
    QueueEmpty,
    QueueClosed,
    Attempted(OutcomeView),
    Waited,
    Answered,
}

impl<E, F> View for Event<E, F> {
    type V = EventView<E, F>;

    open spec fn view(&self) -> EventView<E, F> {
        match *self {
            Event::Received(job) => EventView::Received(job@),
            Event::QueueEmpty => EventView::QueueEmpty,
            Event::QueueClosed => EventView::QueueClosed,
            Event::Attempted(outcome) => EventView::Attempted(outcome@),
            Event::Waited => EventView::Waited,
            Event::Answered => EventView::Answered,
        }
    }
}

/// What the driver is to do next.
#[derive(Debug)]
pub enum Action<E, F> {
    /// Wait for a job.
    Receive,
    /// Take a job if one is queued.
    Poll,
    /// Post a batch.
    Post(CollectorRequest),
    /// Wait this many milliseconds.
    Wait(u64),
    /// Send these replies, in this order. `posted` is the outcome of the batch
    /// if there was one.
    Answer { posted: Option<Result<(), AuditError>>, replies: Vec<Reply<E, F>> },
    /// Nothing more will come.
    Stop,
}

/// The mathematical content of an [`Action`].
pub enum ActionView<E, F> {
    Receive,
    Poll,
    Post(RequestView),
    Wait(u64),
    Answer { posted: Option<Result<(), AuditErrorView>>, replies: Seq<ReplyView<E, F>> },
    Stop,
}

impl<E, F> View for Action<E, F> {
    type V = ActionView<E, F>;

    open spec fn view(&self) -> ActionView<E, F> {
        match *self {
            Action::Receive => ActionView::Receive,
            Action::Poll => ActionView::Poll,
            Action::Post(request) => ActionView::Post(request@),
            Action::Wait(ms) => ActionView::Wait(ms),
            Action::Answer { posted, replies } => ActionView::Answer {
                posted: match posted {
                    Some(answer) => Some(crate::protocol::unit_answer(answer)),
                    None => None,
                },
                replies: crate::batch::reply_contents(replies@),
            },
            Action::Stop => ActionView::Stop,
        }
    }
}

/// What the writer waits for.
#[derive(Debug, Clone, Copy)]
pub enum Phase {
    /// The first job of a batch.
    Idle,
    /// A further job of the batch.
    Draining,
    /// The outcome of an attempt.
    Posting(PostBatch),
    /// The end of a backoff.
    Waiting(PostBatch),
    /// The sending of the replies.
    Settling,
    /// Nothing.
    Stopped,
}

/// The writer's state.
#[derive(Debug)]
pub struct Writer<E, F> {
    cfg: HttpSinkConfig,
    phase: Phase,
    batch: Batch<E, F>,
}

/// The mathematical content of a [`Writer`].
pub struct WriterView<E, F> {
    pub cfg: ConfigView,
    pub phase: Phase,
    pub batch: BatchView<E, F>,
}

impl<E, F> View for Writer<E, F> {
    type V = WriterView<E, F>;

    closed spec fn view(&self) -> WriterView<E, F> {
        WriterView { cfg: self.cfg@, phase: self.phase, batch: self.batch@ }
    }
}

impl<E, F> WriterView<E, F> {
    /// A writer that has taken no job yet.
    pub open spec fn started(cfg: ConfigView) -> WriterView<E, F> {
        WriterView { cfg, phase: Phase::Idle, batch: BatchView::empty() }
    }

    /// The posting of the batch is on schedule.
    pub open spec fn on_schedule(self, post: PostBatch) -> bool {
        &&& post.max_retries == self.cfg.max_retries
        &&& post.attempt <= post.max_retries
        &&& post.backoff_ms == crate::retry::backoff(
            self.cfg.retry_backoff_ms,
            post.attempt as nat,
        )
    }

    /// Every record has its waiter, the batch keeps to its ceiling, and between
    /// batches nothing is held.
    pub open spec fn well_formed(self) -> bool {
        &&& self.batch.well_formed()
        &&& self.batch.records.len() <= self.cfg.max_batch_events || self.batch.records.len() == 1
        &&& match self.phase {
            Phase::Draining => self.batch.records.len() < self.cfg.max_batch_events,
            Phase::Posting(post) => self.batch.records.len() > 0 && self.on_schedule(post),
            Phase::Waiting(post) => self.batch.records.len() > 0 && self.on_schedule(post)
                && post.attempt > 0,
            Phase::Idle | Phase::Settling | Phase::Stopped => self.batch == BatchView::<
                E,
                F,
            >::empty(),
        }
    }

    /// The event may follow the action that the writer asked for last.
    pub open spec fn expects(self, event: EventView<E, F>) -> bool {
        match self.phase {
            Phase::Idle => event is Received || event is QueueClosed,
            Phase::Draining => event is Received || event is QueueEmpty,
            Phase::Posting(_) => event matches EventView::Attempted(outcome)
                && outcome.well_formed(),
            Phase::Waiting(_) => event is Waited,
            Phase::Settling => event is Answered,
            Phase::Stopped => false,
        }
    }

    /// The request that ships the batch: a JSON array of its records, to the
    /// configured endpoint, with the configured token.
    pub open spec fn request(self) -> RequestView {
        RequestView {
            url: self.cfg.url,
            content_type: CONTENT_TYPE@,
            bearer: self.cfg.bearer(),
            body: crate::record::json_array(self.batch.records),
        }
    }

    /// Everyone who waits for the batch is answered, and nothing is held.
    pub open spec fn answered(
        self,
        posted: Option<Result<(), AuditErrorView>>,
        replies: Seq<ReplyView<E, F>>,
    ) -> (WriterView<E, F>, ActionView<E, F>) {
        (
            WriterView { cfg: self.cfg, phase: Phase::Settling, batch: BatchView::empty() },
            ActionView::Answer { posted, replies },
        )
    }

    /// The posting of the batch is over at the time `now`.
    pub open spec fn settled(self, posted: Result<(), AuditErrorView>, now: Seq<char>) -> (
        WriterView<E, F>,
        ActionView<E, F>,
    ) {
        self.answered(Some(posted), self.batch.replies(posted, now))
    }

    /// The batch is complete: it is shipped if it carries an event, and its
    /// flushes are answered otherwise.
    pub open spec fn dispatched(self) -> (WriterView<E, F>, ActionView<E, F>) {
        if self.batch.records.len() == 0 {
            self.answered(None, self.batch.flush_replies())
        } else {
            (
                WriterView {
                    phase: Phase::Posting(crate::retry::posting_begun(self.cfg)),
                    ..self
                },
                ActionView::Post(self.request()),
            )
        }
    }

    /// A job was taken: the batch is complete once it has reached its ceiling.
    pub open spec fn taken(self, job: JobView<E, F>) -> (WriterView<E, F>, ActionView<E, F>) {
        let fuller = WriterView { batch: self.batch.with(job), ..self };
        if fuller.batch.records.len() < self.cfg.max_batch_events {
            (WriterView { phase: Phase::Draining, ..fuller }, ActionView::Poll)
        } else {
            fuller.dispatched()
        }
    }

    /// The state after an event at the time `now`, and what to do next. The time
    /// matters only where the posting of a batch is over.
    pub open spec fn step(self, event: EventView<E, F>, now: Seq<char>) -> (
        WriterView<E, F>,
        ActionView<E, F>,
    )
        recommends
            self.expects(event),
    {
        match (self.phase, event) {
            (Phase::Idle, EventView::Received(job)) => self.taken(job),
            (Phase::Draining, EventView::Received(job)) => self.taken(job),
            (Phase::Draining, EventView::QueueEmpty) => self.dispatched(),
            (Phase::Posting(post), EventView::Attempted(outcome)) => match post.after(outcome) {
                (_, PostStepView::Done(answer)) => self.settled(answer, now),
                (next, PostStepView::RetryAfter(ms)) => (
                    WriterView { phase: Phase::Waiting(next), ..self },
                    ActionView::Wait(ms),
                ),
            },
            (Phase::Waiting(post), EventView::Waited) => (
                WriterView { phase: Phase::Posting(post), ..self },
                ActionView::Post(self.request()),
            ),
            (Phase::Settling, EventView::Answered) => (
                WriterView { phase: Phase::Idle, ..self },
                ActionView::Receive,
            ),
            _ => (WriterView { phase: Phase::Stopped, ..self }, ActionView::Stop),
        }
    }
}

/// A step keeps the writer well formed.
pub(crate) proof fn lemma_step_well_formed<E, F>(
    w: WriterView<E, F>,
    event: EventView<E, F>,
    now: Seq<char>,
)
    requires
        w.well_formed(),
        w.expects(event),
    ensures
        w.step(event, now).0.well_formed(),
        w.step(event, now).0.cfg == w.cfg,
{
    crate::retry::lemma_backoff_step(w.cfg.retry_backoff_ms, 0);
    match w.phase {
        Phase::Posting(post) => {
            crate::retry::lemma_backoff_step(w.cfg.retry_backoff_ms, post.attempt as nat);
        },
        _ => {},
    }
}

/// `c` is a decimal digit where `pattern` is `0`, and is `pattern` elsewhere.
pub open spec fn fits(c: char, pattern: char) -> bool {
    if pattern == '0' {
        '0' <= c <= '9'
    } else {
        c == pattern
    }
}

/// The number that the two decimal digits at `at` stand for.
pub open spec fn two_digits(text: Seq<char>, at: int) -> int {
    10 * (text[at] as int - '0' as int) + (text[at + 1] as int - '0' as int)
}

/// `year` is four decimal digits, or, beyond the year 9999, a plus sign and more
/// than four.
pub open spec fn is_year(year: Seq<char>) -> bool {
    if year.len() == 4 {
        forall|i: int| 0 <= i < 4 ==> '0' <= #[trigger] year[i] <= '9'
    } else {
        &&& year.len() > 5
        &&& year[0] == '+'
        &&& forall|i: int| 1 <= i < year.len() ==> '0' <= #[trigger] year[i] <= '9'
    }
}

/// A point in time in UTC, to the millisecond: the year, then month, day, hour,
/// minute, second and fraction, each in its range. That the month has the day is
/// not part of it.
pub open spec fn is_utc_stamp(text: Seq<char>) -> bool {
    let rest = text.len() - 20;
    &&& rest >= 4
    &&& is_year(text.take(rest))
    &&& forall|i: int|
        0 <= i < 20 ==> fits(#[trigger] text[rest + i], "-00-00T00:00:00.000Z"@[i])
    &&& 1 <= two_digits(text, rest + 1) <= 12
    &&& 1 <= two_digits(text, rest + 4) <= 31
    &&& two_digits(text, rest + 7) < 24
    &&& two_digits(text, rest + 10) < 60
    &&& two_digits(text, rest + 13) < 60
}

/// Calls `chrono::Utc::now` and `DateTime::to_rfc3339_opts` with milliseconds
/// and `Z`. Claims that the text is a point in time in UTC and nothing of which
/// one, which is the system clock's. The clock stands between the start of 1970
/// and the end of chrono's calendar.
#[verifier::external_body]
fn now_rfc3339() -> (text: String)
    ensures
        is_utc_stamp(text@),
{
    chrono::Utc::now().to_rfc3339_opts(chrono::SecondsFormat::Millis, true)
}

impl<E, F> Writer<E, F> {
    /// A writer that has taken no job yet, and its first action.
    pub fn start(cfg: HttpSinkConfig) -> (begun: (Writer<E, F>, Action<E, F>))
        ensures
            begun.0@ == WriterView::<E, F>::started(cfg@),
            begun.0@.well_formed(),
            begun.1@ == ActionView::<E, F>::Receive,
    {
        (Writer { cfg, phase: Phase::Idle, batch: Batch::new() }, Action::Receive)
    }

    /// Takes what came of the last action and decides what to do next. The clock
    /// is read only where the posting of a batch is over: the receipts carry its
    /// time.
    pub fn advance(&mut self, event: Event<E, F>) -> (action: Action<E, F>)
        requires
            old(self)@.expects(event@),
        ensures
            if action@ matches ActionView::Answer { posted: Some(_), .. } {
                exists|now: Seq<char>|
                    is_utc_stamp(now) && (final(self)@, action@) == #[trigger] old(self)@.step(
                        event@,
                        now,
                    )
            } else {
                forall|now: Seq<char>|
                    (final(self)@, action@) == #[trigger] old(self)@.step(event@, now)
            },
            old(self)@.well_formed() ==> final(self)@.well_formed(),
    {
        match event {
            Event::Attempted(outcome) => match self.conclude(&outcome) {
                PostStep::Done(answer) => {
                    let now = now_rfc3339();
                    let action = self.settle(answer, now.as_str());
                    assert((self@, action@) == old(self)@.step(event@, now@));
                    action
                },
                PostStep::RetryAfter(ms) => Action::Wait(ms),
            },
            other => {
                let action = self.proceed(other);
                assert((self@, action@) == old(self)@.step(event@, Seq::empty()));
                action
            },
        }
    }

    /// Takes what came of the last action and decides what to do next. Receipts
    /// carry the time `now`.
    pub fn advance_at(&mut self, event: Event<E, F>, now: &str) -> (action: Action<E, F>)
        requires
            old(self)@.expects(event@),
        ensures
            (final(self)@, action@) == old(self)@.step(event@, now@),
            old(self)@.well_formed() ==> final(self)@.well_formed(),
    {
        match event {
            Event::Attempted(outcome) => match self.conclude(&outcome) {
                PostStep::Done(answer) => self.settle(answer, now),
                PostStep::RetryAfter(ms) => Action::Wait(ms),
            },
            other => self.proceed(other),
        }
    }

    /// Takes what came of any action but a `POST`.
    fn proceed(&mut self, event: Event<E, F>) -> (action: Action<E, F>)
        requires
            old(self)@.expects(event@),
            !(event is Attempted),
        ensures
            forall|now: Seq<char>|
                (final(self)@, action@) == #[trigger] old(self)@.step(event@, now),
            old(self)@.well_formed() ==> final(self)@.well_formed(),
    {
        proof {
            if self@.well_formed() {
                lemma_step_well_formed(self@, event@, Seq::empty());
            }
        }
        match event {
            Event::Received(job) => {
                self.batch.enqueue(job);
                if self.batch.events() < self.cfg.max_batch_events {
                    self.phase = Phase::Draining;
                    Action::Poll
                } else {
                    self.dispatch()
                }
            },
            Event::QueueEmpty => self.dispatch(),
            Event::QueueClosed => {
                self.phase = Phase::Stopped;
                Action::Stop
            },
            Event::Waited => {
                let post = match self.phase {
                    Phase::Waiting(post) => post,
                    _ => vstd::pervasive::unreached(),
                };
                self.phase = Phase::Posting(post);
                Action::Post(self.request())
            },
            Event::Answered => {
                self.phase = Phase::Idle;
                Action::Receive
            },
            Event::Attempted(_) => vstd::pervasive::unreached(),
        }
    }

    /// Takes the outcome of a `POST`. Where the batch is not settled by it, the
    /// writer waits for the next attempt.
    fn conclude(&mut self, outcome: &Outcome) -> (step: PostStep)
        requires
            old(self)@.expects(EventView::Attempted(outcome@)),
        ensures
            ({
                let event = EventView::Attempted(outcome@);
                match step@ {
                    PostStepView::Done(answer) => {
                        &&& final(self)@ == old(self)@
                        &&& forall|now: Seq<char>|
                            #[trigger] old(self)@.step(event, now) == old(self)@.settled(
                                answer,
                                now,
                            )
                    },
                    PostStepView::RetryAfter(ms) => {
                        &&& forall|now: Seq<char>|
                            (final(self)@, ActionView::<E, F>::Wait(ms)) == #[trigger] old(
                                self,
                            )@.step(event, now)
                        &&& old(self)@.well_formed() ==> final(self)@.well_formed()
                    },
                }
            }),
    {
        proof {
            if self@.well_formed() {
                lemma_step_well_formed(self@, EventView::Attempted(outcome@), Seq::empty());
            }
        }
        let mut post = match self.phase {
            Phase::Posting(post) => post,
            _ => vstd::pervasive::unreached(),
        };
        let step = post.conclude(outcome);
        match &step {
            PostStep::Done(_) => {},
            PostStep::RetryAfter(_) => {
                self.phase = Phase::Waiting(post);
            },
        }
        step
    }

    /// The request that ships the batch.
    fn request(&self) -> (request: CollectorRequest)
        ensures
            request@ == self@.request(),
    {
        CollectorRequest {
            url: self.cfg.url.clone(),
            content_type: CONTENT_TYPE,
            bearer: self.cfg.bearer(),
            body: self.batch.body(),
        }
    }

    /// Ships the batch if it carries an event, and answers its flushes otherwise.
    fn dispatch(&mut self) -> (action: Action<E, F>)
        ensures
            (final(self)@, action@) == old(self)@.dispatched(),
    {
        if self.batch.events() == 0 {
            let replies = self.take_batch().release();
            Action::Answer { posted: None, replies }
        } else {
            self.phase = Phase::Posting(PostBatch::begin(&self.cfg));
            Action::Post(self.request())
        }
    }

    /// Answers everyone who waits for the batch.
    fn settle(&mut self, posted: Result<(), AuditError>, now: &str) -> (action: Action<E, F>)
        ensures
            (final(self)@, action@) == old(self)@.settled(
                crate::protocol::unit_answer(posted),
                now@,
            ),
            old(self)@.well_formed() ==> final(self)@.well_formed(),
    {
        let replies = self.take_batch().settle(&posted, now);
        Action::Answer { posted: Some(posted), replies }
    }

    /// Hands the batch over, to be answered.
    fn take_batch(&mut self) -> (batch: Batch<E, F>)
        ensures
            batch@ == old(self)@.batch,
            final(self)@ == (WriterView {
                cfg: old(self)@.cfg,
                phase: Phase::Settling,
                batch: BatchView::<E, F>::empty(),
            }),
    {
        let mut batch = Batch::new();
        std::mem::swap(&mut batch, &mut self.batch);
        self.phase = Phase::Settling;
        batch
    }
}

/// The content of a request is what its fields hold.
pub proof fn law_request_content(request: CollectorRequest)
    ensures
        request@.url == request.url@,
        request@.content_type == request.content_type@,
        request.bearer matches Some(token) ==> request@.bearer == Some(token@),
        request.bearer is None ==> request@.bearer is None,
        request@.body == request.body@,
{
}

/// The content of an event is that of what came.
pub proof fn law_event_content<E, F>(event: Event<E, F>)
    ensures
        match event {
            Event::Received(job) => event@ == EventView::<E, F>::Received(job@),
            Event::QueueEmpty => event@ is QueueEmpty,
            Event::QueueClosed => event@ is QueueClosed,
            Event::Attempted(outcome) => event@ == EventView::<E, F>::Attempted(outcome@),
            Event::Waited => event@ is Waited,
            Event::Answered => event@ is Answered,
        },
{
}

/// The content of an action is that of what is to be done.
pub proof fn law_action_content<E, F>(action: Action<E, F>)
    ensures
        match action {
            Action::Receive => action@ is Receive,
            Action::Poll => action@ is Poll,
            Action::Post(request) => action@ == ActionView::<E, F>::Post(request@),
            Action::Wait(ms) => action@ == ActionView::<E, F>::Wait(ms),
            Action::Answer { posted, replies } => action@ matches ActionView::Answer {
                posted: told,
                replies: sent,
            } && {
                &&& match (posted, told) {
                    (None, None) => true,
                    (Some(Ok(())), Some(Ok(()))) => true,
                    (Some(Err(error)), Some(Err(view))) => view == error@,
                    _ => false,
                }
                &&& sent.len() == replies@.len()
                &&& forall|i: int| 0 <= i < sent.len() ==> #[trigger] sent[i] == replies@[i]@
            },
            Action::Stop => action@ is Stop,
        },
{
}

/// A writer begins without a job, under the configuration that it is given.
pub proof fn law_writer_begins<E, F>(cfg: ConfigView)
    ensures
        WriterView::<E, F>::started(cfg).cfg == cfg,
        WriterView::<E, F>::started(cfg).phase is Idle,
        WriterView::<E, F>::started(cfg).batch.records.len() == 0,
        WriterView::<E, F>::started(cfg).batch.waiters.len() == 0,
        WriterView::<E, F>::started(cfg).batch.flushes.len() == 0,
{
}

/// A batch is posted to the configured endpoint as JSON, with the token if one is
/// set and not empty and without any otherwise.
pub proof fn law_request_is_addressed<E, F>(w: WriterView<E, F>)
    ensures
        w.request().url == w.cfg.url,
        w.request().content_type == "application/json"@,
        w.cfg.token matches Some(token) && token.len() > 0 ==> w.request().bearer == w.cfg.token,
        w.cfg.token matches Some(token) && token.len() == 0 ==> w.request().bearer is None,
        w.cfg.token is None ==> w.request().bearer is None,
        w.request().body == crate::record::json_array(w.batch.records),
{
}

/// A timestamp ends in month, day, time, fraction and `Z`, with every number in
/// its range, behind a year of at least four characters.
pub proof fn law_stamp_form(text: Seq<char>)
    requires
        is_utc_stamp(text),
    ensures
        text.len() >= 24,
        ({
            let rest = text.len() - 20;
            let digit = |i: int| '0' <= text[rest + i] <= '9';
            let number = |i: int|
                10 * (text[rest + i] as int - '0' as int) + (text[rest + i + 1] as int
                    - '0' as int);
            &&& text[rest] == '-' && text[rest + 3] == '-' && text[rest + 6] == 'T'
            &&& text[rest + 9] == ':' && text[rest + 12] == ':' && text[rest + 15] == '.'
            &&& text[rest + 19] == 'Z'
            &&& digit(1) && digit(2) && digit(4) && digit(5) && digit(7) && digit(8)
            &&& digit(10) && digit(11) && digit(13) && digit(14)
            &&& digit(16) && digit(17) && digit(18)
            &&& 1 <= number(1) <= 12
            &&& 1 <= number(4) <= 31
            &&& 0 <= number(7) < 24
            &&& 0 <= number(10) < 60
            &&& 0 <= number(13) < 60
        }),
{
    reveal_strlit("-00-00T00:00:00.000Z");
    let pattern = "-00-00T00:00:00.000Z"@;
    let rest = text.len() - 20;
    assert(fits(text[rest + 0], pattern[0]) && fits(text[rest + 1], pattern[1]));
    assert(fits(text[rest + 2], pattern[2]) && fits(text[rest + 3], pattern[3]));
    assert(fits(text[rest + 4], pattern[4]) && fits(text[rest + 5], pattern[5]));
    assert(fits(text[rest + 6], pattern[6]) && fits(text[rest + 7], pattern[7]));
    assert(fits(text[rest + 8], pattern[8]) && fits(text[rest + 9], pattern[9]));
    assert(fits(text[rest + 10], pattern[10]) && fits(text[rest + 11], pattern[11]));
    assert(fits(text[rest + 12], pattern[12]) && fits(text[rest + 13], pattern[13]));
    assert(fits(text[rest + 14], pattern[14]) && fits(text[rest + 15], pattern[15]));
    assert(fits(text[rest + 16], pattern[16]) && fits(text[rest + 17], pattern[17]));
    assert(fits(text[rest + 18], pattern[18]) && fits(text[rest + 19], pattern[19]));
}

} // verus!

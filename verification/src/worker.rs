//! The payment-dispatch state machine.
//!
//! A [`Dispatch`] carries one job from arrival to a final [`Outcome`]. It
//! never acts itself: [`Dispatch::action`] names what has to be done next,
//! and [`Dispatch::step`] takes in what came of it. Whoever drives the
//! machine calls the processors, sleeps and talks to the shared store.

use crate::payment::{Job, JobView, Processor};
use crate::store::StoreError;
use crate::wire::{encode_for_processor, processor_text};
use vstd::prelude::*;
use vstd::string::StringExecFns;

verus! {

/// The limits within which a job is dispatched.
#[derive(Clone, Copy, Debug, PartialEq, Eq)]
pub struct Config {
    max_attempts: u64,
    backoff_base_ms: u64,
    default_timeout_ms: u64,
    fallback_timeout_ms: u64,
    max_retries: u64,
}

/// The mathematical content of a [`Config`].
pub struct ConfigView {
    /// How often the default processor is tried before the fallback.
    pub max_attempts: u64,
    /// The pause after the first failed attempt; later pauses are multiples.
    pub backoff_base_ms: u64,
    /// How long one call of the default processor may take.
    pub default_timeout_ms: u64,
    /// How long the one call of the fallback processor may take.
    pub fallback_timeout_ms: u64,
    /// How often a job may be published again once both processors failed.
    pub max_retries: u64,
}

impl ConfigView {
    /// The longest pause that can be asked for, in milliseconds: the one
    /// after the last attempt but one.
    pub open spec fn longest_pause(self) -> int {
        if self.max_attempts >= 1 {
            self.backoff_base_ms * (self.max_attempts - 1)
        } else {
            0
        }
    }

    /// The longest pause fits in 64 bits.
    pub open spec fn wf(self) -> bool {
        self.longest_pause() <= u64::MAX
    }
}

impl View for Config {
    type V = ConfigView;

    closed spec fn view(&self) -> ConfigView {
        ConfigView {
            max_attempts: self.max_attempts,
            backoff_base_ms: self.backoff_base_ms,
            default_timeout_ms: self.default_timeout_ms,
            fallback_timeout_ms: self.fallback_timeout_ms,
            max_retries: self.max_retries,
        }
    }
}

impl Config {
    #[verifier::type_invariant]
    spec fn inv(self) -> bool {
        self@.wf()
    }

    /// A configuration with the given limits, or `None` when the longest
    /// pause, `backoff_base_ms * (max_attempts - 1)`, would not fit in 64
    /// bits.
    pub fn new(
        max_attempts: u64,
        backoff_base_ms: u64,
        default_timeout_ms: u64,
        fallback_timeout_ms: u64,
        max_retries: u64,
    ) -> (config: Option<Self>)
        ensures
            config is Some <==> (ConfigView {
                max_attempts,
                backoff_base_ms,
                default_timeout_ms,
                fallback_timeout_ms,
                max_retries,
            }).wf(),
            config is Some ==> config->0@ == (ConfigView {
                max_attempts,
                backoff_base_ms,
                default_timeout_ms,
                fallback_timeout_ms,
                max_retries,
            }),
    {
        let pauses: u64 = if max_attempts >= 1 {
            max_attempts - 1
        } else {
            0
        };
        match backoff_base_ms.checked_mul(pauses) {
            Some(_) => Some(
                Config {
                    max_attempts,
                    backoff_base_ms,
                    default_timeout_ms,
                    fallback_timeout_ms,
                    max_retries,
                },
            ),
            None => None,
        }
    }

    /// How often the default processor is tried before the fallback.
    pub fn max_attempts(&self) -> (n: u64)
        ensures
            n == self@.max_attempts,
    {
        self.max_attempts
    }

    /// The pause after the first failed attempt, in milliseconds.
    pub fn backoff_base_ms(&self) -> (ms: u64)
        ensures
            ms == self@.backoff_base_ms,
    {
        self.backoff_base_ms
    }

    /// How long one call of the default processor may take, in milliseconds.
    pub fn default_timeout_ms(&self) -> (ms: u64)
        ensures
            ms == self@.default_timeout_ms,
    {
        self.default_timeout_ms
    }

    /// How long the call of the fallback processor may take, in milliseconds.
    pub fn fallback_timeout_ms(&self) -> (ms: u64)
        ensures
            ms == self@.fallback_timeout_ms,
    {
        self.fallback_timeout_ms
    }

    /// How often a job may be published again once both processors failed.
    pub fn max_retries(&self) -> (n: u64)
        ensures
            n == self@.max_retries,
    {
        self.max_retries
    }
}

impl Default for Config {
    /// Three attempts, two milliseconds of backoff, timeouts of 300 and 100
    /// milliseconds, three retries.
    fn default() -> (config: Self)
        ensures
            config@ == (ConfigView {
                max_attempts: 3,
                backoff_base_ms: 2,
                default_timeout_ms: 300,
                fallback_timeout_ms: 100,
                max_retries: 3,
            }),
    {
        Config {
            max_attempts: 3,
            backoff_base_ms: 2,
            default_timeout_ms: 300,
            fallback_timeout_ms: 100,
            max_retries: 3,
        }
    }
}

/// How a dispatched job ended.
#[derive(Clone, Copy, PartialEq, Eq, Structural, Debug)]
pub enum Outcome {
    /// The payment is on record. `by` names who accepted it in this run; it
    /// is `None` when the record was found to exist beforehand and no
    /// processor was contacted.
    Saved { by: Option<Processor> },
    /// A processor accepted the payment but the store failed to record it.
    /// The job ends here: the store's marker guards a later copy.
    SaveFailed { processor: Processor },
    /// Both processors failed and the job was published again.
    Requeued,
    /// Both processors failed and the retry budget is spent: the job is dropped.
    PermanentlyFailed,
}

/// Where a job stands.
#[derive(Clone, Copy, PartialEq, Eq, Structural, Debug)]
pub enum Phase {
    /// A retried job waits to learn whether its payment is already on record.
    CheckingProcessed,
    /// Call number `attempt` of the default processor is under way; the
    /// first call is number 1.
    AttemptingDefault { attempt: u64 },
    /// The machine pauses after failed call number `attempt`.
    BackingOff { attempt: u64 },
    /// The one call of the fallback processor is under way.
    AttemptingFallback,
    /// The accepted payment is being recorded.
    Saving { processor: Processor },
    /// The job is being published again.
    Requeueing,
    /// The job has ended.
    Done(Outcome),
}

/// What the driver reports back to the machine.
#[derive(Clone, Copy, Debug, PartialEq, Eq)]
pub enum Event {
    /// The store said whether the payment is already on record.
    Processed(bool),
    /// A processor call ended: with the status it answered, or with `None`
    /// when it timed out or could not be reached.
    Response(Option<u16>),
    /// The pause is over.
    Slept,
    /// The store answered the attempt to record the payment.
    SaveFinished(Result<bool, StoreError>),
    /// The job was handed to the channel again, or the attempt to do so failed.
    Republished,
}

/// What the driver has to do next.
#[derive(Debug, PartialEq, Eq)]
pub enum Action {
    /// Ask the store whether the job's payment is already on record.
    CheckProcessed,
    /// Post `payload`, the job as a JSON document, to `endpoint` and wait
    /// for the answer no longer than the timeout.
    CallProcessor { processor: Processor, endpoint: String, payload: String, timeout_ms: u64 },
    /// Pause.
    Sleep { millis: u64 },
    /// Record the payment as accepted by `processor`.
    Save { processor: Processor },
    /// Publish `job` to the channel the job came from.
    Republish { job: Job },
    /// Nothing: the job has ended.
    Stop { outcome: Outcome },
}

/// The mathematical content of an [`Action`].
pub enum ActionView {
    CheckProcessed,
    CallProcessor {
        processor: Processor,
        endpoint: Seq<char>,
        payload: Seq<char>,
        timeout_ms: u64,
    },
    Sleep { millis: u64 },
    Save { processor: Processor },
    Republish { job: JobView },
    Stop { outcome: Outcome },
}

impl View for Action {
    type V = ActionView;

    open spec fn view(&self) -> ActionView {
        match self {
            Action::CheckProcessed => ActionView::CheckProcessed,
            Action::CallProcessor {
                processor,
                endpoint,
                payload,
                timeout_ms,
            } => ActionView::CallProcessor {
                processor: *processor,
                endpoint: endpoint@,
                payload: payload@,
                timeout_ms: *timeout_ms,
            },
            Action::Sleep { millis } => ActionView::Sleep { millis: *millis },
            Action::Save { processor } => ActionView::Save { processor: *processor },
            Action::Republish { job } => ActionView::Republish { job: job@ },
            Action::Stop { outcome } => ActionView::Stop { outcome: *outcome },
        }
    }
}

/// Whether a processor call counts as a success: it answered, and with a
/// status from 200 up to but not including 300.
pub open spec fn accepted(response: Option<u16>) -> bool {
    response matches Some(status) && 200 <= status < 300
}

/// The address to which a job is posted for `processor`.
pub open spec fn endpoint_of(processor: Processor) -> Seq<char> {
    "http://payment-processor-"@ + processor.spec_name() + ":8080/payments"@
}

/// The phase in which the processors are first approached: the first call of
/// the default processor, or the fallback at once when no default attempt is
/// allowed.
pub open spec fn first_attempt(config: ConfigView) -> Phase {
    if config.max_attempts >= 1 {
        Phase::AttemptingDefault { attempt: 1 }
    } else {
        Phase::AttemptingFallback
    }
}

/// The phase in which a job starts. Only a retried job asks the store first.
pub open spec fn initial_phase(config: ConfigView, job: JobView) -> Phase {
    if job.retry_count > 0 {
        Phase::CheckingProcessed
    } else {
        first_attempt(config)
    }
}

/// The phase that follows once both processors have failed.
pub open spec fn after_total_failure(config: ConfigView, job: JobView) -> Phase {
    if job.retry_count < config.max_retries {
        Phase::Requeueing
    } else {
        Phase::Done(Outcome::PermanentlyFailed)
    }
}

/// The phase that follows `phase` on `event`. An event that the phase does
/// not wait for changes nothing.
pub open spec fn next_phase(config: ConfigView, job: JobView, phase: Phase, event: Event) -> Phase {
    match (phase, event) {
        (Phase::CheckingProcessed, Event::Processed(true)) => Phase::Done(
            Outcome::Saved { by: None },
        ),
        (Phase::CheckingProcessed, Event::Processed(false)) => first_attempt(config),
        (Phase::AttemptingDefault { attempt }, Event::Response(response)) => {
            if accepted(response) {
                Phase::Saving { processor: Processor::Default }
            } else if attempt < config.max_attempts {
                Phase::BackingOff { attempt }
            } else {
                Phase::AttemptingFallback
            }
        },
        (Phase::BackingOff { attempt }, Event::Slept) => Phase::AttemptingDefault {
            attempt: (attempt + 1) as u64,
        },
        (Phase::AttemptingFallback, Event::Response(response)) => {
            if accepted(response) {
                Phase::Saving { processor: Processor::Fallback }
            } else {
                after_total_failure(config, job)
            }
        },
        (Phase::Saving { processor }, Event::SaveFinished(Ok(_))) => Phase::Done(
            Outcome::Saved { by: Some(processor) },
        ),
        (Phase::Saving { processor }, Event::SaveFinished(Err(_))) => Phase::Done(
            Outcome::SaveFailed { processor },
        ),
        (Phase::Requeueing, Event::Republished) => Phase::Done(Outcome::Requeued),
        _ => phase,
    }
}

/// What has to be done while the job stands in `phase`.
pub open spec fn pending_action(config: ConfigView, job: JobView, phase: Phase) -> ActionView {
    match phase {
        Phase::CheckingProcessed => ActionView::CheckProcessed,
        Phase::AttemptingDefault { attempt } => ActionView::CallProcessor {
            processor: Processor::Default,
            endpoint: endpoint_of(Processor::Default),
            payload: processor_text(job),
            timeout_ms: config.default_timeout_ms,
        },
        Phase::BackingOff { attempt } => ActionView::Sleep {
            millis: (config.backoff_base_ms * attempt) as u64,
        },
        Phase::AttemptingFallback => ActionView::CallProcessor {
            processor: Processor::Fallback,
            endpoint: endpoint_of(Processor::Fallback),
            payload: processor_text(job),
            timeout_ms: config.fallback_timeout_ms,
        },
        Phase::Saving { processor } => ActionView::Save { processor },
        Phase::Requeueing => ActionView::Republish { job: job.retried() },
        Phase::Done(outcome) => ActionView::Stop { outcome },
    }
}

/// The phases that a job can reach: attempts are numbered from 1 to the
/// allowed maximum, a pause follows only an attempt that is not the last,
/// and a job is published again only while its retry budget lasts.
pub open spec fn phase_wf(config: ConfigView, job: JobView, phase: Phase) -> bool {
    match phase {
        Phase::AttemptingDefault { attempt } => 1 <= attempt <= config.max_attempts,
        Phase::BackingOff { attempt } => 1 <= attempt < config.max_attempts,
        Phase::Requeueing => job.retry_count < config.max_retries,
        Phase::Done(Outcome::Requeued) => job.retry_count < config.max_retries,
        Phase::Done(Outcome::PermanentlyFailed) => job.retry_count >= config.max_retries,
        _ => true,
    }
}

/// The phase reached from the start after `events`, taken in order.
pub open spec fn run(config: ConfigView, job: JobView, events: Seq<Event>) -> Phase
    decreases events.len(),
{
    if events.len() == 0 {
        initial_phase(config, job)
    } else {
        next_phase(config, job, run(config, job, events.drop_last()), events.last())
    }
}

/// The address to which a job is posted for `processor`.
pub fn processor_endpoint(processor: Processor) -> (endpoint: String)
    ensures
        endpoint@ == endpoint_of(processor),
{
    let mut endpoint = String::from_str("http://payment-processor-");
    endpoint.append(processor.name());
    endpoint.append(":8080/payments");
    endpoint
}

/// Whether a processor call counts as a success.
pub fn processor_accepted(response: Option<u16>) -> (ok: bool)
    ensures
        ok == accepted(response),
{
    match response {
        Some(status) => 200 <= status && status < 300,
        None => false,
    }
}

/// One job on its way through the state machine.
pub struct Dispatch {
    config: Config,
    job: Job,
    phase: Phase,
}

/// The mathematical content of a [`Dispatch`].
pub struct DispatchView {
    pub config: ConfigView,
    pub job: JobView,
    pub phase: Phase,
}

impl View for Dispatch {
    type V = DispatchView;

    closed spec fn view(&self) -> DispatchView {
        DispatchView { config: self.config@, job: self.job@, phase: self.phase }
    }
}

impl DispatchView {
    /// The configuration is sound and the phase is one that the job can reach.
    pub open spec fn wf(self) -> bool {
        self.config.wf() && phase_wf(self.config, self.job, self.phase)
    }
}

impl Dispatch {
    #[verifier::type_invariant]
    spec fn inv(self) -> bool {
        self@.wf()
    }

    /// Takes in a job. A job that was published again first asks the store
    /// whether its payment is on record; a fresh one goes to the processors
    /// at once.
    pub fn new(job: Job, config: Config) -> (dispatch: Self)
        ensures
            dispatch@.config == config@,
            dispatch@.job == job@,
            dispatch@.phase == initial_phase(config@, job@),
            dispatch@.wf(),
    {
        proof {
            use_type_invariant(&config);
        }
        let phase = if job.retry_count > 0 {
            Phase::CheckingProcessed
        } else {
            Self::first(&config)
        };
        Dispatch { config, job, phase }
    }

    fn first(config: &Config) -> (phase: Phase)
        ensures
            phase == first_attempt(config@),
    {
        if config.max_attempts() >= 1 {
            Phase::AttemptingDefault { attempt: 1 }
        } else {
            Phase::AttemptingFallback
        }
    }

    /// Where the job stands.
    pub fn phase(&self) -> (phase: Phase)
        ensures
            phase == self@.phase,
            self@.wf(),
    {
        proof {
            use_type_invariant(self);
        }
        self.phase
    }

    /// The job being dispatched.
    pub fn job(&self) -> (job: &Job)
        ensures
            job@ == self@.job,
    {
        &self.job
    }

    /// How the job ended, once it has.
    pub fn outcome(&self) -> (outcome: Option<Outcome>)
        ensures
            outcome == (match self@.phase {
                Phase::Done(o) => Some(o),
                _ => None,
            }),
    {
        match self.phase {
            Phase::Done(o) => Some(o),
            _ => None,
        }
    }

    /// What the driver has to do now.
    pub fn action(&self) -> (action: Action)
        ensures
            action@ == pending_action(self@.config, self@.job, self@.phase),
            self@.wf(),
    {
        proof {
            use_type_invariant(self);
            use_type_invariant(&self.config);
        }
        match self.phase {
            Phase::CheckingProcessed => Action::CheckProcessed,
            Phase::AttemptingDefault { attempt } => Action::CallProcessor {
                processor: Processor::Default,
                endpoint: processor_endpoint(Processor::Default),
                payload: encode_for_processor(&self.job),
                timeout_ms: self.config.default_timeout_ms(),
            },
            Phase::BackingOff { attempt } => {
                let base: u64 = self.config.backoff_base_ms();
                assert(base * attempt <= base * (self@.config.max_attempts - 1))
                    by (nonlinear_arith)
                    requires
                        attempt <= self@.config.max_attempts - 1,
                ;
                Action::Sleep { millis: base * attempt }
            },
            Phase::AttemptingFallback => Action::CallProcessor {
                processor: Processor::Fallback,
                endpoint: processor_endpoint(Processor::Fallback),
                payload: encode_for_processor(&self.job),
                timeout_ms: self.config.fallback_timeout_ms(),
            },
            Phase::Saving { processor } => Action::Save { processor },
            Phase::Requeueing => {
                let mut job = self.job.clone();
                job.retry_count = job.retry_count + 1;
                Action::Republish { job }
            },
            Phase::Done(outcome) => Action::Stop { outcome },
        }
    }

    /// Takes in what came of the pending action and moves on. An event that
    /// the current phase does not wait for is ignored.
    pub fn step(&mut self, event: Event)
        ensures
            final(self)@.config == old(self)@.config,
            final(self)@.job == old(self)@.job,
            final(self)@.phase == next_phase(
                old(self)@.config,
                old(self)@.job,
                old(self)@.phase,
                event,
            ),
            final(self)@.wf(),
    {
        proof {
            use_type_invariant(&*self);
        }
        let next = match (self.phase, event) {
            (Phase::CheckingProcessed, Event::Processed(true)) => Phase::Done(
                Outcome::Saved { by: None },
            ),
            (Phase::CheckingProcessed, Event::Processed(false)) => Self::first(&self.config),
            (Phase::AttemptingDefault { attempt }, Event::Response(response)) => {
                if processor_accepted(response) {
                    Phase::Saving { processor: Processor::Default }
                } else if attempt < self.config.max_attempts() {
                    Phase::BackingOff { attempt }
                } else {
                    Phase::AttemptingFallback
                }
            },
            (Phase::BackingOff { attempt }, Event::Slept) => Phase::AttemptingDefault {
                attempt: attempt + 1,
            },
            (Phase::AttemptingFallback, Event::Response(response)) => {
                if processor_accepted(response) {
                    Phase::Saving { processor: Processor::Fallback }
                } else if self.job.retry_count < self.config.max_retries() {
                    Phase::Requeueing
                } else {
                    Phase::Done(Outcome::PermanentlyFailed)
                }
            },
            (Phase::Saving { processor }, Event::SaveFinished(Ok(_))) => Phase::Done(
                Outcome::Saved { by: Some(processor) },
            ),
            (Phase::Saving { processor }, Event::SaveFinished(Err(_))) => Phase::Done(
                Outcome::SaveFailed { processor },
            ),
            (Phase::Requeueing, Event::Republished) => Phase::Done(Outcome::Requeued),
            (phase, _) => phase,
        };
        self.phase = next;
    }
}

/// Whether the phase is one in which a processor call is under way.
pub open spec fn calling(phase: Phase) -> bool {
    phase is AttemptingDefault || phase is AttemptingFallback
}

/// How many processor calls the driver has reported in `events`.
pub open spec fn calls_made(config: ConfigView, job: JobView, events: Seq<Event>) -> nat
    decreases events.len(),
{
    if events.len() == 0 {
        0
    } else {
        let before = run(config, job, events.drop_last());
        let earlier = calls_made(config, job, events.drop_last());
        if calling(before) && events.last() is Response {
            earlier + 1
        } else {
            earlier
        }
    }
}

/// How often the driver has reported in `events` that it published the job again.
pub open spec fn republishes(config: ConfigView, job: JobView, events: Seq<Event>) -> nat
    decreases events.len(),
{
    if events.len() == 0 {
        0
    } else {
        let before = run(config, job, events.drop_last());
        let earlier = republishes(config, job, events.drop_last());
        if before == Phase::Requeueing && events.last() is Republished {
            earlier + 1
        } else {
            earlier
        }
    }
}

/// No processor call in `events` succeeds, and the store never reports the
/// payment as already on record.
pub open spec fn never_succeeds(events: Seq<Event>) -> bool {
    forall|i: int|
        0 <= i < events.len() ==> match #[trigger] events[i] {
            Event::Response(response) => !accepted(response),
            Event::Processed(found) => !found,
            _ => true,
        }
}

/// The copy of `job` that has been published again `generation` times more.
pub open spec fn copy_of(job: JobView, generation: nat) -> JobView {
    JobView { retry_count: job.retry_count + generation, ..job }
}

/// `histories` tells the whole life of a job whose processors never succeed:
/// `histories[g]` is what the driver reported while it dispatched the copy
/// published again `g` times, each copy ran to its end, every copy but the
/// last was published again, and the last was not.
pub open spec fn failing_life(
    config: ConfigView,
    job: JobView,
    histories: Seq<Seq<Event>>,
) -> bool {
    &&& histories.len() > 0
    &&& forall|g: int|
        0 <= g < histories.len() ==> never_succeeds(#[trigger] histories[g]) && run(
            config,
            copy_of(job, g as nat),
            histories[g],
        ) is Done
    &&& forall|g: int|
        0 <= g < histories.len() - 1 ==> run(
            config,
            copy_of(job, g as nat),
            #[trigger] histories[g],
        ) == Phase::Done(Outcome::Requeued)
    &&& run(config, copy_of(job, (histories.len() - 1) as nat), histories.last()) != Phase::Done(
        Outcome::Requeued,
    )
}

/// Every phase that a job reaches is well formed, whatever the driver reports.
pub proof fn lemma_run_wf(config: ConfigView, job: JobView, events: Seq<Event>)
    requires
        config.wf(),
    ensures
        phase_wf(config, job, run(config, job, events)),
    decreases events.len(),
{
    if events.len() > 0 {
        lemma_run_wf(config, job, events.drop_last());
    }
}

/// A job that has ended stays as it ended.
pub proof fn lemma_done_is_final(
    config: ConfigView,
    job: JobView,
    outcome: Outcome,
    event: Event,
)
    ensures
        next_phase(config, job, Phase::Done(outcome), event) == Phase::Done(outcome),
{
}

/// Skip on retry: a job that was published again and whose payment the store
/// reports as already on record ends as saved without a single processor
/// call, whatever the driver reports afterwards.
pub proof fn lemma_skip_on_retry(config: ConfigView, job: JobView, events: Seq<Event>)
    requires
        job.retry_count > 0,
        events.len() > 0,
        events[0] == Event::Processed(true),
    ensures
        pending_action(config, job, initial_phase(config, job)) == ActionView::CheckProcessed,
        run(config, job, events) == Phase::Done(Outcome::Saved { by: None }),
        calls_made(config, job, events) == 0,
    decreases events.len(),
{
    if events.len() == 1 {
        assert(events.drop_last().len() == 0);
        assert(run(config, job, events.drop_last()) == Phase::CheckingProcessed);
        assert(calls_made(config, job, events.drop_last()) == 0);
    } else {
        assert(events.drop_last()[0] == events[0]);
        lemma_skip_on_retry(config, job, events.drop_last());
    }
}

/// Linear backoff: after failed call number `attempt` of the default
/// processor the machine pauses for `backoff_base_ms * attempt` milliseconds
/// and then makes call number `attempt + 1`, unless the call was the last
/// one allowed: then it turns to the fallback without a pause.
pub proof fn lemma_backoff_is_linear(
    config: ConfigView,
    job: JobView,
    attempt: u64,
    response: Option<u16>,
)
    requires
        config.wf(),
        1 <= attempt <= config.max_attempts,
        !accepted(response),
    ensures
        ({
            let failed = next_phase(
                config,
                job,
                Phase::AttemptingDefault { attempt },
                Event::Response(response),
            );
            if attempt < config.max_attempts {
                &&& failed == Phase::BackingOff { attempt }
                &&& pending_action(config, job, failed) matches ActionView::Sleep { millis }
                &&& millis == config.backoff_base_ms * attempt
                &&& next_phase(config, job, failed, Event::Slept) == Phase::AttemptingDefault {
                    attempt: (attempt + 1) as u64,
                }
            } else {
                failed == Phase::AttemptingFallback
            }
        }),
{
    if attempt < config.max_attempts {
        assert(config.backoff_base_ms * attempt <= config.backoff_base_ms * (config.max_attempts
            - 1)) by (nonlinear_arith)
            requires
                attempt <= config.max_attempts - 1,
        ;
    }
}

/// The job has been published again in `events` exactly once if it ended as
/// requeued, and not at all otherwise.
pub proof fn lemma_republished_once(config: ConfigView, job: JobView, events: Seq<Event>)
    ensures
        republishes(config, job, events) == (if run(config, job, events) == Phase::Done(
            Outcome::Requeued,
        ) {
            1nat
        } else {
            0nat
        }),
    decreases events.len(),
{
    if events.len() > 0 {
        lemma_republished_once(config, job, events.drop_last());
    }
}

/// While no call succeeds, nothing is recorded: the job is neither being
/// saved nor has it ended as saved.
pub proof fn lemma_failing_run_saves_nothing(
    config: ConfigView,
    job: JobView,
    events: Seq<Event>,
)
    requires
        never_succeeds(events),
    ensures
        !(run(config, job, events) is Saving),
        !(run(config, job, events) matches Phase::Done(Outcome::Saved { .. })),
        !(run(config, job, events) matches Phase::Done(Outcome::SaveFailed { .. })),
    decreases events.len(),
{
    if events.len() > 0 {
        let earlier = events.drop_last();
        assert forall|i: int| 0 <= i < earlier.len() implies match #[trigger] earlier[i] {
            Event::Response(response) => !accepted(response),
            Event::Processed(found) => !found,
            _ => true,
        } by {
            assert(earlier[i] == events[i]);
        }
        lemma_failing_run_saves_nothing(config, job, earlier);
        let last = events[events.len() - 1];
        assert(last == events.last());
    }
}

/// One copy of a job whose processors never succeed, once it has ended, was
/// published again exactly once if its retry budget was not spent, and was
/// dropped without being published otherwise.
pub proof fn lemma_failing_copy(config: ConfigView, job: JobView, events: Seq<Event>)
    requires
        config.wf(),
        never_succeeds(events),
        run(config, job, events) is Done,
    ensures
        job.retry_count < config.max_retries ==> run(config, job, events) == Phase::Done(
            Outcome::Requeued,
        ) && republishes(config, job, events) == 1,
        job.retry_count >= config.max_retries ==> run(config, job, events) == Phase::Done(
            Outcome::PermanentlyFailed,
        ) && republishes(config, job, events) == 0,
{
    lemma_run_wf(config, job, events);
    lemma_failing_run_saves_nothing(config, job, events);
    lemma_republished_once(config, job, events);
}

/// Retry bound: a fresh job whose processors never succeed is published
/// again exactly `max_retries` times. Of its `max_retries + 1` copies each
/// but the last is published again once, and the last is dropped.
pub proof fn lemma_retry_bound(config: ConfigView, job: JobView, histories: Seq<Seq<Event>>)
    requires
        config.wf(),
        job.retry_count == 0,
        failing_life(config, job, histories),
    ensures
        histories.len() == config.max_retries + 1,
        forall|g: int|
            0 <= g < config.max_retries ==> republishes(
                config,
                copy_of(job, g as nat),
                #[trigger] histories[g],
            ) == 1,
        republishes(
            config,
            copy_of(job, config.max_retries as nat),
            histories[config.max_retries as int],
        ) == 0,
        run(config, copy_of(job, config.max_retries as nat), histories[config.max_retries as int])
            == Phase::Done(Outcome::PermanentlyFailed),
{
    let last = histories.len() - 1;
    lemma_failing_copy(config, copy_of(job, last as nat), histories[last]);
    assert(histories.last() == histories[last]);
    if last > 0 {
        lemma_failing_copy(config, copy_of(job, (last - 1) as nat), histories[last - 1]);
    }
    assert forall|g: int| 0 <= g < config.max_retries implies republishes(
        config,
        copy_of(job, g as nat),
        #[trigger] histories[g],
    ) == 1 by {
        lemma_failing_copy(config, copy_of(job, g as nat), histories[g]);
    }
}

} // verus!

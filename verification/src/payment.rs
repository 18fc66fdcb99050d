//! The records that travel through the gateway.

use crate::amount::Amount;
use crate::text::same_text;
use vstd::prelude::*;

verus! {

/// One of the two downstream payment processors.
#[derive(Clone, Copy, PartialEq, Eq, Structural, Debug)]
pub enum Processor {
    /// The preferred processor.
    Default,
    /// The processor tried once the preferred one has failed.
    Fallback,
}

impl Processor {
    /// The name under which the shared store and the network know the processor.
    pub fn name(&self) -> (name: &'static str)
        ensures
            name@ == self.spec_name(),
    {
        match self {
            Processor::Default => "default",
            Processor::Fallback => "fallback",
        }
    }

    /// The processor's name as a sequence of characters.
    pub open spec fn spec_name(&self) -> Seq<char> {
        match self {
            Processor::Default => "default"@,
            Processor::Fallback => "fallback"@,
        }
    }

    /// The processor that goes by `name`, if any.
    pub open spec fn named(name: Seq<char>) -> Option<Processor> {
        if name == "default"@ {
            Some(Processor::Default)
        } else if name == "fallback"@ {
            Some(Processor::Fallback)
        } else {
            None
        }
    }

    /// The processor that goes by `name`, if any.
    pub fn from_name(name: &str) -> (processor: Option<Processor>)
        ensures
            processor == Self::named(name@),
    {
        if same_text(name, "default") {
            Some(Processor::Default)
        } else if same_text(name, "fallback") {
            Some(Processor::Fallback)
        } else {
            None
        }
    }
}

/// Each processor is found again by its name: the two names differ.
pub proof fn lemma_processor_names(processor: Processor)
    ensures
        Processor::named(processor.spec_name()) == Some(processor),
{
    reveal_strlit("default");
    reveal_strlit("fallback");
    assert("default"@.len() == 7);
    assert("fallback"@.len() == 8);
}

/// A payment on its way to a processor.
#[derive(Debug, PartialEq, Eq)]
pub struct Job {
    /// The identity of the logical payment.
    pub correlation_id: String,
    /// The amount to settle.
    pub amount: Amount,
    /// When the payment was first accepted, as RFC 3339 text.
    pub requested_at: String,
    /// How often the job has been published again after both processors failed.
    pub retry_count: u64,
}

/// The mathematical content of a [`Job`].
pub struct JobView {
    pub correlation_id: Seq<char>,
    pub amount: nat,
    pub requested_at: Seq<char>,
    pub retry_count: nat,
}

impl View for Job {
    type V = JobView;

    open spec fn view(&self) -> JobView {
        JobView {
            correlation_id: self.correlation_id@,
            amount: self.amount@,
            requested_at: self.requested_at@,
            retry_count: self.retry_count as nat,
        }
    }
}

impl JobView {
    /// The same payment, published once more.
    pub open spec fn retried(self) -> JobView {
        JobView { retry_count: self.retry_count + 1, ..self }
    }
}

impl Clone for Job {
    fn clone(&self) -> (copy: Self)
        ensures
            copy@ == self@,
    {
        Job {
            correlation_id: self.correlation_id.clone(),
            amount: self.amount,
            requested_at: self.requested_at.clone(),
            retry_count: self.retry_count,
        }
    }
}

impl Job {
    /// Assembles a job from the fields found in a published message. A field
    /// that the message lacks takes its default: the empty text, the zero
    /// amount, no retries.
    pub fn from_fields(
        correlation_id: Option<String>,
        amount: Option<Amount>,
        requested_at: Option<String>,
        retry_count: Option<u64>,
    ) -> (job: Self)
        ensures
            job@.correlation_id == (match correlation_id {
                Some(id) => id@,
                None => Seq::<char>::empty(),
            }),
            job@.amount == (match amount {
                Some(a) => a@,
                None => 0,
            }),
            job@.requested_at == (match requested_at {
                Some(at) => at@,
                None => Seq::<char>::empty(),
            }),
            job@.retry_count == (match retry_count {
                Some(n) => n as nat,
                None => 0,
            }),
    {
        Job {
            correlation_id: match correlation_id {
                Some(id) => id,
                None => String::new(),
            },
            amount: match amount {
                Some(a) => a,
                None => Amount::zero(),
            },
            requested_at: match requested_at {
                Some(at) => at,
                None => String::new(),
            },
            retry_count: match retry_count {
                Some(n) => n,
                None => 0,
            },
        }
    }
}

/// One entry of the payment log: a payment that a processor accepted.
#[derive(Debug, PartialEq, Eq)]
pub struct PaymentRecord {
    /// The processor that accepted the payment.
    pub processor: Processor,
    /// The identity of the logical payment.
    pub correlation_id: String,
    /// The amount settled.
    pub amount: Amount,
    /// When the payment was first accepted, as RFC 3339 text.
    pub timestamp: String,
}

/// The mathematical content of a [`PaymentRecord`].
pub struct RecordView {
    pub processor: Processor,
    pub correlation_id: Seq<char>,
    pub amount: nat,
    pub timestamp: Seq<char>,
}

impl View for PaymentRecord {
    type V = RecordView;

    open spec fn view(&self) -> RecordView {
        RecordView {
            processor: self.processor,
            correlation_id: self.correlation_id@,
            amount: self.amount@,
            timestamp: self.timestamp@,
        }
    }
}

impl Clone for PaymentRecord {
    fn clone(&self) -> (copy: Self)
        ensures
            copy@ == self@,
    {
        PaymentRecord {
            processor: self.processor,
            correlation_id: self.correlation_id.clone(),
            amount: self.amount,
            timestamp: self.timestamp.clone(),
        }
    }
}

/// What the body of a payment request gives. A field that the body lacks,
/// or gives in another shape, is `None`.
#[derive(Debug, PartialEq, Eq)]
pub struct PaymentBody {
    /// The identity of the payment.
    pub correlation_id: Option<String>,
    /// The amount to settle.
    pub amount: Option<Amount>,
}

/// The mathematical content of a [`PaymentBody`].
pub struct BodyView {
    pub correlation_id: Option<Seq<char>>,
    pub amount: Option<nat>,
}

impl View for PaymentBody {
    type V = BodyView;

    open spec fn view(&self) -> BodyView {
        BodyView {
            correlation_id: match self.correlation_id {
                Some(id) => Some(id@),
                None => None,
            },
            amount: match self.amount {
                Some(amount) => Some(amount@),
                None => None,
            },
        }
    }
}

} // verus!

//! Verified core of a payment-intake gateway.
//!
//! The gateway takes in payment requests, publishes them as jobs, and
//! dispatches each job to one of two processors until the payment is on
//! record exactly once. This library decides; it does not act. It holds the
//! hand-off queue and the connection pool, the reading of requests, the
//! protocol spoken with the shared store together with its wire format, and
//! the state machine that carries one job to its end. Whoever uses it reads
//! from the network, sends, sleeps and waits.

pub mod amount;
pub mod clock;
pub mod decimal;
pub mod json;
pub mod ledger;
pub mod memory;
pub mod payment;
pub mod pool;
pub mod queue;
pub mod race;
pub mod request;
pub mod router;
pub mod store;
pub mod text;
pub mod wire;
pub mod worker;

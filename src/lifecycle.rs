use vstd::prelude::*;

verus! {

/// Seconds to wait between two attempts to acquire a pooled connection.
pub const RETRY_INTERVAL_SECS: u64 = 5;

/// The outcome of one attempt to take a connection from a pool, or the
/// shutdown signal observed while waiting to retry.
#[derive(Debug, Clone, Copy, PartialEq, Eq, Structural)]
pub enum Attempt {
    Acquired,
    Failed,
    ShutdownObserved,
}

/// What to do after an attempt.
#[derive(Debug, Clone, Copy, PartialEq, Eq, Structural)]
pub enum AcquireAction {
    /// Hand the connection to the caller.
    Use,
    /// Wait this many seconds, unless shutdown comes first, and try again.
    RetryAfter(u64),
    /// Give up: the process is shutting down.
    Abort,
}

/// Connection acquisition: retried at a fixed interval, without limit, until
/// a connection is had or shutdown is observed.
#[derive(Debug, Clone, Copy, PartialEq, Eq, Structural)]
pub struct RetryPolicy {
    pub interval_secs: u64,
}

pub open spec fn decision(p: RetryPolicy, a: Attempt) -> AcquireAction {
    match a {
        Attempt::Acquired => AcquireAction::Use,
        Attempt::Failed => AcquireAction::RetryAfter(p.interval_secs),
        Attempt::ShutdownObserved => AcquireAction::Abort,
    }
}

/// The actions that a run of attempts leads to, one for each.
pub open spec fn decisions(p: RetryPolicy, attempts: Seq<Attempt>) -> Seq<AcquireAction> {
    attempts.map_values(|a: Attempt| decision(p, a))
}

/// `k` failed attempts, then one that succeeds.
pub open spec fn failures_then_success(k: nat) -> Seq<Attempt> {
    Seq::new(k, |i: int| Attempt::Failed).push(Attempt::Acquired)
}

impl RetryPolicy {
    /// The default policy: retry every five seconds.
    pub fn new() -> (r: RetryPolicy)
        ensures
            r.interval_secs == RETRY_INTERVAL_SECS,
    {
        RetryPolicy { interval_secs: RETRY_INTERVAL_SECS }
    }

    /// What to do after an attempt.
    pub fn decide(&self, a: Attempt) -> (r: AcquireAction)
        ensures
            r == decision(*self, a),
    {
        match a {
            Attempt::Acquired => AcquireAction::Use,
            Attempt::Failed => AcquireAction::RetryAfter(self.interval_secs),
            Attempt::ShutdownObserved => AcquireAction::Abort,
        }
    }
}

/// Under pool exhaustion that ends, acquisition waits the policy's interval
/// after each failed attempt and then hands the connection over: the caller
/// never sees an error.
pub proof fn lemma_retry_until_acquired(p: RetryPolicy, k: nat)
    ensures
        decisions(p, failures_then_success(k)).len() == k + 1,
        forall|i: int|
            0 <= i < k ==> #[trigger] decisions(p, failures_then_success(k))[i]
                == AcquireAction::RetryAfter(p.interval_secs),
        decisions(p, failures_then_success(k))[k as int] == AcquireAction::Use,
        !decisions(p, failures_then_success(k)).contains(AcquireAction::Abort),
{
    let d = decisions(p, failures_then_success(k));
    assert forall|i: int| 0 <= i < k implies #[trigger] d[i] == AcquireAction::RetryAfter(
        p.interval_secs,
    ) by {
        assert(failures_then_success(k)[i] == Attempt::Failed);
    }
    assert(failures_then_success(k)[k as int] == Attempt::Acquired);
    if d.contains(AcquireAction::Abort) {
        let j = choose|j: int| 0 <= j < d.len() && d[j] == AcquireAction::Abort;
        if j < k {
            assert(d[j] == AcquireAction::RetryAfter(p.interval_secs));
        }
    }
}

/// What a source's supervisory loop receives while it waits for shutdown.
#[derive(Debug, Clone, Copy, PartialEq, Eq, Structural)]
pub enum SignalEvent {
    /// The shutdown signal.
    Received,
    /// A failure to receive (such as missed messages); not the signal itself.
    ReceiveError,
    /// The sender is gone: no signal can come any more.
    Closed,
}

#[derive(Debug, Clone, Copy, PartialEq, Eq, Structural)]
pub enum SupervisorAction {
    /// Close the connection pool and end the loop.
    ClosePool,
    /// Log the failure and keep waiting.
    KeepWaiting,
}

/// The supervisory loop's rule: the signal, or the end of the channel, closes
/// the pool; a receive error is not fatal.
pub fn on_signal(ev: SignalEvent) -> (r: SupervisorAction)
    ensures
        r == (if ev == SignalEvent::ReceiveError {
            SupervisorAction::KeepWaiting
        } else {
            SupervisorAction::ClosePool
        }),
{
    match ev {
        SignalEvent::ReceiveError => SupervisorAction::KeepWaiting,
        _ => SupervisorAction::ClosePool,
    }
}

/// The one-shot shutdown signal: sent at most once per process.
#[derive(Debug)]
pub struct ShutdownLatch {
    sent: bool,
}

impl ShutdownLatch {
    pub closed spec fn is_sent(&self) -> bool {
        self.sent
    }

    pub fn new() -> (r: ShutdownLatch)
        ensures
            !r.is_sent(),
    {
        ShutdownLatch { sent: false }
    }

    /// Marks the signal as sent. True only for the first call: only then is
    /// the signal to be broadcast.
    pub fn fire(&mut self) -> (first: bool)
        ensures
            first == !old(self).is_sent(),
            final(self).is_sent(),
    {
        let first = !self.sent;
        self.sent = true;
        first
    }

    pub fn sent(&self) -> (r: bool)
        ensures
            r == self.is_sent(),
    {
        self.sent
    }
}

} // verus!

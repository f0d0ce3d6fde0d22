//! Reaching the SSH server: its address, a single attempt, and several attempts
//! in a row.
use vstd::prelude::*;
use vstd::string::*;

use crate::error::TunnelError;
use crate::number::{decimal, to_decimal};

verus! {

/// How long one attempt may take, in seconds.
pub const SSH_CONNECT_TIMEOUT_S: u64 = 5;

/// How long to wait between two attempts, in milliseconds.
pub const RECONNECT_DELAY_MS: u64 = 1000;

/// How many attempts are made.
pub const MAX_RECONNECT_ATTEMPTS: u32 = 3;

/// The SSH port that datagrams are passed on to.
pub const DATAGRAM_SSH_PORT: u16 = 22;

/// The address of the SSH server, which runs on this machine.
pub fn ssh_address(port: u16) -> (r: String)
    ensures
        r@ == "127.0.0.1:"@ + decimal(port as nat),
{
    let mut s: String = String::from_str("127.0.0.1:");
    s.append(to_decimal(port as u64).as_str());
    s
}

/// The address to listen on: every interface.
pub fn listen_address(port: u16) -> (r: String)
    ensures
        r@ == "[::]:"@ + decimal(port as nat),
{
    let mut s: String = String::from_str("[::]:");
    s.append(to_decimal(port as u64).as_str());
    s
}

/// What came of an attempt to connect.
#[derive(Clone, Copy, PartialEq, Eq, Structural, Debug)]
pub enum ConnectOutcome {
    /// The connection stands.
    Connected,
    /// The server refused, or could not be reached.
    Failed,
    /// The server did not answer in time.
    TimedOut,
}

/// The error that an attempt leaves behind, where it failed.
pub open spec fn connect_error(outcome: ConnectOutcome) -> TunnelError {
    if outcome == ConnectOutcome::TimedOut {
        TunnelError::ConnectTimeout
    } else {
        TunnelError::ConnectFailed
    }
}

/// Decides whether a connection that gets a single attempt is passed on: `Ok`
/// with what the SSH server gets before anything else.
pub fn begin_relay(outcome: ConnectOutcome, first: Option<Vec<u8>>) -> (r: Result<
    Option<Vec<u8>>,
    TunnelError,
>)
    ensures
        r == (if outcome == ConnectOutcome::Connected {
            Ok::<Option<Vec<u8>>, TunnelError>(first)
        } else {
            Err(connect_error(outcome))
        }),
{
    match outcome {
        ConnectOutcome::Connected => Ok(first),
        ConnectOutcome::Failed => Err(TunnelError::ConnectFailed),
        ConnectOutcome::TimedOut => Err(TunnelError::ConnectTimeout),
    }
}

/// A series of attempts that is not over.
pub struct Connecting {
    failures: u32,
}

/// Where a series of attempts stands after one more of them.
pub enum RetryStep {
    /// The connection stands.
    Connected,
    /// Wait, and try again.
    Again(Connecting),
    /// No attempt is left: this is the error of the last one.
    GiveUp(TunnelError),
}

/// Where a series of attempts stands. `Trying` holds the number of failures.
pub enum RetryState {
    Trying(nat),
    Connected,
    GivenUp(TunnelError),
}

/// Where a series stands that has failed `failures` times, after one more
/// attempt.
pub open spec fn next_retry(failures: nat, outcome: ConnectOutcome) -> RetryState {
    if outcome == ConnectOutcome::Connected {
        RetryState::Connected
    } else if failures + 1 < MAX_RECONNECT_ATTEMPTS {
        RetryState::Trying(failures + 1)
    } else {
        RetryState::GivenUp(connect_error(outcome))
    }
}

impl RetryStep {
    /// Where the series stands.
    pub open spec fn state(self) -> RetryState {
        match self {
            RetryStep::Connected => RetryState::Connected,
            RetryStep::Again(c) => RetryState::Trying(c.failed()),
            RetryStep::GiveUp(e) => RetryState::GivenUp(e),
        }
    }
}

impl Connecting {
    #[verifier::type_invariant]
    spec fn inv(self) -> bool {
        self.failures < MAX_RECONNECT_ATTEMPTS
    }

    /// How many attempts have failed.
    pub closed spec fn failed(self) -> nat {
        self.failures as nat
    }

    /// A series without an attempt so far.
    pub fn new() -> (r: Connecting)
        ensures
            r.failed() == 0,
    {
        Connecting { failures: 0 }
    }

    /// The number of the attempt that is due, counted from one.
    pub fn attempt(&self) -> (r: u32)
        ensures
            r == self.failed() + 1,
            r <= MAX_RECONNECT_ATTEMPTS,
    {
        proof {
            use_type_invariant(self);
        }
        self.failures + 1
    }

    /// Takes note of what came of an attempt.
    pub fn record(self, outcome: ConnectOutcome) -> (r: RetryStep)
        ensures
            r.state() == next_retry(self.failed(), outcome),
    {
        proof {
            use_type_invariant(&self);
        }
        match outcome {
            ConnectOutcome::Connected => RetryStep::Connected,
            _ => {
                let failures: u32 = self.failures + 1;
                if failures < MAX_RECONNECT_ATTEMPTS {
                    return RetryStep::Again(Connecting { failures });
                }
                RetryStep::GiveUp(
                    match outcome {
                        ConnectOutcome::TimedOut => TunnelError::ConnectTimeout,
                        _ => TunnelError::ConnectFailed,
                    },
                )
            },
        }
    }
}

// ---------------------------------------------------------------------------
// Laws
// ---------------------------------------------------------------------------
/// Where a series stands after the attempts `outcomes`. Once it is over, it
/// stays where it is.
pub open spec fn retry_after(outcomes: Seq<ConnectOutcome>) -> RetryState
    decreases outcomes.len(),
{
    if outcomes.len() == 0 {
        RetryState::Trying(0)
    } else {
        match retry_after(outcomes.drop_last()) {
            RetryState::Trying(failures) => next_retry(failures, outcomes.last()),
            over => over,
        }
    }
}

/// The first `n` attempts failed.
pub open spec fn all_failed(outcomes: Seq<ConnectOutcome>, n: int) -> bool {
    forall|k: int| 0 <= k < n ==> (#[trigger] outcomes[k]) != ConnectOutcome::Connected
}

/// The last attempt says nothing about the ones before it.
proof fn lemma_all_failed_prefix(outcomes: Seq<ConnectOutcome>, n: int)
    requires
        n < outcomes.len(),
    ensures
        all_failed(outcomes, n) == all_failed(outcomes.drop_last(), n),
{
    let init = outcomes.drop_last();
    if all_failed(init, n) {
        assert forall|k: int| 0 <= k < n implies (#[trigger] outcomes[k])
            != ConnectOutcome::Connected by {
            assert(init[k] == outcomes[k]);
        }
    }
    if all_failed(outcomes, n) {
        assert forall|k: int| 0 <= k < n implies (#[trigger] init[k])
            != ConnectOutcome::Connected by {
            assert(init[k] == outcomes[k]);
        }
    }
}

/// A series goes on exactly while every attempt has failed and one is left. It
/// gives up exactly when as many attempts as are allowed have failed, with the
/// error of the last of them, and never makes another.
pub proof fn law_retry_is_bounded(outcomes: Seq<ConnectOutcome>)
    ensures
        retry_after(outcomes) is Trying <==> outcomes.len() < MAX_RECONNECT_ATTEMPTS && all_failed(
            outcomes,
            outcomes.len() as int,
        ),
        retry_after(outcomes) matches RetryState::Trying(failures) ==> failures == outcomes.len(),
        retry_after(outcomes) is GivenUp <==> outcomes.len() >= MAX_RECONNECT_ATTEMPTS
            && all_failed(outcomes, MAX_RECONNECT_ATTEMPTS as int),
        retry_after(outcomes) matches RetryState::GivenUp(e) ==> e == connect_error(
            outcomes[MAX_RECONNECT_ATTEMPTS - 1],
        ),
    decreases outcomes.len(),
{
    if outcomes.len() > 0 {
        let init = outcomes.drop_last();
        let last = outcomes.len() - 1;
        law_retry_is_bounded(init);
        lemma_all_failed_prefix(outcomes, last);
        assert(outcomes[last] == outcomes.last());
        assert(all_failed(outcomes, last + 1) <==> all_failed(outcomes, last) && outcomes[last]
            != ConnectOutcome::Connected);
        if last >= MAX_RECONNECT_ATTEMPTS {
            lemma_all_failed_prefix(outcomes, MAX_RECONNECT_ATTEMPTS as int);
        }
    }
}

/// A series ends with the first attempt that succeeds, if there is one among
/// those that are allowed.
pub proof fn law_first_success_ends(outcomes: Seq<ConnectOutcome>, n: int)
    requires
        0 <= n < outcomes.len(),
        n < MAX_RECONNECT_ATTEMPTS,
        all_failed(outcomes, n),
        outcomes[n] == ConnectOutcome::Connected,
    ensures
        retry_after(outcomes) is Connected,
    decreases outcomes.len(),
{
    let init = outcomes.drop_last();
    assert forall|k: int| 0 <= k < n implies (#[trigger] init[k]) != ConnectOutcome::Connected by {
        assert(init[k] == outcomes[k]);
    }
    if n == outcomes.len() - 1 {
        law_retry_is_bounded(init);
        assert(all_failed(init, init.len() as int));
    } else {
        assert(init[n] == outcomes[n]);
        law_first_success_ends(init, n);
    }
}

/// What is told of a series of attempts is where it stands, with the number of
/// failures and the error as they are.
pub proof fn law_retry_view(c: Connecting, e: TunnelError)
    ensures
        RetryStep::Connected.state() is Connected,
        RetryStep::Again(c).state() == RetryState::Trying(c.failed()),
        RetryStep::GiveUp(e).state() == RetryState::GivenUp(e),
{
}

/// An attempt that was too slow leaves another error than one that failed, for one
/// attempt and for the last of several alike.
pub proof fn law_errors_of_attempts(failures: nat)
    requires
        failures + 1 >= MAX_RECONNECT_ATTEMPTS,
    ensures
        connect_error(ConnectOutcome::TimedOut) == TunnelError::ConnectTimeout,
        connect_error(ConnectOutcome::Failed) == TunnelError::ConnectFailed,
        next_retry(failures, ConnectOutcome::TimedOut) == RetryState::GivenUp(
            TunnelError::ConnectTimeout,
        ),
        next_retry(failures, ConnectOutcome::Failed) == RetryState::GivenUp(
            TunnelError::ConnectFailed,
        ),
{
}

/// Attempts are a second apart, and each may take five.
pub proof fn law_connect_limits()
    ensures
        MAX_RECONNECT_ATTEMPTS == 3,
        RECONNECT_DELAY_MS == 1000,
        1000 * SSH_CONNECT_TIMEOUT_S == 5 * RECONNECT_DELAY_MS,
        DATAGRAM_SSH_PORT == 22,
{
}

} // verus!

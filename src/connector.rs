//! Backend connector decisions: which address to try next, and when to give
//! up. The caller performs each attempt, racing it against
//! `ATTEMPT_TIMEOUT_SECS`, and reports how it ended.
use crate::backend::LdapError;
use vstd::prelude::*;

verus! {

/// Time allowed to one connection attempt before the next address is tried.
pub const ATTEMPT_TIMEOUT_SECS: u64 = 5;

#[derive(Clone, Copy, PartialEq, Eq, Structural, Debug)]
pub enum AttemptOutcome {
    Connected,
    Refused,
    TimedOut,
}

#[derive(Clone, Copy, PartialEq, Eq, Structural, Debug)]
pub enum ConnectAction {
    /// Try the address at this position.
    Attempt(usize),
    /// The address at this position accepted: perform the TLS handshake there.
    Handshake(usize),
    /// Stop with this error.
    Fail(LdapError),
}

/// What follows an attempt at position `index` of `n` addresses.
pub open spec fn next_action(n: nat, index: nat, outcome: AttemptOutcome) -> ConnectAction {
    if outcome == AttemptOutcome::Connected {
        ConnectAction::Handshake(index as usize)
    } else if index + 1 < n {
        ConnectAction::Attempt((index + 1) as usize)
    } else {
        ConnectAction::Fail(LdapError::ConnectError)
    }
}

/// Where a connector over `n` addresses ends when the attempt at position
/// `i` and every later one end as `outcomes` says: `next_action` applied
/// until it no longer names an address to try.
pub open spec fn run_from(n: nat, outcomes: Seq<AttemptOutcome>, i: nat) -> ConnectAction
    decreases n - i,
{
    if i >= n || i >= outcomes.len() {
        ConnectAction::Fail(LdapError::ConnectError)
    } else if outcomes[i as int] == AttemptOutcome::Connected {
        ConnectAction::Handshake(i as usize)
    } else if i + 1 < n {
        run_from(n, outcomes, i + 1)
    } else {
        ConnectAction::Fail(LdapError::ConnectError)
    }
}

/// The first step: the first address, or failure with no attempt at all when
/// there is none.
pub fn first_action(n: usize) -> (r: ConnectAction)
    ensures
        n == 0 ==> r == ConnectAction::Fail(LdapError::ConnectError),
        n > 0 ==> r == ConnectAction::Attempt(0),
{
    if n == 0 {
        ConnectAction::Fail(LdapError::ConnectError)
    } else {
        ConnectAction::Attempt(0)
    }
}

/// The step after the attempt at position `index` of `n` addresses: a refusal
/// or a timeout moves on to the next address without an error.
pub fn after_attempt(n: usize, index: usize, outcome: AttemptOutcome) -> (r: ConnectAction)
    requires
        index < n,
    ensures
        r == next_action(n as nat, index as nat, outcome),
{
    match outcome {
        AttemptOutcome::Connected => ConnectAction::Handshake(index),
        _ => {
            if index + 1 < n {
                ConnectAction::Attempt(index + 1)
            } else {
                ConnectAction::Fail(LdapError::ConnectError)
            }
        },
    }
}

/// The connector fails with a connection error without any attempt when it
/// has no address.
pub proof fn lemma_no_address_no_attempt(outcomes: Seq<AttemptOutcome>)
    ensures
        run_from(0, outcomes, 0) == ConnectAction::Fail(LdapError::ConnectError),
{
}

/// When every address but the last fails, by refusal or by timeout, and the
/// last accepts, the connector goes on to the handshake at the last address.
pub proof fn lemma_fails_over_to_last(n: nat, outcomes: Seq<AttemptOutcome>)
    requires
        1 <= n <= usize::MAX,
        outcomes.len() == n,
        forall|i: int| 0 <= i < n - 1 ==> #[trigger] outcomes[i] != AttemptOutcome::Connected,
        outcomes[n - 1] == AttemptOutcome::Connected,
    ensures
        run_from(n, outcomes, 0) == ConnectAction::Handshake((n - 1) as usize),
{
    lemma_run_from_tail(n, outcomes, 0);
}

proof fn lemma_run_from_tail(n: nat, outcomes: Seq<AttemptOutcome>, i: nat)
    requires
        1 <= n <= usize::MAX,
        i < n,
        outcomes.len() == n,
        forall|k: int| 0 <= k < n - 1 ==> #[trigger] outcomes[k] != AttemptOutcome::Connected,
        outcomes[n - 1] == AttemptOutcome::Connected,
    ensures
        run_from(n, outcomes, i) == ConnectAction::Handshake((n - 1) as usize),
    decreases n - i,
{
    if i + 1 < n {
        assert(outcomes[i as int] != AttemptOutcome::Connected);
        lemma_run_from_tail(n, outcomes, i + 1);
    }
}

/// `run_from` is the connector's step, `next_action`, applied from position
/// `i` onwards.
pub proof fn lemma_run_from_follows_steps(n: nat, outcomes: Seq<AttemptOutcome>, i: nat)
    requires
        n <= usize::MAX,
        i < n,
        i < outcomes.len(),
    ensures
        run_from(n, outcomes, i) == (match next_action(n, i, outcomes[i as int]) {
            ConnectAction::Attempt(j) => run_from(n, outcomes, j as nat),
            other => other,
        }),
{
}

} // verus!

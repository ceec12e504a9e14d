//! Challenge negotiation: which accept or decline signals decide a pending
//! challenge, and how a sequence of them resolves. Signals from anyone but
//! the two participants are ignored; an empty window times out.

use vstd::prelude::*;

verus! {

/// A participant's reaction to a pending challenge.
#[derive(Debug, Clone, Copy, PartialEq, Eq, Structural)]
pub enum NegotiationSignal {
    Accept,
    Decline,
}

/// A reaction attributed to the user who authored it.
#[derive(Debug, Clone, Copy, PartialEq, Eq, Structural)]
pub struct NegotiationEvent {
    pub user: u64,
    pub signal: NegotiationSignal,
}

/// How a negotiation ends.
#[derive(Debug, Clone, Copy, PartialEq, Eq, Structural)]
pub enum NegotiationOutcome {
    Accepted,
    DeclinedBy(u64),
    CancelledBy(u64),
    TimedOut,
}

/// What one signal decides: the challenger withdrawing cancels, the opponent
/// declining declines, the opponent accepting accepts; everything else —
/// including an accept by the challenger and any third party's signal — is
/// ignored. When one user plays both roles, a decline counts as their own
/// cancellation first.
pub open spec fn decide_signal(challenger: u64, opponent: u64, e: NegotiationEvent) -> Option<
    NegotiationOutcome,
> {
    match e.signal {
        NegotiationSignal::Decline => if e.user == challenger {
            Some(NegotiationOutcome::CancelledBy(challenger))
        } else if e.user == opponent {
            Some(NegotiationOutcome::DeclinedBy(opponent))
        } else {
            None
        },
        NegotiationSignal::Accept => if e.user == opponent {
            Some(NegotiationOutcome::Accepted)
        } else {
            None
        },
    }
}

/// How a whole acceptance window resolves: the first decisive signal wins,
/// and a window that closes with none is a timeout.
pub open spec fn negotiate_model(
    challenger: u64,
    opponent: u64,
    events: Seq<NegotiationEvent>,
) -> NegotiationOutcome
    decreases events.len(),
{
    if events.len() == 0 {
        NegotiationOutcome::TimedOut
    } else {
        match decide_signal(challenger, opponent, events[0]) {
            Some(o) => o,
            None => negotiate_model(challenger, opponent, events.skip(1)),
        }
    }
}

/// Reacts to one signal of the acceptance window, exactly as
/// `decide_signal` decides.
pub fn negotiation_step(challenger: u64, opponent: u64, event: NegotiationEvent) -> (r: Option<
    NegotiationOutcome,
>)
    ensures
        r == decide_signal(challenger, opponent, event),
{
    match event.signal {
        NegotiationSignal::Decline => {
            if event.user == challenger {
                Some(NegotiationOutcome::CancelledBy(challenger))
            } else if event.user == opponent {
                Some(NegotiationOutcome::DeclinedBy(opponent))
            } else {
                None
            }
        },
        NegotiationSignal::Accept => {
            if event.user == opponent {
                Some(NegotiationOutcome::Accepted)
            } else {
                None
            }
        },
    }
}

/// Resolves an acceptance window from the signals that arrived before it
/// closed, in arrival order: the first decisive one wins, and a window with
/// none times out.
pub fn negotiate(challenger: u64, opponent: u64, events: &Vec<NegotiationEvent>) -> (r:
    NegotiationOutcome)
    ensures
        r == negotiate_model(challenger, opponent, events@),
{
    proof {
        assert(events@.skip(0) =~= events@);
    }
    let mut i: usize = 0;
    while i < events.len()
        invariant
            i <= events.len(),
            negotiate_model(challenger, opponent, events@) == negotiate_model(
                challenger,
                opponent,
                events@.skip(i as int),
            ),
        decreases events.len() - i,
    {
        proof {
            assert(events@.skip(i as int)[0] == events@[i as int]);
            assert(events@.skip(i as int).skip(1) =~= events@.skip(i as int + 1));
        }
        if let Some(outcome) = negotiation_step(challenger, opponent, events[i]) {
            return outcome;
        }
        i += 1;
    }
    proof {
        assert(events@.skip(events@.len() as int) =~= Seq::<NegotiationEvent>::empty());
    }
    NegotiationOutcome::TimedOut
}

} // verus!

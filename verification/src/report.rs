//! Route reporting: handing resolved addresses to the routing component over
//! its channel.
//!
//! The engine returns route reports as actions; this module walks a step's
//! actions and performs the reports, one non-blocking send per resolved
//! address. A send that fails because the channel is full or closed drops
//! that address; nothing is retried.

use crate::engine::Action;
use vstd::prelude::*;

verus! {

#[verifier::external_type_specification]
#[verifier::external_body]
#[verifier::reject_recursive_types(T)]
pub struct ExSender<T>(crossbeam::channel::Sender<T>);

/// Relies on `crossbeam::channel::Sender::try_send`: a non-blocking send
/// that returns `Ok` exactly when the message was accepted, and an error on
/// a full or disconnected channel. Nothing is assumed of the outcome, which
/// depends on the receiving side.
#[verifier::external_body]
fn channel_try_send(sender: &crossbeam::channel::Sender<String>, message: String) -> (r: bool) {
    sender.try_send(message).is_ok()
}

/// How many route reports a sequence of actions carries.
pub open spec fn spec_report_count(s: Seq<Action>) -> int
    decreases s.len(),
{
    if s.len() == 0 {
        0
    } else {
        spec_report_count(s.drop_last()) + if s.last() is ReportRoute {
            1int
        } else {
            0int
        }
    }
}

proof fn lemma_report_count_take(s: Seq<Action>, i: int)
    requires
        0 <= i < s.len(),
    ensures
        spec_report_count(s.take(i + 1)) == spec_report_count(s.take(i)) + if s[i] is ReportRoute {
            1int
        } else {
            0int
        },
        spec_report_count(s.take(i)) <= i,
    decreases i,
{
    assert(s.take(i + 1).drop_last() =~= s.take(i));
    assert(s.take(i + 1).last() == s[i]);
    if i > 0 {
        lemma_report_count_take(s, i - 1);
        assert(s.take(i).take(i - 1 + 1) =~= s.take(i));
    }
}

/// Hand every route report among `actions` to the routing channel; the other
/// actions are the caller's. Returns how many reports were attempted.
pub fn deliver_reports(sender: &crossbeam::channel::Sender<String>, actions: &Vec<Action>) -> (n:
    usize)
    ensures
        n as int == spec_report_count(actions@),
{
    let mut n: usize = 0;
    let mut i: usize = 0;
    while i < actions.len()
        invariant
            i <= actions.len(),
            n as int == spec_report_count(actions@.take(i as int)),
            n <= i,
        decreases actions.len() - i,
    {
        proof {
            lemma_report_count_take(actions@, i as int);
        }
        match &actions[i] {
            Action::ReportRoute { address } => {
                let _accepted = channel_try_send(sender, address.clone());
                n += 1;
            },
            _ => {},
        }
        i += 1;
    }
    proof {
        assert(actions@.take(actions@.len() as int) =~= actions@);
    }
    n
}

} // verus!

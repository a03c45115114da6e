//! The supervisor's decisions: what to do with each message on the control
//! connection, and which processes are reported once it stops.
use vstd::prelude::*;
use crate::server::{Message, ServerCommand};

verus! {

#[derive(Clone, Copy, Debug, PartialEq, Eq, Structural)]
pub enum SupervisorDecision {
    /// Nothing to do; keep receiving.
    Ignore,
    /// Send the command to every process (a failed send is ignored), then
    /// stop receiving.
    FanOutAndStop(ServerCommand),
    /// The control connection is closed: stop receiving.
    Stop,
}

/// Decides on the next item read from the control connection; `None` means
/// the connection was closed.
pub fn decide(msg: Option<&Message>) -> (r: SupervisorDecision)
    ensures
        r == match msg {
            None => SupervisorDecision::Stop,
            Some(Message::Command(c)) => SupervisorDecision::FanOutAndStop(*c),
            Some(Message::ProcessOutput { .. }) => SupervisorDecision::Ignore,
        },
{
    match msg {
        None => SupervisorDecision::Stop,
        Some(Message::Command(c)) => SupervisorDecision::FanOutAndStop(*c),
        Some(Message::ProcessOutput { .. }) => SupervisorDecision::Ignore,
    }
}

/// The ids whose task had not finished, in the order given.
pub open spec fn unfinished(ids: Seq<u64>, finished: Seq<bool>) -> Seq<u64>
    decreases ids.len(),
{
    if ids.len() == 0 || finished.len() == 0 {
        Seq::empty()
    } else {
        let rest = unfinished(ids.drop_last(), finished.drop_last());
        if finished.last() {
            rest
        } else {
            rest.push(ids.last())
        }
    }
}

/// Given each process's id and whether its task finished within the grace
/// period, the ids to abort and report.
pub fn stragglers(ids: &Vec<u64>, finished: &Vec<bool>) -> (r: Vec<u64>)
    requires
        ids@.len() == finished@.len(),
    ensures
        r@ == unfinished(ids@, finished@),
{
    let mut r: Vec<u64> = Vec::new();
    let mut i: usize = 0;
    assert(ids@.take(0) =~= Seq::<u64>::empty());
    while i < ids.len()
        invariant
            ids@.len() == finished@.len(),
            i <= ids@.len(),
            r@ == unfinished(ids@.take(i as int), finished@.take(i as int)),
        decreases ids@.len() - i,
    {
        assert(ids@.take(i + 1).drop_last() =~= ids@.take(i as int));
        assert(finished@.take(i + 1).drop_last() =~= finished@.take(i as int));
        if !finished[i] {
            r.push(ids[i]);
        }
        i = i + 1;
    }
    assert(ids@.take(i as int) =~= ids@);
    assert(finished@.take(i as int) =~= finished@);
    r
}

} // verus!

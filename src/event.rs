//! Events bound for the log store, and how the store's consumer applies
//! them.
use vstd::prelude::*;
use tokio::sync::mpsc::UnboundedSender;
use crate::log::{ProcessInfo, ProcessStatus, Stream};
use crate::store::{LogStore, ProcessHistory, StoreError, append_result, appended};

verus! {

/// tokio's `UnboundedSender`, the producing end of the store's event bus;
/// opaque here, only passed to `send_store_event`.
#[verifier::external_type_specification]
#[verifier::external_body]
#[verifier::reject_recursive_types(T)]
pub struct ExUnboundedSender<T>(UnboundedSender<T>);

#[derive(Debug)]
pub enum StoreEvent {
    AppendLog { process_id: u64, stream: Stream, content: String },
    ProcessExited { process_id: u64, status: ProcessStatus, exit_code: Option<i32> },
}

/// Relies on tokio's `UnboundedSender::send`: the event is queued, or
/// dropped when the receiving end is gone; it never waits. Whether it was
/// queued is not stated.
#[verifier::external_body]
fn send_store_event(tx: &UnboundedSender<StoreEvent>, event: StoreEvent) {
    let _ = tx.send(event);
}

impl StoreEvent {
    /// Publishes the event on the store's bus, best effort: when the
    /// consumer has gone away the event is dropped silently.
    pub fn emit(self, tx: &UnboundedSender<StoreEvent>) {
        send_store_event(tx, self)
    }

    /// Applies the event to the store: a log line is appended with the given
    /// timestamp, an exit is recorded in the process's record.
    pub fn apply<S: LogStore>(self, store: &mut S, timestamp: u128) -> (r: Result<(), StoreError>)
        requires
            old(store).wf(),
        ensures
            final(store).wf(),
            final(store).session() == old(store).session(),
            final(store).max_lines() == old(store).max_lines(),
            final(store).order() == old(store).order(),
            match self {
                StoreEvent::AppendLog { process_id, stream, content } => {
                    &&& r == append_result(old(store).histories(), process_id)
                    &&& r is Ok ==> final(store).histories() == appended(
                        old(store).histories(),
                        old(store).session(),
                        old(store).max_lines(),
                        process_id,
                        stream,
                        content@,
                        timestamp,
                    )
                    &&& r is Err ==> final(store).histories() == old(store).histories()
                },
                StoreEvent::ProcessExited { process_id, status, exit_code } => {
                    let hs = old(store).histories();
                    if hs.contains_key(process_id) {
                        &&& r is Ok
                        &&& final(store).histories() == hs.insert(
                            process_id,
                            ProcessHistory {
                                info: ProcessInfo { status, exit_code, ..hs[process_id].info },
                                ..hs[process_id]
                            },
                        )
                    } else {
                        &&& r == Err::<(), StoreError>(StoreError::ProcessNotFound(process_id))
                        &&& final(store).histories() == hs
                    }
                },
            },
    {
        match self {
            StoreEvent::AppendLog { process_id, stream, content } => store.append(
                process_id,
                stream,
                content,
                timestamp,
            ),
            StoreEvent::ProcessExited { process_id, status, exit_code } => store.set_process_status(
                process_id,
                status,
                exit_code,
            ),
        }
    }
}

} // verus!

//! Messages exchanged between the caller, the supervisor and the processes.
use vstd::prelude::*;

verus! {

/// A command sent down to the supervisor and from it to every process.
#[derive(Clone, Copy, Debug, PartialEq, Eq, Structural)]
pub enum ServerCommand {
    Shutdown,
}

/// What travels over a connection.
#[derive(Debug)]
pub enum Message {
    Command(ServerCommand),
    ProcessOutput { process_id: usize, line: String },
}

} // verus!

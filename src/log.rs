//! Identity and output records of managed processes.
use vstd::prelude::*;

verus! {

/// The output stream a captured line came from.
#[derive(Clone, Copy, Debug, PartialEq, Eq, Structural)]
pub enum Stream {
    Stdout,
    Stderr,
}

/// One captured line of output, newline stripped.
#[derive(Debug)]
pub struct LogLine {
    pub id: u64,
    pub process_id: u64,
    pub session_id: u64,
    pub timestamp: u128,
    pub stream: Stream,
    pub content: String,
}

#[derive(Clone, Copy, Debug, PartialEq, Eq, Structural)]
pub enum ProcessStatus {
    Running,
    Stopped,
    Crashed,
}

/// Identity and status of one managed service.
#[derive(Debug)]
pub struct ProcessInfo {
    pub id: u64,
    pub name: String,
    pub command: String,
    pub cwd: Option<String>,
    pub pid: Option<usize>,
    pub status: ProcessStatus,
    pub exit_code: Option<i32>,
}

/// Identifies one run of the supervisor.
#[derive(Clone, Debug)]
pub struct SessionInfo {
    pub id: u64,
    pub started_at: u64,
}

fn clone_opt_string(o: &Option<String>) -> (r: Option<String>)
    ensures
        r == *o,
{
    match o {
        Some(s) => Some(s.clone()),
        None => None,
    }
}

impl Clone for LogLine {
    fn clone(&self) -> (r: Self)
        ensures
            r == *self,
    {
        LogLine {
            id: self.id,
            process_id: self.process_id,
            session_id: self.session_id,
            timestamp: self.timestamp,
            stream: self.stream,
            content: self.content.clone(),
        }
    }
}

impl Clone for ProcessInfo {
    fn clone(&self) -> (r: Self)
        ensures
            r == *self,
    {
        ProcessInfo {
            id: self.id,
            name: self.name.clone(),
            command: self.command.clone(),
            cwd: clone_opt_string(&self.cwd),
            pid: self.pid,
            status: self.status,
            exit_code: self.exit_code,
        }
    }
}

/// The characters of an optional string.
pub open spec fn opt_chars(o: Option<String>) -> Option<Seq<char>> {
    match o {
        Some(s) => Some(s@),
        None => None,
    }
}

/// The characters of an optional string slice.
pub open spec fn opt_str_chars(o: Option<&str>) -> Option<Seq<char>> {
    match o {
        Some(s) => Some(s@),
        None => None,
    }
}

/// The process id that std's default hasher derives from a service's
/// name, command and working directory.
pub uninterp spec fn identity_hash(name: Seq<char>, command: Seq<char>, cwd: Option<Seq<char>>) -> u64;

impl ProcessInfo {
    /// The id is the one derived from the configuration fields.
    pub open spec fn id_matches_config(self) -> bool {
        self.id == identity_hash(self.name@, self.command@, opt_chars(self.cwd))
    }

    /// A freshly registered service: not spawned yet, stopped, no exit code.
    pub fn new(name: String, command: String, cwd: Option<String>) -> (r: Self)
        ensures
            r.name@ == name@,
            r.command@ == command@,
            opt_chars(r.cwd) == opt_chars(cwd),
            r.id_matches_config(),
            r.pid is None,
            r.status == ProcessStatus::Stopped,
            r.exit_code is None,
    {
        let id = {
            let cwd_str: Option<&str> = match &cwd {
                Some(s) => Some(s.as_str()),
                None => None,
            };
            Self::compute_id(name.as_str(), command.as_str(), cwd_str)
        };
        ProcessInfo { id, name, command, cwd, pid: None, status: ProcessStatus::Stopped, exit_code: None }
    }

    /// Relies on `BuildHasher::hash_one` of std with a `DefaultHasher` made by
    /// `Default`: its keys are fixed, so for a given build of the program the
    /// value depends on the three fields alone.
    #[verifier::external_body]
    fn compute_id(name: &str, command: &str, cwd: Option<&str>) -> (r: u64)
        ensures
            r == identity_hash(name@, command@, opt_str_chars(cwd)),
    {
        std::hash::BuildHasher::hash_one(
            &std::hash::BuildHasherDefault::<std::collections::hash_map::DefaultHasher>::default(),
            (name, command, cwd),
        )
    }
}

/// Configurations that agree on name, command and working directory get the
/// same process id, whatever else differs between the records.
pub proof fn lemma_same_config_same_id(a: ProcessInfo, b: ProcessInfo)
    requires
        a.id_matches_config(),
        b.id_matches_config(),
        a.name@ == b.name@,
        a.command@ == b.command@,
        opt_chars(a.cwd) == opt_chars(b.cwd),
    ensures
        a.id == b.id,
{
}

} // verus!

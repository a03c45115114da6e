//! Service definitions as read from the configuration.
use vstd::prelude::*;
use crate::log::{ProcessInfo, ProcessStatus, opt_chars};

verus! {

/// One service: a display name, a command line and an optional working
/// directory.
#[derive(Debug, Default)]
pub struct Service {
    pub cmd: String,
    pub name: String,
    pub cwd: Option<String>,
}

#[derive(Debug, Default)]
pub struct Config {
    pub services: Vec<Service>,
}

impl Config {
    /// A fresh process record for each service, in order.
    pub fn process_infos(&self) -> (r: Vec<ProcessInfo>)
        ensures
            r@.len() == self.services@.len(),
            forall|i: int|
                0 <= i < r@.len() ==> {
                    &&& (#[trigger] r@[i]).name@ == self.services@[i].name@
                    &&& r@[i].command@ == self.services@[i].cmd@
                    &&& opt_chars(r@[i].cwd) == opt_chars(self.services@[i].cwd)
                    &&& r@[i].id_matches_config()
                    &&& r@[i].pid is None
                    &&& r@[i].status == ProcessStatus::Stopped
                    &&& r@[i].exit_code is None
                },
    {
        let mut r: Vec<ProcessInfo> = Vec::new();
        let mut i: usize = 0;
        while i < self.services.len()
            invariant
                i <= self.services@.len(),
                r@.len() == i,
                forall|j: int|
                    0 <= j < i ==> {
                        &&& (#[trigger] r@[j]).name@ == self.services@[j].name@
                        &&& r@[j].command@ == self.services@[j].cmd@
                        &&& opt_chars(r@[j].cwd) == opt_chars(self.services@[j].cwd)
                        &&& r@[j].id_matches_config()
                        &&& r@[j].pid is None
                        &&& r@[j].status == ProcessStatus::Stopped
                        &&& r@[j].exit_code is None
                    },
            decreases self.services@.len() - i,
        {
            let s = &self.services[i];
            let cwd = match &s.cwd {
                Some(c) => Some(c.clone()),
                None => None,
            };
            r.push(ProcessInfo::new(s.name.clone(), s.cmd.clone(), cwd));
            i = i + 1;
        }
        r
    }
}

} // verus!

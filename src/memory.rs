//! The in-memory log store: one bounded queue of lines per process.
use vstd::prelude::*;
use std::collections::{HashMap, VecDeque};
use crate::log::{LogLine, ProcessInfo, ProcessStatus, Stream};
use crate::store::{
    LineView, LogStore, ProcessHistory, StoreError, appended, history_wf, new_line, retain, splits_at,
};

verus! {

broadcast use vstd::std_specs::hash::group_hash_axioms;

struct ProcessData {
    info: ProcessInfo,
    logs: VecDeque<LogLine>,
    next_id: u64,
}

pub struct MemoryStore {
    session_id: u64,
    max_lines: usize,
    processes: HashMap<u64, ProcessData>,
    order: Vec<u64>,
}

spec fn line_views(logs: Seq<LogLine>) -> Seq<LineView> {
    logs.map_values(|l: LogLine| l@)
}

spec fn history_of(d: ProcessData) -> ProcessHistory {
    ProcessHistory { info: d.info, lines: line_views(d.logs@), next_id: d.next_id }
}

/// The ids of a list of records, first appearance kept, repeats dropped.
pub open spec fn registered_ids(infos: Seq<ProcessInfo>) -> Seq<u64>
    decreases infos.len(),
{
    if infos.len() == 0 {
        Seq::empty()
    } else {
        let o = registered_ids(infos.drop_last());
        if o.contains(infos.last().id) {
            o
        } else {
            o.push(infos.last().id)
        }
    }
}

/// The record registered under each id: the last one in the list with it.
pub open spec fn registry(infos: Seq<ProcessInfo>) -> Map<u64, ProcessInfo>
    decreases infos.len(),
{
    if infos.len() == 0 {
        Map::empty()
    } else {
        registry(infos.drop_last()).insert(infos.last().id, infos.last())
    }
}

/// A registered process before any output.
pub open spec fn fresh_history(info: ProcessInfo) -> ProcessHistory {
    ProcessHistory { info, lines: Seq::empty(), next_id: 0 }
}

/// Copies of the lines from `start` on, in order.
fn lines_from(logs: &VecDeque<LogLine>, start: usize) -> (r: Vec<LogLine>)
    requires
        start <= logs@.len(),
    ensures
        r@.len() == logs@.len() - start,
        forall|i: int| 0 <= i < r@.len() ==> r@[i] == logs@[start + i],
{
    let mut r: Vec<LogLine> = Vec::new();
    let mut i: usize = start;
    while i < logs.len()
        invariant
            start <= i <= logs@.len(),
            r@.len() == i - start,
            forall|j: int| 0 <= j < r@.len() ==> r@[j] == logs@[start + j],
        decreases logs@.len() - i,
    {
        r.push(logs[i].clone());
        i = i + 1;
    }
    r
}

impl MemoryStore {
    /// Registers each record with no lines; a later record with an id
    /// already seen replaces the earlier one.
    pub fn new(processes: Vec<ProcessInfo>, session_id: u64, max_lines: usize) -> (r: Self)
        ensures
            r.wf(),
            r.session() == session_id,
            r.max_lines() == max_lines,
            r.order() == registered_ids(processes@),
            r.histories() == registry(processes@).map_values(|info: ProcessInfo| fresh_history(info)),
    {
        let mut map: HashMap<u64, ProcessData> = HashMap::new();
        let mut order: Vec<u64> = Vec::new();
        let mut i: usize = 0;
        while i < processes.len()
            invariant
                i <= processes@.len(),
                order@ == registered_ids(processes@.take(i as int)),
                map@.map_values(|d: ProcessData| history_of(d)) == registry(
                    processes@.take(i as int),
                ).map_values(|info: ProcessInfo| fresh_history(info)),
                forall|pid: u64| map@.contains_key(pid) ==> map@[pid].info.id == pid,
                forall|pid: u64| map@.contains_key(pid) ==> map@[pid].logs@.len() == 0,
                forall|pid: u64| map@.contains_key(pid) ==> map@[pid].next_id == 0,
                forall|pid: u64| map@.contains_key(pid) <==> order@.contains(pid),
                order@.no_duplicates(),
            decreases processes@.len() - i,
        {
            let ghost before = processes@.take(i as int);
            assert(processes@.take(i + 1).drop_last() =~= before);
            assert(processes@.take(i + 1).last() == processes@[i as int]);
            let info = processes[i].clone();
            let id = info.id;
            let ghost old_order = order@;
            if !map.contains_key(&id) {
                order.push(id);
                proof {
                    assert forall|j: int, k: int|
                        0 <= j < k < order@.len() implies order@[j] != order@[k] by {
                        if k == order@.len() - 1 {
                            assert(old_order.contains(order@[j]));
                        }
                    }
                }
            }
            let ghost old_map = map@;
            let entry = ProcessData { info, logs: VecDeque::new(), next_id: 0 };
            let ghost fresh = entry;
            map.insert(id, entry);
            proof {
                assert forall|pid: u64| map@.contains_key(pid) <==> order@.contains(pid) by {
                    if pid == id {
                        if !old_map.contains_key(id) {
                            assert(order@.last() == id);
                        }
                    } else {
                        if order@.contains(pid) && !old_order.contains(pid) {
                            let j = choose|j: int| 0 <= j < order@.len() && order@[j] == pid;
                            assert(j < old_order.len());
                            assert(old_order[j] == pid);
                        }
                        if old_order.contains(pid) {
                            let j = choose|j: int| 0 <= j < old_order.len() && old_order[j] == pid;
                            assert(order@[j] == pid);
                        }
                    }
                }
                let lhs = map@.map_values(|d: ProcessData| history_of(d));
                let rhs = registry(processes@.take(i + 1)).map_values(
                    |info: ProcessInfo| fresh_history(info),
                );
                assert(registry(processes@.take(i + 1)) == registry(before).insert(id, info));
                assert(old_map.map_values(|d: ProcessData| history_of(d)).dom() =~= old_map.dom());
                assert(registry(before).map_values(|info: ProcessInfo| fresh_history(info)).dom()
                    =~= registry(before).dom());
                assert(lhs.dom() =~= rhs.dom());
                assert forall|pid: u64| #[trigger] lhs.contains_key(pid) implies lhs[pid] == rhs[pid] by {
                    if pid != id {
                        assert(old_map.contains_key(pid));
                        assert(old_map.map_values(|d: ProcessData| history_of(d))[pid] == registry(
                            before,
                        ).map_values(|info: ProcessInfo| fresh_history(info))[pid]);
                    } else {
                        assert(map@[pid] == fresh);
                        assert(line_views(fresh.logs@) =~= Seq::<LineView>::empty());
                    }
                }
                assert(lhs =~= rhs);
            }
            i = i + 1;
        }
        assert(processes@.take(i as int) =~= processes@);
        let r = MemoryStore { session_id, max_lines, processes: map, order };
        assert(r.histories() =~= registry(processes@).map_values(
            |info: ProcessInfo| fresh_history(info),
        ));
        r
    }
}

impl LogStore for MemoryStore {
    closed spec fn wf(&self) -> bool {
        &&& forall|pid: u64|
            #[trigger] self.processes@.contains_key(pid) ==> history_wf(
                pid,
                self.session_id,
                self.max_lines as nat,
                history_of(self.processes@[pid]),
            )
        &&& forall|pid: u64| self.processes@.contains_key(pid) <==> self.order@.contains(pid)
        &&& self.order@.no_duplicates()
    }

    closed spec fn session(&self) -> u64 {
        self.session_id
    }

    closed spec fn max_lines(&self) -> nat {
        self.max_lines as nat
    }

    closed spec fn histories(&self) -> Map<u64, ProcessHistory> {
        self.processes@.map_values(|d: ProcessData| history_of(d))
    }

    closed spec fn order(&self) -> Seq<u64> {
        self.order@
    }

    proof fn lemma_wf(&self) {
        assert forall|pid: u64| #[trigger] self.histories().contains_key(pid) implies history_wf(
            pid,
            self.session(),
            self.max_lines(),
            self.histories()[pid],
        ) by {
            assert(self.processes@.contains_key(pid));
        }
    }

    fn append(&mut self, process_id: u64, stream: Stream, content: String, timestamp: u128) -> (r:
        Result<(), StoreError>)
    {
        let removed = self.processes.remove(&process_id);
        match removed {
            None => {
                assert(self.histories() =~= old(self).histories());
                Err(StoreError::ProcessNotFound(process_id))
            },
            Some(mut data) => {
                if data.next_id == u64::MAX {
                    self.processes.insert(process_id, data);
                    assert(self.processes@ =~= old(self).processes@);
                    return Err(StoreError::IdsExhausted(process_id));
                }
                let ghost h = history_of(data);
                let line = LogLine {
                    id: data.next_id,
                    process_id,
                    session_id: self.session_id,
                    timestamp,
                    stream,
                    content,
                };
                data.logs.push_back(line);
                if data.logs.len() > self.max_lines {
                    data.logs.pop_front();
                }
                data.next_id = data.next_id + 1;
                assert(line_views(data.logs@) =~= retain(
                    h.lines,
                    new_line(h.next_id, process_id, self.session_id, stream, content@, timestamp),
                    self.max_lines as nat,
                ));
                self.processes.insert(process_id, data);
                assert(self.histories() =~= appended(
                    old(self).histories(),
                    self.session_id,
                    self.max_lines as nat,
                    process_id,
                    stream,
                    content@,
                    timestamp,
                ));
                Ok(())
            },
        }
    }

    fn get_lines(&self, process_id: u64, limit: Option<usize>) -> (r: Result<Vec<LogLine>, StoreError>) {
        match self.processes.get(&process_id) {
            None => Err(StoreError::ProcessNotFound(process_id)),
            Some(data) => {
                let len = data.logs.len();
                let n = match limit {
                    Some(n) => if n < len {
                        n
                    } else {
                        len
                    },
                    None => len,
                };
                Ok(lines_from(&data.logs, len - n))
            },
        }
    }

    fn get_lines_since(&self, process_id: u64, since_id: u64) -> (r: Result<Vec<LogLine>, StoreError>) {
        match self.processes.get(&process_id) {
            None => Err(StoreError::ProcessNotFound(process_id)),
            Some(data) => {
                let ghost lines = line_views(data.logs@);
                assert(history_wf(process_id, self.session_id, self.max_lines as nat, history_of(*data)));
                let mut lo: usize = 0;
                let mut hi: usize = data.logs.len();
                while lo < hi
                    invariant
                        lines == line_views(data.logs@),
                        history_wf(process_id, self.session_id, self.max_lines as nat, history_of(*data)),
                        0 <= lo <= hi <= lines.len(),
                        forall|i: int| 0 <= i < lo ==> (#[trigger] lines[i]).id <= since_id,
                        forall|i: int| hi <= i < lines.len() ==> (#[trigger] lines[i]).id > since_id,
                    decreases hi - lo,
                {
                    let mid = lo + (hi - lo) / 2;
                    if data.logs[mid].id <= since_id {
                        assert forall|i: int| 0 <= i < mid + 1 implies (#[trigger] lines[i]).id <= since_id by {
                            assert(lines[i].id <= lines[mid as int].id);
                        }
                        lo = mid + 1;
                    } else {
                        assert forall|i: int| mid <= i < lines.len() implies (#[trigger] lines[i]).id > since_id by {
                            assert(lines[i].id >= lines[mid as int].id);
                        }
                        hi = mid;
                    }
                }
                assert(splits_at(lines, since_id, lo as int));
                Ok(lines_from(&data.logs, lo))
            },
        }
    }

    fn get_process(&self, process_id: u64) -> (r: Result<&ProcessInfo, StoreError>) {
        match self.processes.get(&process_id) {
            None => Err(StoreError::ProcessNotFound(process_id)),
            Some(data) => Ok(&data.info),
        }
    }

    fn get_processes(&self) -> (r: Vec<&ProcessInfo>) {
        let mut r: Vec<&ProcessInfo> = Vec::new();
        let mut i: usize = 0;
        while i < self.order.len()
            invariant
                self.wf(),
                i <= self.order@.len(),
                r@.len() == i,
                forall|j: int| 0 <= j < i ==> *r@[j] == self.histories()[self.order@[j]].info,
            decreases self.order@.len() - i,
        {
            let id = self.order[i];
            assert(self.order@.contains(id));
            match self.processes.get(&id) {
                Some(data) => {
                    r.push(&data.info);
                },
                None => {
                    assert(false);
                },
            }
            i = i + 1;
        }
        r
    }

    fn set_process_status(&mut self, process_id: u64, status: ProcessStatus, exit_code: Option<i32>) -> (r:
        Result<(), StoreError>)
    {
        let removed = self.processes.remove(&process_id);
        match removed {
            None => {
                assert(self.histories() =~= old(self).histories());
                Err(StoreError::ProcessNotFound(process_id))
            },
            Some(mut data) => {
                data.info.status = status;
                data.info.exit_code = exit_code;
                self.processes.insert(process_id, data);
                let ghost h = old(self).histories()[process_id];
                assert(self.histories() =~= old(self).histories().insert(
                    process_id,
                    ProcessHistory { info: ProcessInfo { status, exit_code, ..h.info }, ..h },
                ));
                Ok(())
            },
        }
    }
}

} // verus!

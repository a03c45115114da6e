//! The log store interface: bounded per-process history with monotonic
//! line ids, and its mathematical model.
use vstd::prelude::*;
use crate::log::{LogLine, ProcessInfo, ProcessStatus, Stream};

verus! {

#[derive(Clone, Copy, Debug, PartialEq, Eq, Structural)]
pub enum StoreError {
    /// No process with this id is registered.
    ProcessNotFound(u64),
    /// The process has used up every line id.
    IdsExhausted(u64),
}

/// The mathematical form of a log line: its text as characters.
pub struct LineView {
    pub id: u64,
    pub process_id: u64,
    pub session_id: u64,
    pub timestamp: u128,
    pub stream: Stream,
    pub content: Seq<char>,
}

impl View for LogLine {
    type V = LineView;

    open spec fn view(&self) -> LineView {
        LineView {
            id: self.id,
            process_id: self.process_id,
            session_id: self.session_id,
            timestamp: self.timestamp,
            stream: self.stream,
            content: self.content@,
        }
    }
}

/// The model of one registered process: its record, its retained lines
/// (oldest first) and the id the next appended line gets.
pub struct ProcessHistory {
    pub info: ProcessInfo,
    pub lines: Seq<LineView>,
    pub next_id: u64,
}

/// The line that an append creates.
pub open spec fn new_line(
    id: u64,
    process_id: u64,
    session_id: u64,
    stream: Stream,
    content: Seq<char>,
    timestamp: u128,
) -> LineView {
    LineView { id, process_id, session_id, timestamp, stream, content }
}

/// The retained lines after appending `line`: the oldest goes when the
/// count would exceed `max`.
pub open spec fn retain(lines: Seq<LineView>, line: LineView, max: nat) -> Seq<LineView> {
    let grown = lines.push(line);
    if grown.len() > max {
        grown.drop_first()
    } else {
        grown
    }
}

/// The histories after appending one line to `pid`, which is registered and
/// has ids left.
pub open spec fn appended(
    hs: Map<u64, ProcessHistory>,
    session: u64,
    max: nat,
    pid: u64,
    stream: Stream,
    content: Seq<char>,
    timestamp: u128,
) -> Map<u64, ProcessHistory> {
    let h = hs[pid];
    hs.insert(
        pid,
        ProcessHistory {
            info: h.info,
            lines: retain(h.lines, new_line(h.next_id, pid, session, stream, content, timestamp), max),
            next_id: (h.next_id + 1) as u64,
        },
    )
}

/// What `append` does to the histories, the errors included.
pub open spec fn append_result(
    hs: Map<u64, ProcessHistory>,
    pid: u64,
) -> Result<(), StoreError> {
    if !hs.contains_key(pid) {
        Err(StoreError::ProcessNotFound(pid))
    } else if hs[pid].next_id == u64::MAX {
        Err(StoreError::IdsExhausted(pid))
    } else {
        Ok(())
    }
}

/// How many lines are kept after `appended` lines, at most `max` at a time.
pub open spec fn kept(appended: nat, max: nat) -> nat {
    if appended < max {
        appended
    } else {
        max
    }
}

/// A well-formed history: ids run without gaps up to `next_id - 1`, every
/// line belongs to this process and session, and of the `next_id` lines
/// appended so far the most recent `max` are kept.
pub open spec fn history_wf(pid: u64, session: u64, max: nat, h: ProcessHistory) -> bool {
    &&& h.info.id == pid
    &&& h.lines.len() == kept(h.next_id as nat, max)
    &&& forall|i: int|
        0 <= i < h.lines.len() ==> {
            &&& (#[trigger] h.lines[i]).id == h.next_id - h.lines.len() + i
            &&& h.lines[i].process_id == pid
            &&& h.lines[i].session_id == session
        }
}

/// Index of the first line whose id exceeds `since`, when the lines before
/// it are exactly those with smaller or equal ids.
pub open spec fn splits_at(lines: Seq<LineView>, since: u64, k: int) -> bool {
    &&& 0 <= k <= lines.len()
    &&& forall|i: int| 0 <= i < k ==> (#[trigger] lines[i]).id <= since
    &&& forall|i: int| k <= i < lines.len() ==> (#[trigger] lines[i]).id > since
}

/// How many of the most recent lines a limit selects.
pub open spec fn tail_len(len: nat, limit: Option<usize>) -> nat {
    match limit {
        Some(n) => if n < len { n as nat } else { len },
        None => len,
    }
}

/// The contract of every log store backend.
pub trait LogStore: Sized {
    spec fn wf(&self) -> bool;

    spec fn session(&self) -> u64;

    spec fn max_lines(&self) -> nat;

    /// Every registered process, by id.
    spec fn histories(&self) -> Map<u64, ProcessHistory>;

    /// The registered ids, without repeats, in registration order.
    spec fn order(&self) -> Seq<u64>;

    /// What well-formedness promises of the model.
    proof fn lemma_wf(&self)
        requires
            self.wf(),
        ensures
            forall|pid: u64| #[trigger]
                self.histories().contains_key(pid) ==> history_wf(
                    pid,
                    self.session(),
                    self.max_lines(),
                    self.histories()[pid],
                ),
            forall|pid: u64| self.histories().contains_key(pid) <==> self.order().contains(pid),
            self.order().no_duplicates(),
    ;

    /// Appends a line stamped with `timestamp` (milliseconds since the
    /// epoch): it gets the next id of its process, and the oldest retained
    /// line goes when more than `max_lines` would be kept.
    fn append(&mut self, process_id: u64, stream: Stream, content: String, timestamp: u128) -> (r:
        Result<(), StoreError>)
        requires
            old(self).wf(),
        ensures
            final(self).wf(),
            final(self).session() == old(self).session(),
            final(self).max_lines() == old(self).max_lines(),
            final(self).order() == old(self).order(),
            r == append_result(old(self).histories(), process_id),
            r is Ok ==> final(self).histories() == appended(
                old(self).histories(),
                old(self).session(),
                old(self).max_lines(),
                process_id,
                stream,
                content@,
                timestamp,
            ),
            r is Err ==> final(self).histories() == old(self).histories(),
    ;

    /// The most recent `limit` lines (all retained lines when `None`),
    /// oldest first.
    fn get_lines(&self, process_id: u64, limit: Option<usize>) -> (r: Result<Vec<LogLine>, StoreError>)
        requires
            self.wf(),
        ensures
            !self.histories().contains_key(process_id) ==> r == Err::<Vec<LogLine>, StoreError>(
                StoreError::ProcessNotFound(process_id),
            ),
            self.histories().contains_key(process_id) ==> (r matches Ok(v) && {
                let lines = self.histories()[process_id].lines;
                let n = tail_len(lines.len(), limit);
                &&& v@.len() == n
                &&& forall|i: int| 0 <= i < n ==> v@[i]@ == lines[lines.len() - n + i]
            }),
    ;

    /// Every retained line with an id greater than `since_id`, oldest first.
    fn get_lines_since(&self, process_id: u64, since_id: u64) -> (r: Result<Vec<LogLine>, StoreError>)
        requires
            self.wf(),
        ensures
            !self.histories().contains_key(process_id) ==> r == Err::<Vec<LogLine>, StoreError>(
                StoreError::ProcessNotFound(process_id),
            ),
            self.histories().contains_key(process_id) ==> (r matches Ok(v) && {
                let lines = self.histories()[process_id].lines;
                &&& splits_at(lines, since_id, lines.len() - v@.len())
                &&& forall|i: int|
                    0 <= i < v@.len() ==> v@[i]@ == lines[lines.len() - v@.len() + i]
            }),
    ;

    fn get_process(&self, process_id: u64) -> (r: Result<&ProcessInfo, StoreError>)
        requires
            self.wf(),
        ensures
            !self.histories().contains_key(process_id) ==> r == Err::<&ProcessInfo, StoreError>(
                StoreError::ProcessNotFound(process_id),
            ),
            self.histories().contains_key(process_id) ==> (r matches Ok(info) && *info
                == self.histories()[process_id].info),
    ;

    /// Every registered process's record, in registration order.
    fn get_processes(&self) -> (r: Vec<&ProcessInfo>)
        requires
            self.wf(),
        ensures
            r@.len() == self.order().len(),
            forall|i: int| 0 <= i < r@.len() ==> *r@[i] == self.histories()[self.order()[i]].info,
    ;

    /// Records a process's status and exit code; its lines stay as they are.
    fn set_process_status(&mut self, process_id: u64, status: ProcessStatus, exit_code: Option<i32>) -> (r:
        Result<(), StoreError>)
        requires
            old(self).wf(),
        ensures
            final(self).wf(),
            final(self).session() == old(self).session(),
            final(self).max_lines() == old(self).max_lines(),
            final(self).order() == old(self).order(),
            !old(self).histories().contains_key(process_id) ==> r == Err::<(), StoreError>(
                StoreError::ProcessNotFound(process_id),
            ) && final(self).histories() == old(self).histories(),
            old(self).histories().contains_key(process_id) ==> r is Ok && {
                let h = old(self).histories()[process_id];
                final(self).histories() == old(self).histories().insert(
                    process_id,
                    ProcessHistory {
                        info: ProcessInfo { status, exit_code, ..h.info },
                        ..h
                    },
                )
            },
    ;
}

/// The retained ids of a process strictly increase, each one more than the
/// one before; of the `next_id` lines appended so far the newest
/// `min(next_id, max_lines)` are kept, so the oldest retained id is the
/// number of lines evicted so far and each eviction raises it by one.
pub proof fn lemma_ids_contiguous<S: LogStore>(store: &S, pid: u64)
    requires
        store.wf(),
        store.histories().contains_key(pid),
    ensures
        ({
            let h = store.histories()[pid];
            &&& forall|i: int, j: int|
                0 <= i < j < h.lines.len() ==> h.lines[i].id < h.lines[j].id
            &&& forall|i: int|
                0 <= i < h.lines.len() - 1 ==> #[trigger] h.lines[i + 1].id == h.lines[i].id + 1
            &&& h.lines.len() == kept(h.next_id as nat, store.max_lines())
            &&& forall|i: int|
                0 <= i < h.lines.len() ==> #[trigger] h.lines[i].id == h.next_id - kept(
                    h.next_id as nat,
                    store.max_lines(),
                ) + i
            &&& h.lines.len() > 0 ==> h.lines[0].id == h.next_id - kept(
                h.next_id as nat,
                store.max_lines(),
            )
        }),
{
    store.lemma_wf();
    let h = store.histories()[pid];
    assert(history_wf(pid, store.session(), store.max_lines(), h));
    assert forall|i: int, j: int| 0 <= i < j < h.lines.len() implies h.lines[i].id < h.lines[j].id by {
        assert(h.lines[i].id == h.next_id - h.lines.len() + i);
        assert(h.lines[j].id == h.next_id - h.lines.len() + j);
    }
    assert forall|i: int| 0 <= i < h.lines.len() - 1 implies #[trigger] h.lines[i + 1].id == h.lines[i].id
        + 1 by {
        assert(h.lines[i].id == h.next_id - h.lines.len() + i);
        assert(h.lines[i + 1].id == h.next_id - h.lines.len() + i + 1);
    }
    if h.lines.len() > 0 {
        assert(h.lines[0].id == h.next_id - h.lines.len() + 0);
    }
}

/// A since-query splits the retained lines at one place only: below the
/// oldest retained id it keeps them all, at or above the newest it keeps
/// none.
pub proof fn lemma_since_split<S: LogStore>(store: &S, pid: u64, since: u64, k1: int, k2: int)
    requires
        store.wf(),
        store.histories().contains_key(pid),
        splits_at(store.histories()[pid].lines, since, k1),
        splits_at(store.histories()[pid].lines, since, k2),
    ensures
        k1 == k2,
        ({
            let lines = store.histories()[pid].lines;
            &&& (lines.len() == 0 || since < lines[0].id) ==> k1 == 0
            &&& (lines.len() == 0 || since >= lines.last().id) ==> k1 == lines.len()
        }),
{
    let lines = store.histories()[pid].lines;
    if k1 < k2 {
        assert(lines[k1].id > since);
        assert(lines[k1].id <= since);
    }
    if k2 < k1 {
        assert(lines[k2].id > since);
        assert(lines[k2].id <= since);
    }
    if lines.len() > 0 && since < lines[0].id && k1 > 0 {
        assert(lines[0].id <= since);
    }
    if lines.len() > 0 && since >= lines.last().id && k1 < lines.len() {
        lemma_ids_contiguous(store, pid);
        assert(lines[k1].id > since);
        if k1 < lines.len() - 1 {
            assert(lines[k1].id < lines[lines.len() - 1].id);
        }
    }
}

/// Appending to a history of at most `max` lines keeps at most `max`; when
/// it was full, exactly the oldest line goes, otherwise none does.
pub proof fn lemma_retain_evicts_oldest(lines: Seq<LineView>, line: LineView, max: nat)
    requires
        lines.len() <= max,
    ensures
        retain(lines, line, max).len() <= max,
        lines.len() < max ==> retain(lines, line, max) == lines.push(line),
        0 < lines.len() == max ==> retain(lines, line, max) == lines.drop_first().push(line),
{
    if 0 < lines.len() && lines.len() == max {
        assert(lines.push(line).drop_first() =~= lines.drop_first().push(line));
    }
}

/// A successful append to a registered process keeps its lines but the
/// oldest when `max_lines` were kept already (with `max_lines > 0`), all of
/// them otherwise, adds the new line last, never keeps more than
/// `max_lines`, and leaves every other process as it was.
pub proof fn lemma_append_evicts_only_oldest<S: LogStore>(
    store: &S,
    pid: u64,
    stream: Stream,
    content: Seq<char>,
    timestamp: u128,
)
    requires
        store.wf(),
        append_result(store.histories(), pid) is Ok,
    ensures
        ({
            let hs = store.histories();
            let h = hs[pid];
            let after = appended(hs, store.session(), store.max_lines(), pid, stream, content, timestamp);
            let line = new_line(h.next_id, pid, store.session(), stream, content, timestamp);
            &&& h.lines.len() < store.max_lines() ==> after[pid].lines == h.lines.push(line)
            &&& 0 < h.lines.len() == store.max_lines() ==> after[pid].lines == h.lines.drop_first().push(
                line,
            )
            &&& after[pid].lines.len() == kept(h.lines.len() + 1, store.max_lines())
            &&& after[pid].lines.len() <= store.max_lines()
            &&& after[pid].next_id == h.next_id + 1
            &&& forall|q: u64| q != pid && hs.contains_key(q) ==> after.contains_key(q) && after[q] == hs[q]
        }),
{
    store.lemma_wf();
    let hs = store.histories();
    let h = hs[pid];
    assert(history_wf(pid, store.session(), store.max_lines(), h));
    let line = new_line(h.next_id, pid, store.session(), stream, content, timestamp);
    lemma_retain_evicts_oldest(h.lines, line, store.max_lines());
}

/// Appends to two different processes leave each other's history alone, and
/// their order does not matter.
pub proof fn lemma_appends_independent(
    hs: Map<u64, ProcessHistory>,
    session: u64,
    max: nat,
    p: u64,
    p_stream: Stream,
    p_content: Seq<char>,
    p_time: u128,
    q: u64,
    q_stream: Stream,
    q_content: Seq<char>,
    q_time: u128,
)
    requires
        p != q,
        hs.contains_key(p),
        hs.contains_key(q),
    ensures
        appended(hs, session, max, p, p_stream, p_content, p_time)[q] == hs[q],
        appended(appended(hs, session, max, p, p_stream, p_content, p_time), session, max, q, q_stream, q_content, q_time)
            == appended(appended(hs, session, max, q, q_stream, q_content, q_time), session, max, p, p_stream, p_content, p_time),
{
    let a = appended(appended(hs, session, max, p, p_stream, p_content, p_time), session, max, q, q_stream, q_content, q_time);
    let b = appended(appended(hs, session, max, q, q_stream, q_content, q_time), session, max, p, p_stream, p_content, p_time);
    assert(a =~= b);
}

} // verus!

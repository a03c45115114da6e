//! The block-backed log store: each process's lines live in a queue of
//! blocks. New lines go into the newest block until it refuses one, then a
//! new block opens; eviction skips the oldest line of the oldest block and
//! drops that block once all its lines are gone.
use vstd::prelude::*;
use std::collections::{HashMap, VecDeque};
use crate::block::{Block, BlockEntry};
use crate::log::{LogLine, ProcessInfo, ProcessStatus, Stream};
use crate::memory::{fresh_history, registered_ids, registry};
use crate::store::{
    LineView, LogStore, ProcessHistory, StoreError, appended, history_wf, new_line, retain, splits_at,
};

verus! {

broadcast use vstd::std_specs::hash::group_hash_axioms;

struct BlockLog {
    info: ProcessInfo,
    blocks: VecDeque<Block>,
    /// Lines of the oldest block that were already evicted.
    skip: usize,
    /// Lines retained.
    count: usize,
    next_id: u64,
}

pub struct BlockStore {
    session_id: u64,
    max_lines: usize,
    processes: HashMap<u64, BlockLog>,
    order: Vec<u64>,
}

/// The line a block entry stands for.
pub open spec fn entry_view(e: BlockEntry, process_id: u64, session_id: u64) -> LineView {
    LineView {
        id: e.id,
        process_id,
        session_id,
        timestamp: e.timestamp,
        stream: e.stream,
        content: e.content,
    }
}

/// Every entry of a sequence of blocks, oldest block first.
spec fn flat(bs: Seq<Block>) -> Seq<BlockEntry>
    decreases bs.len(),
{
    if bs.len() == 0 {
        Seq::empty()
    } else {
        bs[0].entries() + flat(bs.drop_first())
    }
}

proof fn lemma_flat_push(bs: Seq<Block>, b: Block)
    ensures
        flat(bs.push(b)) == flat(bs) + b.entries(),
    decreases bs.len(),
{
    if bs.len() == 0 {
        assert(bs.push(b).drop_first() =~= Seq::<Block>::empty());
        assert(flat(bs.push(b).drop_first()) =~= Seq::<BlockEntry>::empty());
        assert(bs.push(b)[0] == b);
        assert(flat(bs.push(b)) =~= b.entries());
        assert(flat(bs) + b.entries() =~= b.entries());
    } else {
        assert(bs.push(b).drop_first() =~= bs.drop_first().push(b));
        lemma_flat_push(bs.drop_first(), b);
        assert(flat(bs.push(b)) =~= flat(bs) + b.entries());
    }
}

proof fn lemma_flat_take(bs: Seq<Block>, i: int)
    requires
        0 <= i < bs.len(),
    ensures
        flat(bs.take(i + 1)) == flat(bs.take(i)) + bs[i].entries(),
{
    assert(bs.take(i + 1) =~= bs.take(i).push(bs[i]));
    lemma_flat_push(bs.take(i), bs[i]);
}

proof fn lemma_flat_split(bs: Seq<Block>, i: int)
    requires
        0 <= i <= bs.len(),
    ensures
        flat(bs) == flat(bs.take(i)) + flat(bs.skip(i)),
    decreases i,
{
    if i == 0 {
        assert(bs.take(0) =~= Seq::<Block>::empty());
        assert(bs.skip(0) =~= bs);
        assert(flat(bs) =~= flat(bs.take(0)) + flat(bs.skip(0)));
    } else {
        lemma_flat_split(bs, i - 1);
        lemma_flat_take(bs, i - 1);
        assert(bs.skip(i - 1).drop_first() =~= bs.skip(i));
        assert(bs.skip(i - 1)[0] == bs[i - 1]);
        assert(flat(bs) =~= flat(bs.take(i)) + flat(bs.skip(i)));
    }
}

/// Entry `e` of block `b` sits in the flat sequence after all entries of
/// the blocks before it.
proof fn lemma_flat_index(bs: Seq<Block>, b: int, e: int)
    requires
        0 <= b < bs.len(),
        0 <= e < bs[b].entries().len(),
    ensures
        flat(bs.take(b)).len() + e < flat(bs).len(),
        flat(bs)[flat(bs.take(b)).len() + e] == bs[b].entries()[e],
{
    lemma_flat_split(bs, b);
    assert(bs.skip(b)[0] == bs[b]);
    assert(flat(bs.skip(b)) == bs[b].entries() + flat(bs.skip(b).drop_first()));
}

spec fn retained(l: BlockLog, session_id: u64) -> Seq<LineView> {
    flat(l.blocks@).skip(l.skip as int).map_values(|e: BlockEntry| entry_view(e, l.info.id, session_id))
}

spec fn history_of(l: BlockLog, session_id: u64) -> ProcessHistory {
    ProcessHistory { info: l.info, lines: retained(l, session_id), next_id: l.next_id }
}

/// The blocks are well formed, non-empty and belong to this process and
/// session; the skipped lines lie inside the oldest block; `count` is the
/// number of retained lines.
spec fn log_wf(l: BlockLog, session_id: u64) -> bool {
    &&& forall|i: int|
        0 <= i < l.blocks@.len() ==> {
            &&& (#[trigger] l.blocks@[i]).wf()
            &&& l.blocks@[i].entries().len() > 0
            &&& l.blocks@[i].process_spec() == l.info.id
            &&& l.blocks@[i].session_spec() == session_id
        }
    &&& l.blocks@.len() == 0 ==> l.skip == 0
    &&& l.blocks@.len() > 0 ==> l.skip < l.blocks@[0].entries().len()
    &&& l.count == flat(l.blocks@).len() - l.skip
}

proof fn lemma_skip_len(l: BlockLog, session_id: u64)
    requires
        log_wf(l, session_id),
    ensures
        l.skip <= flat(l.blocks@).len(),
{
    if l.blocks@.len() > 0 {
        assert(flat(l.blocks@) == l.blocks@[0].entries() + flat(l.blocks@.drop_first()));
    }
}

impl BlockLog {
    /// Appends a line to the newest block, or to a new block when it does
    /// not fit there.
    fn push_line(&mut self, session_id: u64, id: u64, timestamp: u128, stream: Stream, content: &str)
        requires
            log_wf(*old(self), session_id),
            old(self).count < usize::MAX,
        ensures
            log_wf(*final(self), session_id),
            final(self).info == old(self).info,
            final(self).next_id == old(self).next_id,
            final(self).skip == old(self).skip,
            final(self).count == old(self).count + 1,
            flat(final(self).blocks@) == flat(old(self).blocks@).push(
                BlockEntry { id, timestamp, stream, content: content@ },
            ),
    {
        let ghost e = BlockEntry { id, timestamp, stream, content: content@ };
        let ghost old_blocks = self.blocks@;
        let pid = self.info.id;
        let placed = match self.blocks.pop_back() {
            Some(mut last) => {
                let ghost front = self.blocks@;
                assert(old_blocks =~= front.push(last));
                assert(last == old_blocks[old_blocks.len() - 1]);
                let ghost old_last = last;
                let ok = last.push(id, timestamp, stream, content);
                proof {
                    lemma_flat_push(front, old_last);
                }
                self.blocks.push_back(last);
                proof {
                    assert(self.blocks@ == front.push(last));
                    lemma_flat_push(front, last);
                    if ok {
                        assert(flat(self.blocks@) =~= flat(old_blocks).push(e));
                    } else {
                        assert(self.blocks@ =~= old_blocks);
                    }
                    assert forall|i: int| 0 <= i < self.blocks@.len() implies {
                        &&& (#[trigger] self.blocks@[i]).wf()
                        &&& self.blocks@[i].entries().len() > 0
                        &&& self.blocks@[i].process_spec() == self.info.id
                        &&& self.blocks@[i].session_spec() == session_id
                    } by {
                        if i < front.len() {
                            assert(self.blocks@[i] == old_blocks[i]);
                        }
                    }
                    if old_blocks.len() == 1 {
                        assert(self.blocks@[0] == last);
                        assert(self.blocks@[0].entries().len() >= old_blocks[0].entries().len());
                    } else {
                        assert(front[0] == old_blocks[0]);
                        assert(self.blocks@[0] == front[0]);
                    }
                }
                ok
            },
            None => false,
        };
        if !placed {
            let ghost before = self.blocks@;
            let mut fresh = Block::new(pid, session_id);
            let ok = fresh.push(id, timestamp, stream, content);
            assert(ok);
            assert(fresh.entries() =~= seq![e]);
            self.blocks.push_back(fresh);
            proof {
                assert(before == old_blocks);
                lemma_flat_push(before, fresh);
                assert(flat(self.blocks@) =~= flat(old_blocks).push(e));
                assert forall|i: int| 0 <= i < self.blocks@.len() implies {
                    &&& (#[trigger] self.blocks@[i]).wf()
                    &&& self.blocks@[i].entries().len() > 0
                    &&& self.blocks@[i].process_spec() == self.info.id
                    &&& self.blocks@[i].session_spec() == session_id
                } by {
                    if i < before.len() {
                        assert(self.blocks@[i] == before[i]);
                    }
                }
                if before.len() > 0 {
                    assert(self.blocks@[0] == before[0]);
                }
            }
        }
        proof {
            lemma_skip_len(*old(self), session_id);
        }
        self.count = self.count + 1;
    }

    /// Drops the oldest retained line.
    fn evict_oldest(&mut self, session_id: u64)
        requires
            log_wf(*old(self), session_id),
            old(self).count > 0,
        ensures
            log_wf(*final(self), session_id),
            final(self).info == old(self).info,
            final(self).next_id == old(self).next_id,
            final(self).count == old(self).count - 1,
            flat(final(self).blocks@).skip(final(self).skip as int) == flat(old(self).blocks@).skip(
                old(self).skip as int,
            ).drop_first(),
    {
        let ghost old_blocks = self.blocks@;
        let ghost old_skip = self.skip;
        if self.blocks.len() == 0 {
            assert(flat(old_blocks) =~= Seq::<BlockEntry>::empty());
            assert(false);
        }
        assert(flat(old_blocks) == old_blocks[0].entries() + flat(old_blocks.drop_first()));
        let front_len = self.blocks[0].len();
        self.skip = self.skip + 1;
        self.count = self.count - 1;
        if self.skip == front_len {
            let _ = self.blocks.pop_front();
            self.skip = 0;
            proof {
                assert(self.blocks@ =~= old_blocks.drop_first());
                assert(flat(self.blocks@).skip(0) =~= flat(old_blocks).skip(old_skip as int)
                    .drop_first());
                assert forall|i: int| 0 <= i < self.blocks@.len() implies {
                    &&& (#[trigger] self.blocks@[i]).wf()
                    &&& self.blocks@[i].entries().len() > 0
                    &&& self.blocks@[i].process_spec() == self.info.id
                    &&& self.blocks@[i].session_spec() == session_id
                } by {
                    assert(self.blocks@[i] == old_blocks[i + 1]);
                }
            }
        } else {
            assert(flat(self.blocks@).skip(self.skip as int) =~= flat(old_blocks).skip(
                old_skip as int,
            ).drop_first());
        }
    }
}

/// Copies of the retained lines from position `from` on, in order.
fn collect_lines(l: &BlockLog, session_id: u64, from: usize) -> (r: Vec<LogLine>)
    requires
        log_wf(*l, session_id),
        from <= l.count,
    ensures
        r@.len() == l.count - from,
        forall|i: int| 0 <= i < r@.len() ==> r@[i]@ == retained(*l, session_id)[from + i],
{
    let ghost all = flat(l.blocks@);
    proof {
        lemma_skip_len(*l, session_id);
    }
    let mut r: Vec<LogLine> = Vec::new();
    let mut seen: usize = 0;
    let mut bi: usize = 0;
    let nb = l.blocks.len();
    assert(l.blocks@.take(0) =~= Seq::<Block>::empty());
    assert(flat(l.blocks@.take(0)) =~= Seq::<BlockEntry>::empty());
    while bi < nb
        invariant
            log_wf(*l, session_id),
            all == flat(l.blocks@),
            l.skip <= all.len(),
            from <= l.count,
            bi <= nb == l.blocks@.len(),
            bi == 0 ==> seen == 0,
            bi > 0 ==> seen + l.skip == flat(l.blocks@.take(bi as int)).len(),
            seen <= l.count,
            r@.len() == (if seen >= from { seen - from } else { 0 }),
            forall|i: int| 0 <= i < r@.len() ==> r@[i]@ == retained(*l, session_id)[from + i],
        decreases nb - bi,
    {
        let b = &l.blocks[bi];
        let n = b.len();
        let mut ei: usize = if bi == 0 {
            l.skip
        } else {
            0
        };
        while ei < n
            invariant
                log_wf(*l, session_id),
                all == flat(l.blocks@),
                l.skip <= all.len(),
                from <= l.count,
                bi < nb == l.blocks@.len(),
                *b == l.blocks@[bi as int],
                n == b.entries().len(),
                ei <= n,
                bi == 0 ==> ei >= l.skip,
                seen + l.skip == flat(l.blocks@.take(bi as int)).len() + ei,
                r@.len() == (if seen >= from { seen - from } else { 0 }),
                forall|i: int| 0 <= i < r@.len() ==> r@[i]@ == retained(*l, session_id)[from + i],
            decreases n - ei,
        {
            proof {
                lemma_flat_index(l.blocks@, bi as int, ei as int);
                if bi == 0 {
                    assert(l.blocks@.take(0) =~= Seq::<Block>::empty());
                    assert(flat(l.blocks@.take(0)) =~= Seq::<BlockEntry>::empty());
                }
            }
            if seen >= from {
                let line = b.get_line(ei);
                r.push(line);
            }
            seen = seen + 1;
            ei = ei + 1;
        }
        proof {
            lemma_flat_take(l.blocks@, bi as int);
            lemma_flat_split(l.blocks@, bi + 1);
            if bi == 0 {
                assert(l.blocks@.take(0) =~= Seq::<Block>::empty());
                assert(flat(l.blocks@.take(0)) =~= Seq::<BlockEntry>::empty());
            }
        }
        bi = bi + 1;
    }
    proof {
        assert(l.blocks@.take(nb as int) =~= l.blocks@);
        if nb == 0 {
            assert(all =~= Seq::<BlockEntry>::empty());
        }
    }
    r
}

impl BlockStore {
    /// Registers each record with no lines; a later record with an id
    /// already seen replaces the earlier one.
    pub fn new(processes: Vec<ProcessInfo>, session_id: u64, max_lines: usize) -> (r: Self)
        ensures
            r.wf(),
            r.session() == session_id,
            r.max_lines() == max_lines,
            r.order() == registered_ids(processes@),
            r.histories() == registry(processes@).map_values(|info: ProcessInfo| fresh_history(info)),
    {
        let mut map: HashMap<u64, BlockLog> = HashMap::new();
        let mut order: Vec<u64> = Vec::new();
        let mut i: usize = 0;
        assert(flat(Seq::<Block>::empty()) =~= Seq::<BlockEntry>::empty());
        while i < processes.len()
            invariant
                i <= processes@.len(),
                order@ == registered_ids(processes@.take(i as int)),
                map@.map_values(|d: BlockLog| history_of(d, session_id)) == registry(
                    processes@.take(i as int),
                ).map_values(|info: ProcessInfo| fresh_history(info)),
                forall|pid: u64| map@.contains_key(pid) ==> map@[pid].info.id == pid,
                forall|pid: u64| map@.contains_key(pid) ==> map@[pid].blocks@.len() == 0,
                forall|pid: u64| map@.contains_key(pid) ==> map@[pid].skip == 0,
                forall|pid: u64| map@.contains_key(pid) ==> map@[pid].count == 0,
                forall|pid: u64| map@.contains_key(pid) ==> map@[pid].next_id == 0,
                forall|pid: u64| map@.contains_key(pid) <==> order@.contains(pid),
                order@.no_duplicates(),
                flat(Seq::<Block>::empty()) == Seq::<BlockEntry>::empty(),
            decreases processes@.len() - i,
        {
            let ghost before = processes@.take(i as int);
            assert(processes@.take(i + 1).drop_last() =~= before);
            assert(processes@.take(i + 1).last() == processes@[i as int]);
            let info = processes[i].clone();
            let id = info.id;
            let ghost old_order = order@;
            if !map.contains_key(&id) {
                order.push(id);
                proof {
                    assert forall|j: int, k: int|
                        0 <= j < k < order@.len() implies order@[j] != order@[k] by {
                        if k == order@.len() - 1 {
                            assert(old_order.contains(order@[j]));
                        }
                    }
                }
            }
            let ghost old_map = map@;
            let entry = BlockLog { info, blocks: VecDeque::new(), skip: 0, count: 0, next_id: 0 };
            let ghost fresh = entry;
            map.insert(id, entry);
            proof {
                assert forall|pid: u64| map@.contains_key(pid) <==> order@.contains(pid) by {
                    if pid == id {
                        if !old_map.contains_key(id) {
                            assert(order@.last() == id);
                        }
                    } else {
                        if order@.contains(pid) && !old_order.contains(pid) {
                            let j = choose|j: int| 0 <= j < order@.len() && order@[j] == pid;
                            assert(j < old_order.len());
                            assert(old_order[j] == pid);
                        }
                        if old_order.contains(pid) {
                            let j = choose|j: int| 0 <= j < old_order.len() && old_order[j] == pid;
                            assert(order@[j] == pid);
                        }
                    }
                }
                let lhs = map@.map_values(|d: BlockLog| history_of(d, session_id));
                let rhs = registry(processes@.take(i + 1)).map_values(
                    |info: ProcessInfo| fresh_history(info),
                );
                assert(registry(processes@.take(i + 1)) == registry(before).insert(id, info));
                assert(old_map.map_values(|d: BlockLog| history_of(d, session_id)).dom()
                    =~= old_map.dom());
                assert(registry(before).map_values(|info: ProcessInfo| fresh_history(info)).dom()
                    =~= registry(before).dom());
                assert(lhs.dom() =~= rhs.dom());
                assert forall|pid: u64| #[trigger] lhs.contains_key(pid) implies lhs[pid] == rhs[pid] by {
                    if pid != id {
                        assert(old_map.contains_key(pid));
                        assert(old_map.map_values(|d: BlockLog| history_of(d, session_id))[pid]
                            == registry(before).map_values(
                            |info: ProcessInfo| fresh_history(info),
                        )[pid]);
                    } else {
                        assert(map@[pid] == fresh);
                        assert(fresh.blocks@ =~= Seq::<Block>::empty());
                        assert(retained(fresh, session_id) =~= Seq::<LineView>::empty());
                    }
                }
                assert(lhs =~= rhs);
            }
            i = i + 1;
        }
        assert(processes@.take(i as int) =~= processes@);
        let r = BlockStore { session_id, max_lines, processes: map, order };
        assert(r.histories() =~= registry(processes@).map_values(
            |info: ProcessInfo| fresh_history(info),
        ));
        proof {
            assert forall|pid: u64| #[trigger] r.processes@.contains_key(pid) implies log_wf(
                r.processes@[pid],
                session_id,
            ) by {
                assert(r.processes@[pid].blocks@ =~= Seq::<Block>::empty());
            }
        }
        r
    }
}

impl LogStore for BlockStore {
    closed spec fn wf(&self) -> bool {
        &&& forall|pid: u64| #[trigger]
            self.processes@.contains_key(pid) ==> {
                &&& log_wf(self.processes@[pid], self.session_id)
                &&& history_wf(
                    pid,
                    self.session_id,
                    self.max_lines as nat,
                    history_of(self.processes@[pid], self.session_id),
                )
            }
        &&& forall|pid: u64| self.processes@.contains_key(pid) <==> self.order@.contains(pid)
        &&& self.order@.no_duplicates()
    }

    closed spec fn session(&self) -> u64 {
        self.session_id
    }

    closed spec fn max_lines(&self) -> nat {
        self.max_lines as nat
    }

    closed spec fn histories(&self) -> Map<u64, ProcessHistory> {
        self.processes@.map_values(|d: BlockLog| history_of(d, self.session_id))
    }

    closed spec fn order(&self) -> Seq<u64> {
        self.order@
    }

    proof fn lemma_wf(&self) {
        assert forall|pid: u64| #[trigger] self.histories().contains_key(pid) implies history_wf(
            pid,
            self.session(),
            self.max_lines(),
            self.histories()[pid],
        ) by {
            assert(self.processes@.contains_key(pid));
        }
    }

    fn append(&mut self, process_id: u64, stream: Stream, content: String, timestamp: u128) -> (r:
        Result<(), StoreError>)
    {
        let removed = self.processes.remove(&process_id);
        match removed {
            None => {
                assert(self.histories() =~= old(self).histories());
                Err(StoreError::ProcessNotFound(process_id))
            },
            Some(mut log) => {
                if log.next_id == u64::MAX {
                    self.processes.insert(process_id, log);
                    assert(self.processes@ =~= old(self).processes@);
                    return Err(StoreError::IdsExhausted(process_id));
                }
                let ghost h = history_of(log, self.session_id);
                let ghost old_log = log;
                let ghost line = new_line(log.next_id, process_id, self.session_id, stream, content@, timestamp);
                assert(old(self).processes@.contains_key(process_id));
                assert(log_wf(log, self.session_id));
                assert(history_wf(process_id, self.session_id, self.max_lines as nat, h));
                proof {
                    lemma_skip_len(log, self.session_id);
                }
                assert(h.lines.len() == log.count);
                let id = log.next_id;
                let ghost e = BlockEntry { id, timestamp, stream, content: content@ };
                if log.count >= self.max_lines && log.count > 0 {
                    log.evict_oldest(self.session_id);
                    let ghost mid = log;
                    log.push_line(self.session_id, id, timestamp, stream, content.as_str());
                    assert(flat(log.blocks@).skip(log.skip as int) =~= flat(mid.blocks@).skip(
                        mid.skip as int,
                    ).push(e));
                    assert(retained(log, self.session_id) =~= h.lines.drop_first().push(line));
                    assert(h.lines.push(line).drop_first() =~= h.lines.drop_first().push(line));
                } else {
                    log.push_line(self.session_id, id, timestamp, stream, content.as_str());
                    let ghost grown = flat(log.blocks@).skip(log.skip as int).map_values(
                        |e: BlockEntry| entry_view(e, log.info.id, self.session_id),
                    );
                    assert(flat(log.blocks@).skip(log.skip as int) =~= flat(old_log.blocks@).skip(
                        old_log.skip as int,
                    ).push(e));
                    assert(grown =~= h.lines.push(line));
                    if log.count > self.max_lines {
                        log.evict_oldest(self.session_id);
                        assert(retained(log, self.session_id) =~= grown.drop_first());
                    } else {
                        assert(retained(log, self.session_id) =~= grown);
                    }
                }
                log.next_id = log.next_id + 1;
                assert(retained(log, self.session_id) =~= retain(h.lines, line, self.max_lines as nat));
                self.processes.insert(process_id, log);
                assert(self.histories() =~= appended(
                    old(self).histories(),
                    self.session_id,
                    self.max_lines as nat,
                    process_id,
                    stream,
                    content@,
                    timestamp,
                ));
                assert forall|pid: u64| #[trigger] self.processes@.contains_key(pid) implies {
                    &&& log_wf(self.processes@[pid], self.session_id)
                    &&& history_wf(
                        pid,
                        self.session_id,
                        self.max_lines as nat,
                        history_of(self.processes@[pid], self.session_id),
                    )
                } by {
                    if pid != process_id {
                        assert(old(self).processes@.contains_key(pid));
                    } else {
                        assert(self.histories()[pid] == history_of(self.processes@[pid], self.session_id));
                    }
                }
                Ok(())
            },
        }
    }

    fn get_lines(&self, process_id: u64, limit: Option<usize>) -> (r: Result<Vec<LogLine>, StoreError>) {
        match self.processes.get(&process_id) {
            None => Err(StoreError::ProcessNotFound(process_id)),
            Some(log) => {
                assert(self.processes@.contains_key(process_id));
                proof {
                    lemma_skip_len(*log, self.session_id);
                }
                let len = log.count;
                let n = match limit {
                    Some(n) => if n < len {
                        n
                    } else {
                        len
                    },
                    None => len,
                };
                Ok(collect_lines(log, self.session_id, len - n))
            },
        }
    }

    fn get_lines_since(&self, process_id: u64, since_id: u64) -> (r: Result<Vec<LogLine>, StoreError>) {
        match self.processes.get(&process_id) {
            None => Err(StoreError::ProcessNotFound(process_id)),
            Some(log) => {
                assert(self.processes@.contains_key(process_id));
                let ghost lines = retained(*log, self.session_id);
                proof {
                    lemma_skip_len(*log, self.session_id);
                }
                assert(history_wf(process_id, self.session_id, self.max_lines as nat, history_of(*log, self.session_id)));
                let count = log.count;
                let first = log.next_id - count as u64;
                let k: usize = if since_id < first {
                    0
                } else if since_id - first >= count as u64 {
                    count
                } else {
                    (since_id - first) as usize + 1
                };
                assert forall|i: int| 0 <= i < k implies (#[trigger] lines[i]).id <= since_id by {
                    assert(lines[i].id == log.next_id - lines.len() + i);
                }
                assert forall|i: int| k <= i < lines.len() implies (#[trigger] lines[i]).id > since_id by {
                    assert(lines[i].id == log.next_id - lines.len() + i);
                }
                assert(splits_at(lines, since_id, k as int));
                Ok(collect_lines(log, self.session_id, k))
            },
        }
    }

    fn get_process(&self, process_id: u64) -> (r: Result<&ProcessInfo, StoreError>) {
        match self.processes.get(&process_id) {
            None => Err(StoreError::ProcessNotFound(process_id)),
            Some(log) => Ok(&log.info),
        }
    }

    fn get_processes(&self) -> (r: Vec<&ProcessInfo>) {
        let mut r: Vec<&ProcessInfo> = Vec::new();
        let mut i: usize = 0;
        while i < self.order.len()
            invariant
                self.wf(),
                i <= self.order@.len(),
                r@.len() == i,
                forall|j: int| 0 <= j < i ==> *r@[j] == self.histories()[self.order@[j]].info,
            decreases self.order@.len() - i,
        {
            let id = self.order[i];
            assert(self.order@.contains(id));
            match self.processes.get(&id) {
                Some(log) => {
                    r.push(&log.info);
                },
                None => {
                    assert(false);
                },
            }
            i = i + 1;
        }
        r
    }

    fn set_process_status(&mut self, process_id: u64, status: ProcessStatus, exit_code: Option<i32>) -> (r:
        Result<(), StoreError>)
    {
        let removed = self.processes.remove(&process_id);
        match removed {
            None => {
                assert(self.histories() =~= old(self).histories());
                Err(StoreError::ProcessNotFound(process_id))
            },
            Some(mut log) => {
                let ghost before = log;
                log.info.status = status;
                log.info.exit_code = exit_code;
                assert(retained(log, self.session_id) == retained(before, self.session_id));
                assert forall|i: int| 0 <= i < log.blocks@.len() implies {
                    &&& (#[trigger] log.blocks@[i]).wf()
                    &&& log.blocks@[i].entries().len() > 0
                    &&& log.blocks@[i].process_spec() == log.info.id
                    &&& log.blocks@[i].session_spec() == self.session_id
                } by {
                    assert(log.blocks@[i] == before.blocks@[i]);
                }
                self.processes.insert(process_id, log);
                let ghost h = old(self).histories()[process_id];
                assert(self.histories() =~= old(self).histories().insert(
                    process_id,
                    ProcessHistory { info: ProcessInfo { status, exit_code, ..h.info }, ..h },
                ));
                assert forall|pid: u64| #[trigger] self.processes@.contains_key(pid) implies {
                    &&& log_wf(self.processes@[pid], self.session_id)
                    &&& history_wf(
                        pid,
                        self.session_id,
                        self.max_lines as nat,
                        history_of(self.processes@[pid], self.session_id),
                    )
                } by {
                    if pid != process_id {
                        assert(old(self).processes@.contains_key(pid));
                    } else {
                        assert(old(self).processes@.contains_key(pid));
                        assert(history_of(self.processes@[pid], self.session_id).lines == history_of(
                            old(self).processes@[pid],
                            self.session_id,
                        ).lines);
                    }
                }
                Ok(())
            },
        }
    }
}

} // verus!

//! A block: a bounded batch of log-line metadata over one shared text
//! buffer, so that appending a line grows one buffer instead of allocating a
//! string per line.
use vstd::prelude::*;
use vstd::string::*;
use crate::log::{LogLine, Stream};

verus! {

/// Most lines a block holds.
pub const BLOCK_LINE_CAP: usize = 128;

/// Most bytes of text a block holds, unless its only line is longer.
pub const BLOCK_TEXT_CAP: usize = 32 * 1024;

/// One line's metadata: its content is the block's text from character
/// `offset` up to character `end`.
#[derive(Clone, Copy, Debug)]
struct LineMeta {
    id: u64,
    timestamp: u128,
    stream: Stream,
    offset: usize,
    end: usize,
}

/// The model of one line held by a block.
pub struct BlockEntry {
    pub id: u64,
    pub timestamp: u128,
    pub stream: Stream,
    pub content: Seq<char>,
}

#[derive(Clone, Debug)]
pub struct Block {
    process_id: u64,
    session_id: u64,
    data: String,
    lines: Vec<LineMeta>,
    text_bytes: usize,
}

/// Whether a line of `content_bytes` bytes fits next to `count` lines that
/// hold `used` bytes: both caps must hold, except that an empty block takes
/// a line of any length.
pub open spec fn line_fits(count: nat, used: nat, content_bytes: nat) -> bool {
    count < BLOCK_LINE_CAP && (count == 0 || used + content_bytes <= BLOCK_TEXT_CAP)
}

/// Relies on `String::with_capacity` of std: an empty string with room for
/// `capacity` bytes; it panics only above `isize::MAX` bytes.
#[verifier::external_body]
fn text_buffer(capacity: usize) -> (r: String)
    requires
        capacity <= isize::MAX,
    ensures
        r@.len() == 0,
{
    String::with_capacity(capacity)
}

impl Block {
    /// The lines as held, oldest first.
    pub closed spec fn entries(&self) -> Seq<BlockEntry> {
        Seq::new(
            self.lines@.len(),
            |i: int|
                BlockEntry {
                    id: self.lines@[i].id,
                    timestamp: self.lines@[i].timestamp,
                    stream: self.lines@[i].stream,
                    content: self.data@.subrange(
                        self.lines@[i].offset as int,
                        self.lines@[i].end as int,
                    ),
                },
        )
    }

    pub closed spec fn process_spec(&self) -> u64 {
        self.process_id
    }

    pub closed spec fn session_spec(&self) -> u64 {
        self.session_id
    }

    /// Bytes of text held: the sum of the pushed lines' `str::len`.
    pub closed spec fn used_bytes(&self) -> nat {
        self.text_bytes as nat
    }

    /// The entries tile the text buffer in order, without gaps or overlap,
    /// and the line cap holds.
    pub closed spec fn wf(&self) -> bool {
        &&& self.lines@.len() <= BLOCK_LINE_CAP
        &&& forall|i: int|
            0 <= i < self.lines@.len() ==> (#[trigger] self.lines@[i]).offset <= self.lines@[i].end
                <= self.data@.len()
        &&& self.lines@.len() == 0 ==> self.data@.len() == 0 && self.text_bytes == 0
        &&& self.lines@.len() > 0 ==> {
            &&& self.lines@[0].offset == 0
            &&& self.lines@.last().end == self.data@.len()
        }
        &&& forall|i: int|
            0 <= i < self.lines@.len() - 1 ==> #[trigger] self.lines@[i + 1].offset
                == self.lines@[i].end
    }

    /// An empty block for one process in one session.
    pub fn new(process_id: u64, session_id: u64) -> (r: Block)
        ensures
            r.wf(),
            r.entries().len() == 0,
            r.used_bytes() == 0,
            r.process_spec() == process_id,
            r.session_spec() == session_id,
    {
        Block {
            process_id,
            session_id,
            data: text_buffer(BLOCK_TEXT_CAP),
            lines: Vec::with_capacity(BLOCK_LINE_CAP),
            text_bytes: 0,
        }
    }

    pub fn len(&self) -> (r: usize)
        ensures
            r == self.entries().len(),
    {
        self.lines.len()
    }

    /// Appends a line when it fits (see `line_fits`); otherwise the block
    /// is left as it is, to be sealed, and `false` comes back.
    pub fn push(&mut self, id: u64, timestamp: u128, stream: Stream, content: &str) -> (r: bool)
        requires
            old(self).wf(),
        ensures
            final(self).wf(),
            final(self).process_spec() == old(self).process_spec(),
            final(self).session_spec() == old(self).session_spec(),
            r == line_fits(old(self).entries().len(), old(self).used_bytes(), content.len() as nat),
            r ==> final(self).entries() == old(self).entries().push(
                BlockEntry { id, timestamp, stream, content: content@ },
            ),
            r ==> final(self).used_bytes() == old(self).used_bytes() + content.len(),
            !r ==> *final(self) == *old(self),
    {
        let count = self.lines.len();
        let extra = content.len();
        if count >= BLOCK_LINE_CAP || (count > 0 && (extra > BLOCK_TEXT_CAP || self.text_bytes
            > BLOCK_TEXT_CAP - extra)) {
            return false;
        }
        let offset = self.data.unicode_len();
        let ghost old_data = self.data@;
        let ghost old_entries = self.entries();
        self.data.append(content);
        let end = self.data.unicode_len();
        self.lines.push(LineMeta { id, timestamp, stream, offset, end });
        self.text_bytes = self.text_bytes + extra;
        assert(self.data@.subrange(offset as int, end as int) =~= content@);
        assert forall|i: int| 0 <= i < old_entries.len() implies #[trigger] self.entries()[i]
            == old_entries[i] by {
            assert(self.data@.subrange(self.lines@[i].offset as int, self.lines@[i].end as int)
                =~= old_data.subrange(self.lines@[i].offset as int, self.lines@[i].end as int));
        }
        assert(self.entries() =~= old_entries.push(
            BlockEntry { id, timestamp, stream, content: content@ },
        ));
        true
    }

    /// Whether the block is at either cap, so that no further line but an
    /// empty one can fit.
    pub fn is_full(&self) -> (r: bool)
        ensures
            r == (self.entries().len() >= BLOCK_LINE_CAP || self.used_bytes() >= BLOCK_TEXT_CAP),
    {
        self.lines.len() >= BLOCK_LINE_CAP || self.text_bytes >= BLOCK_TEXT_CAP
    }

    /// The text of the line at `index`.
    pub fn get_content(&self, index: usize) -> (r: &str)
        requires
            self.wf(),
            index < self.entries().len(),
        ensures
            r@ == self.entries()[index as int].content,
    {
        let meta = self.lines[index];
        self.data.as_str().substring_char(meta.offset, meta.end)
    }

    /// The line at `index` as a log record of this block's process and
    /// session.
    pub fn get_line(&self, index: usize) -> (r: LogLine)
        requires
            self.wf(),
            index < self.entries().len(),
        ensures
            r.id == self.entries()[index as int].id,
            r.timestamp == self.entries()[index as int].timestamp,
            r.stream == self.entries()[index as int].stream,
            r.content@ == self.entries()[index as int].content,
            r.process_id == self.process_spec(),
            r.session_id == self.session_spec(),
    {
        let meta = self.lines[index];
        LogLine {
            id: meta.id,
            process_id: self.process_id,
            session_id: self.session_id,
            timestamp: meta.timestamp,
            stream: meta.stream,
            content: self.get_content(index).to_owned(),
        }
    }
}

} // verus!

//! The output of a command: a stream of bytes of which the newest are kept, each under its own
//! position, so that a reader who knows a position can go on from there.

use vstd::prelude::*;
use vstd::slice::*;
use vstd::string::*;

use crate::backend::OutputChannel;
use crate::bytes::copy_bytes;
use crate::text::{decimal, join3};

verus! {

/// A piece of output.
#[derive(Debug)]
pub struct OutputChunk {
    /// The position of its first byte.
    pub cursor: u64,
    pub channel: OutputChannel,
    pub data: Vec<u8>,
}

#[verifier::ext_equal]
pub struct ChunkView {
    pub cursor: int,
    pub channel: OutputChannel,
    pub data: Seq<u8>,
}

impl View for OutputChunk {
    type V = ChunkView;

    open spec fn view(&self) -> ChunkView {
        ChunkView { cursor: self.cursor as int, channel: self.channel, data: self.data@ }
    }
}

pub open spec fn chunk_views(chunks: Seq<OutputChunk>) -> Seq<ChunkView> {
    Seq::new(chunks.len(), |i: int| chunks[i]@)
}

impl ChunkView {
    /// The position behind the last byte.
    pub open spec fn end(self) -> int {
        self.cursor + self.data.len()
    }

    /// The part between two positions, which may be empty.
    pub open spec fn part(self, from: int, upto: int) -> ChunkView {
        let low = if self.cursor < from {
            from
        } else {
            self.cursor
        };
        let high = if self.end() > upto {
            upto
        } else {
            self.end()
        };
        ChunkView {
            cursor: low,
            channel: self.channel,
            data: if low < high {
                self.data.subrange(low - self.cursor, high - self.cursor)
            } else {
                Seq::empty()
            },
        }
    }

    /// The bytes, each with its channel.
    pub open spec fn bytes(self) -> Seq<(OutputChannel, u8)> {
        Seq::new(self.data.len(), |i: int| (self.channel, self.data[i]))
    }
}

/// Whether chunks follow one another without a gap, from one position of the output to another.
pub open spec fn gapless(chunks: Seq<ChunkView>, from: int, to: int) -> bool
    decreases chunks.len(),
{
    if chunks.len() == 0 {
        from == to
    } else {
        &&& chunks.last().data.len() > 0
        &&& chunks.last().end() == to
        &&& gapless(chunks.drop_last(), from, chunks.last().cursor)
    }
}

/// The bytes of chunks, each with its channel.
pub open spec fn bytes_of(chunks: Seq<ChunkView>) -> Seq<(OutputChannel, u8)>
    decreases chunks.len(),
{
    if chunks.len() == 0 {
        Seq::empty()
    } else {
        bytes_of(chunks.drop_last()) + chunks.last().bytes()
    }
}

/// What chunks hold between two positions.
pub open spec fn pieces(chunks: Seq<ChunkView>, from: int, upto: int) -> Seq<ChunkView>
    decreases chunks.len(),
{
    if chunks.len() == 0 {
        Seq::empty()
    } else {
        let rest = pieces(chunks.drop_last(), from, upto);
        let part = chunks.last().part(from, upto);
        if part.data.len() > 0 {
            rest.push(part)
        } else {
            rest
        }
    }
}

/// The newest bytes of an output.
#[derive(Debug)]
pub struct OutputBuffer {
    chunks: Vec<OutputChunk>,
    earliest: u64,
    next: u64,
    limit: usize,
}

#[verifier::ext_equal]
pub struct OutputBufferView {
    pub chunks: Seq<ChunkView>,
    /// The position of the first byte that is kept.
    pub earliest: int,
    /// The position behind the last byte.
    pub next: int,
    pub limit: nat,
}

impl View for OutputBuffer {
    type V = OutputBufferView;

    closed spec fn view(&self) -> OutputBufferView {
        OutputBufferView {
            chunks: chunk_views(self.chunks@),
            earliest: self.earliest as int,
            next: self.next as int,
            limit: self.limit as nat,
        }
    }
}

impl OutputBufferView {
    /// What holds between any two calls.
    pub open spec fn wf(self) -> bool {
        &&& 0 <= self.earliest <= self.next <= u64::MAX
        &&& self.next - self.earliest <= self.limit
        &&& gapless(self.chunks, self.earliest, self.next)
    }

    /// The buffer with more output, from which the oldest bytes go where the limit is passed.
    pub open spec fn pushed(self, channel: OutputChannel, data: Seq<u8>) -> OutputBufferView {
        let next = self.next + data.len();
        let earliest = if next - self.limit > self.earliest {
            next - self.limit
        } else {
            self.earliest
        };
        OutputBufferView {
            chunks: pieces(
                self.chunks.push(ChunkView { cursor: self.next, channel, data }),
                earliest,
                next,
            ),
            earliest,
            next,
            limit: self.limit,
        }
    }

    /// What a read gives: the pieces, where it ended and whether output was dropped; or why it gives
    /// nothing.
    pub open spec fn read_of(self, cursor: u64, max_bytes: int) -> Result<
        (Seq<ChunkView>, int, bool),
        OutputReadError,
    > {
        if cursor < self.earliest {
            Err(
                OutputReadError::CursorExpired {
                    requested: cursor,
                    earliest: self.earliest as u64,
                },
            )
        } else if cursor > self.next {
            Err(OutputReadError::CursorAhead { requested: cursor, next: self.next as u64 })
        } else {
            let end = self.read_end(cursor as int, max_bytes);
            Ok((pieces(self.chunks, cursor as int, end), end, self.earliest > 0))
        }
    }

    /// Where a read ends.
    pub open spec fn read_end(self, cursor: int, max_bytes: int) -> int {
        if cursor + max_bytes < self.next {
            cursor + max_bytes
        } else {
            self.next
        }
    }
}

/// What a read gives.
#[derive(Debug)]
pub struct OutputRead {
    pub chunks: Vec<OutputChunk>,
    /// The position to go on from.
    pub next_cursor: u64,
    /// Whether output was dropped.
    pub truncated: bool,
}

#[derive(Debug, Clone, Copy, PartialEq, Eq, Structural)]
pub enum OutputReadError {
    /// What stood at the position is no longer kept.
    CursorExpired { requested: u64, earliest: u64 },
    /// The output has not come to the position.
    CursorAhead { requested: u64, next: u64 },
}

impl OutputReadError {
    pub open spec fn text(self) -> Seq<char> {
        match self {
            OutputReadError::CursorExpired { requested, earliest } => "output cursor "@
                + crate::text::decimal_text(requested as nat) + (" expired; earliest is "@
                + crate::text::decimal_text(earliest as nat)),
            OutputReadError::CursorAhead { requested, next } => "output cursor "@
                + crate::text::decimal_text(requested as nat) + (" is ahead of "@
                + crate::text::decimal_text(next as nat)),
        }
    }

    pub fn message(&self) -> (text: String)
        ensures
            text@ == self.text(),
    {
        let (requested, middle, bound) = match self {
            OutputReadError::CursorExpired { requested, earliest } => (
                *requested,
                " expired; earliest is ",
                *earliest,
            ),
            OutputReadError::CursorAhead { requested, next } => (
                *requested,
                " is ahead of ",
                *next,
            ),
        };
        let tail = crate::text::join(middle, decimal(bound).as_str());
        join3("output cursor ", decimal(requested).as_str(), tail.as_str())
    }
}

/// A chunk that ends before what is asked for has no part in it.
proof fn lemma_first_is_over(chunks: Seq<ChunkView>, from: int, upto: int)
    requires
        chunks.len() > 0,
        chunks[0].end() <= from,
    ensures
        pieces(chunks, from, upto) == pieces(chunks.drop_first(), from, upto),
    decreases chunks.len(),
{
    if chunks.len() == 1 {
        assert(chunks.drop_last() =~= Seq::empty());
        assert(chunks.drop_first() =~= Seq::empty());
    } else {
        lemma_first_is_over(chunks.drop_last(), from, upto);
        assert(chunks.drop_first().drop_last() =~= chunks.drop_last().drop_first());
    }
}

/// Chunks whose first one begins where the part begins are that part.
proof fn lemma_whole_pieces(chunks: Seq<ChunkView>, from: int, upto: int)
    requires
        gapless(chunks, from, upto),
    ensures
        from <= upto,
        forall|later: int| later >= upto ==> #[trigger] pieces(chunks, from, later) == chunks,
    decreases chunks.len(),
{
    if chunks.len() == 0 {
        assert(chunks =~= Seq::empty());
    } else {
        let last = chunks.last();
        lemma_whole_pieces(chunks.drop_last(), from, last.cursor);
        assert forall|later: int| later >= upto implies #[trigger] pieces(chunks, from, later)
            == chunks by {
            assert(pieces(chunks.drop_last(), from, later) == chunks.drop_last());
            assert(last.part(from, later) =~= last) by {
                assert(last.data.subrange(0, last.data.len() as int) =~= last.data);
            }
            assert(chunks.drop_last().push(last) =~= chunks);
        }
    }
}

/// A first chunk that begins too early is cut; the others stay.
proof fn lemma_cut_first(chunks: Seq<ChunkView>, start: int, from: int, upto: int)
    requires
        chunks.len() > 0,
        gapless(chunks, start, upto),
        start <= from < chunks[0].end(),
    ensures
        pieces(chunks, from, upto) == chunks.update(0, chunks[0].part(from, chunks[0].end())),
        chunks[0].part(from, chunks[0].end()).cursor == from,
    decreases chunks.len(),
{
    lemma_positions(chunks, start, upto);
    let last = chunks.last();
    if chunks.len() == 1 {
        assert(chunks.drop_last() =~= Seq::empty());
        assert(chunks.update(0, last.part(from, upto)) =~= Seq::empty().push(
            last.part(from, upto),
        ));
        assert(pieces(chunks.drop_last(), from, upto) =~= Seq::empty());
    } else {
        assert(chunks.drop_last()[0] == chunks[0]);
        lemma_positions(chunks.drop_last(), start, last.cursor);
        lemma_cut_first(chunks.drop_last(), start, from, last.cursor);
        lemma_upper_bound(chunks.drop_last(), start, from, last.cursor, upto);
        assert(last.part(from, upto) =~= last) by {
            assert(last.data.subrange(0, last.data.len() as int) =~= last.data);
        }
        assert(chunks.update(0, chunks[0].part(from, chunks[0].end()))
            =~= chunks.drop_last().update(0, chunks[0].part(from, chunks[0].end())).push(last));
    }
}

/// What lies behind the last byte makes no difference.
proof fn lemma_upper_bound(chunks: Seq<ChunkView>, start: int, from: int, end: int, upto: int)
    requires
        gapless(chunks, start, end),
        end <= upto,
    ensures
        pieces(chunks, from, end) == pieces(chunks, from, upto),
    decreases chunks.len(),
{
    if chunks.len() > 0 {
        let last = chunks.last();
        lemma_positions(chunks, start, end);
        lemma_upper_bound(chunks.drop_last(), start, from, last.cursor, end);
        lemma_upper_bound(chunks.drop_last(), start, from, last.cursor, upto);
        assert(last.part(from, end) =~= last.part(from, upto));
    }
}

/// The chunks of an output lie between its ends, in their order.
proof fn lemma_positions(chunks: Seq<ChunkView>, from: int, to: int)
    requires
        gapless(chunks, from, to),
    ensures
        from <= to,
        chunks.len() > 0 ==> chunks[0].cursor == from && chunks[0].end() <= to,
        forall|i: int|
            0 <= i < chunks.len() ==> from <= (#[trigger] chunks[i]).cursor && chunks[i].end()
                <= to && chunks[i].data.len() > 0,
    decreases chunks.len(),
{
    if chunks.len() > 0 {
        let rest = chunks.drop_last();
        lemma_positions(rest, from, chunks.last().cursor);
        assert forall|i: int| 0 <= i < chunks.len() implies from <= (#[trigger] chunks[i]).cursor
            && chunks[i].end() <= to && chunks[i].data.len() > 0 by {
            if i < rest.len() {
                assert(rest[i] == chunks[i]);
            }
        }
        if rest.len() > 0 {
            assert(rest[0] == chunks[0]);
        }
    }
}

/// An output without its first chunk goes on from behind it.
proof fn lemma_drop_first(chunks: Seq<ChunkView>, from: int, to: int)
    requires
        gapless(chunks, from, to),
        chunks.len() > 0,
    ensures
        gapless(chunks.drop_first(), chunks[0].end(), to),
    decreases chunks.len(),
{
    lemma_positions(chunks, from, to);
    if chunks.len() == 1 {
        assert(chunks.drop_first() =~= Seq::empty());
    } else {
        lemma_drop_first(chunks.drop_last(), from, chunks.last().cursor);
        assert(chunks.drop_first().drop_last() =~= chunks.drop_last().drop_first());
        assert(chunks.drop_first().last() == chunks.last());
    }
}

/// The part of an output between two positions holds the bytes between them.
pub proof fn lemma_pieces(chunks: Seq<ChunkView>, start: int, end: int, from: int, upto: int)
    requires
        gapless(chunks, start, end),
        start <= from <= upto <= end,
    ensures
        gapless(pieces(chunks, from, upto), from, upto),
        bytes_of(chunks).len() == end - start,
        bytes_of(pieces(chunks, from, upto)) == bytes_of(chunks).subrange(
            from - start,
            upto - start,
        ),
    decreases chunks.len(),
{
    lemma_positions(chunks, start, end);
    if chunks.len() == 0 {
        assert(bytes_of(chunks).subrange(0, 0) =~= Seq::empty());
    } else {
        let rest = chunks.drop_last();
        let last = chunks.last();
        let part = last.part(from, upto);
        lemma_positions(rest, start, last.cursor);
        if upto <= last.cursor {
            lemma_pieces(rest, start, last.cursor, from, upto);
            assert(part.data.len() == 0);
            assert(bytes_of(chunks).subrange(from - start, upto - start) =~= bytes_of(
                rest,
            ).subrange(from - start, upto - start));
        } else if from >= last.cursor {
            lemma_pieces(rest, start, last.cursor, last.cursor, last.cursor);
            lemma_nothing_behind(rest, start, last.cursor, from, upto);
            if from == upto {
                assert(part.data.len() == 0);
                assert(bytes_of(chunks).subrange(from - start, upto - start) =~= Seq::empty());
            } else {
                let only = Seq::empty().push(part);
                assert(only.drop_last() =~= Seq::empty());
                assert(part.cursor == from && part.end() == upto && part.data.len() > 0);
                assert(pieces(chunks, from, upto) == only);
                assert(only.last() == part);
                assert(gapless(only.drop_last(), from, from));
                assert(gapless(only, from, upto));
                assert(bytes_of(only) =~= bytes_of(Seq::empty()) + part.bytes());
                assert(part.bytes() =~= bytes_of(chunks).subrange(from - start, upto - start));
            }
        } else {
            lemma_pieces(rest, start, last.cursor, from, last.cursor);
            lemma_upper_bound(rest, start, from, last.cursor, upto);
            let longer = pieces(rest, from, upto).push(part);
            assert(longer.drop_last() =~= pieces(rest, from, upto));
            assert(part.cursor == last.cursor && part.end() == upto && part.data.len() > 0);
            assert(pieces(chunks, from, upto) == longer);
            assert(longer.last() == part);
            assert(gapless(longer, from, upto));
            assert(bytes_of(longer) == bytes_of(pieces(rest, from, upto)) + part.bytes());
            assert(bytes_of(longer) =~= bytes_of(chunks).subrange(from - start, upto - start));
        }
    }
}

/// There is nothing behind the end of an output.
proof fn lemma_nothing_behind(chunks: Seq<ChunkView>, start: int, end: int, from: int, upto: int)
    requires
        gapless(chunks, start, end),
        end <= from,
    ensures
        pieces(chunks, from, upto) == Seq::<ChunkView>::empty(),
    decreases chunks.len(),
{
    if chunks.len() > 0 {
        lemma_positions(chunks, start, end);
        lemma_nothing_behind(chunks.drop_last(), start, chunks.last().cursor, from, upto);
    }
}

fn copy_part(chunk: &OutputChunk, from: u64, upto: u64) -> (part: OutputChunk)
    requires
        chunk@.end() <= u64::MAX,
        from < chunk@.end(),
        chunk.cursor < upto,
        from < upto,
        chunk@.data.len() > 0,
    ensures
        part@ == chunk@.part(from as int, upto as int),
        part@.data.len() > 0,
{
    let low: u64 = if chunk.cursor < from {
        from
    } else {
        chunk.cursor
    };
    let length: usize = chunk.data.len();
    let end: u64 = chunk.cursor + length as u64;
    let high: u64 = if end > upto {
        upto
    } else {
        end
    };
    let begin: usize = (low - chunk.cursor) as usize;
    let stop: usize = (high - chunk.cursor) as usize;
    let data = copy_bytes(slice_subrange(chunk.data.as_slice(), begin, stop));
    OutputChunk { cursor: low, channel: chunk.channel, data }
}

fn copy_pieces(chunks: &Vec<OutputChunk>, from: u64, upto: u64) -> (copies: Vec<OutputChunk>)
    requires
        forall|i: int|
            0 <= i < chunks@.len() ==> (#[trigger] chunks@[i])@.end() <= u64::MAX
                && chunks@[i]@.data.len() > 0,
    ensures
        chunk_views(copies@) == pieces(chunk_views(chunks@), from as int, upto as int),
{
    let ghost views = chunk_views(chunks@);
    let mut copies: Vec<OutputChunk> = Vec::new();
    let mut i: usize = 0;
    assert(views.take(0) =~= Seq::empty());
    assert(chunk_views(copies@) =~= pieces(views.take(0), from as int, upto as int));
    while i < chunks.len()
        invariant
            i <= chunks@.len(),
            views == chunk_views(chunks@),
            chunk_views(copies@) == pieces(views.take(i as int), from as int, upto as int),
            forall|j: int|
                0 <= j < chunks@.len() ==> (#[trigger] chunks@[j])@.end() <= u64::MAX
                    && chunks@[j]@.data.len() > 0,
        decreases chunks@.len() - i,
    {
        let chunk = &chunks[i];
        let ghost earlier = copies@;
        proof {
            assert(views[i as int] == chunk@);
            assert(views.take(i + 1).drop_last() =~= views.take(i as int));
            assert(views.take(i + 1).last() == chunk@);
        }
        let stop: u64 = chunk.cursor + chunk.data.len() as u64;
        if from < stop && chunk.cursor < upto && from < upto {
            let part = copy_part(chunk, from, upto);
            copies.push(part);
            assert(chunk_views(copies@) =~= chunk_views(earlier).push(part@));
        } else {
            assert(chunk@.part(from as int, upto as int).data.len() == 0);
        }
        i += 1;
    }
    assert(views.take(views.len() as int) =~= views);
    copies
}

impl OutputBuffer {
    pub closed spec fn wf(self) -> bool {
        self@.wf()
    }

    /// An empty buffer that keeps as many bytes as the limit.
    pub fn new(limit: usize) -> (buffer: OutputBuffer)
        ensures
            buffer.wf(),
            buffer@ == (OutputBufferView {
                chunks: Seq::empty(),
                earliest: 0,
                next: 0,
                limit: limit as nat,
            }),
    {
        let buffer = OutputBuffer { chunks: Vec::new(), earliest: 0, next: 0, limit };
        assert(buffer@.chunks =~= Seq::empty());
        buffer
    }

    /// The position of the first byte that is kept.
    pub fn earliest_cursor(&self) -> (cursor: u64)
        ensures
            cursor == self@.earliest,
    {
        self.earliest
    }

    /// The position behind the last byte.
    pub fn next_cursor(&self) -> (cursor: u64)
        ensures
            cursor == self@.next,
    {
        self.next
    }

    /// Appends output, and drops the oldest where the limit is passed.
    pub fn push(&mut self, channel: OutputChannel, data: &[u8])
        requires
            old(self).wf(),
            old(self)@.next + data@.len() <= u64::MAX,
        ensures
            final(self).wf(),
            final(self)@ == old(self)@.pushed(channel, data@),
    {
        let ghost before = self@;
        let ghost whole = before.chunks.push(ChunkView { cursor: before.next, channel, data: data@ });
        assert(data.len() == data@.len());
        proof {
            assert(whole.drop_last() =~= before.chunks);
            lemma_pushed(before, channel, data@);
        }
        let next: u64 = self.next + data.len() as u64;
        let limit: u64 = self.limit as u64;
        let earliest: u64 = if next > limit && next - limit > self.earliest {
            next - limit
        } else {
            self.earliest
        };
        let ghost target = before.pushed(channel, data@);
        assert(target.earliest == earliest && target.next == next);
        if data.len() > 0 {
            self.chunks.push(OutputChunk { cursor: self.next, channel, data: copy_bytes(data) });
            assert(chunk_views(self.chunks@) =~= whole);
        }
        proof {
            if data@.len() == 0 {
                assert(whole.last().part(earliest as int, next as int).data.len() == 0);
            }
        }
        let ghost mut start = before.earliest;
        proof {
            lemma_positions(chunk_views(self.chunks@), start, next as int);
            if self.chunks@.len() > 0 {
                assert(chunk_views(self.chunks@)[0] == self.chunks@[0]@);
            }
        }
        self.next = next;
        self.earliest = earliest;
        while self.chunks.len() > 0 && self.chunks[0].cursor + self.chunks[0].data.len() as u64
            <= earliest
            invariant
                start <= earliest <= next,
                self.chunks@.len() > 0 ==> self.chunks@[0]@.end() <= next,
                gapless(chunk_views(self.chunks@), start, next as int),
                pieces(chunk_views(self.chunks@), earliest as int, next as int) == target.chunks,
                self.next == next,
                self.earliest == earliest,
                self.limit == before.limit,
            decreases self.chunks@.len(),
        {
            let ghost views = chunk_views(self.chunks@);
            proof {
                lemma_positions(views, start, next as int);
                assert(views[0] == self.chunks@[0]@);
                lemma_first_is_over(views, earliest as int, next as int);
                lemma_drop_first(views, start, next as int);
                start = views[0].end();
            }
            let _ = self.chunks.remove(0);
            assert(chunk_views(self.chunks@) =~= views.drop_first());
            proof {
                lemma_positions(chunk_views(self.chunks@), start, next as int);
                if self.chunks@.len() > 0 {
                    assert(chunk_views(self.chunks@)[0] == self.chunks@[0]@);
                }
            }
        }
        if self.chunks.len() > 0 && self.chunks[0].cursor < earliest {
            let ghost views = chunk_views(self.chunks@);
            proof {
                lemma_positions(views, start, next as int);
                assert(views[0] == self.chunks@[0]@);
                lemma_cut_first(views, start, earliest as int, next as int);
            }
            let end: u64 = self.chunks[0].cursor + self.chunks[0].data.len() as u64;
            let part = copy_part(&self.chunks[0], earliest, end);
            self.chunks.set(0, part);
            assert(chunk_views(self.chunks@) =~= views.update(0, part@));
        } else {
            proof {
                let views = chunk_views(self.chunks@);
                lemma_positions(views, start, next as int);
                if views.len() > 0 {
                    assert(views[0] == self.chunks@[0]@);
                    assert(views[0].cursor == start);
                    lemma_whole_pieces(views, start, next as int);
                    assert(start == earliest);
                    assert(pieces(views, earliest as int, next as int) == views);
                } else {
                    assert(views =~= Seq::empty());
                    assert(pieces(views, earliest as int, next as int) == views);
                }
            }
        }
        assert(self@ =~= target);
    }

    /// Reads output from a position on.
    pub fn read(&self, cursor: u64, max_bytes: usize) -> (read: Result<OutputRead, OutputReadError>)
        requires
            self.wf(),
        ensures
            match (read, self@.read_of(cursor, max_bytes as int)) {
                (Ok(given), Ok(expected)) => (
                    chunk_views(given.chunks@),
                    given.next_cursor as int,
                    given.truncated,
                ) == expected,
                (Err(error), Err(expected)) => error == expected,
                _ => false,
            },
            match read {
                Ok(read) => {
                    let end = self@.read_end(cursor as int, max_bytes as int);
                    &&& self@.earliest <= cursor <= self@.next
                    &&& chunk_views(read.chunks@) == pieces(self@.chunks, cursor as int, end)
                    &&& read.next_cursor == end
                    &&& read.truncated == (self@.earliest > 0)
                },
                Err(error) => if cursor < self@.earliest {
                    error == (OutputReadError::CursorExpired {
                        requested: cursor,
                        earliest: self@.earliest as u64,
                    })
                } else {
                    cursor > self@.next && error == (OutputReadError::CursorAhead {
                        requested: cursor,
                        next: self@.next as u64,
                    })
                },
            },
    {
        if cursor < self.earliest {
            return Err(
                OutputReadError::CursorExpired { requested: cursor, earliest: self.earliest },
            );
        }
        if cursor > self.next {
            return Err(OutputReadError::CursorAhead { requested: cursor, next: self.next });
        }
        let left: u64 = self.next - cursor;
        let end: u64 = if (max_bytes as u64) < left {
            cursor + max_bytes as u64
        } else {
            self.next
        };
        proof {
            let views = chunk_views(self.chunks@);
            lemma_positions(views, self@.earliest, self@.next);
            assert forall|i: int| 0 <= i < self.chunks@.len() implies (
            #[trigger] self.chunks@[i])@.end() <= u64::MAX && self.chunks@[i]@.data.len() > 0 by {
                assert(views[i] == self.chunks@[i]@);
            }
        }
        let chunks = copy_pieces(&self.chunks, cursor, end);
        Ok(OutputRead { chunks, next_cursor: end, truncated: self.earliest > 0 })
    }
}

/// What is appended stays in order, and the bytes that are kept are the newest.
proof fn lemma_pushed(buffer: OutputBufferView, channel: OutputChannel, data: Seq<u8>)
    requires
        buffer.wf(),
        buffer.next + data.len() <= u64::MAX,
    ensures
        buffer.pushed(channel, data).wf(),
        bytes_of(buffer.chunks).len() == buffer.next - buffer.earliest,
        ({
            let after = buffer.pushed(channel, data);
            let bytes = bytes_of(buffer.chunks) + (ChunkView {
                cursor: buffer.next,
                channel,
                data,
            }).bytes();
            bytes_of(after.chunks) == bytes.subrange(
                after.earliest - buffer.earliest,
                bytes.len() as int,
            )
        }),
        data.len() > 0 ==> gapless(
            buffer.chunks.push(ChunkView { cursor: buffer.next, channel, data }),
            buffer.earliest,
            buffer.next + data.len(),
        ),
        data.len() == 0 ==> buffer.pushed(channel, data).chunks == pieces(
            buffer.chunks,
            buffer.pushed(channel, data).earliest,
            buffer.next,
        ),
{
    let added = ChunkView { cursor: buffer.next, channel, data };
    let whole = buffer.chunks.push(added);
    let after = buffer.pushed(channel, data);
    assert(whole.drop_last() =~= buffer.chunks);
    lemma_positions(buffer.chunks, buffer.earliest, buffer.next);
    if data.len() == 0 {
        assert(added.part(after.earliest, after.next).data.len() == 0);
        lemma_pieces(buffer.chunks, buffer.earliest, buffer.next, after.earliest, after.next);
        assert(bytes_of(buffer.chunks) + added.bytes() =~= bytes_of(buffer.chunks));
    } else {
        lemma_pieces(whole, buffer.earliest, after.next, after.earliest, after.next);
        lemma_pieces(
            buffer.chunks,
            buffer.earliest,
            buffer.next,
            buffer.earliest,
            buffer.next,
        );
    }
}

/// What a buffer keeps is the end of what was written, in its order and on its channels, and as
/// much of it as the limit allows.
pub proof fn law_newest_output_is_kept(
    buffer: OutputBufferView,
    channel: OutputChannel,
    data: Seq<u8>,
)
    requires
        buffer.wf(),
        buffer.next + data.len() <= u64::MAX,
    ensures
        ({
            let after = buffer.pushed(channel, data);
            let written = bytes_of(buffer.chunks) + (ChunkView {
                cursor: buffer.next,
                channel,
                data,
            }).bytes();
            let kept = if written.len() > buffer.limit {
                buffer.limit as int
            } else {
                written.len() as int
            };
            bytes_of(after.chunks) == written.subrange(
                written.len() - kept,
                written.len() as int,
            )
        }),
{
    lemma_pushed(buffer, channel, data);
}

/// A read gives back what was written at its positions, without a gap.
pub proof fn law_read_gives_back_what_was_kept(
    buffer: OutputBufferView,
    cursor: int,
    max_bytes: int,
)
    requires
        buffer.wf(),
        buffer.earliest <= cursor <= buffer.next,
        max_bytes >= 0,
    ensures
        ({
            let end = buffer.read_end(cursor, max_bytes);
            let page = pieces(buffer.chunks, cursor, end);
            &&& gapless(page, cursor, end)
            &&& bytes_of(page) == bytes_of(buffer.chunks).subrange(
                cursor - buffer.earliest,
                end - buffer.earliest,
            )
            &&& bytes_of(page).len() <= max_bytes
        }),
{
    lemma_pieces(
        buffer.chunks,
        buffer.earliest,
        buffer.next,
        cursor,
        buffer.read_end(cursor, max_bytes),
    );
}

/// Two reads, the second from where the first one ended, give what one read gives.
pub proof fn law_reads_go_on(buffer: OutputBufferView, cursor: int, first: int, second: int)
    requires
        buffer.wf(),
        buffer.earliest <= cursor <= buffer.next,
        first >= 0,
        second >= 0,
    ensures
        ({
            let middle = buffer.read_end(cursor, first);
            let end = buffer.read_end(middle, second);
            &&& buffer.read_end(cursor, first + second) == end
            &&& bytes_of(pieces(buffer.chunks, cursor, middle)) + bytes_of(
                pieces(buffer.chunks, middle, end),
            ) == bytes_of(pieces(buffer.chunks, cursor, end))
        }),
{
    let middle = buffer.read_end(cursor, first);
    let end = buffer.read_end(middle, second);
    lemma_pieces(buffer.chunks, buffer.earliest, buffer.next, cursor, middle);
    lemma_pieces(buffer.chunks, buffer.earliest, buffer.next, middle, end);
    lemma_pieces(buffer.chunks, buffer.earliest, buffer.next, cursor, end);
    let all = bytes_of(buffer.chunks);
    let start = buffer.earliest;
    assert(all.subrange(cursor - start, middle - start) + all.subrange(middle - start, end - start)
        =~= all.subrange(cursor - start, end - start));
}

} // verus!

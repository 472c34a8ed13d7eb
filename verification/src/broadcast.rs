//! One capture, read by many.
use crate::capture::ChunkReader;
use vstd::prelude::*;
use vstd::slice::slice_to_vec;

verus! {

/// How many chunks may wait for a reader.
pub const SINK_CHANNEL_CAP: usize = 4;

/// A reader of the capture, with what waits for it.
pub struct BroadcastSink {
    pub id: u64,
    /// Whether more may come.
    pub open: bool,
    pub queue: Vec<Vec<u8>>,
    pub reader: ChunkReader,
}

#[verifier::ext_equal]
pub struct BroadcastSinkView {
    pub id: u64,
    pub open: bool,
    pub queue: Seq<Seq<u8>>,
    pub leftover: Seq<u8>,
}

impl View for BroadcastSink {
    type V = BroadcastSinkView;

    open spec fn view(&self) -> BroadcastSinkView {
        BroadcastSinkView {
            id: self.id,
            open: self.open,
            queue: self.queue@.map_values(|c: Vec<u8>| c@),
            leftover: self.reader.leftover@,
        }
    }
}

/// Chunks behind one another.
pub open spec fn joined_chunks(chunks: Seq<Seq<u8>>) -> Seq<u8>
    decreases chunks.len(),
{
    if chunks.len() == 0 {
        Seq::empty()
    } else {
        joined_chunks(chunks.drop_last()) + chunks.last()
    }
}

impl BroadcastSinkView {
    /// Everything that was sent and not yet read.
    pub open spec fn waiting(self) -> Seq<u8> {
        self.leftover + joined_chunks(self.queue)
    }

    /// Whether every chunk that waits holds something.
    pub open spec fn chunks_filled(self) -> bool {
        forall|i: int| 0 <= i < self.queue.len() ==> (#[trigger] self.queue[i]).len() > 0
    }
}

/// A read into a buffer with room for so many bytes: what is read, and the reader after it. It gets
/// as much as fits of what is left of a chunk, or else of the next one; nothing into an empty
/// buffer, and nothing at the end; `None` when there is nothing yet.
pub open spec fn next_read(v: BroadcastSinkView, room: nat) -> Option<
    (Seq<u8>, BroadcastSinkView),
> {
    if room == 0 {
        Some((Seq::empty(), v))
    } else if v.leftover.len() == 0 && v.queue.len() == 0 {
        if v.open {
            None
        } else {
            Some((Seq::empty(), v))
        }
    } else {
        let (first, queue) = if v.leftover.len() > 0 {
            (v.leftover, v.queue)
        } else {
            (v.queue[0], v.queue.skip(1))
        };
        let n = if room < first.len() {
            room as int
        } else {
            first.len() as int
        };
        Some((first.take(n), BroadcastSinkView { queue, leftover: first.skip(n), ..v }))
    }
}

proof fn lemma_first_chunk(chunks: Seq<Seq<u8>>)
    requires
        chunks.len() > 0,
    ensures
        joined_chunks(chunks) == chunks[0] + joined_chunks(chunks.skip(1)),
    decreases chunks.len(),
{
    if chunks.len() == 1 {
        reveal_with_fuel(joined_chunks, 2);
        assert(chunks.drop_last() =~= Seq::empty());
        assert(chunks.skip(1) =~= Seq::empty());
        assert(joined_chunks(chunks) =~= chunks[0]);
        assert(chunks[0] + joined_chunks(chunks.skip(1)) =~= chunks[0]);
    } else {
        let most = chunks.drop_last();
        lemma_first_chunk(most);
        assert(most.skip(1) =~= chunks.skip(1).drop_last());
        assert(chunks.skip(1).last() == chunks.last());
        assert(joined_chunks(chunks) =~= chunks[0] + joined_chunks(chunks.skip(1)));
    }
}

/// What became of a chunk.
#[derive(Clone, Copy, Debug, PartialEq, Eq, Structural)]
pub enum Offer {
    Sent,
    /// The reader is behind: the chunk is to be offered again later.
    Full,
    /// The reader is gone.
    Gone,
}

/// What a read led to.
#[derive(Clone, Copy, Debug, PartialEq, Eq, Structural)]
pub enum ReadOutcome {
    /// So many bytes; none at the end.
    Bytes(usize),
    /// Nothing is there yet.
    Wait,
}

impl BroadcastSink {
    /// A reader that has got nothing yet.
    pub fn new(id: u64) -> (r: BroadcastSink)
        ensures
            r@ == (BroadcastSinkView { id, open: true, queue: Seq::empty(), leftover: Seq::empty() }),
    {
        let r = BroadcastSink { id, open: true, queue: Vec::new(), reader: ChunkReader::new() };
        assert(r@.queue =~= Seq::<Seq<u8>>::empty());
        assert(r@.leftover =~= Seq::<u8>::empty());
        r
    }

    /// Offers a chunk. A reader that is behind does not take it.
    pub fn offer(&mut self, chunk: &[u8]) -> (r: Offer)
        ensures
            (r, final(self)@) == offered(old(self)@, chunk@),
            r == Offer::Sent ==> final(self)@.waiting() == old(self)@.waiting() + chunk@,
    {
        if !self.open {
            return Offer::Gone;
        }
        if self.queue.len() >= SINK_CHANNEL_CAP {
            return Offer::Full;
        }
        let ghost before = self@;
        self.queue.push(slice_to_vec(chunk));
        proof {
            let after = before.queue.push(chunk@);
            assert(self@.queue =~= after);
            assert(after.drop_last() =~= before.queue);
            assert(self@.waiting() =~= before.waiting() + chunk@);
        }
        Offer::Sent
    }

    /// Ends the reader: what waits for it can still be read.
    pub fn close(&mut self)
        ensures
            final(self)@ == (BroadcastSinkView { open: false, ..old(self)@ }),
    {
        self.open = false;
    }

    /// Reads at most the rest of a chunk. What was sent is read in its order.
    pub fn read(&mut self, buf: &mut [u8]) -> (r: ReadOutcome)
        ensures
            match next_read(old(self)@, old(buf)@.len()) {
                Some((piece, after)) => {
                    &&& r == ReadOutcome::Bytes(piece.len() as usize)
                    &&& final(buf)@ == piece + old(buf)@.skip(piece.len() as int)
                    &&& final(self)@ == after
                },
                None => r == ReadOutcome::Wait && final(buf)@ == old(buf)@ && final(self)@ == old(
                    self,
                )@,
            },
    {
        let ghost start = self@;
        let ghost given = buf@;
        if buf.len() == 0 {
            assert(buf@ =~= Seq::<u8>::empty() + given.skip(0));
            return ReadOutcome::Bytes(0);
        }
        if self.reader.is_empty() {
            if self.queue.len() == 0 {
                if self.open {
                    return ReadOutcome::Wait;
                }
                assert(buf@ =~= Seq::<u8>::empty() + given.skip(0));
                return ReadOutcome::Bytes(0);
            }
            let chunk: Vec<u8> = self.queue.remove(0);
            proof {
                assert(self.queue@.map_values(|c: Vec<u8>| c@) =~= start.queue.skip(1));
                assert(chunk@ == start.queue[0]);
            }
            self.reader.fill(chunk);
        }
        let n: usize = self.reader.read(buf);
        ReadOutcome::Bytes(n)
    }
}

/// A read takes its bytes from the front of what waits, and loses none of it.
pub proof fn lemma_read_in_order(v: BroadcastSinkView, room: nat)
    ensures
        next_read(v, room) matches Some((piece, after)) ==> piece.len() <= room && piece
            + after.waiting() == v.waiting(),
{
    if let Some((piece, after)) = next_read(v, room) {
        if v.leftover.len() == 0 && v.queue.len() > 0 {
            lemma_first_chunk(v.queue);
        }
        assert(piece + after.waiting() =~= v.waiting());
    }
}

/// Reading stops for good only at the end: as long as something waits, a read into a buffer that
/// has room gets at least a byte; once nothing waits and nothing more may come, every read gets
/// none and changes nothing.
pub proof fn lemma_read_ends(v: BroadcastSinkView, room: nat)
    requires
        v.chunks_filled(),
        room > 0,
    ensures
        v.waiting().len() > 0 ==> (next_read(v, room) matches Some((piece, after)) && piece.len() > 0
            && after.chunks_filled() && after.open == v.open),
        v.waiting().len() == 0 && !v.open ==> next_read(v, room) == Some((Seq::<u8>::empty(), v)),
        v.waiting().len() == 0 && v.open ==> next_read(v, room) is None,
{
    if v.queue.len() > 0 {
        lemma_first_chunk(v.queue);
        assert(v.queue[0].len() > 0);
    }
    if let Some((piece, after)) = next_read(v, room) {
        assert forall|i: int| 0 <= i < after.queue.len() implies (#[trigger] after.queue[i]).len()
            > 0 by {
            assert(v.queue[i].len() > 0);
            if v.leftover.len() == 0 && v.queue.len() > 0 {
                assert(after.queue[i] == v.queue[i + 1]);
            }
        }
    }
}

/// What is read with buffers of the given sizes, one behind the other, until a read gets none;
/// `None` when the buffers run out before that, or a read has to wait.
pub open spec fn read_to_end(v: BroadcastSinkView, rooms: Seq<nat>) -> Option<Seq<u8>>
    decreases rooms.len(),
{
    if rooms.len() == 0 {
        None
    } else {
        match next_read(v, rooms[0]) {
            Some((piece, after)) => if piece.len() == 0 {
                Some(piece)
            } else {
                match read_to_end(after, rooms.skip(1)) {
                    Some(rest) => Some(piece + rest),
                    None => None,
                }
            },
            None => None,
        }
    }
}

/// A closed reader that reads until a read gets none has got everything that was sent, in order,
/// and nothing else, whatever the sizes of its buffers.
pub proof fn lemma_read_everything(v: BroadcastSinkView, rooms: Seq<nat>)
    requires
        !v.open,
        v.chunks_filled(),
        forall|i: int| 0 <= i < rooms.len() ==> #[trigger] rooms[i] > 0,
        rooms.len() > v.waiting().len(),
    ensures
        read_to_end(v, rooms) == Some(v.waiting()),
    decreases rooms.len(),
{
    lemma_read_in_order(v, rooms[0]);
    lemma_read_ends(v, rooms[0]);
    if v.waiting().len() > 0 {
        let (piece, after) = next_read(v, rooms[0])->Some_0;
        let more = rooms.skip(1);
        assert forall|i: int| 0 <= i < more.len() implies #[trigger] more[i] > 0 by {
            assert(more[i] == rooms[i + 1]);
        }
        lemma_read_everything(after, more);
    } else {
        assert(v.waiting() =~= Seq::<u8>::empty());
    }
}

/// A capture and its readers.
pub struct BroadcastCapture {
    /// The readers that are still sent to, by the order in which they came.
    sinks: Vec<u64>,
    next_id: u64,
    done: bool,
    error: Option<String>,
}

#[verifier::ext_equal]
pub struct BroadcastView {
    pub sinks: Seq<u64>,
    pub next_id: u64,
    pub done: bool,
    pub error: Option<Seq<char>>,
}

impl View for BroadcastCapture {
    type V = BroadcastView;

    closed spec fn view(&self) -> BroadcastView {
        BroadcastView {
            sinks: self.sinks@,
            next_id: self.next_id,
            done: self.done,
            error: match self.error {
                Some(e) => Some(e@),
                None => None,
            },
        }
    }
}

/// The readers without one of them.
pub open spec fn without_sink(sinks: Seq<u64>, id: u64) -> Seq<u64>
    decreases sinks.len(),
{
    if sinks.len() == 0 {
        sinks
    } else if sinks.last() == id {
        without_sink(sinks.drop_last(), id)
    } else {
        without_sink(sinks.drop_last(), id).push(sinks.last())
    }
}

/// Whether every reader has a number of its own, below the next one.
pub open spec fn numbered(v: BroadcastView) -> bool {
    &&& forall|i: int| 0 <= i < v.sinks.len() ==> #[trigger] v.sinks[i] < v.next_id
    &&& forall|i: int, j: int|
        0 <= i < j < v.sinks.len() ==> #[trigger] v.sinks[i] < #[trigger] v.sinks[j]
}

impl BroadcastCapture {
    pub closed spec fn wf(&self) -> bool {
        numbered(self@)
    }

    pub fn new() -> (r: BroadcastCapture)
        ensures
            r.wf(),
            r@ == (BroadcastView { sinks: Seq::empty(), next_id: 0, done: false, error: None }),
    {
        let r = BroadcastCapture { sinks: Vec::new(), next_id: 0, done: false, error: None };
        assert(r@.sinks =~= Seq::<u64>::empty());
        r
    }

    /// Whether there is a number left for another reader.
    pub fn has_room(&self) -> (r: bool)
        ensures
            r == (self@.next_id < u64::MAX),
    {
        self.next_id < u64::MAX
    }

    /// Adds a reader, which gets every chunk from now on.
    pub fn add_sink(&mut self) -> (r: BroadcastSink)
        requires
            old(self).wf(),
            old(self)@.next_id < u64::MAX,
        ensures
            final(self).wf(),
            r@ == (BroadcastSinkView {
                id: old(self)@.next_id,
                open: true,
                queue: Seq::empty(),
                leftover: Seq::empty(),
            }),
            final(self)@ == (BroadcastView {
                sinks: old(self)@.sinks.push(old(self)@.next_id),
                next_id: (old(self)@.next_id + 1) as u64,
                ..old(self)@
            }),
            !old(self)@.sinks.contains(r@.id),
    {
        let id: u64 = self.next_id;
        self.next_id = id + 1;
        self.sinks.push(id);
        BroadcastSink::new(id)
    }

    /// Takes a reader out.
    pub fn remove_sink(&mut self, id: u64)
        requires
            old(self).wf(),
        ensures
            final(self).wf(),
            final(self)@ == (BroadcastView {
                sinks: without_sink(old(self)@.sinks, id),
                ..old(self)@
            }),
            !final(self)@.sinks.contains(id),
    {
        let ghost all = self.sinks@;
        let mut kept: Vec<u64> = Vec::new();
        let mut i: usize = 0;
        assert(all.take(0) =~= Seq::empty());
        while i < self.sinks.len()
            invariant
                i <= self.sinks@.len(),
                all == self.sinks@,
                kept@ == without_sink(all.take(i as int), id),
                forall|a: int, b: int| 0 <= a < b < all.len() ==> all[a] < all[b],
                forall|a: int, b: int| 0 <= a < b < kept@.len() ==> kept@[a] < kept@[b],
                forall|a: int| 0 <= a < kept@.len() ==> kept@[a] != id,
                forall|a: int, b: int| 0 <= a < kept@.len() && i <= b < all.len() ==> kept@[a] < all[b],
                forall|a: int| 0 <= a < kept@.len() ==> all.contains(#[trigger] kept@[a]),
            decreases self.sinks.len() - i,
        {
            let ghost next = all.take(i + 1);
            proof {
                assert(next.drop_last() =~= all.take(i as int));
                assert(next.last() == all[i as int]);
            }
            if self.sinks[i] != id {
                kept.push(self.sinks[i]);
            }
            i += 1;
        }
        proof {
            assert(all.take(i as int) =~= all);
            assert forall|k: int| 0 <= k < kept@.len() implies #[trigger] kept@[k]
                < self.next_id by {
                assert(all.contains(kept@[k]));
                let j = choose|j: int| 0 <= j < all.len() && all[j] == kept@[k];
                assert(all[j] < self.next_id);
            }
        }
        self.sinks = kept;
    }

    /// The readers that a chunk goes to.
    pub fn live(&self) -> (r: Vec<u64>)
        ensures
            r@ == self@.sinks,
    {
        let mut out: Vec<u64> = Vec::new();
        let mut i: usize = 0;
        while i < self.sinks.len()
            invariant
                i <= self.sinks@.len(),
                out@ =~= self.sinks@.take(i as int),
            decreases self.sinks.len() - i,
        {
            out.push(self.sinks[i]);
            i += 1;
        }
        assert(self.sinks@.take(i as int) =~= self.sinks@);
        out
    }

    /// The capture is over: no reader is sent to any more, and what ended it is kept.
    pub fn finish(&mut self, error: Option<String>)
        requires
            old(self).wf(),
        ensures
            final(self).wf(),
            final(self)@ == (BroadcastView {
                sinks: Seq::empty(),
                done: true,
                error: match error {
                    Some(e) => Some(e@),
                    None => old(self)@.error,
                },
                ..old(self)@
            }),
    {
        self.sinks = Vec::new();
        assert(self.sinks@ =~= Seq::<u64>::empty());
        if let Some(e) = error {
            self.error = Some(e);
        }
        self.done = true;
    }

    /// Whether the capture is over.
    pub fn done(&self) -> (r: bool)
        ensures
            r == self@.done,
    {
        self.done
    }

    /// What ended the capture, once it is over.
    pub fn err(&self) -> (r: Option<&str>)
        ensures
            match r {
                Some(e) => self@.done && self@.error == Some(e@),
                None => !self@.done || self@.error is None,
            },
    {
        if !self.done {
            return None;
        }
        match &self.error {
            Some(e) => Some(e.as_str()),
            None => None,
        }
    }
}

/// A sink that leaves is gone, and the others stay in their order.
pub proof fn law_sink_leaves(before: Seq<u64>, id: u64, behind: Seq<u64>)
    ensures
        without_sink(before + seq![id] + behind, id) == without_sink(before, id) + without_sink(
            behind,
            id,
        ),
        !without_sink(before, id).contains(id),
        !before.contains(id) ==> without_sink(before, id) == before,
    decreases before.len() + behind.len(),
{
    let whole = before + seq![id] + behind;
    if behind.len() == 0 {
        assert(whole.drop_last() =~= before);
        assert(without_sink(before, id) + without_sink(behind, id) =~= without_sink(before, id));
    } else {
        law_sink_leaves(before, id, behind.drop_last());
        assert(whole.drop_last() =~= before + seq![id] + behind.drop_last());
        assert(without_sink(whole, id) =~= without_sink(before, id) + without_sink(behind, id));
    }
    if before.len() > 0 {
        let less = before.drop_last();
        law_sink_leaves(less, id, Seq::empty());
        if without_sink(before, id).contains(id) {
            let k = without_sink(before, id).index_of(id);
            assert(without_sink(before, id)[k] == id);
            assert(k < without_sink(less, id).len());
            assert(without_sink(less, id)[k] == id);
            assert(without_sink(less, id).contains(id));
        }
        if !before.contains(id) {
            assert(before.contains(before.last()));
            if less.contains(id) {
                let k = less.index_of(id);
                assert(before[k] == id);
                assert(before.contains(id));
            }
            assert(before =~= less.push(before.last()));
        }
    }
}

/// What becomes of a chunk that is offered to a sink, and the sink after it.
pub open spec fn offered(v: BroadcastSinkView, chunk: Seq<u8>) -> (Offer, BroadcastSinkView) {
    if !v.open {
        (Offer::Gone, v)
    } else if v.queue.len() >= SINK_CHANNEL_CAP {
        (Offer::Full, v)
    } else {
        (Offer::Sent, BroadcastSinkView { queue: v.queue.push(chunk), ..v })
    }
}

/// A sink takes a chunk behind all that it has, until it holds as many as it may; one that is closed
/// takes none. A chunk that is not taken changes nothing.
pub proof fn law_offer(v: BroadcastSinkView, chunk: Seq<u8>)
    ensures
        ({
            let (r, after) = offered(v, chunk);
            &&& r == Offer::Gone <==> !v.open
            &&& r == Offer::Sent <==> v.open && v.queue.len() < 4
            &&& r == Offer::Sent ==> after.queue == v.queue + seq![chunk] && after
                == (BroadcastSinkView { queue: after.queue, ..v })
            &&& r != Offer::Sent ==> after == v
        }),
{
    assert(v.queue.push(chunk) =~= v.queue + seq![chunk]);
}

} // verus!

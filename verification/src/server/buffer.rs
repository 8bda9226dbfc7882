//! A byte buffer of fixed size that is filled at its end and emptied at its
//! front, and the rule by which a receive buffer gets past bytes that are no
//! message.

use vstd::prelude::*;

verus! {

/// `count` zero bytes.
pub open spec fn zeros(count: int) -> Seq<u8> {
    Seq::new(count as nat, |i: int| 0u8)
}

/// The position of the first `{` of `bytes` at or behind `from`; the length
/// of `bytes` where there is none.
pub open spec fn find_brace(bytes: Seq<u8>, from: int) -> int
    decreases bytes.len() - from,
{
    if from >= bytes.len() {
        bytes.len() as int
    } else if bytes[from] == 0x7b {
        from
    } else {
        find_brace(bytes, from + 1)
    }
}

/// How many bytes to drop from the front of `filled` after a parser error:
/// all that stand before the next `{` behind the first byte, so that a
/// message may start at the front again. The first byte always goes, also
/// where it is a `{` itself.
pub open spec fn resync_point(filled: Seq<u8>) -> int {
    find_brace(filled, 1)
}

/// Where `find_brace` ends up: on a `{`, or at the end, with no `{` on the
/// way.
pub proof fn lemma_find_brace(bytes: Seq<u8>, from: int)
    requires
        0 <= from <= bytes.len(),
    ensures
        from <= find_brace(bytes, from) <= bytes.len(),
        find_brace(bytes, from) < bytes.len() ==> bytes[find_brace(bytes, from)] == 0x7b,
        forall|k: int| from <= k < find_brace(bytes, from) ==> bytes[k] != 0x7b,
    decreases bytes.len() - from,
{
    if from < bytes.len() && bytes[from] != 0x7b {
        lemma_find_brace(bytes, from + 1);
    }
}

/// Resynchronising makes progress: it drops at least one byte of a buffer
/// that holds any, and where a `{` stands behind the first byte, it stops no
/// later than there.
pub proof fn lemma_resync_progress(filled: Seq<u8>)
    ensures
        filled.len() > 0 ==> 1 <= resync_point(filled) <= filled.len(),
        filled.len() == 0 ==> resync_point(filled) == 0,
        forall|k: int|
            1 <= k < filled.len() && filled[k] == 0x7b ==> resync_point(filled) <= k,
        resync_point(filled) < filled.len() ==> filled[resync_point(filled)] == 0x7b,
{
    if filled.len() > 0 {
        lemma_find_brace(filled, 1);
    }
}

/// A buffer as a value: all its bytes, and how many of them, from the front,
/// are filled.
pub struct BufferView {
    pub bytes: Seq<u8>,
    pub fill: int,
}

impl BufferView {
    pub open spec fn wf(self) -> bool {
        0 <= self.fill <= self.bytes.len() <= usize::MAX
    }

    /// The bytes that were put in and not yet discarded.
    pub open spec fn filled(self) -> Seq<u8> {
        self.bytes.subrange(0, self.fill)
    }

    /// The room behind the filled bytes.
    pub open spec fn unfilled(self) -> Seq<u8> {
        self.bytes.subrange(self.fill, self.bytes.len() as int)
    }

    /// The buffer with the first `count` bytes of its room counted as
    /// filled.
    pub open spec fn advance(self, count: int) -> BufferView {
        BufferView { fill: self.fill + count, ..self }
    }

    /// The buffer without its first `count` filled bytes: the others moved
    /// to the front, and everything behind them is zero.
    pub open spec fn discard(self, count: int) -> BufferView {
        BufferView {
            bytes: self.bytes.subrange(count, self.fill) + zeros(
                self.bytes.len() - (self.fill - count),
            ),
            fill: self.fill - count,
        }
    }
}

/// Discarding is a shift to the left: what stays filled is what was filled
/// behind the discarded bytes, the size is the same, and every byte behind
/// the filled ones is zero, the last `count` among them.
pub proof fn lemma_discard_shifts(buffer: BufferView, count: int)
    requires
        buffer.wf(),
        0 <= count <= buffer.fill,
    ensures
        buffer.discard(count).wf(),
        buffer.discard(count).bytes.len() == buffer.bytes.len(),
        buffer.discard(count).fill == buffer.fill - count,
        buffer.discard(count).filled() == buffer.filled().subrange(count, buffer.fill),
        buffer.discard(count).unfilled() == zeros(buffer.bytes.len() - (buffer.fill - count)),
        forall|k: int|
            buffer.bytes.len() - count <= k < buffer.bytes.len() ==> buffer.discard(
                count,
            ).bytes[k] == 0,
{
}

/// Taken from the documentation of `Vec`'s mutable index by a range without
/// end, not proved here: it gives the part of the vector from `start` on, as
/// a slice that can be written through and keeps its length. It panics
/// where `start` is beyond the length.
#[verifier::external_body]
pub(crate) fn tail_mut(bytes: &mut Vec<u8>, start: usize) -> (tail: &mut [u8])
    requires
        start <= old(bytes)@.len(),
    ensures
        tail@ == old(bytes)@.subrange(start as int, old(bytes)@.len() as int),
        final(tail)@.len() == tail@.len(),
        final(bytes)@ == old(bytes)@.subrange(0, start as int) + final(tail)@,
{
    &mut bytes[start..]
}

/// A buffer of fixed size. Bytes come in behind the filled ones, through
/// `unfilled_mut` and `advance`, and leave at the front, through `filled`
/// and `discard`.
pub struct Buffer {
    buf: Vec<u8>,
    fill: usize,
}

impl View for Buffer {
    type V = BufferView;

    closed spec fn view(&self) -> BufferView {
        BufferView { bytes: self.buf@, fill: self.fill as int }
    }
}

impl Buffer {
    /// No more bytes are filled than the buffer has.
    pub open spec fn wf(&self) -> bool {
        self@.wf()
    }

    /// An empty buffer of `size` zero bytes.
    pub fn new(size: usize) -> (buffer: Buffer)
        ensures
            buffer.wf(),
            buffer@ == (BufferView { bytes: zeros(size as int), fill: 0 }),
    {
        let buffer = Buffer { buf: vec![0u8; size], fill: 0 };
        assert(buffer.buf@ =~= zeros(size as int));
        buffer
    }

    /// The size that the buffer was made with.
    pub fn capacity(&self) -> (size: usize)
        ensures
            size == self@.bytes.len(),
    {
        self.buf.len()
    }

    /// How many bytes are filled.
    pub fn filled_len(&self) -> (len: usize)
        ensures
            len == self@.fill,
    {
        self.fill
    }

    /// How many more bytes the buffer can take.
    pub fn unfilled_len(&self) -> (len: usize)
        requires
            self.wf(),
        ensures
            len == self@.bytes.len() - self@.fill,
    {
        self.buf.len() - self.fill
    }

    /// The first `bytes` bytes of the buffer.
    pub fn leading(&self, bytes: usize) -> (front: &[u8])
        requires
            bytes <= self@.bytes.len(),
        ensures
            front@ == self@.bytes.subrange(0, bytes as int),
    {
        vstd::slice::slice_subrange(self.buf.as_slice(), 0, bytes)
    }

    /// The filled bytes.
    pub fn filled(&self) -> (front: &[u8])
        requires
            self.wf(),
        ensures
            front@ == self@.filled(),
    {
        self.leading(self.fill)
    }

    /// The room behind the filled bytes, to be written to. What is written
    /// there counts once `advance` has been told of it.
    pub fn unfilled_mut(&mut self) -> (room: &mut [u8])
        requires
            old(self).wf(),
        ensures
            room@ == old(self)@.unfilled(),
            final(room)@.len() == room@.len(),
            final(self)@ == (BufferView {
                bytes: old(self)@.filled() + final(room)@,
                fill: old(self)@.fill,
            }),
    {
        let fill = self.fill;
        tail_mut(&mut self.buf, fill)
    }

    /// Counts the first `count` bytes of the room as filled.
    pub fn advance(&mut self, count: usize)
        requires
            old(self).wf(),
            count <= old(self)@.bytes.len() - old(self)@.fill,
        ensures
            final(self).wf(),
            final(self)@ == old(self)@.advance(count as int),
            final(self)@.filled() == old(self)@.filled() + old(self)@.unfilled().subrange(
                0,
                count as int,
            ),
    {
        self.fill += count;
    }

    /// Discards the given number of bytes from the front of the buffer and
    /// shifts the remaining bytes to the left by that much. The room behind
    /// them is zeroed, so that it never shows bytes that were discarded.
    pub fn discard(&mut self, count: usize)
        requires
            old(self).wf(),
            count <= old(self)@.fill,
        ensures
            final(self).wf(),
            final(self)@ == old(self)@.discard(count as int),
            final(self)@.bytes.len() == old(self)@.bytes.len(),
            final(self)@.filled() == old(self)@.filled().subrange(
                count as int,
                old(self)@.fill,
            ),
            forall|k: int|
                final(self)@.fill <= k < final(self)@.bytes.len() ==> final(self)@.bytes[k] == 0,
    {
        let ghost before = self.buf@;
        let size = self.buf.len();
        let remaining = self.fill - count;
        for idx in 0..remaining
            invariant
                remaining + count <= size,
                self.buf@.len() == size,
                before.len() == size,
                forall|k: int| 0 <= k < idx ==> self.buf@[k] == before[k + count],
                forall|k: int| idx <= k < size ==> self.buf@[k] == before[k],
        {
            let byte = self.buf[idx + count];
            self.buf[idx] = byte;
        }
        for idx in remaining..size
            invariant
                remaining <= size,
                self.buf@.len() == size,
                forall|k: int| 0 <= k < remaining ==> self.buf@[k] == before[k + count],
                forall|k: int| remaining <= k < idx ==> self.buf@[k] == 0,
        {
            self.buf[idx] = 0;
        }
        self.fill = remaining;
        proof {
            assert(self@.bytes =~= old(self)@.discard(count as int).bytes);
        }
    }

    /// Drops what the parser cannot read: the filled bytes up to the next
    /// `{` behind the first byte, or all of them where there is none.
    /// Returns the bytes that were dropped.
    pub fn resync(&mut self) -> (dropped: Vec<u8>)
        requires
            old(self).wf(),
        ensures
            final(self).wf(),
            dropped@ == old(self)@.filled().subrange(0, resync_point(old(self)@.filled())),
            final(self)@ == old(self)@.discard(resync_point(old(self)@.filled())),
            old(self)@.fill > 0 ==> final(self)@.fill < old(self)@.fill,
            final(self)@.fill > 0 ==> final(self)@.bytes[0] == 0x7b,
    {
        let count = self.resync_len();
        proof {
            lemma_resync_progress(self@.filled());
        }
        let dropped = vstd::slice::slice_to_vec(self.leading(count));
        self.discard(count);
        dropped
    }

    /// How many bytes `resync` would drop.
    pub fn resync_len(&self) -> (count: usize)
        requires
            self.wf(),
        ensures
            count == resync_point(self@.filled()),
            count <= self@.fill,
    {
        let ghost filled = self@.filled();
        if self.fill == 0 {
            return 0;
        }
        let mut at: usize = 1;
        while at < self.fill && self.buf[at] != 0x7b
            invariant
                self.wf(),
                filled == self@.filled(),
                1 <= at <= self.fill,
                find_brace(filled, at as int) == find_brace(filled, 1),
            decreases self.fill - at,
        {
            at += 1;
        }
        at
    }
}

} // verus!

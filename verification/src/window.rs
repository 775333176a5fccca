//! The sliding-window block buffer: a fixed-capacity, ordered collection of
//! data blocks backed by a sequential byte stream. The send path tops the
//! buffer up from the stream (`fill`) and drops acknowledged blocks from the
//! front (`remove`); the receive path appends arriving blocks (`add`) and
//! flushes them to the stream in order (`empty`).
//!
//! The stream is held as plain bytes (`FileBuf`); reading it from disk and
//! writing it back are the caller's concern, outside this crate.

use vstd::prelude::*;

verus! {

/// The byte views of the buffered blocks, oldest first.
pub open spec fn byte_views(v: Seq<Vec<u8>>) -> Seq<Seq<u8>> {
    Seq::new(v.len(), |i: int| v[i]@)
}

/// All the given block contents laid end to end, in order.
pub open spec fn concat_all(ss: Seq<Seq<u8>>) -> Seq<u8>
    decreases ss.len(),
{
    if ss.len() == 0 {
        Seq::empty()
    } else {
        ss[0] + concat_all(ss.drop_first())
    }
}

/// The total number of bytes across the given block contents.
pub open spec fn total_len(ss: Seq<Seq<u8>>) -> nat
    decreases ss.len(),
{
    if ss.len() == 0 {
        0
    } else {
        ss[0].len() + total_len(ss.drop_first())
    }
}

/// The blocks a `fill` call cuts from the remaining stream bytes `rem` with
/// block size `blk` and `room` free slots, and whether the stream was
/// exhausted: full blocks are taken until the buffer is full or fewer than
/// `blk` bytes remain; in the latter case the remainder (possibly empty)
/// becomes one final short block and the stream is exhausted.
pub open spec fn fill_chunks(rem: Seq<u8>, blk: nat, room: nat) -> (Seq<Seq<u8>>, bool)
    decreases room,
{
    if room == 0 {
        (Seq::empty(), false)
    } else if rem.len() < blk {
        (seq![rem], true)
    } else {
        let rest = fill_chunks(rem.skip(blk as int), blk, (room - 1) as nat);
        (seq![rem.take(blk as int)] + rest.0, rest.1)
    }
}

pub proof fn lemma_total_len_push(ss: Seq<Seq<u8>>, x: Seq<u8>)
    ensures
        total_len(ss.push(x)) == total_len(ss) + x.len(),
    decreases ss.len(),
{
    if ss.len() == 0 {
        assert(ss.push(x)[0] == x);
        assert(ss.push(x).drop_first() =~= Seq::<Seq<u8>>::empty());
        assert(total_len(Seq::<Seq<u8>>::empty()) == 0);
        assert(total_len(ss.push(x)) == x.len() + total_len(ss.push(x).drop_first()));
    } else {
        assert(ss.push(x)[0] == ss[0]);
        assert(ss.push(x).drop_first() =~= ss.drop_first().push(x));
        lemma_total_len_push(ss.drop_first(), x);
        assert(total_len(ss.push(x)) == ss[0].len() + total_len(ss.push(x).drop_first()));
    }
}

pub proof fn lemma_concat_all_push(ss: Seq<Seq<u8>>, x: Seq<u8>)
    ensures
        concat_all(ss.push(x)) == concat_all(ss) + x,
    decreases ss.len(),
{
    if ss.len() == 0 {
        assert(ss.push(x)[0] == x);
        assert(ss.push(x).drop_first() =~= Seq::<Seq<u8>>::empty());
        assert(concat_all(Seq::<Seq<u8>>::empty()) == Seq::<u8>::empty());
        assert(concat_all(ss.push(x)) == x + concat_all(ss.push(x).drop_first()));
        assert(concat_all(ss.push(x)) =~= concat_all(ss) + x);
    } else {
        assert(ss.push(x)[0] == ss[0]);
        assert(ss.push(x).drop_first() =~= ss.drop_first().push(x));
        lemma_concat_all_push(ss.drop_first(), x);
        assert(concat_all(ss.push(x)) == ss[0] + concat_all(ss.push(x).drop_first()));
        assert(concat_all(ss.push(x)) =~= concat_all(ss) + x);
    }
}

/// Progress of a fill: with at least one free slot, a fill either exhausts
/// the stream — every remaining byte is buffered and end-of-file is
/// reported — or it packs the whole free room with full blocks of `blk`
/// bytes each. The stream is finite, so along any run whose windows are
/// acknowledged and drained, finitely many rounds reach the fill that
/// reports end-of-file; once that window too is drained, end-of-file with
/// an empty buffer — exactly the send path's stopping condition — holds,
/// and conversely the send path stops only then.
pub proof fn lemma_fill_progress(rem: Seq<u8>, blk: nat, room: nat)
    requires
        blk >= 1,
        room >= 1,
    ensures
        fill_chunks(rem, blk, room).1 ==> total_len(fill_chunks(rem, blk, room).0) == rem.len(),
        !fill_chunks(rem, blk, room).1 ==> fill_chunks(rem, blk, room).0.len() == room
            && total_len(fill_chunks(rem, blk, room).0) == room * blk,
    decreases room,
{
    let fc = fill_chunks(rem, blk, room);
    if rem.len() < blk {
        assert(fc.0 == seq![rem]);
        assert(fc.0[0] == rem);
        assert(fc.0.drop_first() =~= Seq::<Seq<u8>>::empty());
        assert(total_len(Seq::<Seq<u8>>::empty()) == 0);
        assert(total_len(fc.0) == rem.len());
    } else {
        let rest = fill_chunks(rem.skip(blk as int), blk, (room - 1) as nat);
        assert(fc.0 == seq![rem.take(blk as int)] + rest.0);
        assert(fc.0[0] == rem.take(blk as int));
        assert(fc.0.drop_first() =~= rest.0);
        assert(total_len(fc.0) == blk + total_len(rest.0));
        if room == 1 {
            assert(rest.0 =~= Seq::<Seq<u8>>::empty());
            assert(total_len(rest.0) == 0);
            assert(!fc.1);
            assert(room * blk == blk) by (nonlinear_arith)
                requires
                    room == 1,
            ;
        } else {
            lemma_fill_progress(rem.skip(blk as int), blk, (room - 1) as nat);
            if fc.1 {
                assert(total_len(rest.0) == rem.skip(blk as int).len());
            } else {
                assert(total_len(rest.0) == (room - 1) * blk);
                assert(blk + (room - 1) * blk == room * blk) by (nonlinear_arith)
                    requires
                        room >= 1,
                ;
            }
        }
    }
}

/// A failed buffer operation: `Full` from `add` on a buffer already holding
/// `windowsize` blocks, `Range` from `remove` of more blocks than are held.
#[derive(PartialEq, Eq, Structural, Clone, Copy, Debug)]
pub enum WindowError {
    Full,
    Range,
}

/// A sequential byte stream standing for the backing file: `data` is its
/// whole content, `pos` the read cursor (writes append at the end).
pub struct FileBuf {
    pub data: Vec<u8>,
    pub pos: usize,
}

impl FileBuf {
    /// A stream positioned at the start of the given bytes, for reading.
    pub fn for_reading(data: Vec<u8>) -> (r: FileBuf)
        ensures
            r.data@ == data@,
            r.pos == 0,
    {
        FileBuf { data, pos: 0 }
    }

    /// An empty stream, for writing.
    pub fn for_writing() -> (r: FileBuf)
        ensures
            r.data@.len() == 0,
            r.pos == 0,
    {
        FileBuf { data: Vec::new(), pos: 0 }
    }
}

/// The sliding-window block buffer.
pub struct Window {
    pub entries: Vec<Vec<u8>>,
    pub windowsize: u16,
    pub blk_size: usize,
    pub file: FileBuf,
    pub eof: bool,
}

impl Window {
    /// Structural soundness: at most `windowsize` blocks are held, none is
    /// longer than `blk_size`, only the last may be shorter, and the read
    /// cursor lies within the stream.
    pub open spec fn wf(self) -> bool {
        &&& self.blk_size >= 1
        &&& self.windowsize >= 1
        &&& self.entries@.len() <= self.windowsize as int
        &&& forall|i: int|
            0 <= i < self.entries@.len() ==> (#[trigger] self.entries@[i])@.len()
                <= self.blk_size as int
        &&& forall|i: int|
            0 <= i < self.entries@.len() - 1 ==> (#[trigger] self.entries@[i])@.len()
                == self.blk_size as int
        &&& self.file.pos <= self.file.data@.len()
    }

    /// Every held block is exactly `blk_size` bytes long.
    pub open spec fn all_full(self) -> bool {
        forall|i: int|
            0 <= i < self.entries@.len() ==> (#[trigger] self.entries@[i])@.len()
                == self.blk_size as int
    }

    /// The window's shape is shared: same capacity and same block size.
    pub open spec fn same_config(self, other: Window) -> bool {
        &&& self.windowsize == other.windowsize
        &&& self.blk_size == other.blk_size
    }

    /// A fresh, empty buffer over the given stream.
    pub fn new(windowsize: u16, blk_size: usize, file: FileBuf) -> (w: Window)
        requires
            windowsize >= 1,
            blk_size >= 1,
            file.pos <= file.data@.len(),
        ensures
            w.wf(),
            w.entries@.len() == 0,
            w.windowsize == windowsize,
            w.blk_size == blk_size,
            w.file.data@ == file.data@,
            w.file.pos == file.pos,
            !w.eof,
    {
        Window { entries: Vec::new(), windowsize, blk_size, file, eof: false }
    }

    /// How many blocks are currently held.
    pub fn len(&self) -> (r: usize)
        ensures
            r == self.entries@.len(),
    {
        self.entries.len()
    }

    /// Whether the buffer holds `windowsize` blocks.
    pub fn is_full(&self) -> (r: bool)
        ensures
            r == (self.entries@.len() == self.windowsize as int),
    {
        self.entries.len() == self.windowsize as usize
    }

    /// Whether the buffer holds no blocks.
    pub fn is_empty(&self) -> (r: bool)
        ensures
            r == (self.entries@.len() == 0),
    {
        self.entries.len() == 0
    }

    /// Whether a `fill` call has exhausted the backing stream.
    pub fn reached_eof(&self) -> (r: bool)
        ensures
            r == self.eof,
    {
        self.eof
    }

    /// The held blocks, oldest first, for retransmission; the buffer is not
    /// changed.
    pub fn get_elements(&self) -> (r: &Vec<Vec<u8>>)
        ensures
            r@ == self.entries@,
    {
        &self.entries
    }

    /// Appends one received block at the tail, or reports `Full` and changes
    /// nothing when the buffer already holds `windowsize` blocks.
    pub fn add(&mut self, data: Vec<u8>) -> (r: Result<(), WindowError>)
        requires
            old(self).wf(),
            data@.len() <= old(self).blk_size,
            old(self).all_full(),
        ensures
            final(self).wf(),
            old(self).same_config(*final(self)),
            final(self).file.data@ == old(self).file.data@,
            final(self).file.pos == old(self).file.pos,
            final(self).eof == old(self).eof,
            old(self).entries@.len() < old(self).windowsize as int ==> r == Ok::<(), WindowError>(
                (),
            ) && byte_views(final(self).entries@) == byte_views(old(self).entries@).push(data@),
            old(self).entries@.len() < old(self).windowsize as int && data@.len() == old(
                self,
            ).blk_size ==> final(self).all_full(),
            old(self).entries@.len() == old(self).windowsize as int ==> r == Err::<(), WindowError>(
                WindowError::Full,
            ) && final(self).entries@ == old(self).entries@,
    {
        if self.entries.len() == self.windowsize as usize {
            Err(WindowError::Full)
        } else {
            let ghost pre = self.entries@;
            self.entries.push(data);
            proof {
                assert(byte_views(self.entries@) =~= byte_views(pre).push(self.entries@.last()@));
                if data@.len() == self.blk_size {
                    assert forall|i: int| 0 <= i < self.entries@.len() implies (
                    #[trigger] self.entries@[i])@.len() == self.blk_size as int by {
                        if i < pre.len() {
                            assert(pre[i]@.len() == self.blk_size as int);
                        }
                    }
                }
            }
            Ok(())
        }
    }

    /// Drops the first `n` blocks (the oldest, just acknowledged) and shifts
    /// the rest to the front, or reports `Range` and changes nothing when
    /// fewer than `n` blocks are held.
    pub fn remove(&mut self, n: usize) -> (r: Result<(), WindowError>)
        requires
            old(self).wf(),
        ensures
            final(self).wf(),
            old(self).same_config(*final(self)),
            final(self).file.data@ == old(self).file.data@,
            final(self).file.pos == old(self).file.pos,
            final(self).eof == old(self).eof,
            n <= old(self).entries@.len() ==> r == Ok::<(), WindowError>(()) && byte_views(
                final(self).entries@,
            ) == byte_views(old(self).entries@).skip(n as int),
            n > old(self).entries@.len() ==> r == Err::<(), WindowError>(WindowError::Range)
                && final(self).entries@ == old(self).entries@,
            old(self).all_full() ==> final(self).all_full(),
    {
        if n > self.entries.len() {
            return Err(WindowError::Range);
        }
        let mut i: usize = 0;
        while i < n
            invariant
                i <= n,
                n <= old(self).entries@.len(),
                self.windowsize == old(self).windowsize,
                self.blk_size == old(self).blk_size,
                self.file.data@ == old(self).file.data@,
                self.file.pos == old(self).file.pos,
                self.eof == old(self).eof,
                self.entries@ =~= old(self).entries@.skip(i as int),
            decreases n - i,
        {
            self.entries.remove(0);
            proof {
                assert(self.entries@ =~= old(self).entries@.skip(i + 1));
            }
            i = i + 1;
        }
        proof {
            assert(byte_views(self.entries@) =~= byte_views(old(self).entries@).skip(n as int));
        }
        Ok(())
    }

    /// Writes every held block to the stream in order, oldest first, and
    /// clears the buffer.
    pub fn empty(&mut self)
        requires
            old(self).wf(),
        ensures
            final(self).wf(),
            old(self).same_config(*final(self)),
            final(self).file.pos == old(self).file.pos,
            final(self).eof == old(self).eof,
            final(self).entries@.len() == 0,
            final(self).file.data@ == old(self).file.data@ + concat_all(
                byte_views(old(self).entries@),
            ),
    {
        let ghost total = byte_views(old(self).entries@);
        let ghost k: int = 0;
        while self.entries.len() > 0
            invariant
                0 <= k <= total.len(),
                self.windowsize == old(self).windowsize,
                self.blk_size == old(self).blk_size,
                self.file.pos == old(self).file.pos,
                self.eof == old(self).eof,
                total == byte_views(old(self).entries@),
                self.entries@ =~= old(self).entries@.skip(k),
                self.file.data@ == old(self).file.data@ + concat_all(total.take(k)),
                old(self).wf(),
            decreases total.len() - k,
        {
            let mut e: Vec<u8> = self.entries.remove(0);
            self.file.data.append(&mut e);
            proof {
                assert(total.take(k + 1) =~= total.take(k).push(total[k]));
                lemma_concat_all_push(total.take(k), total[k]);
                assert(self.entries@ =~= old(self).entries@.skip(k + 1));
                k = k + 1;
            }
        }
        proof {
            assert(old(self).entries@.skip(k).len() == 0);
            assert(k == total.len());
            assert(total.take(k) =~= total);
        }
    }

    /// Tops the buffer up to `windowsize` blocks by cutting `blk_size`-byte
    /// blocks from the stream; a final shorter block (possibly empty) marks
    /// the stream exhausted. Returns whether the stream was exhausted, now or
    /// by an earlier call; after exhaustion nothing more is ever read.
    pub fn fill(&mut self) -> (eof: bool)
        requires
            old(self).wf(),
            old(self).eof || old(self).all_full(),
        ensures
            final(self).wf(),
            old(self).same_config(*final(self)),
            final(self).file.data@ == old(self).file.data@,
            eof == final(self).eof,
            old(self).eof ==> *final(self) == *old(self) && eof,
            !old(self).eof ==> {
                let fc = fill_chunks(
                    old(self).file.data@.skip(old(self).file.pos as int),
                    old(self).blk_size as nat,
                    (old(self).windowsize as int - old(self).entries@.len()) as nat,
                );
                &&& byte_views(final(self).entries@) == byte_views(old(self).entries@) + fc.0
                &&& final(self).file.pos == old(self).file.pos + total_len(fc.0)
                &&& final(self).eof == fc.1
                &&& (!final(self).eof ==> final(self).all_full())
            },
    {
        if self.eof {
            return true;
        }
        let ghost rem0: Seq<u8> = self.file.data@.skip(self.file.pos as int);
        let ghost blk: nat = self.blk_size as nat;
        let ghost target = fill_chunks(
            rem0,
            blk,
            (self.windowsize as int - self.entries@.len()) as nat,
        );
        let ghost added: Seq<Seq<u8>> = Seq::empty();
        let len_now: usize = self.file.data.len();
        proof {
            assert(self.file.data@.len() == len_now);
            assert(byte_views(self.entries@) =~= byte_views(old(self).entries@) + added);
        }
        while !self.eof && self.entries.len() < self.windowsize as usize
            invariant
                self.windowsize == old(self).windowsize,
                self.blk_size == old(self).blk_size,
                self.blk_size >= 1,
                self.windowsize >= 1,
                blk == self.blk_size as nat,
                self.file.data@ == old(self).file.data@,
                self.file.data@.len() <= usize::MAX,
                rem0 == old(self).file.data@.skip(old(self).file.pos as int),
                target == fill_chunks(
                    rem0,
                    blk,
                    (old(self).windowsize as int - old(self).entries@.len()) as nat,
                ),
                old(self).file.pos <= self.file.pos <= self.file.data@.len(),
                self.entries@.len() <= self.windowsize as int,
                byte_views(self.entries@) == byte_views(old(self).entries@) + added,
                self.file.pos == old(self).file.pos + total_len(added),
                !self.eof ==> {
                    let sub = fill_chunks(
                        self.file.data@.skip(self.file.pos as int),
                        blk,
                        (self.windowsize as int - self.entries@.len()) as nat,
                    );
                    target.0 == added + sub.0 && target.1 == sub.1
                },
                self.eof ==> target.0 == added && target.1,
                !self.eof ==> self.all_full(),
                self.eof ==> forall|i: int|
                    0 <= i < self.entries@.len() - 1 ==> (#[trigger] self.entries@[i])@.len()
                        == self.blk_size as int,
                forall|i: int|
                    0 <= i < self.entries@.len() ==> (#[trigger] self.entries@[i])@.len()
                        <= self.blk_size as int,
            decreases self.file.data@.len() - self.file.pos + 1 - (if self.eof {
                1int
            } else {
                0int
            }),
        {
            let ghost cur_rem: Seq<u8> = self.file.data@.skip(self.file.pos as int);
            let ghost room: nat = (self.windowsize as int - self.entries@.len()) as nat;
            let rem: usize = self.file.data.len() - self.file.pos;
            let take: usize = if rem < self.blk_size {
                rem
            } else {
                self.blk_size
            };
            let p: usize = self.file.pos;
            let mut chunk: Vec<u8> = Vec::new();
            let mut i: usize = 0;
            while i < take
                invariant
                    i <= take,
                    p + take <= self.file.data@.len(),
                    self.file.data@.len() <= usize::MAX,
                    chunk@ =~= self.file.data@.subrange(p as int, p + i),
                decreases take - i,
            {
                let b: u8 = self.file.data[p + i];
                chunk.push(b);
                i = i + 1;
            }
            proof {
                assert(chunk@ =~= cur_rem.take(take as int));
            }
            self.file.pos = p + take;
            let ghost pre = self.entries@;
            self.entries.push(chunk);
            proof {
                assert(byte_views(self.entries@) =~= byte_views(pre).push(chunk@));
                lemma_total_len_push(added, chunk@);
                assert(byte_views(self.entries@) =~= byte_views(old(self).entries@) + added.push(
                    chunk@,
                ));
            }
            if take < self.blk_size {
                self.eof = true;
                proof {
                    assert(cur_rem.len() < blk);
                    assert(chunk@ =~= cur_rem);
                    let sub = fill_chunks(cur_rem, blk, room);
                    assert(sub.0 == seq![cur_rem] && sub.1);
                    assert(target.0 =~= added.push(chunk@));
                    added = added.push(chunk@);
                }
            } else {
                proof {
                    assert(cur_rem.len() >= blk);
                    let sub = fill_chunks(cur_rem, blk, room);
                    let subn = fill_chunks(cur_rem.skip(blk as int), blk, (room - 1) as nat);
                    assert(sub.0 == seq![cur_rem.take(blk as int)] + subn.0 && sub.1 == subn.1);
                    assert(cur_rem.skip(blk as int) =~= self.file.data@.skip(
                        self.file.pos as int,
                    ));
                    added = added.push(chunk@);
                    assert(target.0 =~= added + subn.0);
                }
            }
        }
        proof {
            if !self.eof {
                let sub = fill_chunks(
                    self.file.data@.skip(self.file.pos as int),
                    blk,
                    (self.windowsize as int - self.entries@.len()) as nat,
                );
                assert(sub.0 =~= Seq::<Seq<u8>>::empty());
                assert(target.0 =~= added);
            }
        }
        self.eof
    }
}

}

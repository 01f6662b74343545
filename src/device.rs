use vstd::prelude::*;

use crate::error::Error;
use crate::laws::lemma_seek_idempotent;
use crate::layout::zeroed;
use crate::source::{fetched, iadd, resolve, Access, Block, SeekFrom, Stream};
use crate::window::{
    lemma_read_advances, read_accesses, read_window, seek_moves, seek_probes, seek_window, Window,
};

verus! {

/// A reader whose calls on its source are made in whole blocks, while its callers read
/// and seek byte by byte. It keeps one block of cache, which survives seeks that stay
/// within it.
pub struct Device<R> {
    inner: R,
    buf: Vec<u8>,
    pos: usize,
    cap: usize,
    log: Ghost<Seq<Access>>,
}

/// The name under which the device is also known.
pub type BlockDevice<R> = Device<R>;

impl<R: Stream> Device<R> {
    /// The underlying source.
    pub closed spec fn source(&self) -> R {
        self.inner
    }

    /// The block size.
    pub closed spec fn block(&self) -> nat {
        self.buf@.len()
    }

    /// The state of the cache.
    pub closed spec fn window(&self) -> Window {
        Window { raw: self.inner.cursor(), cap: self.cap as nat, pos: self.pos as nat }
    }

    /// The calls made on the device through `Stream`.
    pub closed spec fn history(&self) -> Seq<Access> {
        self.log@
    }

    /// The device with its source replaced.
    pub closed spec fn with_source(self, s: R) -> Self {
        Device { inner: s, ..self }
    }

    /// The device is well formed: its window has the shape that `Window::fits` gives, the
    /// cached bytes are those of the source just before its file pointer, and every
    /// position fits in a `u64`.
    pub closed spec fn wf(&self) -> bool {
        &&& self.inner.valid()
        &&& self.window().fits(self.block(), self.content().len())
        &&& self.content().len() <= u64::MAX
        &&& self.inner.cursor() <= u64::MAX
        &&& self.window().at() <= u64::MAX
        &&& self.cap > 0 ==> self.buf@.subrange(0, self.cap as int) == self.content().subrange(
            self.inner.cursor() - self.cap,
            self.inner.cursor() as int,
        )
    }

    /// A well-formed device holds data, and shows a position, that fit in a `u64`.
    pub proof fn lemma_bounds(&self)
        requires
            self.wf(),
        ensures
            self.content().len() <= u64::MAX,
            self.cursor() <= u64::MAX,
            self.block() > 0,
    {
    }

    /// Creates a device with the given block size over `inner`. The block size must be a
    /// positive multiple of the block size that `inner` reports; else this fails with
    /// `InvalidInput`, or with the error of `inner` where it cannot report one.
    pub fn with_block_size(inner: R, block_size: usize) -> (r: Result<Self, Error>)
        requires
            inner.valid(),
            inner.content().len() <= u64::MAX,
            inner.cursor() <= u64::MAX,
        ensures
            r is Ok <==> block_size > 0 && inner.unit() > 0 && block_size as nat % inner.unit() == 0,
            inner.unit() > 0 && !(block_size > 0 && block_size as nat % inner.unit() == 0) ==> r
                == Err::<Self, Error>(Error::InvalidInput),
            r matches Ok(d) ==> {
                &&& d.wf()
                &&& d.source() == inner
                &&& d.block() == block_size
                &&& d.window() == (Window { raw: inner.cursor(), cap: 0, pos: 0 })
                &&& d.history() == Seq::<Access>::empty()
            },
    {
        let unit = match inner.get_block_size() {
            Ok(u) => u,
            Err(e) => {
                return Err(e);
            },
        };
        if block_size == 0 || block_size % unit != 0 {
            return Err(Error::InvalidInput);
        }
        Ok(Device { inner, buf: zeroed(block_size), pos: 0, cap: 0, log: Ghost(Seq::empty()) })
    }

    /// Creates a device whose block size is the one that `inner` reports.
    pub fn new(inner: R) -> (r: Result<Self, Error>)
        requires
            inner.valid(),
            inner.content().len() <= u64::MAX,
            inner.cursor() <= u64::MAX,
        ensures
            r is Ok <==> inner.unit() > 0,
            r matches Ok(d) ==> {
                &&& d.wf()
                &&& d.source() == inner
                &&& d.block() == inner.unit()
                &&& d.window() == (Window { raw: inner.cursor(), cap: 0, pos: 0 })
                &&& d.history() == Seq::<Access>::empty()
            },
    {
        let block_size = match inner.get_block_size() {
            Ok(b) => b,
            Err(e) => {
                return Err(e);
            },
        };
        Self::with_block_size(inner, block_size)
    }

    /// Gets a reference to the underlying source.
    pub fn get_ref(&self) -> (r: &R)
        ensures
            *r == self.source(),
    {
        &self.inner
    }

    /// Gets a mutable reference to the underlying source. Moving the source's file pointer
    /// through it invalidates the device's view of the cache.
    pub fn get_mut(&mut self) -> (r: &mut R)
        ensures
            *r == old(self).source(),
            *final(self) == old(self).with_source(*final(r)),
    {
        &mut self.inner
    }

    /// Unwraps the device, returning the underlying source.
    pub fn into_inner(self) -> (r: R)
        ensures
            r == self.source(),
            self.wf() ==> r.valid() && r.cursor() <= u64::MAX && r.content().len() <= u64::MAX,
    {
        self.inner
    }

    /// The cached bytes not yet read.
    pub fn buffer(&self) -> (r: &[u8])
        requires
            self.wf(),
        ensures
            !self.window().drained() ==> r@ == self.content().subrange(
                self.window().at(),
                self.window().raw as int,
            ),
            self.window().drained() ==> r@.len() == 0,
    {
        if self.pos >= self.cap {
            vstd::slice::slice_subrange(self.buf.as_slice(), 0, 0)
        } else {
            let r = vstd::slice::slice_subrange(self.buf.as_slice(), self.pos, self.cap);
            proof {
                let c = self.cap as int;
                let p = self.pos as int;
                let raw = self.inner.cursor() as int;
                assert(self.buf@.subrange(p, c) =~= self.buf@.subrange(0, c).subrange(p, c));
                assert(self.content().subrange(raw - c + p, raw) =~= self.content().subrange(
                    raw - c,
                    raw,
                ).subrange(p, c));
            }
            r
        }
    }

    /// Drops the cached bytes.
    fn discard_buffer(&mut self)
        ensures
            final(self).inner == old(self).inner,
            final(self).buf == old(self).buf,
            final(self).pos == 0,
            final(self).cap == 0,
            final(self).log == old(self).log,
    {
        self.pos = 0;
        self.cap = 0;
    }

    /// Reads one block from the source into the cache.
    fn fill(&mut self) -> (r: Result<(), Error>)
        requires
            old(self).wf(),
            old(self).pos == old(self).cap,
        ensures
            final(self).wf(),
            final(self).block() == old(self).block(),
            final(self).history() == old(self).history(),
            final(self).content() == old(self).content(),
            final(self).source().reliable() == old(self).source().reliable(),
            final(self).source().unit() == old(self).source().unit(),
            final(self).source().trace() == old(self).source().trace().push(
                Access::Read(old(self).block() as usize),
            ),
            old(self).source().reliable() ==> r is Ok,
            r is Ok ==> final(self).window() == ({
                let n = fetched(
                    old(self).content().len(),
                    old(self).source().cursor(),
                    old(self).block(),
                );
                Window { raw: old(self).source().cursor() + n, cap: n, pos: 0 }
            }),
    {
        self.discard_buffer();
        match self.inner.read(self.buf.as_mut_slice()) {
            Ok(n) => {
                self.cap = n;
                self.pos = 0;
                Ok(())
            },
            Err(e) => Err(e),
        }
    }

    /// Fills the cache from the source if it holds no unread byte.
    pub fn fill_buf(&mut self) -> (r: Result<(), Error>)
        requires
            old(self).wf(),
        ensures
            final(self).wf(),
            final(self).block() == old(self).block(),
            final(self).history() == old(self).history(),
            final(self).content() == old(self).content(),
            final(self).source().reliable() == old(self).source().reliable(),
            final(self).source().unit() == old(self).source().unit(),
            old(self).source().reliable() ==> r is Ok,
            !old(self).window().drained() ==> *final(self) == *old(self) && r is Ok,
            old(self).window().pos == old(self).window().cap && r is Ok ==> final(self).window()
                == ({
                let w = old(self).window();
                let n = fetched(old(self).content().len(), w.raw, old(self).block());
                Window { raw: w.raw + n, cap: n, pos: 0 }
            }),
            old(self).window().pos > old(self).window().cap ==> *final(self) == *old(self),
    {
        if self.pos == self.cap {
            self.fill()
        } else {
            Ok(())
        }
    }

    /// Marks `amt` cached bytes as read.
    pub fn consume(&mut self, amt: usize)
        requires
            old(self).wf(),
            old(self).window().pos <= old(self).window().cap,
        ensures
            final(self).wf(),
            final(self).source() == old(self).source(),
            final(self).block() == old(self).block(),
            final(self).history() == old(self).history(),
            final(self).window() == (Window {
                pos: if old(self).window().pos + amt <= old(self).window().cap {
                    (old(self).window().pos + amt) as nat
                } else {
                    old(self).window().cap
                },
                ..old(self).window()
            }),
    {
        if amt <= self.cap - self.pos {
            self.pos = self.pos + amt;
        } else {
            self.pos = self.cap;
        }
    }

    /// Reads into `dst` and returns how many bytes were read.
    ///
    /// An empty `dst` reads nothing. Where the cache is drained and `dst` is longer than a
    /// block, the largest whole number of blocks is read straight from the source. Otherwise
    /// the cache is filled with one block if it is drained, and the bytes come from it.
    pub fn read(&mut self, dst: &mut [u8]) -> (r: Result<usize, Error>)
        requires
            old(self).wf(),
        ensures
            final(self).wf(),
            final(self).block() == old(self).block(),
            final(self).history() == old(self).history(),
            final(self).content() == old(self).content(),
            final(self).source().reliable() == old(self).source().reliable(),
            final(self).source().unit() == old(self).source().unit(),
            final(dst)@.len() == old(dst)@.len(),
            final(self).source().trace() == old(self).source().trace() + read_accesses(
                old(self).window(),
                old(dst)@.len(),
                old(self).block(),
            ),
            old(self).source().reliable() ==> r is Ok,
            match r {
                Ok(n) => {
                    &&& (final(self).window(), n as nat) == read_window(
                        old(self).window(),
                        old(dst)@.len(),
                        old(self).block(),
                        old(self).content().len(),
                    )
                    &&& n > 0 ==> final(dst)@.subrange(0, n as int) == old(self).content().subrange(
                        old(self).cursor() as int,
                        old(self).cursor() + n,
                    )
                },
                Err(_) => true,
            },
    {
        if dst.len() == 0 {
            return Ok(0);
        }
        let bs = self.buf.len();
        if self.pos == self.cap && dst.len() > bs {
            let aligned = dst.len() - dst.len() % bs;
            self.discard_buffer();
            let (head, _rest) = dst.split_at_mut(aligned);
            return self.inner.read(head);
        }
        if self.pos > self.cap {
            return Ok(0);
        }
        if self.pos == self.cap {
            match self.fill() {
                Ok(()) => {},
                Err(e) => {
                    return Err(e);
                },
            }
        }
        let avail = self.cap - self.pos;
        let k: usize = if dst.len() <= avail {
            dst.len()
        } else {
            avail
        };
        let ghost raw = self.inner.cursor() as int;
        let ghost c = self.cap as int;
        let ghost p = self.pos as int;
        let mut i: usize = 0;
        while i < k
            invariant
                self.wf(),
                i <= k,
                k <= avail,
                avail == self.cap - self.pos,
                self.pos as int == p,
                self.cap as int == c,
                self.inner.cursor() == raw,
                dst@.len() == old(dst)@.len(),
                k <= dst@.len(),
                forall|j: int| 0 <= j < i ==> dst@[j] == self.buf@[p + j],
            decreases k - i,
        {
            dst[i] = self.buf[self.pos + i];
            i = i + 1;
        }
        proof {
            if k > 0 {
                assert(dst@.subrange(0, k as int) =~= self.buf@.subrange(0, c).subrange(p, p + k));
                assert(self.content().subrange(raw - c + p, raw - c + p + k) =~= self.content().subrange(
                    raw - c,
                    raw,
                ).subrange(p, p + k));
            }
        }
        self.pos = self.pos + k;
        Ok(k)
    }

    /// Reads exactly `dst.len()` bytes, as many reads as it takes. Fails with
    /// `UnexpectedEof` where the source ends first.
    pub fn read_exact(&mut self, dst: &mut [u8]) -> (r: Result<(), Error>)
        requires
            old(self).wf(),
        ensures
            final(self).wf(),
            final(self).block() == old(self).block(),
            final(self).history() == old(self).history(),
            final(self).content() == old(self).content(),
            final(self).source().reliable() == old(self).source().reliable(),
            final(self).source().unit() == old(self).source().unit(),
            final(dst)@.len() == old(dst)@.len(),
            old(self).source().reliable() ==> (r is Ok <==> (old(dst)@.len() == 0 || old(
                self,
            ).cursor() + old(dst)@.len() <= old(self).content().len())),
            old(self).source().reliable() && old(dst)@.len() > 0 && old(self).cursor() + old(
                dst,
            )@.len() > old(self).content().len() ==> r == Err::<(), Error>(Error::UnexpectedEof),
            r is Ok ==> final(self).cursor() == old(self).cursor() + old(dst)@.len(),
            r is Ok && old(dst)@.len() > 0 ==> final(dst)@ == old(self).content().subrange(
                old(self).cursor() as int,
                (old(self).cursor() + old(dst)@.len()) as int,
            ),
    {
        let ghost at0 = self.cursor();
        let ghost content = self.content();
        let ghost reliable = self.inner.reliable();
        let ghost bs = self.block();
        let total = dst.len();
        let mut filled: usize = 0;
        while filled < total
            invariant
                self.wf(),
                bs == old(self).block(),
                content == old(self).content(),
                reliable == old(self).source().reliable(),
                self.inner.unit() == old(self).source().unit(),
                self.history() == old(self).history(),
                at0 == old(self).cursor(),
                at0 >= 0,
                self.block() == bs,
                self.content() == content,
                self.inner.reliable() == reliable,
                dst@.len() == total,
                total == old(dst)@.len(),
                filled <= total,
                self.cursor() == at0 + filled,
                filled > 0 ==> at0 + filled <= content.len(),
                filled > 0 ==> dst@.subrange(0, filled as int) == content.subrange(
                    at0 as int,
                    at0 + filled,
                ),
            decreases total - filled,
        {
            let ghost before = dst@;
            let ghost w = self.window();
            proof {
                lemma_read_advances(w, (total - filled) as nat, bs, content.len());
            }
            let (_, rest) = dst.split_at_mut(filled);
            assert(rest@.len() == total - filled);
            let n = match self.read(rest) {
                Ok(n) => n,
                Err(e) => {
                    return Err(e);
                },
            };
            if n == 0 {
                return Err(Error::UnexpectedEof);
            }
            assert(at0 + filled + n <= content.len());
            proof {
                assert(dst@.subrange(0, filled as int) =~= before.subrange(0, filled as int));
                if filled == 0 {
                    assert(dst@.subrange(0, 0) =~= content.subrange(at0 as int, at0 as int));
                }
                assert(dst@.subrange(0, filled + n) =~= dst@.subrange(0, filled as int)
                    + dst@.subrange(filled as int, filled + n));
                assert(content.subrange(at0 as int, at0 + filled + n) =~= content.subrange(
                    at0 as int,
                    at0 + filled,
                ) + content.subrange(at0 + filled, at0 + filled + n));
            }
            filled = filled + n;
        }
        assert(total > 0 ==> dst@ =~= dst@.subrange(0, total as int));
        Ok(())
    }

    /// Learns where the source stands and resolves the target of a seek, leaving the
    /// source's file pointer where it was.
    fn locate(&mut self, to: SeekFrom) -> (r: Result<(u64, u64), Error>)
        requires
            old(self).wf(),
        ensures
            final(self).wf(),
            final(self).block() == old(self).block(),
            final(self).history() == old(self).history(),
            final(self).content() == old(self).content(),
            final(self).source().reliable() == old(self).source().reliable(),
            final(self).source().unit() == old(self).source().unit(),
            final(self).source().trace() == old(self).source().trace() + seek_probes(
                old(self).window(),
                to,
            ) || r is Err,
            old(self).source().reliable() ==> (r is Ok <==> resolve(
                to,
                old(self).cursor() as nat,
                old(self).content().len(),
            ) is Some),
            old(self).source().reliable() && resolve(
                to,
                old(self).cursor() as nat,
                old(self).content().len(),
            ) is None ==> r == Err::<(u64, u64), Error>(Error::InvalidInput),
            r matches Ok((t, m)) ==> {
                &&& resolve(to, old(self).cursor() as nat, old(self).content().len()) == Some(
                    t as nat,
                )
                &&& final(self).window() == old(self).window()
                &&& m == old(self).source().cursor()
            },
    {
        let ghost trace0 = self.inner.trace();
        let ghost w = self.window();
        let maximum = match self.inner.seek(SeekFrom::Current(0)) {
            Ok(p) => p,
            Err(e) => {
                self.discard_buffer();
                return Err(e);
            },
        };
        let current = maximum - self.cap as u64 + self.pos as u64;
        let target = match to {
            SeekFrom::Current(n) => {
                assert(self.inner.trace() =~= trace0 + seek_probes(w, to));
                iadd(current, n)
            },
            SeekFrom::Start(n) => {
                assert(self.inner.trace() =~= trace0 + seek_probes(w, to));
                Ok(n)
            },
            SeekFrom::End(n) => {
                let end = match self.inner.seek(SeekFrom::End(0)) {
                    Ok(e) => e,
                    Err(e) => {
                        self.discard_buffer();
                        return Err(e);
                    },
                };
                match self.inner.seek(SeekFrom::Start(maximum)) {
                    Ok(_) => {},
                    Err(e) => {
                        self.discard_buffer();
                        return Err(e);
                    },
                }
                assert(self.inner.trace() =~= trace0 + seek_probes(w, to));
                iadd(end, n)
            },
        };
        match target {
            Ok(t) => Ok((t, maximum)),
            Err(e) => Err(e),
        }
    }

    /// Moves the position that the device shows to `target`, where the source's file
    /// pointer stands at `maximum`.
    fn reposition(&mut self, target: u64, maximum: u64) -> (r: Result<(), Error>)
        requires
            old(self).wf(),
            maximum == old(self).source().cursor(),
        ensures
            final(self).wf(),
            final(self).block() == old(self).block(),
            final(self).history() == old(self).history(),
            final(self).content() == old(self).content(),
            final(self).source().reliable() == old(self).source().reliable(),
            final(self).source().unit() == old(self).source().unit(),
            old(self).source().reliable() ==> r is Ok,
            r is Ok ==> final(self).window() == seek_window(
                old(self).window(),
                target as nat,
                old(self).block(),
                old(self).content().len(),
            ),
            r is Ok ==> final(self).source().trace() == old(self).source().trace() + seek_moves(
                old(self).window(),
                target as nat,
                old(self).block(),
            ),
    {
        let ghost w = self.window();
        let ghost bs = self.block();
        let ghost trace0 = self.inner.trace();
        let minimum = maximum - self.cap as u64;
        let current = minimum + self.pos as u64;
        if target == current {
            assert(seek_moves(w, target as nat, bs) =~= seq![]);
            return Ok(());
        }
        if target < minimum || target > maximum {
            let bsz = self.buf.len() as u64;
            let offset = target % bsz;
            assert(offset <= target) by (nonlinear_arith)
                requires
                    offset == target % bsz,
                    bsz > 0,
            ;
            let aligned = target - offset;
            self.discard_buffer();
            if aligned != maximum {
                match self.inner.seek(SeekFrom::Start(aligned)) {
                    Ok(_) => {},
                    Err(e) => {
                        return Err(e);
                    },
                }
            }
            if offset > 0 {
                match self.fill() {
                    Ok(()) => {},
                    Err(e) => {
                        return Err(e);
                    },
                }
                self.pos = offset as usize;
            }
            proof {
                let go: Seq<Access> = if aligned != maximum {
                    seq![Access::Seek(SeekFrom::Start(aligned))]
                } else {
                    seq![]
                };
                let fill: Seq<Access> = if offset > 0 {
                    seq![Access::Read(bs as usize)]
                } else {
                    seq![]
                };
                assert(seek_moves(w, target as nat, bs) == go + fill);
                assert(self.inner.trace() =~= trace0 + (go + fill));
            }
        } else {
            self.pos = (target - minimum) as usize;
            assert(seek_moves(w, target as nat, bs) =~= seq![]);
        }
        Ok(())
    }

    /// Moves the position that the device shows, and returns it.
    ///
    /// The source's file pointer is asked for first; a seek from the end also asks for the
    /// end and puts the pointer back. A target in the closed window of the cache only moves
    /// the read position. Any other target drops the cache and moves the source to the
    /// start of the block that holds the target; where the target is not that start, the
    /// block is read into the cache. A target outside the range of a `u64` fails with
    /// `InvalidInput`.
    pub fn seek(&mut self, to: SeekFrom) -> (r: Result<u64, Error>)
        requires
            old(self).wf(),
        ensures
            final(self).wf(),
            final(self).block() == old(self).block(),
            final(self).history() == old(self).history(),
            final(self).content() == old(self).content(),
            final(self).source().reliable() == old(self).source().reliable(),
            final(self).source().unit() == old(self).source().unit(),
            old(self).source().reliable() ==> (r is Ok <==> resolve(
                to,
                old(self).cursor() as nat,
                old(self).content().len(),
            ) is Some),
            old(self).source().reliable() && resolve(
                to,
                old(self).cursor() as nat,
                old(self).content().len(),
            ) is None ==> r == Err::<u64, Error>(Error::InvalidInput),
            r matches Ok(t) ==> {
                &&& resolve(to, old(self).cursor() as nat, old(self).content().len()) == Some(
                    t as nat,
                )
                &&& final(self).window() == seek_window(
                    old(self).window(),
                    t as nat,
                    old(self).block(),
                    old(self).content().len(),
                )
                &&& final(self).source().trace() == old(self).source().trace() + seek_probes(
                    old(self).window(),
                    to,
                ) + seek_moves(old(self).window(), t as nat, old(self).block())
                &&& final(self).cursor() == t
            },
    {
        let (target, maximum) = match self.locate(to) {
            Ok(found) => found,
            Err(e) => {
                return Err(e);
            },
        };
        proof {
            lemma_seek_idempotent(self.window(), target as nat, self.block(), self.content().len());
        }
        match self.reposition(target, maximum) {
            Ok(()) => Ok(target),
            Err(e) => Err(e),
        }
    }
}

impl<R: Stream> Stream for Device<R> {
    open spec fn content(&self) -> Seq<u8> {
        self.source().content()
    }

    open spec fn cursor(&self) -> nat {
        self.window().at() as nat
    }

    open spec fn trace(&self) -> Seq<Access> {
        self.history()
    }

    open spec fn reliable(&self) -> bool {
        self.source().reliable()
    }

    open spec fn valid(&self) -> bool {
        self.wf()
    }

    /// Reads until `dst` is full or the data ends, as many device reads as it takes.
    fn read(&mut self, dst: &mut [u8]) -> (r: Result<usize, Error>) {
        let ghost at0 = self.cursor();
        let ghost content = self.content();
        let ghost bs = self.block();
        let ghost log0 = self.history();
        let total = dst.len();
        let mut filled: usize = 0;
        while filled < total
            invariant
                self.wf(),
                bs == old(self).block(),
                content == old(self).content(),
                at0 == old(self).cursor(),
                log0 == old(self).history(),
                self.block() == bs,
                self.content() == content,
                self.history() == log0,
                self.source().reliable() == old(self).source().reliable(),
                self.source().unit() == old(self).source().unit(),
                dst@.len() == total,
                total == old(dst)@.len(),
                filled <= total,
                self.cursor() == at0 + filled,
                filled > 0 ==> at0 + filled <= content.len(),
                filled > 0 ==> dst@.subrange(0, filled as int) == content.subrange(
                    at0 as int,
                    at0 + filled,
                ),
            decreases total - filled,
        {
            let ghost before = dst@;
            let ghost w = self.window();
            proof {
                lemma_read_advances(w, (total - filled) as nat, bs, content.len());
            }
            let (_, rest) = dst.split_at_mut(filled);
            assert(rest@.len() == total - filled);
            let n = match Device::<R>::read(self, rest) {
                Ok(n) => n,
                Err(e) => {
                    self.log = Ghost(self.log@.push(Access::Read(total)));
                    return Err(e);
                },
            };
            if n == 0 {
                assert(at0 + filled >= content.len());
                self.log = Ghost(self.log@.push(Access::Read(total)));
                return Ok(filled);
            }
            assert(at0 + filled + n <= content.len());
            proof {
                assert(dst@.subrange(0, filled as int) =~= before.subrange(0, filled as int));
                if filled == 0 {
                    assert(dst@.subrange(0, 0) =~= content.subrange(at0 as int, at0 as int));
                }
                assert(dst@.subrange(0, filled + n) =~= dst@.subrange(0, filled as int)
                    + dst@.subrange(filled as int, filled + n));
                assert(content.subrange(at0 as int, at0 + filled + n) =~= content.subrange(
                    at0 as int,
                    at0 + filled,
                ) + content.subrange(at0 + filled, at0 + filled + n));
            }
            filled = filled + n;
        }
        self.log = Ghost(self.log@.push(Access::Read(total)));
        Ok(filled)
    }

    fn seek(&mut self, to: SeekFrom) -> (r: Result<u64, Error>) {
        let r = Device::<R>::seek(self, to);
        self.log = Ghost(self.log@.push(Access::Seek(to)));
        r
    }
}

impl<R: Stream> Block for Device<R> {
    open spec fn unit(&self) -> nat {
        self.block()
    }

    fn get_block_size(&self) -> (r: Result<usize, Error>) {
        if self.buf.len() == 0 {
            Err(Error::InvalidInput)
        } else {
            Ok(self.buf.len())
        }
    }
}

} // verus!

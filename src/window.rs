use vstd::prelude::*;

use crate::source::{fetched, Access, SeekFrom};

verus! {

/// The state of an aligned device's one-block cache: the file pointer `raw` of the
/// underlying source, the number `cap` of bytes cached (the bytes just before `raw`), and
/// the read position `pos` within them.
pub struct Window {
    pub raw: nat,
    pub cap: nat,
    pub pos: nat,
}

impl Window {
    /// Where the cached bytes start on the source.
    pub open spec fn start(self) -> int {
        self.raw - self.cap
    }

    /// The position that the device shows to its callers.
    pub open spec fn at(self) -> int {
        self.raw - self.cap + self.pos
    }

    /// Whether the cache holds no unread byte.
    pub open spec fn drained(self) -> bool {
        self.pos >= self.cap
    }

    /// The shape that a device keeps between calls, over `len` bytes with block size `bs`:
    /// the cache fits in one block and lies within the data, and the read position passes
    /// the cached bytes only at the end of the data.
    pub open spec fn fits(self, bs: nat, len: nat) -> bool {
        &&& bs > 0
        &&& self.cap <= bs
        &&& self.pos <= bs
        &&& self.cap <= self.raw
        &&& self.cap > 0 ==> self.raw <= len
        &&& self.pos > self.cap ==> self.raw >= len
    }
}

/// The window after a read of `want` bytes, with the number of bytes read.
///
/// An empty read does nothing. A read of more than a block into a drained cache bypasses
/// it and reads the largest whole number of blocks straight from the source. Otherwise a
/// drained cache is first filled with one block, and the read is served from it.
pub open spec fn read_window(w: Window, want: nat, bs: nat, len: nat) -> (Window, nat) {
    if want == 0 {
        (w, 0)
    } else if w.pos == w.cap && want > bs {
        let n = fetched(len, w.raw, (want - want % bs) as nat);
        (Window { raw: w.raw + n, cap: 0, pos: 0 }, n)
    } else if w.pos > w.cap {
        (w, 0)
    } else {
        let v = if w.pos == w.cap {
            let n = fetched(len, w.raw, bs);
            Window { raw: w.raw + n, cap: n, pos: 0 }
        } else {
            w
        };
        let k: nat = if want <= v.cap - v.pos {
            want
        } else {
            (v.cap - v.pos) as nat
        };
        (Window { pos: v.pos + k, ..v }, k)
    }
}

/// The calls that a read of `want` bytes makes on the source.
pub open spec fn read_accesses(w: Window, want: nat, bs: nat) -> Seq<Access> {
    if want == 0 || w.pos > w.cap {
        seq![]
    } else if w.pos == w.cap && want > bs {
        seq![Access::Read((want - want % bs) as usize)]
    } else if w.pos == w.cap {
        seq![Access::Read(bs as usize)]
    } else {
        seq![]
    }
}

/// Whether `target` lies in the closed window of the cache, from its first byte to the
/// source's file pointer.
pub open spec fn in_window(w: Window, target: nat) -> bool {
    w.start() <= target <= w.raw
}

/// The window after a seek to `target`.
///
/// A target in the window only moves the read position. Any other target drops the cache
/// and moves the source to the block that holds it; where the target is not at the start
/// of that block, the block is read into the cache.
pub open spec fn seek_window(w: Window, target: nat, bs: nat, len: nat) -> Window {
    if target == w.at() {
        w
    } else if in_window(w, target) {
        Window { pos: (target - w.start()) as nat, ..w }
    } else if target % bs > 0 {
        let aligned = (target - target % bs) as nat;
        let n = fetched(len, aligned, bs);
        Window { raw: aligned + n, cap: n, pos: target % bs }
    } else {
        Window { raw: target, cap: 0, pos: 0 }
    }
}

/// The calls by which a seek learns where the source stands: it asks for the file
/// pointer, and for a seek from the end it also asks for the end and goes back.
pub open spec fn seek_probes(w: Window, to: SeekFrom) -> Seq<Access> {
    if to is End {
        seq![
            Access::Seek(SeekFrom::Current(0)),
            Access::Seek(SeekFrom::End(0)),
            Access::Seek(SeekFrom::Start(w.raw as u64)),
        ]
    } else {
        seq![Access::Seek(SeekFrom::Current(0))]
    }
}

/// The calls by which a seek to `target` moves the source and refills the cache.
pub open spec fn seek_moves(w: Window, target: nat, bs: nat) -> Seq<Access> {
    if target == w.at() || in_window(w, target) {
        seq![]
    } else {
        let aligned = (target - target % bs) as nat;
        let go: Seq<Access> = if aligned != w.raw {
            seq![Access::Seek(SeekFrom::Start(aligned as u64))]
        } else {
            seq![]
        };
        let fill: Seq<Access> = if target % bs > 0 {
            seq![Access::Read(bs as usize)]
        } else {
            seq![]
        };
        go + fill
    }
}

/// A read moves the shown position by the number of bytes it returns, returns no more than
/// was asked for, keeps the window's shape, and returns nothing exactly when nothing was
/// asked for or the position is at or past the end of the data.
pub proof fn lemma_read_advances(w: Window, want: nat, bs: nat, len: nat)
    requires
        w.fits(bs, len),
    ensures
        read_window(w, want, bs, len).0.at() == w.at() + read_window(w, want, bs, len).1,
        read_window(w, want, bs, len).1 <= want,
        read_window(w, want, bs, len).0.fits(bs, len),
        read_window(w, want, bs, len).1 == 0 <==> (want == 0 || w.at() >= len),
        w.at() + read_window(w, want, bs, len).1 <= len || read_window(w, want, bs, len).1 == 0,
{
}

} // verus!

use vstd::arithmetic::div_mod::{lemma_fundamental_div_mod, lemma_mod_multiples_basic};
use vstd::prelude::*;

use crate::source::{resolve, Access, SeekFrom};
use crate::window::{
    in_window, lemma_read_advances, read_accesses, read_window, seek_moves, seek_probes,
    seek_window, Window,
};

verus! {

/// The length of a read, or the offset that a seek names.
pub open spec fn extent(a: Access) -> int {
    match a {
        Access::Read(n) => n as int,
        Access::Seek(SeekFrom::Start(k)) => k as int,
        Access::Seek(SeekFrom::End(d)) => d as int,
        Access::Seek(SeekFrom::Current(d)) => d as int,
    }
}

/// Whether a call on a source is a whole number of blocks long or lands on a block boundary.
pub open spec fn block_aligned(a: Access, bs: nat) -> bool {
    extent(a) % (bs as int) == 0
}

/// Rounding down to a block boundary gives a multiple of the block size.
pub proof fn lemma_round_down(x: int, bs: int)
    requires
        x >= 0,
        bs > 0,
    ensures
        (x - x % bs) % bs == 0,
        0 <= x % bs < bs,
        0 <= x - x % bs <= x,
{
    lemma_fundamental_div_mod(x, bs);
    lemma_mod_multiples_basic(x / bs, bs);
    assert(x - x % bs == (x / bs) * bs) by (nonlinear_arith)
        requires
            x == bs * (x / bs) + (x % bs),
    ;
}

/// Every read that a read on the device makes on its source is a whole number of blocks.
pub proof fn lemma_read_aligned(w: Window, want: nat, bs: nat)
    requires
        bs > 0,
        bs <= usize::MAX,
        want <= usize::MAX,
    ensures
        forall|i: int|
            0 <= i < read_accesses(w, want, bs).len() ==> #[trigger] block_aligned(
                read_accesses(w, want, bs)[i],
                bs,
            ),
{
    lemma_round_down(want as int, bs as int);
    lemma_mod_multiples_basic(1, bs as int);
}

/// Every call that a seek on the device makes on its source asks for a position without
/// moving (an offset of zero), goes back to where the file pointer stood, or goes to a
/// block boundary. So where the file pointer stood on a block boundary, every call lands
/// on one.
pub proof fn lemma_seek_aligned(w: Window, to: SeekFrom, target: nat, bs: nat)
    requires
        bs > 0,
        bs <= usize::MAX,
        w.raw <= u64::MAX,
        target <= u64::MAX,
    ensures
        forall|i: int|
            0 <= i < (seek_probes(w, to) + seek_moves(w, target, bs)).len() ==> {
                let a = #[trigger] (seek_probes(w, to) + seek_moves(w, target, bs))[i];
                block_aligned(a, bs) || a == Access::Seek(SeekFrom::Start(w.raw as u64))
            },
        w.raw % bs == 0 ==> forall|i: int|
            0 <= i < (seek_probes(w, to) + seek_moves(w, target, bs)).len()
                ==> #[trigger] block_aligned(
                (seek_probes(w, to) + seek_moves(w, target, bs))[i],
                bs,
            ),
{
    lemma_round_down(target as int, bs as int);
    lemma_mod_multiples_basic(0, bs as int);
    lemma_mod_multiples_basic(1, bs as int);
    let s = seek_probes(w, to) + seek_moves(w, target, bs);
    assert forall|i: int| 0 <= i < s.len() implies {
        let a = #[trigger] s[i];
        block_aligned(a, bs) || a == Access::Seek(SeekFrom::Start(w.raw as u64))
    } by {
        if i >= seek_probes(w, to).len() {
            let j = i - seek_probes(w, to).len();
            assert(s[i] == seek_moves(w, target, bs)[j]);
        }
    }
}

/// Sums and differences of multiples of `bs` are multiples of `bs`.
pub proof fn lemma_aligned_combine(a: int, b: int, bs: int)
    requires
        bs > 0,
        a % bs == 0,
        b % bs == 0,
    ensures
        (a + b) % bs == 0,
        (a - b) % bs == 0,
{
    lemma_fundamental_div_mod(a, bs);
    lemma_fundamental_div_mod(b, bs);
    let p = a / bs;
    let q = b / bs;
    assert(a + b == (p + q) * bs) by (nonlinear_arith)
        requires
            a == bs * p + 0,
            b == bs * q + 0,
    ;
    assert(a - b == (p - q) * bs) by (nonlinear_arith)
        requires
            a == bs * p + 0,
            b == bs * q + 0,
    ;
    lemma_mod_multiples_basic(p + q, bs);
    lemma_mod_multiples_basic(p - q, bs);
}

/// Over data whose length is a whole number of blocks, a file pointer on a block boundary
/// stays on one through every read and every seek. Together with `lemma_read_aligned` and
/// `lemma_seek_aligned`, every call that the device makes on such a source, over any
/// sequence of reads and seeks, is then block aligned.
pub proof fn lemma_raw_stays_aligned(w: Window, want: nat, target: nat, bs: nat, len: nat)
    requires
        w.fits(bs, len),
        w.raw % bs == 0,
        len % bs == 0,
    ensures
        read_window(w, want, bs, len).0.raw % bs == 0,
        seek_window(w, target, bs, len).raw % bs == 0,
{
    let b = bs as int;
    lemma_round_down(want as int, b);
    lemma_round_down(target as int, b);
    let whole = (want - want % bs) as int;
    let aligned = (target - target % bs) as int;
    if w.raw < len {
        lemma_aligned_combine(len as int, w.raw as int, b);
        lemma_aligned_combine(w.raw as int, whole, b);
        lemma_aligned_combine(w.raw as int, b, b);
        lemma_mod_multiples_basic(1, b);
    }
    if aligned < len {
        lemma_aligned_combine(len as int, aligned, b);
        lemma_mod_multiples_basic(1, b);
        lemma_aligned_combine(aligned, b, b);
    }
}

/// A device of block size `n` stacked on a source whose block size `m` divides `n` (which
/// the device's construction checks) keeps the source's alignment: every call aligned to
/// `n` is aligned to `m`. A device is itself a source, so when it is stacked on another
/// device of block size `m`, the calls that the outer one makes on the inner one are
/// aligned to both sizes, and the inner one's calls on its own source are aligned to `m`.
pub proof fn lemma_stacked_alignment(a: Access, n: nat, m: nat)
    requires
        m > 0,
        n > 0,
        n % m == 0,
        block_aligned(a, n),
    ensures
        block_aligned(a, m),
{
    let x = extent(a);
    lemma_fundamental_div_mod(x, n as int);
    lemma_fundamental_div_mod(n as int, m as int);
    let q = x / (n as int);
    let p = (n as int) / (m as int);
    assert(x == (p * q) * (m as int)) by (nonlinear_arith)
        requires
            x == (n as int) * q + 0,
            n as int == (m as int) * p + 0,
    ;
    lemma_mod_multiples_basic(p * q, m as int);
}

/// After a seek, the device shows the target; a second seek to the same target changes
/// nothing and moves nothing on the source.
pub proof fn lemma_seek_idempotent(w: Window, target: nat, bs: nat, len: nat)
    requires
        w.fits(bs, len),
    ensures
        seek_window(w, target, bs, len).at() == target,
        seek_window(w, target, bs, len).fits(bs, len),
        seek_window(seek_window(w, target, bs, len), target, bs, len) == seek_window(
            w,
            target,
            bs,
            len,
        ),
        seek_moves(seek_window(w, target, bs, len), target, bs) == Seq::<Access>::empty(),
{
    lemma_round_down(target as int, bs as int);
}

/// A seek to a target in the closed window of the cache keeps the cache and the source's
/// file pointer, moves nothing on the source, and a read after it is served from the
/// cached bytes.
pub proof fn lemma_seek_in_window(w: Window, target: nat, bs: nat, len: nat, want: nat)
    requires
        w.fits(bs, len),
        in_window(w, target),
    ensures
        seek_moves(w, target, bs) == Seq::<Access>::empty(),
        seek_window(w, target, bs, len).raw == w.raw,
        seek_window(w, target, bs, len).cap == w.cap,
        seek_window(w, target, bs, len).at() == target,
        target < w.raw ==> read_accesses(seek_window(w, target, bs, len), want, bs)
            == Seq::<Access>::empty(),
{
}

/// A seek forward past the cached block, by less than a block and short of the end of the
/// data, followed by a read shorter than a block, reads exactly one block from the source.
pub proof fn lemma_forward_reseek(w: Window, target: nat, bs: nat, len: nat, want: nat)
    requires
        w.fits(bs, len),
        w.raw < target < w.raw + bs,
        target < len,
        0 < want < bs,
    ensures
        ({
            let aligned = (target - target % bs) as nat;
            let go: Seq<Access> = if aligned != w.raw {
                seq![Access::Seek(SeekFrom::Start(aligned as u64))]
            } else {
                seq![]
            };
            seek_moves(w, target, bs) + read_accesses(seek_window(w, target, bs, len), want, bs)
                == go + seq![Access::Read(bs as usize)]
        }),
{
    lemma_round_down(target as int, bs as int);
    let aligned = (target - target % bs) as nat;
    let v = seek_window(w, target, bs, len);
    if target % bs > 0 {
        assert(read_accesses(v, want, bs) =~= Seq::<Access>::empty());
    }
    assert(seek_moves(w, target, bs) + read_accesses(v, want, bs) =~= (if aligned != w.raw {
        seq![Access::Seek(SeekFrom::Start(aligned as u64))]
    } else {
        seq![]
    }) + seq![Access::Read(bs as usize)]);
}

/// A read of no bytes returns nothing, leaves the device as it was, and makes no call on
/// the source.
pub proof fn lemma_empty_read(w: Window, bs: nat, len: nat)
    ensures
        read_window(w, 0, bs, len) == (w, 0nat),
        read_accesses(w, 0, bs) == Seq::<Access>::empty(),
{
}

/// A read at or past the end of the data returns nothing and leaves the shown position.
pub proof fn lemma_read_at_end(w: Window, want: nat, bs: nat, len: nat)
    requires
        w.fits(bs, len),
        w.at() >= len,
    ensures
        read_window(w, want, bs, len).1 == 0,
        read_window(w, want, bs, len).0.at() == w.at(),
{
    lemma_read_advances(w, want, bs, len);
}

/// A seek to the end returns the length of the data; the file pointer is put back after
/// the end is asked for, and the seek then leaves it where it was or at the end of a cached
/// block that starts on a block boundary.
pub proof fn lemma_seek_end(w: Window, bs: nat, len: nat, current: nat)
    requires
        w.fits(bs, len),
        len <= u64::MAX,
    ensures
        resolve(SeekFrom::End(0), current, len) == Some(len),
        seek_probes(w, SeekFrom::End(0)).last() == Access::Seek(SeekFrom::Start(w.raw as u64)),
        seek_window(w, len, bs, len).at() == len,
        seek_window(w, len, bs, len).raw == w.raw || seek_window(w, len, bs, len).start() % (
        bs as int) == 0,
{
    lemma_round_down(len as int, bs as int);
    lemma_seek_idempotent(w, len, bs, len);
}

} // verus!

use vstd::prelude::*;

use crate::error::Error;

verus! {

/// Where a seek goes: an absolute offset, or a signed distance from the end or from the
/// current position.
#[derive(Clone, Copy, Debug, PartialEq, Eq, Structural)]
pub enum SeekFrom {
    Start(u64),
    End(i64),
    Current(i64),
}

/// One call made on a byte source: a read of the given length, or a seek.
#[derive(Clone, Copy, Debug, PartialEq, Eq, Structural)]
pub enum Access {
    Read(usize),
    Seek(SeekFrom),
}

/// `base + delta` when it is a byte offset that fits in a `u64`.
pub open spec fn offset_by(base: int, delta: int) -> Option<nat> {
    if 0 <= base + delta <= u64::MAX {
        Some((base + delta) as nat)
    } else {
        None
    }
}

/// The absolute offset that a seek names, from the current position and the length.
pub open spec fn resolve(to: SeekFrom, current: nat, end: nat) -> Option<nat> {
    match to {
        SeekFrom::Start(n) => Some(n as nat),
        SeekFrom::End(d) => offset_by(end as int, d as int),
        SeekFrom::Current(d) => offset_by(current as int, d as int),
    }
}

/// How many bytes a read of `want` bytes at `at` yields from `len` bytes of data: all that
/// were asked for, or all that remain.
pub open spec fn fetched(len: nat, at: nat, want: nat) -> nat {
    if at >= len {
        0
    } else if want <= len - at {
        want
    } else {
        (len - at) as nat
    }
}

/// Adds a signed distance to a byte offset; fails with `InvalidInput` when the sum leaves
/// the range of a `u64`.
pub fn iadd(lvalue: u64, rvalue: i64) -> (r: Result<u64, Error>)
    ensures
        match offset_by(lvalue as int, rvalue as int) {
            Some(v) => r == Ok::<u64, Error>(v as u64),
            None => r == Err::<u64, Error>(Error::InvalidInput),
        },
{
    let result = if rvalue >= 0 {
        lvalue.checked_add(rvalue as u64)
    } else {
        let magnitude: u64 = (-(rvalue + 1)) as u64 + 1;
        lvalue.checked_sub(magnitude)
    };
    match result {
        Some(value) => Ok(value),
        None => Err(Error::InvalidInput),
    }
}

/// The capability of reporting a block size: the unit in which the storage is addressed.
pub trait Block {
    /// The block size in bytes; zero where the storage cannot report it. A source outside
    /// the verified library keeps this default, and nothing is proved of it.
    closed spec fn unit(&self) -> nat {
        0
    }

    /// Gets the block size in bytes.
    fn get_block_size(&self) -> (r: Result<usize, Error>)
        ensures
            r is Ok <==> self.unit() > 0,
            r is Ok ==> r->Ok_0 == self.unit(),
    ;
}

/// A read-only, seekable byte source.
///
/// Its model is the bytes it holds, the position of its file pointer, the calls made on it
/// so far, and whether it is a source that never fails. A read returns every byte asked for
/// that lies before the end: the behaviour of a file or a block device. After a failed
/// call nothing is known of the file pointer.
pub trait Stream: Block {
    /// The bytes of the source. Each model below has a default for sources outside the
    /// verified library (a file); nothing is proved of those.
    closed spec fn content(&self) -> Seq<u8> {
        Seq::empty()
    }

    /// The position of the file pointer.
    closed spec fn cursor(&self) -> nat {
        0
    }

    /// The calls made on the source, oldest first.
    closed spec fn trace(&self) -> Seq<Access> {
        Seq::empty()
    }

    /// Whether every call on this source succeeds.
    closed spec fn reliable(&self) -> bool {
        false
    }

    /// Whether the source is in a state in which it can be read.
    closed spec fn valid(&self) -> bool {
        true
    }

    /// Reads from the file pointer into `dst`, and moves the pointer past what was read.
    fn read(&mut self, dst: &mut [u8]) -> (r: Result<usize, Error>)
        requires
            old(self).valid(),
        ensures
            final(self).valid(),
            final(self).cursor() <= u64::MAX,
            final(self).content() == old(self).content(),
            final(self).reliable() == old(self).reliable(),
            final(self).unit() == old(self).unit(),
            final(self).trace() == old(self).trace().push(Access::Read(old(dst)@.len() as usize)),
            final(dst)@.len() == old(dst)@.len(),
            old(self).reliable() ==> r is Ok,
            r matches Ok(n) ==> {
                &&& n == fetched(old(self).content().len(), old(self).cursor(), old(dst)@.len())
                &&& final(self).cursor() == old(self).cursor() + n
                &&& n > 0 ==> final(dst)@.subrange(0, n as int) == old(self).content().subrange(
                    old(self).cursor() as int,
                    old(self).cursor() + n,
                )
            },
    ;

    /// Moves the file pointer, and returns its new position.
    fn seek(&mut self, to: SeekFrom) -> (r: Result<u64, Error>)
        requires
            old(self).valid(),
        ensures
            final(self).valid(),
            final(self).cursor() <= u64::MAX,
            final(self).content() == old(self).content(),
            final(self).reliable() == old(self).reliable(),
            final(self).unit() == old(self).unit(),
            final(self).trace() == old(self).trace().push(Access::Seek(to)),
            old(self).reliable() ==> (r is Ok <==> resolve(
                to,
                old(self).cursor(),
                old(self).content().len(),
            ) is Some),
            r matches Ok(p) ==> {
                &&& resolve(to, old(self).cursor(), old(self).content().len()) == Some(p as nat)
                &&& final(self).cursor() == p
            },
    ;
}

} // verus!

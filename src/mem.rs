use vstd::prelude::*;

use crate::error::Error;
use crate::source::{iadd, Access, Block, SeekFrom, Stream};

verus! {

/// A byte source held in memory, which records every call made on it.
pub struct MemSource {
    data: Vec<u8>,
    pos: u64,
    block: usize,
    log: Vec<Access>,
}

impl MemSource {
    /// The bytes held.
    pub closed spec fn bytes(&self) -> Seq<u8> {
        self.data@
    }

    /// Creates a source over `data`, which reports `block_size` as its block size, with
    /// its file pointer at the start and no call recorded.
    pub fn new(data: Vec<u8>, block_size: usize) -> (r: MemSource)
        ensures
            r.content() == data@,
            r.cursor() == 0,
            r.trace() == Seq::<Access>::empty(),
            r.reliable(),
            r.valid(),
            r.unit() == block_size,
    {
        MemSource { data, pos: 0, block: block_size, log: Vec::new() }
    }

    /// The calls made on the source so far, oldest first.
    pub fn accesses(&self) -> (r: &Vec<Access>)
        ensures
            r@ == self.trace(),
    {
        &self.log
    }

    /// The position of the file pointer.
    pub fn position(&self) -> (r: u64)
        ensures
            r == self.cursor(),
    {
        self.pos
    }
}

impl Block for MemSource {
    closed spec fn unit(&self) -> nat {
        self.block as nat
    }


    fn get_block_size(&self) -> (r: Result<usize, Error>) {
        if self.block == 0 {
            Err(Error::InvalidInput)
        } else {
            Ok(self.block)
        }
    }
}

impl Stream for MemSource {
    closed spec fn content(&self) -> Seq<u8> {
        self.data@
    }

    closed spec fn cursor(&self) -> nat {
        self.pos as nat
    }

    closed spec fn trace(&self) -> Seq<Access> {
        self.log@
    }

    closed spec fn reliable(&self) -> bool {
        true
    }

    closed spec fn valid(&self) -> bool {
        true
    }

    fn read(&mut self, dst: &mut [u8]) -> (r: Result<usize, Error>) {
        self.log.push(Access::Read(dst.len()));
        let len = self.data.len();
        let n: usize = if self.pos >= len as u64 {
            0
        } else if dst.len() as u64 <= len as u64 - self.pos {
            dst.len()
        } else {
            (len as u64 - self.pos) as usize
        };
        let start: usize = if n == 0 { 0 } else { self.pos as usize };
        assert(n > 0 ==> start + n <= len);
        let mut i: usize = 0;
        while i < n
            invariant
                i <= n,
                n <= dst@.len(),
                n > 0 ==> start + n <= self.data@.len() && start == self.pos,
                self.data@.len() == len,
                dst@.len() == old(dst)@.len(),
                forall|k: int| 0 <= k < i ==> dst@[k] == self.data@[start + k],
            decreases n - i,
        {
            dst[i] = self.data[start + i];
            i = i + 1;
        }
        proof {
            assert(n > 0 ==> dst@.subrange(0, n as int) =~= self.data@.subrange(
                self.pos as int,
                self.pos + n,
            ));
        }
        self.pos = self.pos + n as u64;
        Ok(n)
    }

    fn seek(&mut self, to: SeekFrom) -> (r: Result<u64, Error>) {
        self.log.push(Access::Seek(to));
        let target = match to {
            SeekFrom::Start(n) => Ok(n),
            SeekFrom::End(d) => iadd(self.data.len() as u64, d),
            SeekFrom::Current(d) => iadd(self.pos, d),
        };
        match target {
            Ok(p) => {
                self.pos = p;
                Ok(p)
            },
            Err(e) => Err(e),
        }
    }
}

} // verus!

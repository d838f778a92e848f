//! Byte-exact access to a traced process's memory, built on a primitive that
//! moves one machine word per call.
use vstd::prelude::*;
use crate::general::MemoryAddress;

verus! {

/// Bytes moved by one call of the word primitive (the width of `c_long` on a
/// 64-bit target).
pub const WORD_SIZE: usize = 8;

/// The length covered by the whole words that an access of `n` bytes touches:
/// `n` rounded up to a multiple of the word size.
pub open spec fn span_len(n: int) -> int {
    if n % (WORD_SIZE as int) == 0 {
        n
    } else {
        n - n % (WORD_SIZE as int) + WORD_SIZE as int
    }
}

/// Every byte of `[start, start + len)` lies in the address space and can be
/// accessed.
pub open spec fn span_accessible(mem: Map<int, u8>, start: int, len: int) -> bool {
    &&& 0 <= start
    &&& start + len <= usize::MAX + 1
    &&& forall|i: int| start <= i < start + len ==> mem.dom().contains(i)
}

/// The `n` bytes of `mem` that start at `start`.
pub open spec fn bytes_at(mem: Map<int, u8>, start: int, n: int) -> Seq<u8> {
    Seq::new(n as nat, |i: int| mem[start + i])
}

/// `mem` with `data` stored from `start` on and every other byte kept.
pub open spec fn write_bytes(mem: Map<int, u8>, start: int, data: Seq<u8>) -> Map<int, u8> {
    Map::new(
        |i: int| mem.dom().contains(i),
        |i: int|
            if start <= i < start + data.len() {
                data[i - start]
            } else {
                mem[i]
            },
    )
}

/// What a write that stopped part way may leave: no address appears or
/// disappears, bytes outside `[start, start + data.len())` are kept, and each
/// byte inside holds either its old value or the new one.
pub open spec fn partly_written(old_mem: Map<int, u8>, new_mem: Map<int, u8>, start: int, data: Seq<u8>) -> bool {
    &&& new_mem.dom() == old_mem.dom()
    &&& forall|i: int|
        #![trigger new_mem[i]]
        new_mem.dom().contains(i) ==> (new_mem[i] == old_mem[i] || (start <= i < start + data.len()
            && new_mem[i] == data[i - start]))
}

/// A failed access to the traced process's memory.
#[derive(Debug, Clone, Copy, PartialEq, Eq, Structural)]
pub struct AccessError {
    /// The address of the word whose transfer failed.
    pub address: MemoryAddress,
    /// The operating system's error number, or 0 where there is none.
    pub code: i32,
}

/// Read and write access to the memory of one traced thread.
///
/// An implementor supplies the word primitive; byte-exact reads and writes of
/// any length come with it.
pub trait MemoryAccessor {
    /// The bytes of the traced address space that can be accessed.
    ///
    /// An implementor that does not describe its memory keeps this default,
    /// of which nothing is known.
    closed spec fn memory(&self) -> Map<int, u8> {
        arbitrary()
    }

    /// Reads the word that starts at `address`.
    fn read_word(&self, address: MemoryAddress) -> (r: Result<[u8; WORD_SIZE], AccessError>)
        ensures
            r is Ok <==> span_accessible(self.memory(), address@ as int, WORD_SIZE as int),
            r is Ok ==> r->Ok_0@ == bytes_at(self.memory(), address@ as int, WORD_SIZE as int),
            r is Err ==> r->Err_0.address == address,
    ;

    /// Writes the word that starts at `address`.
    fn write_word(&mut self, address: MemoryAddress, word: [u8; WORD_SIZE]) -> (r: Result<(), AccessError>)
        ensures
            r is Ok <==> span_accessible(old(self).memory(), address@ as int, WORD_SIZE as int),
            r is Ok ==> final(self).memory() == write_bytes(old(self).memory(), address@ as int, word@),
            r is Err ==> final(self).memory() == old(self).memory(),
            r is Err ==> r->Err_0.address == address,
    ;

    /// Reads the `N` bytes that start at `address`, one word at a time.
    fn read_memory<const N: usize>(&self, address: MemoryAddress) -> (r: Result<[u8; N], AccessError>)
        ensures
            r is Ok <==> span_accessible(self.memory(), address@ as int, span_len(N as int)),
            r is Ok ==> r->Ok_0@ == bytes_at(self.memory(), address@ as int, N as int),
    {
        let ghost mem = self.memory();
        let ghost start = address@ as int;
        let raw = address.as_raw();
        let mut res: [u8; N] = [0u8; N];
        let mut done: usize = 0;
        while done < N
            invariant
                mem == self.memory(),
                start == address@,
                raw == start,
                done <= N,
                done < N ==> done % WORD_SIZE == 0 && span_accessible(mem, start, done as int),
                done == N ==> span_accessible(mem, start, span_len(N as int)),
                forall|i: int| 0 <= i < done ==> res@[i] == mem[start + i],
            decreases N - done,
        {
            proof { lemma_word_in_span(N as int, done as int); }
            if raw > usize::MAX - done {
                return Err(AccessError { address, code: 0 });
            }
            let at = MemoryAddress::from_raw(raw + done);
            let word = match self.read_word(at) {
                Ok(w) => w,
                Err(e) => {
                    return Err(e);
                },
            };
            let take: usize = if N - done < WORD_SIZE {
                N - done
            } else {
                WORD_SIZE
            };
            let mut j: usize = 0;
            while j < take
                invariant
                    take <= WORD_SIZE,
                    done + take <= N,
                    j <= take,
                    word@ == bytes_at(mem, start + done, WORD_SIZE as int),
                    forall|i: int| 0 <= i < done + j ==> res@[i] == mem[start + i],
                decreases take - j,
            {
                res[done + j] = word[j];
                j = j + 1;
            }
            done = done + take;
        }
        Ok(res)
    }

    /// Writes `data` at `address` and leaves every other byte as it was.
    ///
    /// Whole words are written directly; a trailing part shorter than a word is
    /// spliced into the word read from memory before it is written back.
    /// `address` need not be aligned: words are taken at offsets from it.
    fn write_memory<const N: usize>(&mut self, address: MemoryAddress, data: [u8; N]) -> (r: Result<(), AccessError>)
        ensures
            r is Ok <==> span_accessible(old(self).memory(), address@ as int, span_len(N as int)),
            r is Ok ==> final(self).memory() == write_bytes(old(self).memory(), address@ as int, data@),
            r is Err ==> partly_written(old(self).memory(), final(self).memory(), address@ as int, data@),
    {
        let ghost mem = self.memory();
        let ghost start = address@ as int;
        let raw = address.as_raw();
        let mut done: usize = 0;
        while N - done >= WORD_SIZE
            invariant
                mem == old(self).memory(),
                start == address@,
                raw == start,
                done <= N,
                done % WORD_SIZE == 0,
                span_accessible(mem, start, done as int),
                self.memory() == write_bytes(mem, start, data@.take(done as int)),
            decreases N - done,
        {
            proof { lemma_word_in_span(N as int, done as int); }
            if raw > usize::MAX - done {
                proof { lemma_prefix_partly_written(mem, start, data@, done as int); }
                return Err(AccessError { address, code: 0 });
            }
            let mut word: [u8; WORD_SIZE] = [0u8; WORD_SIZE];
            let mut j: usize = 0;
            while j < WORD_SIZE
                invariant
                    done + WORD_SIZE <= N,
                    j <= WORD_SIZE,
                    forall|i: int| 0 <= i < j ==> word@[i] == data@[done + i],
                decreases WORD_SIZE - j,
            {
                word[j] = data[done + j];
                j = j + 1;
            }
            let at = MemoryAddress::from_raw(raw + done);
            let ghost before = self.memory();
            match self.write_word(at, word) {
                Ok(()) => {},
                Err(e) => {
                    proof { lemma_prefix_partly_written(mem, start, data@, done as int); }
                    return Err(e);
                },
            }
            proof {
                assert(before.dom() =~= mem.dom());
                assert(span_accessible(mem, start + done, WORD_SIZE as int));
                assert(word@ =~= data@.subrange(done as int, done + WORD_SIZE));
                assert(self.memory() =~= write_bytes(mem, start, data@.take(done + WORD_SIZE)));
            }
            done = done + WORD_SIZE;
        }
        if done < N {
            proof { lemma_word_in_span(N as int, done as int); }
            if raw > usize::MAX - done {
                proof { lemma_prefix_partly_written(mem, start, data@, done as int); }
                return Err(AccessError { address, code: 0 });
            }
            let at = MemoryAddress::from_raw(raw + done);
            let mut word = match self.read_word(at) {
                Ok(w) => w,
                Err(e) => {
                    proof { lemma_prefix_partly_written(mem, start, data@, done as int); }
                    return Err(e);
                },
            };
            let ghost current = word@;
            let ghost m1 = self.memory();
            let mut j: usize = 0;
            while j < N - done
                invariant
                    done < N,
                    N - done < WORD_SIZE,
                    j <= N - done,
                    forall|i: int| 0 <= i < j ==> word@[i] == data@[done + i],
                    current.len() == WORD_SIZE,
                    forall|i: int| j <= i < WORD_SIZE ==> word@[i] == current[i],
                decreases N - done - j,
            {
                word[j] = data[done + j];
                j = j + 1;
            }
            match self.write_word(at, word) {
                Ok(()) => {},
                Err(e) => {
                    proof { lemma_prefix_partly_written(mem, start, data@, done as int); }
                    return Err(e);
                },
            }
            proof {
                assert(m1.dom() =~= mem.dom());
                assert(span_len(N as int) == done + WORD_SIZE);
                assert(span_accessible(mem, start, span_len(N as int)));
                assert(current == bytes_at(m1, start + done, WORD_SIZE as int));
                assert forall|i: int| mem.dom().contains(i) implies self.memory()[i] == write_bytes(
                    mem,
                    start,
                    data@,
                )[i] by {
                    if start + done <= i < start + done + WORD_SIZE {
                        let k = i - start - done;
                        if k >= N - done {
                            assert(word@[k] == current[k]);
                        }
                    }
                }
                assert(self.memory() =~= write_bytes(mem, start, data@));
            }
        } else {
            proof {
                assert(span_len(N as int) == N);
                assert(data@.take(done as int) =~= data@);
            }
        }
        Ok(())
    }
}

/// The memory of a `MemoryImage`: `bytes` laid out from `base` on.
pub open spec fn image_map(base: int, bytes: Seq<u8>) -> Map<int, u8> {
    Map::new(|i: int| base <= i < base + bytes.len(), |i: int| bytes[i - base])
}

/// A region of a process's memory held in this process (a snapshot or a core
/// file), accessed through the same word primitive as a live process.
pub struct MemoryImage {
    base: usize,
    bytes: Vec<u8>,
}

impl MemoryImage {
    /// An image whose first byte stands at `base`.
    pub fn new(base: MemoryAddress, bytes: Vec<u8>) -> (r: Self)
        ensures
            r.memory() == image_map(base@ as int, bytes@),
    {
        MemoryImage { base: base.as_raw(), bytes }
    }

    /// The bytes of the image, the first at its base address.
    pub fn contents(&self) -> (r: &Vec<u8>)
        ensures
            self.memory() == image_map(self.memory_base(), r@),
    {
        &self.bytes
    }

    /// The address of the image's first byte.
    pub closed spec fn memory_base(&self) -> int {
        self.base as int
    }

    /// Whether the word at `a` lies inside the image and the address space.
    fn holds_word(&self, a: usize) -> (r: bool)
        ensures
            r <==> span_accessible(self.memory(), a as int, WORD_SIZE as int),
            r ==> self.base <= a && a - self.base + WORD_SIZE <= self.bytes.len(),
    {
        let inside = a >= self.base && a - self.base <= self.bytes.len() && self.bytes.len() - (a
            - self.base) >= WORD_SIZE && a <= usize::MAX - (WORD_SIZE - 1);
        proof {
            let m = self.memory();
            if !inside {
                if a < self.base {
                    assert(!m.dom().contains(a as int));
                } else if a - self.base > self.bytes.len() || self.bytes.len() - (a - self.base)
                    < WORD_SIZE {
                    assert(!m.dom().contains(a + WORD_SIZE - 1));
                }
            }
        }
        inside
    }
}

impl MemoryAccessor for MemoryImage {
    closed spec fn memory(&self) -> Map<int, u8> {
        image_map(self.base as int, self.bytes@)
    }

    fn read_word(&self, address: MemoryAddress) -> (r: Result<[u8; WORD_SIZE], AccessError>) {
        let a = address.as_raw();
        if !self.holds_word(a) {
            return Err(AccessError { address, code: 0 });
        }
        let off = a - self.base;
        let mut word: [u8; WORD_SIZE] = [0u8; WORD_SIZE];
        let mut j: usize = 0;
        while j < WORD_SIZE
            invariant
                off + WORD_SIZE <= self.bytes.len(),
                off == a - self.base,
                j <= WORD_SIZE,
                forall|i: int| 0 <= i < j ==> word@[i] == self.bytes@[off + i],
            decreases WORD_SIZE - j,
        {
            word[j] = self.bytes[off + j];
            j = j + 1;
        }
        proof {
            assert(word@ =~= bytes_at(self.memory(), a as int, WORD_SIZE as int));
        }
        Ok(word)
    }

    fn write_word(&mut self, address: MemoryAddress, word: [u8; WORD_SIZE]) -> (r: Result<(), AccessError>) {
        let a = address.as_raw();
        if !self.holds_word(a) {
            return Err(AccessError { address, code: 0 });
        }
        let ghost old_bytes = self.bytes@;
        let len = self.bytes.len();
        let off = a - self.base;
        let mut j: usize = 0;
        while j < WORD_SIZE
            invariant
                self.base == old(self).base,
                self.bytes@.len() == old_bytes.len(),
                old_bytes == old(self).bytes@,
                off + WORD_SIZE <= len,
                len == old_bytes.len(),
                off == a - self.base,
                j <= WORD_SIZE,
                forall|i: int|
                    0 <= i < self.bytes@.len() ==> self.bytes@[i] == if off <= i < off + j {
                        word@[i - off]
                    } else {
                        old_bytes[i]
                    },
            decreases WORD_SIZE - j,
        {
            self.bytes.set(off + j, word[j]);
            j = j + 1;
        }
        proof {
            assert(self.memory() =~= write_bytes(old(self).memory(), a as int, word@));
        }
        Ok(())
    }
}

/// Reading back what was written returns it unchanged: after `data` is
/// written at `start`, the span is still accessible and its bytes are `data`.
pub proof fn lemma_read_after_write(mem: Map<int, u8>, start: int, data: Seq<u8>)
    requires
        span_accessible(mem, start, span_len(data.len() as int)),
    ensures
        span_accessible(write_bytes(mem, start, data), start, span_len(data.len() as int)),
        bytes_at(write_bytes(mem, start, data), start, data.len() as int) == data,
{
    assert(bytes_at(write_bytes(mem, start, data), start, data.len() as int) =~= data);
}

/// A write touches no byte outside its span, not even the other bytes of the
/// word that holds its last byte, and adds or removes no address.
pub proof fn lemma_write_isolated(mem: Map<int, u8>, start: int, data: Seq<u8>)
    ensures
        write_bytes(mem, start, data).dom() == mem.dom(),
        forall|i: int|
            #![trigger write_bytes(mem, start, data)[i]]
            mem.dom().contains(i) && !(start <= i < start + data.len()) ==> write_bytes(
                mem,
                start,
                data,
            )[i] == mem[i],
{
    assert(write_bytes(mem, start, data).dom() =~= mem.dom());
}

/// The word that starts `done` bytes into an access of `n` bytes lies inside
/// the span that the access touches.
proof fn lemma_word_in_span(n: int, done: int)
    requires
        0 <= done < n,
        done % (WORD_SIZE as int) == 0,
    ensures
        done + WORD_SIZE <= span_len(n),
        n <= span_len(n),
{
}

/// Having written a prefix of `data` is a partial write of `data`.
proof fn lemma_prefix_partly_written(mem: Map<int, u8>, start: int, data: Seq<u8>, done: int)
    requires
        0 <= done <= data.len(),
    ensures
        partly_written(mem, write_bytes(mem, start, data.take(done)), start, data),
{
    assert(write_bytes(mem, start, data.take(done)).dom() =~= mem.dom());
}

} // verus!

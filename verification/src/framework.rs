//! The general simulator framework: the memory image, and the engine that
//! propagates signals through an architecture's circuit cycle by cycle.
use vstd::prelude::*;

pub mod circuit;
pub mod cycle_laws;
pub mod names;
pub mod order_laws;
pub mod propagate;
pub mod schema;
pub mod sim;
pub mod topo;
pub mod topo_laws;
pub mod units;

use crate::utils::{byte_of, le_byte, le_bytes, le_u64};

verus! {

/// Size in bytes of the memory that holds instructions, data and the stack.
pub const MEM_SIZE: usize = 0x10_0000;

/// The memory image: `MEM_SIZE` bytes, shared by the instruction memory and
/// the data memory of a machine. It has one owner; units read it through
/// `read` and `load`, and only the data memory writes it.
pub struct MemData {
    bytes: Vec<u8>,
}

impl View for MemData {
    type V = Seq<u8>;

    closed spec fn view(&self) -> Seq<u8> {
        self.bytes@
    }
}

/// Whether the eight bytes from `addr` on lie inside the memory.
pub open spec fn in_range(addr: u64) -> bool {
    addr + 8 <= MEM_SIZE
}

impl MemData {
    #[verifier::type_invariant]
    closed spec fn full_size(&self) -> bool {
        self.bytes@.len() == MEM_SIZE
    }

    /// Takes over a full-size image.
    pub fn init(data: Vec<u8>) -> (mem: MemData)
        requires
            data@.len() == MEM_SIZE,
        ensures
            mem@ == data@,
    {
        MemData { bytes: data }
    }

    /// A memory that holds an image, padded with zero bytes up to
    /// `MEM_SIZE`.
    fn padded(image: &Vec<u8>) -> (mem: MemData)
        requires
            image@.len() <= MEM_SIZE,
        ensures
            mem@ == image@ + Seq::new((MEM_SIZE - image@.len()) as nat, |i: int| 0u8),
    {
        let mut bytes: Vec<u8> = Vec::new();
        let mut i: usize = 0;
        while i < MEM_SIZE
            invariant
                i <= MEM_SIZE,
                image@.len() <= MEM_SIZE,
                bytes@.len() == i,
                forall|j: int|
                    0 <= j < i ==> #[trigger] bytes@[j] == (if j < image@.len() {
                        image@[j]
                    } else {
                        0u8
                    }),
            decreases MEM_SIZE - i,
        {
            let b: u8 = if i < image.len() { image[i] } else { 0 };
            bytes.push(b);
            i = i + 1;
        }
        assert(bytes@ =~= image@ + Seq::new((MEM_SIZE - image@.len()) as nat, |i: int| 0u8));
        MemData { bytes }
    }

    /// Builds a memory from a program image, padded with zero bytes up to
    /// `MEM_SIZE`. An image that is longer than the memory has none.
    pub fn from_image(image: &Vec<u8>) -> (res: Option<MemData>)
        ensures
            res is Some <==> image@.len() <= MEM_SIZE,
            res matches Some(mem) ==> mem@ == image@ + Seq::new(
                (MEM_SIZE - image@.len()) as nat,
                |i: int| 0u8,
            ),
    {
        if image.len() > MEM_SIZE {
            None
        } else {
            Some(MemData::padded(image))
        }
    }

    /// A memory of zero bytes.
    pub fn zeroed() -> (mem: MemData)
        ensures
            mem@ == Seq::new(MEM_SIZE as nat, |i: int| 0u8),
    {
        let empty: Vec<u8> = Vec::new();
        let mem = MemData::padded(&empty);
        assert(mem@ =~= Seq::new(MEM_SIZE as nat, |i: int| 0u8));
        mem
    }

    /// A memory with the same bytes.
    pub fn copy(&self) -> (mem: MemData)
        ensures
            mem@ == self@,
    {
        let mem = MemData::padded(self.read());
        assert(mem@ =~= self@);
        mem
    }

    /// The size of the memory in bytes.
    pub fn size(&self) -> (n: usize)
        ensures
            n == MEM_SIZE,
            self@.len() == MEM_SIZE,
    {
        proof {
            use_type_invariant(self);
        }
        self.bytes.len()
    }

    /// The whole image, for reading.
    pub fn read(&self) -> (bytes: &Vec<u8>)
        ensures
            bytes@ == self@,
            bytes@.len() == MEM_SIZE,
    {
        proof {
            use_type_invariant(self);
        }
        &self.bytes
    }

    /// Stores one byte.
    pub fn write(&mut self, addr: usize, byte: u8)
        requires
            addr < MEM_SIZE,
        ensures
            final(self)@ == old(self)@.update(addr as int, byte),
    {
        proof {
            use_type_invariant(&*self);
        }
        self.bytes[addr] = byte;
    }

    /// Loads the little-endian word at `addr`, or nothing where the eight
    /// bytes from `addr` on do not all lie inside the memory.
    pub fn load(&self, addr: u64) -> (res: Option<u64>)
        ensures
            res is Some <==> in_range(addr),
            res matches Some(val) ==> val == le_u64(
                self@.subrange(addr as int, addr as int + 8),
            ),
    {
        proof {
            use_type_invariant(self);
        }
        if addr > (MEM_SIZE - 8) as u64 {
            return None;
        }
        let at: usize = addr as usize;
        let word = vstd::slice::slice_subrange(self.bytes.as_slice(), at, at + 8);
        Some(crate::utils::get_u64(word))
    }

    /// Stores `val` in little-endian order at `addr` and reports success.
    /// Where the eight bytes from `addr` on do not all lie inside the memory,
    /// nothing is stored and the answer is `false`.
    pub fn store(&mut self, addr: u64, val: u64) -> (done: bool)
        ensures
            done == in_range(addr),
            !done ==> final(self)@ == old(self)@,
            done ==> final(self)@ == old(self)@.subrange(0, addr as int) + le_bytes(val) + old(
                self,
            )@.subrange(addr as int + 8, MEM_SIZE as int),
    {
        proof {
            use_type_invariant(&*self);
        }
        if addr > (MEM_SIZE - 8) as u64 {
            return false;
        }
        let at: usize = addr as usize;
        let mut i: usize = 0;
        while i < 8
            invariant
                i <= 8,
                at + 8 <= MEM_SIZE,
                self.bytes@.len() == MEM_SIZE,
                forall|j: int|
                    0 <= j < MEM_SIZE ==> #[trigger] self.bytes@[j] == (if at <= j < at + i {
                        le_byte(val, j - at)
                    } else {
                        old(self).bytes@[j]
                    }),
            decreases 8 - i,
        {
            self.bytes[at + i] = byte_of(val, i);
            i = i + 1;
        }
        assert(self.bytes@ =~= old(self).bytes@.subrange(0, addr as int) + le_bytes(val) + old(
            self,
        ).bytes@.subrange(addr as int + 8, MEM_SIZE as int));
        true
    }
}

/// A word that was stored is the word that a load from the same address
/// gives back, and every byte outside the eight that it covers is as before.
pub proof fn lemma_store_then_load(before: Seq<u8>, addr: u64, val: u64)
    requires
        before.len() == MEM_SIZE,
        in_range(addr),
    ensures
        ({
            let after = before.subrange(0, addr as int) + le_bytes(val) + before.subrange(
                addr as int + 8,
                MEM_SIZE as int,
            );
            &&& after.len() == MEM_SIZE
            &&& le_u64(after.subrange(addr as int, addr as int + 8)) == val
            &&& forall|j: int|
                0 <= j < MEM_SIZE && !(addr <= j < addr + 8) ==> after[j] == before[j]
        }),
{
    let after = before.subrange(0, addr as int) + le_bytes(val) + before.subrange(
        addr as int + 8,
        MEM_SIZE as int,
    );
    assert(after.subrange(addr as int, addr as int + 8) =~= le_bytes(val));
    crate::utils::lemma_le_round_trip(val);
}

/// The number of words of eight bytes in the memory.
pub const MEM_WORDS: usize = 0x2_0000;

/// Whether the word at position `i` is the same in two images.
pub open spec fn same_word(a: Seq<u8>, b: Seq<u8>, i: int) -> bool {
    a.subrange(8 * i, 8 * i + 8) == b.subrange(8 * i, 8 * i + 8)
}

/// Whether the word at position `i` of an image is zero.
pub open spec fn zero_word(a: Seq<u8>, i: int) -> bool {
    a.subrange(8 * i, 8 * i + 8) == Seq::new(8, |j: int| 0u8)
}

/// The positions of the first `k` words in which two images differ, in
/// rising order.
pub open spec fn differing_upto(a: Seq<u8>, b: Seq<u8>, k: int) -> Seq<usize>
    decreases k,
{
    if k <= 0 {
        Seq::empty()
    } else if same_word(a, b, k - 1) {
        differing_upto(a, b, k - 1)
    } else {
        differing_upto(a, b, k - 1).push((k - 1) as usize)
    }
}

/// The position of the last of the first `k` words of an image that is not
/// zero, or 0 where all of them are zero.
pub open spec fn last_word_upto(a: Seq<u8>, k: int) -> int
    decreases k,
{
    if k <= 0 {
        0
    } else if zero_word(a, k - 1) {
        last_word_upto(a, k - 1)
    } else {
        k - 1
    }
}

/// Whether the word at position `i` is the same in two images.
fn words_agree(a: &Vec<u8>, b: &Vec<u8>, i: usize) -> (same: bool)
    requires
        a@.len() == MEM_SIZE,
        b@.len() == MEM_SIZE,
        i < MEM_WORDS,
    ensures
        same == same_word(a@, b@, i as int),
{
    let base: usize = 8 * i;
    let ghost x = a@.subrange(base as int, base + 8);
    let ghost y = b@.subrange(base as int, base + 8);
    let mut j: usize = 0;
    while j < 8
        invariant
            j <= 8,
            base == 8 * i,
            base + 8 <= MEM_SIZE,
            a@.len() == MEM_SIZE,
            b@.len() == MEM_SIZE,
            x == a@.subrange(base as int, base + 8),
            y == b@.subrange(base as int, base + 8),
            forall|m: int| 0 <= m < j ==> x[m] == y[m],
        decreases 8 - j,
    {
        assert(x[j as int] == a@[base + j] && y[j as int] == b@[base + j]);
        if a[base + j] != b[base + j] {
            assert(x[j as int] != y[j as int]);
            return false;
        }
        j = j + 1;
    }
    assert(x =~= y);
    true
}

/// The positions of the words in which two memories differ, in rising
/// order. The word at position `i` holds the bytes from address `8 * i` on.
pub fn mem_diff(left: &MemData, right: &MemData) -> (at: Vec<usize>)
    ensures
        at@ == differing_upto(left@, right@, MEM_WORDS as int),
{
    let a = left.read();
    let b = right.read();
    let mut at: Vec<usize> = Vec::new();
    let mut i: usize = 0;
    while i < MEM_WORDS
        invariant
            i <= MEM_WORDS,
            a@ == left@,
            b@ == right@,
            a@.len() == MEM_SIZE,
            b@.len() == MEM_SIZE,
            at@ == differing_upto(a@, b@, i as int),
        decreases MEM_WORDS - i,
    {
        if !words_agree(a, b, i) {
            at.push(i);
        }
        i = i + 1;
    }
    at
}

/// The position of the last word of a memory that is not zero, or 0 where
/// the memory holds zeros only: a listing of the memory ends with this word.
pub fn mem_last_word(mem: &MemData) -> (last: usize)
    ensures
        last == last_word_upto(mem@, MEM_WORDS as int),
        last < MEM_WORDS,
{
    let a = mem.read();
    let zeros: MemData = MemData::zeroed();
    let z = zeros.read();
    let mut last: usize = 0;
    let mut i: usize = 0;
    while i < MEM_WORDS
        invariant
            i <= MEM_WORDS,
            a@ == mem@,
            a@.len() == MEM_SIZE,
            z@.len() == MEM_SIZE,
            z@ == Seq::new(MEM_SIZE as nat, |k: int| 0u8),
            last == last_word_upto(a@, i as int),
            last < MEM_WORDS,
        decreases MEM_WORDS - i,
    {
        let same: bool = words_agree(a, z, i);
        assert(z@.subrange(8 * i, 8 * i + 8) =~= Seq::new(8, |j: int| 0u8));
        if !same {
            last = i;
        }
        i = i + 1;
    }
    last
}

} // verus!

use vstd::prelude::*;
use crate::storage::{spec_write, StorageInterface};
use crate::raw_storage::{spec_fill, RawStorage, RawStorageAddress};

verus! {

/// The number of bytes in each chunk of a chunk table's heap.
pub const CHUNK_SIZE: u16 = 16;

/// The number of bytes in each entry of a chunk table's map.
pub const CHUNK_ADDRESS_SIZE: u16 = 2;

/// The address of a chunk in a chunk table's heap.
#[derive(PartialEq, Eq, Copy, Clone, Debug, Structural)]
pub struct ChunkAddress(pub u16);

/// An index into a chunk table's map.
#[derive(PartialEq, Eq, Copy, Clone, Debug, Structural)]
pub struct ChunkIndex(pub u16);

/// Whether bit `p` (counted from the most significant) of `x` is set.
pub open spec fn bit(x: u8, p: u8) -> bool {
    x & (0x80u8 >> p) != 0
}

proof fn lemma_set_bit(x: u8, p: u8, q: u8)
    by (bit_vector)
    requires
        p < 8,
        q < 8,
    ensures
        ((x | (0x80u8 >> q)) & (0x80u8 >> p) != 0) == ((x & (0x80u8 >> p) != 0) || p == q),
{
}

proof fn lemma_clear_bit(x: u8, p: u8, q: u8)
    by (bit_vector)
    requires
        p < 8,
        q < 8,
    ensures
        ((x & !(0x80u8 >> q)) & (0x80u8 >> p) != 0) == ((x & (0x80u8 >> p) != 0) && p != q),
{
}

proof fn lemma_shift_step(m: u8, c: u8)
    by (bit_vector)
    requires
        c < 8,
        m == 0x80u8 >> c,
    ensures
        m >> 1u8 == 0x80u8 >> ((c + 1) as u8),
{
}

proof fn lemma_bytes_to_u16(b0: u8, b1: u8)
    by (bit_vector)
    ensures
        ((b0 as u16) << 8u16) | (b1 as u16) == (b0 as u16) * 256 + (b1 as u16),
{
}

proof fn lemma_u16_to_bytes(a: u16)
    by (bit_vector)
    ensures
        ((a >> 8u16) as u8) as u16 * 256 + (((a & 0xFFu16) as u8) as u16) == a,
{
}

/// A chunk table is a interface to the storage device designed for storing variable-length data
/// which can be accessed by an index.
///
/// Chunks table contain three parts:
///   - A _map_, which allows an index to be looked up, giving the chunk in the heap where that
///     index's data starts.
///   - A _heap_, all of the fixed-sized chunks in the table.
///   - A _state_, which stores a single flag for each chunk in the heap describing whether it is
///     allocated or free.
///
/// To add new data to a chunk table, first request a certain number of chunks to be allocated. This
/// will return an address of the first chunk to use, and mark the chunks as allocated so they
/// aren't allocated again. (Writing to unallocated chunks will cause issues.) You can then map an
/// index to this chunk so it can be found again later.
///
/// To modify allocated data which is a different size, free the chunks first, allocate again with
/// the new size, and update the index.
///
/// Chunk table allocations do not encode the size of the allocation; it is assumed that the size
/// can be derived by the caller from the data in the chunks.
///
/// Chunk 0 will never be allocated, so can be used as a null/unassigned value in the map.
///
/// The table lies in the storage area `storage`; the storage device itself is passed to each
/// operation.
#[derive(PartialEq, Eq, Copy, Clone, Debug, Structural)]
pub struct ChunkTable {
    pub storage: RawStorage,
    pub start_address: u16,
    pub chunks: u16,
}

impl ChunkTable {
    // ---- layout, relative to the start of the storage area ----

    pub open spec fn map_len(self) -> int {
        CHUNK_ADDRESS_SIZE * self.chunks
    }

    pub open spec fn heap_addr(self) -> int {
        self.map_len()
    }

    pub open spec fn heap_len(self) -> int {
        CHUNK_SIZE * self.chunks
    }

    pub open spec fn state_addr(self) -> int {
        self.heap_addr() + self.heap_len()
    }

    pub open spec fn state_len(self) -> int {
        (self.chunks / 8) as int
    }

    pub open spec fn total_len(self) -> int {
        self.map_len() + self.heap_len() + self.state_len()
    }

    /// The number of chunks whose state flags the table holds, and so which allocation considers.
    pub open spec fn scanned_chunks(self) -> int {
        8 * self.state_len()
    }

    /// The table's layout can be computed in 16-bit arithmetic, and its storage area lies in the
    /// 16-bit address space.
    pub open spec fn wf(self) -> bool {
        &&& self.total_len() <= u16::MAX
        &&& self.storage.start_address + self.storage.length <= 0x10000
    }

    /// The storage area holds the whole table, and the device holds the whole storage area.
    pub open spec fn fits(self, dev_len: int) -> bool {
        &&& self.total_len() <= self.storage.length
        &&& self.storage.fits(dev_len)
    }

    // ---- the table's contents, as read from the device's contents ----

    /// The device address of the table's byte `address`.
    pub open spec fn abs(self, address: int) -> int {
        self.storage.abs(address)
    }

    /// The chunk address stored in map entry `index`, big-endian.
    pub open spec fn map_entry(self, c: Seq<u8>, index: int) -> int {
        c[self.abs(CHUNK_ADDRESS_SIZE * index)] * 256 + c[self.abs(CHUNK_ADDRESS_SIZE * index + 1)]
    }

    /// The state byte `k`.
    pub open spec fn state_byte(self, c: Seq<u8>, k: int) -> u8 {
        c[self.abs(self.state_addr() + k)]
    }

    /// Whether chunk `chunk` is marked as allocated.
    pub open spec fn chunk_used(self, c: Seq<u8>, chunk: int) -> bool {
        bit(self.state_byte(c, chunk / 8), (chunk % 8) as u8)
    }

    /// The device address of the first byte of chunk `chunk`.
    pub open spec fn chunk_abs(self, chunk: int) -> int {
        self.abs(self.heap_addr() + CHUNK_SIZE * chunk)
    }

    /// The bytes of chunk `chunk`.
    pub open spec fn chunk_bytes(self, c: Seq<u8>, chunk: int) -> Seq<u8> {
        c.subrange(self.chunk_abs(chunk), self.chunk_abs(chunk) + CHUNK_SIZE)
    }

    /// Chunks `start .. start + length` are all free.
    pub open spec fn run_free(self, c: Seq<u8>, start: int, length: int) -> bool {
        forall|i: int| start <= i < start + length ==> !#[trigger] self.chunk_used(c, i)
    }

    /// `length` chunks from `start` can be allocated: they are free, none is chunk 0, and they all
    /// have a state flag.
    pub open spec fn free_run_at(self, c: Seq<u8>, start: int, length: int) -> bool {
        &&& length > 0
        &&& 1 <= start
        &&& start + length <= self.scanned_chunks()
        &&& self.run_free(c, start, length)
    }

    /// Whether a state byte in device address `i` is one of those that marking `length` chunks from
    /// `address` touches.
    pub open spec fn state_touched(self, address: int, length: int, i: int) -> bool {
        &&& length > 0
        &&& self.abs(self.state_addr() + address / 8) <= i <= self.abs(self.state_addr() + (address + length - 1) / 8)
    }

    /// `new` is `old` with chunks `address .. address + length` marked as used (or free), and every
    /// other byte unchanged.
    pub open spec fn states_set(self, old: Seq<u8>, new: Seq<u8>, address: int, length: int, used: bool) -> bool {
        &&& new.len() == old.len()
        &&& forall|i: int| 0 <= i < old.len() && !self.state_touched(address, length, i) ==> new[i] == old[i]
        &&& forall|ch: int|
            length > 0 && (address / 8) * 8 <= ch < ((address + length - 1) / 8 + 1) * 8 ==> #[trigger] self.chunk_used(new, ch)
                == if address <= ch < address + length {
                used
            } else {
                self.chunk_used(old, ch)
            }
    }

    // ---- layout, in executable form ----

    fn chunk_map_address(&self) -> (r: RawStorageAddress)
        ensures
            r.0 == 0,
    {
        RawStorageAddress(0)
    }

    fn chunk_map_length(&self) -> (r: u16)
        requires
            self.wf(),
        ensures
            r == self.map_len(),
    {
        CHUNK_ADDRESS_SIZE * self.chunks
    }

    fn chunk_heap_address(&self) -> (r: RawStorageAddress)
        requires
            self.wf(),
        ensures
            r.0 == self.heap_addr(),
    {
        self.chunk_map_address().offset(self.chunk_map_length())
    }

    fn chunk_heap_length(&self) -> (r: u16)
        requires
            self.wf(),
        ensures
            r == self.heap_len(),
    {
        CHUNK_SIZE * self.chunks
    }

    fn chunk_state_address(&self) -> (r: RawStorageAddress)
        requires
            self.wf(),
        ensures
            r.0 == self.state_addr(),
    {
        self.chunk_heap_address().offset(self.chunk_heap_length())
    }

    fn chunk_state_length(&self) -> (r: u16)
        ensures
            r == self.state_len(),
    {
        self.chunks / 8
    }

    /// The number of bytes the table takes up in its storage area.
    pub fn total_length(&self) -> (r: u16)
        requires
            self.wf(),
        ensures
            r == self.total_len(),
    {
        self.chunk_map_length() + self.chunk_heap_length() + self.chunk_state_length()
    }

    /// Given a chunk address, returns the address into the storage device where this chunk's first
    /// byte is located.
    fn chunk_to_storage_address(&self, address: ChunkAddress) -> (r: RawStorageAddress)
        requires
            self.wf(),
            address.0 <= self.chunks,
        ensures
            r.0 == self.heap_addr() + CHUNK_SIZE * address.0,
    {
        self.chunk_heap_address().offset(CHUNK_SIZE * address.0)
    }

    /// Given a chunk index, returns the chunk address which this index maps to.
    pub fn chunk_for_index<S: StorageInterface>(&self, dev: &mut S, index: ChunkIndex) -> (r: Option<ChunkAddress>)
        requires
            self.wf(),
        ensures
            final(dev).contents() == old(dev).contents(),
            final(dev).never_fails() == old(dev).never_fails(),
            index.0 >= self.chunks ==> r is None,
            r matches Some(a) ==> index.0 < self.chunks && self.abs(CHUNK_ADDRESS_SIZE * index.0 + 1) < old(dev).contents().len()
                && a.0 == self.map_entry(old(dev).contents(), index.0 as int) && a.0 != 0,
            old(dev).never_fails() && self.fits(old(dev).contents().len() as int) && index.0 < self.chunks ==>
                (r is Some <==> self.map_entry(old(dev).contents(), index.0 as int) != 0),
    {
        if index.0 >= self.chunks {
            return None;
        }
        let bytes = match self.storage.read_bytes(dev, self.chunk_map_address().offset(CHUNK_ADDRESS_SIZE * index.0), CHUNK_ADDRESS_SIZE) {
            Some(b) => b,
            None => return None,
        };
        let b0 = bytes[0];
        let b1 = bytes[1];
        let chunk_address = ((b0 as u16) << 8) | b1 as u16;
        proof {
            lemma_bytes_to_u16(b0, b1);
        }
        if chunk_address == 0 {
            None
        } else {
            Some(ChunkAddress(chunk_address))
        }
    }

    /// Sets a chunk index to point to a particular chunk address.
    pub fn set_chunk_for_index<S: StorageInterface>(&self, dev: &mut S, index: ChunkIndex, address: ChunkAddress) -> (r: Option<()>)
        requires
            self.wf(),
            index.0 < 0x8000,
        ensures
            final(dev).contents().len() == old(dev).contents().len(),
            final(dev).never_fails() == old(dev).never_fails(),
            r is Some ==> self.storage.in_bounds(CHUNK_ADDRESS_SIZE * index.0, 2)
                && self.abs(CHUNK_ADDRESS_SIZE * index.0 + 1) < old(dev).contents().len()
                && final(dev).contents() == old(dev).contents().update(self.abs(CHUNK_ADDRESS_SIZE * index.0), (address.0 / 256) as u8)
                    .update(self.abs(CHUNK_ADDRESS_SIZE * index.0 + 1), (address.0 % 256) as u8)
                && self.map_entry(final(dev).contents(), index.0 as int) == address.0,
            old(dev).never_fails() && self.storage.in_bounds(CHUNK_ADDRESS_SIZE * index.0, 2)
                && self.abs(CHUNK_ADDRESS_SIZE * index.0 + 1) < old(dev).contents().len() ==> r is Some,
    {
        let value = address.0;
        let hi = (value >> 8) as u8;
        let lo = (value & 0xFF) as u8;
        proof {
            lemma_u16_to_bytes(value);
            assert(hi as int == value / 256 && lo as int == value % 256) by (bit_vector)
                requires hi == (value >> 8u16) as u8, lo == (value & 0xFFu16) as u8;
        }
        let buffer = [hi, lo];
        let r = self.storage.write_bytes(dev, self.chunk_map_address().offset(CHUNK_ADDRESS_SIZE * index.0), &buffer);
        proof {
            if r is Some {
                let a = self.abs(CHUNK_ADDRESS_SIZE * index.0);
                assert(final(dev).contents() =~= old(dev).contents().update(a, hi).update(a + 1, lo));
            }
        }
        r
    }

    /// Marks `length` chunks starting from `address` as either used or unused, regardless of the
    /// validity of this operation or their previous state.
    fn set_chunk_states<S: StorageInterface>(&self, dev: &mut S, address: ChunkAddress, length: u16, set_used: bool) -> (r: Option<()>)
        requires
            self.wf(),
            address.0 + length <= 0x10000,
            length > 0 ==> self.state_addr() + (address.0 + length - 1) / 8 <= u16::MAX,
        ensures
            final(dev).contents().len() == old(dev).contents().len(),
            final(dev).never_fails() == old(dev).never_fails(),
            length == 0 ==> r is Some && final(dev).contents() == old(dev).contents(),
            r is Some ==> self.states_set(old(dev).contents(), final(dev).contents(), address.0 as int, length as int, set_used),
            old(dev).never_fails() && length > 0 && self.fits(old(dev).contents().len() as int)
                && (address.0 + length - 1) / 8 < self.state_len() ==> r is Some,
    {
        if length == 0 {
            return Some(());
        }
        let first = address.0 / 8;
        let last = (address.0 + (length - 1)) / 8;
        let n = last - first + 1;
        let base = self.chunk_state_address().offset(first);
        let ghost old_contents = dev.contents();
        let mut bytes = match self.storage.read_bytes(dev, base, n) {
            Some(b) => b,
            None => return None,
        };
        let ghost orig = bytes@;
        let mut i: u16 = 0;
        while i < length
            invariant
                0 <= i <= length,
                address.0 + length <= 0x10000,
                first == address.0 / 8,
                last == (address.0 + length - 1) / 8,
                n == last - first + 1,
                bytes@.len() == n,
                orig.len() == n,
                forall|j: int, p: u8|
                    0 <= j < n && p < 8 ==> #[trigger] bit(bytes@[j], p) == if address.0 <= 8 * (first + j) + p < address.0 + i {
                        set_used
                    } else {
                        bit(orig[j], p)
                    },
            decreases length - i,
        {
            let c = address.0 + i;
            let b = (c / 8 - first) as usize;
            let q = (c % 8) as u8;
            let m = 0x80u8 >> q;
            let old_byte = bytes[b];
            let ghost prev = bytes@;
            proof {
                assert(8 * (first + b) + q == c);
            }
            let new_byte = if set_used {
                old_byte | m
            } else {
                old_byte & !m
            };
            bytes.set(b, new_byte);
            proof {
                assert forall|j: int, p: u8| 0 <= j < n && p < 8 implies #[trigger] bit(bytes@[j], p) == if address.0 <= 8 * (first + j) + p
                    < address.0 + i + 1 {
                    set_used
                } else {
                    bit(orig[j], p)
                } by {
                    assert(bit(prev[j], p) == if address.0 <= 8 * (first + j) + p < address.0 + i {
                        set_used
                    } else {
                        bit(orig[j], p)
                    });
                    if j == b {
                        if set_used {
                            lemma_set_bit(old_byte, p, q);
                        } else {
                            lemma_clear_bit(old_byte, p, q);
                        }
                    } else {
                        assert(8 * (first + j) + p != c);
                    }
                }
            }
            i = i + 1;
        }
        let w = self.storage.write_bytes(dev, base, bytes.as_slice());
        if w.is_none() {
            return None;
        }
        proof {
            let new_contents = dev.contents();
            let a0 = self.abs(self.state_addr() + first);
            assert(new_contents == spec_write(old_contents, a0, bytes@));
            assert forall|ch: int|
                (address.0 / 8) * 8 <= ch < ((address.0 + length - 1) / 8 + 1) * 8 implies #[trigger] self.chunk_used(new_contents, ch)
                    == if address.0 <= ch < address.0 + length {
                    set_used
                } else {
                    self.chunk_used(old_contents, ch)
                } by {
                let j = ch / 8 - first;
                let p = (ch % 8) as u8;
                assert(0 <= j < n);
                assert(8 * (first + j) + p == ch);
                assert(new_contents[a0 + j] == bytes@[j]);
                assert(orig[j] == old_contents[a0 + j]);
                assert(bit(bytes@[j], p) == if address.0 <= 8 * (first + j) + p < address.0 + length {
                    set_used
                } else {
                    bit(orig[j], p)
                });
            }
        }
        Some(())
    }

    /// The scan of `allocate_chunks` has reached chunk `pos`, with a current run of free chunks
    /// starting at `start` (if any) of `run_len` chunks.
    pub open spec fn scan_state(self, c: Seq<u8>, length: int, pos: int, start: Option<ChunkAddress>, run_len: int) -> bool {
        &&& 0 <= run_len <= pos
        &&& start is None ==> run_len == 0 && (pos <= 1 || self.chunk_used(c, pos - 1))
        &&& start matches Some(st) ==> {
            &&& 1 <= st.0
            &&& run_len == pos - st.0
            &&& run_len >= 1
            &&& self.run_free(c, st.0 as int, run_len)
            &&& (st.0 == 1 || self.chunk_used(c, st.0 - 1))
        }
        &&& length > 0 ==> run_len < length
        &&& forall|s: int| 1 <= s && s + length <= pos && length > 0 ==> !#[trigger] self.run_free(c, s, length)
    }

    /// Allocates `length` chunks and returns the address of the first.
    ///
    /// The allocation is the lowest run of `length` free chunks (never chunk 0), which is then marked
    /// as used.
    pub fn allocate_chunks<S: StorageInterface>(&self, dev: &mut S, length: u16) -> (r: Option<ChunkAddress>)
        requires
            self.wf(),
        ensures
            final(dev).contents().len() == old(dev).contents().len(),
            final(dev).never_fails() == old(dev).never_fails(),
            r matches Some(a) ==> {
                &&& self.free_run_at(old(dev).contents(), a.0 as int, length as int)
                &&& forall|s: int| 1 <= s < a.0 ==> !#[trigger] self.free_run_at(old(dev).contents(), s, length as int)
                &&& self.states_set(old(dev).contents(), final(dev).contents(), a.0 as int, length as int, true)
            },
            old(dev).never_fails() && self.fits(old(dev).contents().len() as int) ==> {
                &&& r is None <==> !exists|s: int| #[trigger] self.free_run_at(old(dev).contents(), s, length as int)
                &&& r is None ==> final(dev).contents() == old(dev).contents()
            },
    {
        let ghost c0 = dev.contents();
        let mut current_free_run_start: Option<ChunkAddress> = None;
        let mut current_free_run_length: u16 = 0;
        let state_length = self.chunk_state_length();
        let mut ci: u16 = 0;
        while ci < state_length
            invariant
                self.wf(),
                state_length == self.state_len(),
                ci <= state_length,
                dev.contents() == c0,
                dev.never_fails() == old(dev).never_fails(),
                c0 == old(dev).contents(),
                self.scan_state(c0, length as int, 8 * ci, current_free_run_start, current_free_run_length as int),
            decreases state_length - ci,
        {
            let byte = match self.storage.read_bytes(dev, self.chunk_state_address().offset(ci), 1) {
                Some(v) => v[0],
                None => {
                    return None;
                },
            };
            let mut mask: u8 = 0x80;
            let mut cj: u16 = 0;
            proof {
                assert(0x80u8 == 0x80u8 >> 0u8) by (bit_vector);
            }
            while cj < 8
                invariant
                    self.wf(),
                    state_length == self.state_len(),
                    ci < state_length,
                    cj <= 8,
                    cj < 8 ==> mask == 0x80u8 >> (cj as u8),
                    byte == self.state_byte(c0, ci as int),
                    dev.contents() == c0,
                    dev.never_fails() == old(dev).never_fails(),
                    c0 == old(dev).contents(),
                    self.scan_state(c0, length as int, 8 * ci + cj, current_free_run_start, current_free_run_length as int),
                decreases 8 - cj,
            {
                let ghost pos: int = 8 * ci + cj;
                proof {
                    assert(pos / 8 == ci && pos % 8 == cj);
                    assert(self.chunk_used(c0, pos) == (byte & mask != 0));
                }
                if !(ci == 0 && cj == 0) {
                    if byte & mask == 0 {
                        match current_free_run_start {
                            Some(start) => {
                                current_free_run_length = current_free_run_length + 1;
                                proof {
                                    assert(self.run_free(c0, start.0 as int, current_free_run_length as int));
                                }
                                if current_free_run_length == length {
                                    proof {
                                        assert forall|s: int| 1 <= s < start.0 implies !#[trigger] self.free_run_at(c0, s, length as int) by {
                                            if self.free_run_at(c0, s, length as int) {
                                                assert(!self.run_free(c0, s, length as int));
                                            }
                                        }
                                    }
                                    assert(self.free_run_at(c0, start.0 as int, length as int));
                                    let set = self.set_chunk_states(dev, start, length, true);
                                    if set.is_none() {
                                        return None;
                                    }
                                    return current_free_run_start;
                                }
                                proof {
                                    assert forall|s: int| 1 <= s && s + length <= pos + 1 && length > 0 implies !#[trigger] self.run_free(c0, s, length as int) by {
                                        if s + length == pos + 1 {
                                            assert(s < start.0);
                                            assert(self.chunk_used(c0, start.0 - 1));
                                        } else {
                                            assert(!self.run_free(c0, s, length as int));
                                        }
                                    }
                                }
                            },
                            None => {
                                current_free_run_start = Some(ChunkAddress(ci * 8 + cj));
                                current_free_run_length = 1;
                                if length == 1 {
                                    proof {
                                        assert(self.run_free(c0, pos, 1));
                                        assert forall|s: int| 1 <= s < pos implies !#[trigger] self.free_run_at(c0, s, length as int) by {
                                            if self.free_run_at(c0, s, length as int) {
                                                assert(!self.run_free(c0, s, length as int));
                                            }
                                        }
                                    }
                                    assert(self.free_run_at(c0, pos, length as int));
                                    let set = self.set_chunk_states(dev, ChunkAddress(ci * 8 + cj), length, true);
                                    if set.is_none() {
                                        return None;
                                    }
                                    return current_free_run_start;
                                }
                                proof {
                                    assert(self.run_free(c0, pos, 1));
                                    assert forall|s: int| 1 <= s && s + length <= pos + 1 && length > 0 implies !#[trigger] self.run_free(c0, s, length as int) by {
                                        if s + length == pos + 1 {
                                            assert(self.chunk_used(c0, pos - 1));
                                        } else {
                                            assert(!self.run_free(c0, s, length as int));
                                        }
                                    }
                                }
                            },
                        }
                    } else {
                        current_free_run_start = None;
                        current_free_run_length = 0;
                        proof {
                            assert forall|s: int| 1 <= s && s + length <= pos + 1 && length > 0 implies !#[trigger] self.run_free(c0, s, length as int) by {
                                if s + length == pos + 1 {
                                    assert(self.chunk_used(c0, pos));
                                } else {
                                    assert(!self.run_free(c0, s, length as int));
                                }
                            }
                        }
                    }
                }
                proof {
                    if cj < 7 {
                        lemma_shift_step(mask, cj as u8);
                    }
                }
                mask = mask >> 1;
                cj = cj + 1;
            }
            ci = ci + 1;
        }
        proof {
            assert forall|s: int| !#[trigger] self.free_run_at(c0, s, length as int) by {
                if self.free_run_at(c0, s, length as int) {
                    assert(!self.run_free(c0, s, length as int));
                }
            }
        }
        None
    }

    /// Frees `length` chunks, starting from `address`.
    pub fn free_chunks<S: StorageInterface>(&self, dev: &mut S, address: ChunkAddress, length: u16) -> (r: Option<()>)
        requires
            self.wf(),
            address.0 + length <= 0x10000,
            length > 0 ==> self.state_addr() + (address.0 + length - 1) / 8 <= u16::MAX,
        ensures
            final(dev).contents().len() == old(dev).contents().len(),
            final(dev).never_fails() == old(dev).never_fails(),
            length == 0 ==> r is Some && final(dev).contents() == old(dev).contents(),
            r is Some ==> self.states_set(old(dev).contents(), final(dev).contents(), address.0 as int, length as int, false),
            old(dev).never_fails() && length > 0 && self.fits(old(dev).contents().len() as int)
                && (address.0 + length - 1) / 8 < self.state_len() ==> r is Some,
    {
        self.set_chunk_states(dev, address, length, false)
    }

    /// Reads one chunk.
    pub fn read_chunk<S: StorageInterface>(&self, dev: &mut S, address: ChunkAddress) -> (r: Option<Vec<u8>>)
        requires
            self.wf(),
            address.0 <= self.chunks,
        ensures
            final(dev).contents() == old(dev).contents(),
            final(dev).never_fails() == old(dev).never_fails(),
            r matches Some(v) ==> self.storage.in_bounds(self.heap_addr() + CHUNK_SIZE * address.0, CHUNK_SIZE as int)
                && self.chunk_abs(address.0 as int) + CHUNK_SIZE <= old(dev).contents().len()
                && v@ == self.chunk_bytes(old(dev).contents(), address.0 as int),
            !self.storage.in_bounds(self.heap_addr() + CHUNK_SIZE * address.0, CHUNK_SIZE as int) ==> r is None,
            old(dev).never_fails() && self.storage.in_bounds(self.heap_addr() + CHUNK_SIZE * address.0, CHUNK_SIZE as int)
                && self.chunk_abs(address.0 as int) + CHUNK_SIZE <= old(dev).contents().len() ==> r is Some,
    {
        self.storage.read_bytes(dev, self.chunk_to_storage_address(address), CHUNK_SIZE)
    }

    /// Writes one chunk.
    pub fn write_chunk<S: StorageInterface>(&self, dev: &mut S, address: ChunkAddress, data: &[u8; 16]) -> (r: Option<()>)
        requires
            self.wf(),
            address.0 <= self.chunks,
        ensures
            final(dev).contents().len() == old(dev).contents().len(),
            final(dev).never_fails() == old(dev).never_fails(),
            r is Some ==> self.storage.in_bounds(self.heap_addr() + CHUNK_SIZE * address.0, CHUNK_SIZE as int)
                && self.chunk_abs(address.0 as int) + CHUNK_SIZE <= old(dev).contents().len()
                && final(dev).contents() == spec_write(old(dev).contents(), self.chunk_abs(address.0 as int), data@),
            !self.storage.in_bounds(self.heap_addr() + CHUNK_SIZE * address.0, CHUNK_SIZE as int) ==> r is None
                && final(dev).contents() == old(dev).contents(),
            old(dev).never_fails() && self.storage.in_bounds(self.heap_addr() + CHUNK_SIZE * address.0, CHUNK_SIZE as int)
                && self.chunk_abs(address.0 as int) + CHUNK_SIZE <= old(dev).contents().len() ==> r is Some,
    {
        self.storage.write_bytes(dev, self.chunk_to_storage_address(address), data.as_slice())
    }

    /// Writes the given bytes onto the heap starting from the given chunk address. The bytes can
    /// span more than one chunk length; the last chunk is padded with zeros.
    pub fn write_bytes<S: StorageInterface>(&self, dev: &mut S, address: ChunkAddress, data: Vec<u8>) -> (r: Option<()>)
        requires
            self.wf(),
            data@.len() > 0 ==> address.0 + (data@.len() - 1) / 16 <= self.chunks,
        ensures
            final(dev).contents().len() == old(dev).contents().len(),
            final(dev).never_fails() == old(dev).never_fails(),
            r is Some ==> final(dev).contents() == spec_write(old(dev).contents(), self.chunk_abs(address.0 as int), padded(data@)),
            old(dev).never_fails() && (data@.len() == 0 || (self.storage.in_bounds(
                self.heap_addr() + CHUNK_SIZE * address.0,
                padded(data@).len() as int,
            ) && self.chunk_abs(address.0 as int) + padded(data@).len() <= old(dev).contents().len())) ==> r is Some,
    {
        let ghost old_contents = dev.contents();
        let ghost pd = padded(data@);
        let ghost base = self.chunk_abs(address.0 as int);
        let len = data.len();
        let mut i: usize = 0;
        proof {
            assert(spec_write(old_contents, base, pd.subrange(0, 0)) =~= old_contents);
        }
        while 16 * i < len
            invariant
                self.wf(),
                len == data@.len(),
                pd == padded(data@),
                base == self.chunk_abs(address.0 as int),
                len > 0 ==> address.0 + (len - 1) / 16 <= self.chunks,
                16 * i <= pd.len(),
                16 * i < len + 16,
                dev.contents().len() == old_contents.len(),
                dev.never_fails() == old(dev).never_fails(),
                old_contents == old(dev).contents(),
                dev.contents() == spec_write(old_contents, base, pd.subrange(0, 16 * i)),
                old(dev).never_fails() && (len == 0 || (self.storage.in_bounds(self.heap_addr() + CHUNK_SIZE * address.0, pd.len() as int)
                    && base + pd.len() <= old_contents.len())) ==> i == 0 || base + 16 * i <= old_contents.len(),
            decreases len + 16 - 16 * i,
        {
            let mut buffer = [0u8; 16];
            let mut k: usize = 0;
            while k < 16
                invariant
                    0 <= k <= 16,
                    16 * i < len,
                    len == data@.len(),
                    pd == padded(data@),
                    forall|j: int| 0 <= j < k ==> buffer@[j] == pd[16 * i + j],
                    forall|j: int| k <= j < 16 ==> buffer@[j] == 0,
                decreases 16 - k,
            {
                if 16 * i + k < len {
                    buffer[k] = data[16 * i + k];
                }
                k = k + 1;
            }
            proof {
                assert(buffer@ =~= pd.subrange(16 * i, 16 * i + 16));
            }
            let w = self.write_chunk(dev, ChunkAddress(address.0 + i as u16), &buffer);
            if w.is_none() {
                return None;
            }
            proof {
                assert(self.chunk_abs(address.0 + i) == base + 16 * i);
                assert(dev.contents() =~= spec_write(old_contents, base, pd.subrange(0, 16 * (i + 1))));
            }
            i = i + 1;
        }
        proof {
            assert(pd.subrange(0, 16 * i) =~= pd);
        }
        Some(())
    }

    /// Returns the number of chunks required to store `bytes` bytes, assuming the bytes are written
    /// starting from the beginning of the first chunk.
    pub fn chunks_required_for_bytes(&self, bytes: usize) -> (r: u16)
        ensures
            r == (bytes / 16 + if bytes % 16 > 0 { 1int } else { 0int }) as u16,
    {
        let mut result = bytes / CHUNK_SIZE as usize;
        if bytes % CHUNK_SIZE as usize > 0 {
            result = result + 1;
        }
        result as u16
    }

    /// Zeroes out bytes in the table, effectively clearing it.
    ///
    /// Passing `hard` as `false` will zero just the map and state bytes, and not the heap. This is
    /// all which needs to be done to get a chunk table which behaves like it's been cleared. Any
    /// previously used memory can be allocated again, though you'll have to deal with the fact that
    /// the storage chunks you get from an allocation are not guaranteed to be zero.
    ///
    /// Passing `hard` as `true` will zero the entire table, including the heap.
    pub fn clear<S: StorageInterface>(&self, dev: &mut S, hard: bool) -> (r: Option<()>)
        requires
            self.wf(),
        ensures
            final(dev).contents().len() == old(dev).contents().len(),
            final(dev).never_fails() == old(dev).never_fails(),
            r is Some ==> final(dev).contents() == self.cleared(old(dev).contents(), hard),
            old(dev).never_fails() && self.fits(old(dev).contents().len() as int) ==> r is Some,
    {
        if self.storage.fill_bytes(dev, self.chunk_map_address(), self.chunk_map_length(), 0).is_none() {
            return None;
        }
        if self.storage.fill_bytes(dev, self.chunk_state_address(), self.chunk_state_length(), 0).is_none() {
            return None;
        }
        if hard {
            if self.storage.fill_bytes(dev, self.chunk_heap_address(), self.chunk_heap_length(), 0).is_none() {
                return None;
            }
        }
        Some(())
    }

    /// The contents of a device after the table is cleared: the map and state bytes (and, when
    /// `hard`, the heap) are zero.
    pub open spec fn cleared(self, c: Seq<u8>, hard: bool) -> Seq<u8> {
        let c1 = spec_fill(c, self.abs(0), self.map_len(), 0);
        let c2 = spec_fill(c1, self.abs(self.state_addr()), self.state_len(), 0);
        if hard {
            spec_fill(c2, self.abs(self.heap_addr()), self.heap_len(), 0)
        } else {
            c2
        }
    }

    /// Returns an iterator over the bytes in the heap, starting from the given chunk address.
    pub fn iter_bytes<S: StorageInterface>(&self, dev: &mut S, address: ChunkAddress) -> (r: ChunkTableByteIterator)
        requires
            self.wf(),
            old(dev).never_fails(),
            self.fits(old(dev).contents().len() as int),
            address.0 < self.chunks,
        ensures
            final(dev).contents() == old(dev).contents(),
            final(dev).never_fails() == old(dev).never_fails(),
            r.table == *self,
            r.chunk == address,
            r.buffer_index == 0,
            r.buffer@ == self.chunk_bytes(old(dev).contents(), address.0 as int),
            r.at_heap_position(old(dev).contents(), address.0 as int, 0),
    {
        ChunkTableByteIterator::new(*self, dev, address)
    }
}

impl ChunkTable {
    /// The first `n` bytes of the heap from the start of chunk `address` on, read through the
    /// byte iterator as `iter_bytes(address).take(n)` reads them: `None` if the device fails a
    /// read. The bytes must lie in the table's chunks.
    pub fn read_bytes<S: StorageInterface>(&self, dev: &mut S, address: ChunkAddress, n: usize) -> (r: Option<Vec<u8>>)
        requires
            self.wf(),
            old(dev).never_fails(),
            self.fits(old(dev).contents().len() as int),
            address.0 < self.chunks,
            n > 0 ==> address.0 + (n - 1) / 16 < self.chunks,
        ensures
            final(dev).contents() == old(dev).contents(),
            r is Some,
            r matches Some(v) ==> v@ == old(dev).contents().subrange(
                self.chunk_abs(address.0 as int),
                self.chunk_abs(address.0 as int) + n,
            ),
    {
        let ghost c = dev.contents();
        let ghost base = self.chunk_abs(address.0 as int);
        let mut it = self.iter_bytes(dev, address);
        let mut out: Vec<u8> = Vec::new();
        let mut j: usize = 0;
        while j < n
            invariant
                self.wf(),
                dev.never_fails(),
                dev.contents() == c,
                c == old(dev).contents(),
                self.fits(c.len() as int),
                base == self.chunk_abs(address.0 as int),
                n > 0 ==> address.0 + (n - 1) / 16 < self.chunks,
                j <= n,
                it.table == *self,
                it.buffer_index <= CHUNK_SIZE,
                address.0 <= it.chunk.0 < self.chunks,
                it.buffer@ == self.chunk_bytes(c, it.chunk.0 as int),
                it.buffer@.len() == CHUNK_SIZE,
                j == CHUNK_SIZE * (it.chunk.0 - address.0) + it.buffer_index,
                j > 0 ==> it.buffer_index > 0,
                out@ == c.subrange(base, base + j),
            decreases n - j,
        {
            let ghost ch = it.chunk.0 as int;
            proof {
                if it.buffer_index >= CHUNK_SIZE {
                    assert(ch + 1 <= address.0 + (n - 1) / 16) by (nonlinear_arith)
                        requires j == 16 * (ch - address.0) + 16, j < n;
                    assert(self.chunk_abs(ch + 1) + CHUNK_SIZE <= c.len());
                }
            }
            let b = it.next(dev);
            match b {
                Some(byte) => {
                    proof {
                        let k = it.chunk.0 as int;
                        assert(self.chunk_abs(k) == base + CHUNK_SIZE * (k - address.0));
                        assert(self.chunk_bytes(c, k).len() == CHUNK_SIZE);
                        assert(byte == c[base + j]);
                    }
                    out.push(byte);
                    j = j + 1;
                    assert(out@ =~= c.subrange(base, base + j));
                },
                None => {
                    proof {
                        assert(false);
                    }
                    return None;
                },
            }
        }
        Some(out)
    }
}

/// Reading back bytes written onto the heap gives the bytes written: after `write_bytes` puts
/// `data` at the start of chunk `address`, the first `data.len()` heap bytes from there are
/// `data`.
pub proof fn lemma_write_then_read_bytes(table: ChunkTable, c: Seq<u8>, address: int, data: Seq<u8>)
    requires
        0 <= table.chunk_abs(address),
        table.chunk_abs(address) + padded(data).len() <= c.len(),
    ensures
        spec_write(c, table.chunk_abs(address), padded(data)).subrange(
            table.chunk_abs(address),
            table.chunk_abs(address) + data.len(),
        ) == data,
{
    let base = table.chunk_abs(address);
    let after = spec_write(c, base, padded(data));
    assert(padded(data).len() >= data.len()) by (nonlinear_arith)
        requires
            padded(data).len() == if data.len() % 16 == 0 { data.len() as int } else { (data.len() / 16 + 1) * 16 as int },
    ;
    assert(after.subrange(base, base + data.len()) =~= data);
}

/// Iterating from chunk `address` after `data` was written there gives back `data`: byte `j` of
/// the heap from that chunk on, which `next` yields as the iterator's `j`th byte, is `data[j]`.
pub proof fn lemma_write_then_iterate(table: ChunkTable, c: Seq<u8>, address: int, data: Seq<u8>, j: int)
    requires
        0 <= j < data.len(),
        0 <= table.chunk_abs(address),
        table.chunk_abs(address) + padded(data).len() <= c.len(),
    ensures
        spec_write(c, table.chunk_abs(address), padded(data))[table.chunk_abs(address) + j] == data[j],
{
    lemma_write_then_read_bytes(table, c, address, data);
    let base = table.chunk_abs(address);
    let after = spec_write(c, base, padded(data));
    assert(after.subrange(base, base + data.len())[j] == after[base + j]);
}

/// `data`, padded with zeros to a whole number of chunks.
pub open spec fn padded(data: Seq<u8>) -> Seq<u8> {
    let n = if data.len() % 16 == 0 { data.len() as int } else { (data.len() / 16 + 1) * 16 as int };
    Seq::new(n as nat, |i: int| if i < data.len() { data[i] } else { 0u8 })
}

/// An iterator over the bytes of a chunk table's heap, from a given chunk onwards. It holds the
/// chunk it is reading and a copy of that chunk's bytes.
pub struct ChunkTableByteIterator {
    pub table: ChunkTable,
    pub buffer: Vec<u8>,
    pub buffer_index: usize,
    pub chunk: ChunkAddress,
}

impl ChunkTableByteIterator {
    /// Whether the iterator, started at chunk `address` over a device holding `c`, has yielded
    /// `j` bytes: it holds the chunk that byte `j` lies in (or, at a chunk's end, the one before)
    /// and its place in it.
    pub open spec fn at_heap_position(&self, c: Seq<u8>, address: int, j: int) -> bool {
        &&& self.buffer@ == self.table.chunk_bytes(c, self.chunk.0 as int)
        &&& 0 <= self.table.chunk_abs(self.chunk.0 as int)
        &&& self.table.chunk_abs(self.chunk.0 as int) + CHUNK_SIZE <= c.len()
        &&& self.buffer_index <= CHUNK_SIZE
        &&& j == CHUNK_SIZE * (self.chunk.0 - address) + self.buffer_index
        &&& j > 0 ==> self.buffer_index > 0
    }

    fn new<S: StorageInterface>(table: ChunkTable, dev: &mut S, chunk: ChunkAddress) -> (r: Self)
        requires
            table.wf(),
            old(dev).never_fails(),
            table.fits(old(dev).contents().len() as int),
            chunk.0 < table.chunks,
        ensures
            final(dev).contents() == old(dev).contents(),
            final(dev).never_fails() == old(dev).never_fails(),
            r.table == table,
            r.chunk == chunk,
            r.buffer_index == 0,
            r.buffer@ == table.chunk_bytes(old(dev).contents(), chunk.0 as int),
    {
        let initial_buffer = match table.read_chunk(dev, chunk) {
            Some(b) => b,
            None => {
                proof {
                    assert(false);
                }
                Vec::new()
            },
        };
        Self { table, chunk, buffer: initial_buffer, buffer_index: 0 }
    }

    /// The next byte of the heap. Moving on from one chunk to the next reads that chunk; if the
    /// read fails, returns `None` (having moved on to the chunk it could not read).
    pub fn next<S: StorageInterface>(&mut self, dev: &mut S) -> (r: Option<u8>)
        requires
            old(self).table.wf(),
            old(self).buffer@.len() == CHUNK_SIZE,
            old(self).buffer_index <= CHUNK_SIZE,
            old(self).buffer_index >= CHUNK_SIZE ==> old(self).chunk.0 < old(self).table.chunks,
        ensures
            final(dev).contents() == old(dev).contents(),
            final(dev).never_fails() == old(dev).never_fails(),
            final(self).table == old(self).table,
            final(self).buffer@.len() == CHUNK_SIZE,
            final(self).buffer_index <= CHUNK_SIZE,
            old(self).buffer_index < CHUNK_SIZE ==> {
                &&& r == Some(old(self).buffer@[old(self).buffer_index as int])
                &&& final(self).buffer_index == old(self).buffer_index + 1
                &&& final(self).chunk == old(self).chunk
                &&& final(self).buffer@ == old(self).buffer@
            },
            old(self).buffer_index >= CHUNK_SIZE ==> {
                &&& final(self).chunk.0 == old(self).chunk.0 + 1
                &&& r matches Some(b) ==> {
                    &&& final(self).buffer@ == old(self).table.chunk_bytes(old(dev).contents(), old(self).chunk.0 + 1)
                    &&& b == final(self).buffer@[0]
                    &&& final(self).buffer_index == 1
                }
                &&& r is None ==> final(self).buffer@ == old(self).buffer@ && final(self).buffer_index == old(self).buffer_index
                &&& old(dev).never_fails() && old(self).table.storage.in_bounds(
                    old(self).table.heap_addr() + CHUNK_SIZE * (old(self).chunk.0 + 1),
                    CHUNK_SIZE as int,
                ) && old(self).table.chunk_abs(old(self).chunk.0 + 1) + CHUNK_SIZE <= old(dev).contents().len() ==> r is Some
            },
            forall|address: int, j: int| #[trigger] old(self).at_heap_position(old(dev).contents(), address, j) && r is Some ==> {
                &&& r == Some(old(dev).contents()[old(self).table.chunk_abs(address) + j])
                &&& final(self).at_heap_position(old(dev).contents(), address, j + 1)
            },
    {
        let ghost before = *self;
        let ghost c = dev.contents();
        if self.buffer_index >= 16 {
            self.chunk = ChunkAddress(self.chunk.0 + 1);
            let b = match self.table.read_chunk(dev, self.chunk) {
                Some(b) => b,
                None => return None,
            };
            self.buffer = b;
            self.buffer_index = 0;
        }
        let this_item = self.buffer[self.buffer_index];
        self.buffer_index = self.buffer_index + 1;
        proof {
            assert forall|address: int, j: int| #[trigger] before.at_heap_position(c, address, j) implies {
                &&& this_item == c[before.table.chunk_abs(address) + j]
                &&& self.at_heap_position(c, address, j + 1)
            } by {
                let k = self.chunk.0 as int;
                assert(self.table.chunk_abs(k) == before.table.chunk_abs(address) + CHUNK_SIZE * (k - address));
                assert(this_item == self.buffer@[self.buffer_index - 1]);
            }
        }
        Some(this_item)
    }
}

proof fn lemma_bits_equal(x: u8, y: u8)
    by (bit_vector)
    requires
        (x & (0x80u8 >> 0u8) != 0) == (y & (0x80u8 >> 0u8) != 0),
        (x & (0x80u8 >> 1u8) != 0) == (y & (0x80u8 >> 1u8) != 0),
        (x & (0x80u8 >> 2u8) != 0) == (y & (0x80u8 >> 2u8) != 0),
        (x & (0x80u8 >> 3u8) != 0) == (y & (0x80u8 >> 3u8) != 0),
        (x & (0x80u8 >> 4u8) != 0) == (y & (0x80u8 >> 4u8) != 0),
        (x & (0x80u8 >> 5u8) != 0) == (y & (0x80u8 >> 5u8) != 0),
        (x & (0x80u8 >> 6u8) != 0) == (y & (0x80u8 >> 6u8) != 0),
        (x & (0x80u8 >> 7u8) != 0) == (y & (0x80u8 >> 7u8) != 0),
    ensures
        x == y,
{
}

/// Freeing the chunks of an allocation returns the device to its contents before the
/// allocation: marking free chunks as used and then as free again changes no byte.
pub proof fn lemma_allocate_then_free_restores(table: ChunkTable, c0: Seq<u8>, c1: Seq<u8>, c2: Seq<u8>, address: int, length: int)
    requires
        length > 0,
        address >= 0,
        table.run_free(c0, address, length),
        table.states_set(c0, c1, address, length, true),
        table.states_set(c1, c2, address, length, false),
    ensures
        c2 == c0,
{
    assert forall|i: int| 0 <= i < c0.len() implies c2[i] == c0[i] by {
        if table.state_touched(address, length, i) {
            let k = i - table.abs(table.state_addr());
            assert(table.abs(table.state_addr() + k) == i);
            assert forall|p: u8| p < 8 implies bit(c2[i], p) == bit(c0[i], p) by {
                let ch = 8 * k + p;
                assert(ch / 8 == k && ch % 8 == p as int);
                assert(table.chunk_used(c2, ch) == table.chunk_used(c0, ch));
            }
            assert(bit(c2[i], 0) == bit(c0[i], 0));
            assert(bit(c2[i], 1) == bit(c0[i], 1));
            assert(bit(c2[i], 2) == bit(c0[i], 2));
            assert(bit(c2[i], 3) == bit(c0[i], 3));
            assert(bit(c2[i], 4) == bit(c0[i], 4));
            assert(bit(c2[i], 5) == bit(c0[i], 5));
            assert(bit(c2[i], 6) == bit(c0[i], 6));
            assert(bit(c2[i], 7) == bit(c0[i], 7));
            lemma_bits_equal(c2[i], c0[i]);
        }
    }
    assert(c2 =~= c0);
}

/// Chunks that an allocation marked as used are not free afterwards: any later allocation is
/// disjoint from it.
pub proof fn lemma_allocations_disjoint(table: ChunkTable, c0: Seq<u8>, c1: Seq<u8>, address: int, length: int, start: int, count: int)
    requires
        length > 0,
        address >= 0,
        table.states_set(c0, c1, address, length, true),
        table.free_run_at(c1, start, count),
    ensures
        start + count <= address || address + length <= start,
{
    if !(start + count <= address || address + length <= start) {
        let ch = if start <= address { address } else { start };
        assert(table.chunk_used(c1, ch));
        assert(!table.chunk_used(c1, ch));
    }
}

/// Writing bytes onto the heap and then reading back a chunk gives the bytes written to that
/// chunk, padded with zeros after the end of the data.
pub proof fn lemma_write_then_read_chunk(table: ChunkTable, c: Seq<u8>, address: int, data: Seq<u8>, k: int)
    requires
        0 <= k,
        CHUNK_SIZE * (k + 1) <= padded(data).len(),
        0 <= table.chunk_abs(address),
        table.chunk_abs(address) + padded(data).len() <= c.len(),
    ensures
        table.chunk_bytes(spec_write(c, table.chunk_abs(address), padded(data)), address + k) == padded(data).subrange(
            CHUNK_SIZE * k,
            CHUNK_SIZE * (k + 1),
        ),
{
    let after = spec_write(c, table.chunk_abs(address), padded(data));
    assert(table.chunk_abs(address + k) == table.chunk_abs(address) + CHUNK_SIZE * k);
    assert(table.chunk_bytes(after, address + k) =~= padded(data).subrange(CHUNK_SIZE * k, CHUNK_SIZE * (k + 1)));
}

/// Pointing a map entry at a chunk and then looking the entry up gives that chunk.
pub proof fn lemma_set_then_lookup(table: ChunkTable, c: Seq<u8>, index: int, address: u16)
    requires
        0 <= table.abs(CHUNK_ADDRESS_SIZE * index),
        table.abs(CHUNK_ADDRESS_SIZE * index + 1) < c.len(),
    ensures
        table.map_entry(
            c.update(table.abs(CHUNK_ADDRESS_SIZE * index), (address / 256) as u8).update(
                table.abs(CHUNK_ADDRESS_SIZE * index + 1),
                (address % 256) as u8,
            ),
            index,
        ) == address,
{
}

} // verus!

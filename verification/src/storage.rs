use vstd::prelude::*;

verus! {

/// The contents of a device after `bytes` are written starting at `address`. Bytes outside the
/// written range keep their value.
pub open spec fn spec_write(contents: Seq<u8>, address: int, bytes: Seq<u8>) -> Seq<u8> {
    Seq::new(
        contents.len(),
        |i: int| if address <= i < address + bytes.len() { bytes[i - address] } else { contents[i] },
    )
}

/// A read of the bytes a write just wrote gives them back, and the write leaves every other byte
/// as it was.
pub proof fn lemma_write_then_read(contents: Seq<u8>, address: int, bytes: Seq<u8>)
    requires
        0 <= address,
        address + bytes.len() <= contents.len(),
    ensures
        spec_write(contents, address, bytes).subrange(address, address + bytes.len()) == bytes,
        spec_write(contents, address, bytes).len() == contents.len(),
        forall|i: int| 0 <= i < contents.len() && !(address <= i < address + bytes.len()) ==> #[trigger] spec_write(
            contents,
            address,
            bytes,
        )[i] == contents[i],
{
    assert(spec_write(contents, address, bytes).subrange(address, address + bytes.len()) =~= bytes);
}

/// The number of zero bytes that one step of `clear_range` writes.
pub const CLEAR_BLOCK_SIZE: u16 = 64;

/// A block of zero bytes, as written by one step of `clear_range`.
pub open spec fn zero_block() -> Seq<u8> {
    Seq::new(CLEAR_BLOCK_SIZE as nat, |i: int| 0u8)
}

/// The contents of a device after `clear_range(start, length)` succeeds: a full block of zeros is
/// written at `start`, `start + 64`, ... for as long as any of the `length` bytes remain.
pub open spec fn spec_clear_range(contents: Seq<u8>, address: int, remaining: int) -> Seq<u8>
    decreases remaining,
{
    if remaining <= 0 {
        contents
    } else {
        let step = if remaining < CLEAR_BLOCK_SIZE { remaining } else { CLEAR_BLOCK_SIZE as int };
        spec_clear_range(spec_write(contents, address, zero_block()), address + step, remaining - step)
    }
}

/// Whether every block that `clear_range(start, length)` writes lies inside a device of `len`
/// bytes.
pub open spec fn clear_range_fits(len: int, address: int, remaining: int) -> bool
    decreases remaining,
{
    if remaining <= 0 {
        true
    } else {
        let step = if remaining < CLEAR_BLOCK_SIZE { remaining } else { CLEAR_BLOCK_SIZE as int };
        address + CLEAR_BLOCK_SIZE <= len && clear_range_fits(len, address + step, remaining - step)
    }
}

/// A byte-addressed storage device, such as an EEPROM chip or the memory of a simulator.
///
/// `contents` is the device's memory. A device may fail an access (a bus error, for example); one
/// whose `never_fails` holds completes every access that lies inside its memory.
pub trait StorageInterface {
    spec fn contents(&self) -> Seq<u8>;

    spec fn never_fails(&self) -> bool;

    fn is_connected(&mut self) -> (r: bool)
        ensures
            final(self).contents() == old(self).contents(),
            final(self).never_fails() == old(self).never_fails(),
    ;

    fn is_busy(&mut self) -> (r: bool)
        ensures
            final(self).contents() == old(self).contents(),
            final(self).never_fails() == old(self).never_fails(),
    ;

    /// Writes `bytes` starting at `address`.
    fn write(&mut self, address: u16, bytes: &[u8]) -> (r: Option<()>)
        ensures
            final(self).contents().len() == old(self).contents().len(),
            final(self).never_fails() == old(self).never_fails(),
            r is Some ==> address + bytes@.len() <= old(self).contents().len() && final(self).contents() == spec_write(old(self).contents(), address as int, bytes@),
            old(self).never_fails() && address + bytes@.len() <= old(self).contents().len() ==> r is Some,
    ;

    /// Reads `count` bytes starting at `address`.
    fn read(&mut self, address: u16, count: u16) -> (r: Option<Vec<u8>>)
        ensures
            final(self).contents() == old(self).contents(),
            final(self).never_fails() == old(self).never_fails(),
            r matches Some(v) ==> address + count <= old(self).contents().len() && v@ == old(self).contents().subrange(address as int, address + count),
            old(self).never_fails() && address + count <= old(self).contents().len() ==> r is Some,
    ;

    fn acquire_priority(&mut self)
        ensures
            final(self).contents() == old(self).contents(),
            final(self).never_fails() == old(self).never_fails(),
    ;

    fn release_priority(&mut self)
        ensures
            final(self).contents() == old(self).contents(),
            final(self).never_fails() == old(self).never_fails(),
    ;

    /// Zeroes `length` bytes starting at `start`, one block of 64 zero bytes at a time. Each step
    /// writes a whole block, so the last one may zero bytes past `start + length`.
    fn clear_range(&mut self, start: u16, length: u16) -> (r: Option<()>)
        requires
            length == 0 || start + length <= u16::MAX,
        ensures
            final(self).contents().len() == old(self).contents().len(),
            final(self).never_fails() == old(self).never_fails(),
            r is Some ==> clear_range_fits(old(self).contents().len() as int, start as int, length as int)
                && final(self).contents() == spec_clear_range(old(self).contents(), start as int, length as int),
            old(self).never_fails() && clear_range_fits(old(self).contents().len() as int, start as int, length as int)
                ==> r is Some,
    {
        let mut buffer: Vec<u8> = Vec::new();
        let mut k: u16 = 0;
        while k < CLEAR_BLOCK_SIZE
            invariant
                k <= CLEAR_BLOCK_SIZE,
                buffer@ =~= Seq::new(k as nat, |i: int| 0u8),
            decreases CLEAR_BLOCK_SIZE - k,
        {
            buffer.push(0u8);
            k = k + 1;
        }
        assert(buffer@ =~= zero_block());
        let mut bytes_remaining = length;
        let mut address = start;
        while bytes_remaining > 0
            invariant
                bytes_remaining == 0 || address + bytes_remaining <= u16::MAX,
                buffer@ == zero_block(),
                self.contents().len() == old(self).contents().len(),
                self.never_fails() == old(self).never_fails(),
                spec_clear_range(self.contents(), address as int, bytes_remaining as int) == spec_clear_range(
                    old(self).contents(), start as int, length as int),
                clear_range_fits(self.contents().len() as int, address as int, bytes_remaining as int)
                    == clear_range_fits(old(self).contents().len() as int, start as int, length as int),
            decreases bytes_remaining,
        {
            let this_chunk_size = if CLEAR_BLOCK_SIZE < bytes_remaining {
                CLEAR_BLOCK_SIZE
            } else {
                bytes_remaining
            };
            let w = self.write(address, buffer.as_slice());
            if w.is_none() {
                return None;
            }
            address = address + this_chunk_size;
            bytes_remaining = bytes_remaining - this_chunk_size;
        }
        Some(())
    }
}

/// A storage device kept in memory, as the simulator provides it. Every access inside its memory
/// succeeds.
pub struct MemoryStorage {
    pub bytes: Vec<u8>,
}

impl MemoryStorage {
    /// A device of `size` zero bytes.
    pub fn new(size: usize) -> (r: MemoryStorage)
        ensures
            r.bytes@ == Seq::new(size as nat, |i: int| 0u8),
    {
        let mut bytes: Vec<u8> = Vec::new();
        let mut i: usize = 0;
        while i < size
            invariant
                i <= size,
                bytes@ =~= Seq::new(i as nat, |j: int| 0u8),
            decreases size - i,
        {
            bytes.push(0u8);
            i = i + 1;
        }
        MemoryStorage { bytes }
    }
}

impl StorageInterface for MemoryStorage {
    open spec fn contents(&self) -> Seq<u8> {
        self.bytes@
    }

    open spec fn never_fails(&self) -> bool {
        true
    }

    /// Memory is always there.
    fn is_connected(&mut self) -> (r: bool)
        ensures
            r,
    {
        true
    }

    /// Memory is never busy.
    fn is_busy(&mut self) -> (r: bool)
        ensures
            !r,
    {
        false
    }

    fn write(&mut self, address: u16, bytes: &[u8]) -> (r: Option<()>) {
        if address as usize > self.bytes.len() || bytes.len() > self.bytes.len() - address as usize {
            return None;
        }
        let mut i: usize = 0;
        while i < bytes.len()
            invariant
                0 <= i <= bytes.len(),
                address + bytes@.len() <= old(self).bytes@.len(),
                self.bytes@.len() == old(self).bytes@.len(),
                self.bytes.len() == old(self).bytes.len(),
                forall|j: int|
                    0 <= j < self.bytes@.len() ==> #[trigger] self.bytes@[j] == (if address <= j < address + i {
                        bytes@[j - address]
                    } else {
                        old(self).bytes@[j]
                    }),
            decreases bytes.len() - i,
        {
            self.bytes.set(address as usize + i, bytes[i]);
            i = i + 1;
        }
        assert(self.bytes@ =~= spec_write(old(self).bytes@, address as int, bytes@));
        Some(())
    }

    fn read(&mut self, address: u16, count: u16) -> (r: Option<Vec<u8>>) {
        if address as usize > self.bytes.len() || count as usize > self.bytes.len() - address as usize {
            return None;
        }
        let mut v: Vec<u8> = Vec::new();
        let mut i: usize = 0;
        while i < count as usize
            invariant
                0 <= i <= count,
                address + count <= self.bytes@.len(),
                v@ =~= self.bytes@.subrange(address as int, address + i),
            decreases count - i,
        {
            v.push(self.bytes[address as usize + i]);
            i = i + 1;
        }
        Some(v)
    }

    fn acquire_priority(&mut self) {
    }

    fn release_priority(&mut self) {
    }
}

} // verus!

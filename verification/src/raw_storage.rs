use vstd::prelude::*;
use crate::storage::{spec_write, StorageInterface};

verus! {

/// A relative address into a `RawStorage` area.
#[derive(PartialEq, Eq, Copy, Clone, Debug, Structural)]
pub struct RawStorageAddress(pub u16);

impl RawStorageAddress {
    /// The address `offset` bytes further on.
    pub fn offset(&self, offset: u16) -> (r: RawStorageAddress)
        requires
            self.0 + offset <= u16::MAX,
        ensures
            r.0 == self.0 + offset,
    {
        RawStorageAddress(self.0 + offset)
    }

    /// The address `offset` bytes further on (or back, when negative), computed in 16-bit signed
    /// arithmetic: the address is read as an `i16`, and the sum as a `u16`.
    pub fn signed_offset(&self, offset: i16) -> (r: RawStorageAddress)
        requires
            i16::MIN <= (self.0 as i16) + offset <= i16::MAX,
        ensures
            r.0 == ((self.0 as i16) + offset) as u16,
    {
        RawStorageAddress((self.0 as i16 + offset) as u16)
    }
}

/// A block of storage of `length` bytes, starting at `start_address` on a storage device, which can
/// be used freely to store any data.
#[derive(PartialEq, Eq, Copy, Clone, Debug, Structural)]
pub struct RawStorage {
    pub start_address: u16,
    pub length: u16,
}

impl RawStorage {
    /// Whether `count` bytes starting at `address` all lie inside this area.
    pub open spec fn in_bounds(self, address: int, count: int) -> bool {
        &&& 0 <= address < self.length
        &&& address + count <= self.length
    }

    /// The device address of the area's byte `address`.
    pub open spec fn abs(self, address: int) -> int {
        self.start_address + address
    }

    /// Whether a device of `len` bytes holds all of this area.
    pub open spec fn fits(self, len: int) -> bool {
        self.start_address + self.length <= len
    }

    /// Whether the device addresses of the area's first `n` bytes from `address` fit in 16 bits, as
    /// far as they lie inside the area.
    pub open spec fn addressable(self, address: int, n: int) -> bool {
        n <= 0 || address >= self.length || self.start_address + (if address + n < self.length {
            address + n
        } else {
            self.length as int
        }) - 1 <= u16::MAX
    }

    /// Returns whether a `RawStorageAddress` is within this storage area.
    pub fn valid_address(&self, address: RawStorageAddress) -> (r: bool)
        ensures
            r == (address.0 < self.length),
    {
        address.0 < self.length
    }

    /// Returns the absolute address of a `RawStorageAddress`, or None if it is invalid.
    pub fn absolute_address(&self, address: RawStorageAddress) -> (r: Option<u16>)
        requires
            self.addressable(address.0 as int, 1),
        ensures
            r == (if address.0 < self.length { Some((self.start_address + address.0) as u16) } else { None::<u16> }),
    {
        if !self.valid_address(address) {
            return None;
        }
        Some(self.start_address + address.0)
    }

    /// Returns the address after the last storage address. This address is not valid unless
    /// subtracted from.
    pub fn end(&self) -> (r: RawStorageAddress)
        ensures
            r.0 == self.length,
    {
        RawStorageAddress(self.length)
    }

    /// Reads a sequence of bytes from this storage area. Returns None if storage is inaccessible or
    /// out-of-bounds.
    pub fn read_bytes<S: StorageInterface>(&self, dev: &mut S, address: RawStorageAddress, count: u16) -> (r: Option<Vec<u8>>)
        requires
            self.addressable(address.0 as int, 1),
        ensures
            final(dev).contents() == old(dev).contents(),
            final(dev).never_fails() == old(dev).never_fails(),
            r matches Some(v) ==> self.in_bounds(address.0 as int, count as int)
                && self.abs(address.0 as int) + count <= old(dev).contents().len()
                && v@ == old(dev).contents().subrange(self.abs(address.0 as int), self.abs(address.0 as int) + count),
            !self.in_bounds(address.0 as int, count as int) ==> r is None,
            old(dev).never_fails() && self.in_bounds(address.0 as int, count as int)
                && self.abs(address.0 as int) + count <= old(dev).contents().len() ==> r is Some,
    {
        if address.0 >= self.length || count > self.length - address.0 {
            return None;
        }
        let absolute = match self.absolute_address(address) {
            Some(a) => a,
            None => return None,
        };
        dev.read(absolute, count)
    }

    /// Reads a byte from this storage area. Returns None if storage is inaccessible or
    /// out-of-bounds.
    pub fn read_byte<S: StorageInterface>(&self, dev: &mut S, address: RawStorageAddress) -> (r: Option<u8>)
        requires
            self.addressable(address.0 as int, 1),
        ensures
            final(dev).contents() == old(dev).contents(),
            final(dev).never_fails() == old(dev).never_fails(),
            r matches Some(b) ==> address.0 < self.length && self.abs(address.0 as int) < old(dev).contents().len()
                && b == old(dev).contents()[self.abs(address.0 as int)],
            address.0 >= self.length ==> r is None,
            old(dev).never_fails() && address.0 < self.length && self.abs(address.0 as int) < old(dev).contents().len()
                ==> r is Some,
    {
        match self.read_bytes(dev, address, 1) {
            Some(v) => Some(v[0]),
            None => None,
        }
    }

    /// Writes a sequence of bytes to this storage area. Returns None if storage is inaccessible or
    /// out-of-bounds.
    pub fn write_bytes<S: StorageInterface>(&self, dev: &mut S, address: RawStorageAddress, bytes: &[u8]) -> (r: Option<()>)
        requires
            self.addressable(address.0 as int, 1),
        ensures
            final(dev).contents().len() == old(dev).contents().len(),
            final(dev).never_fails() == old(dev).never_fails(),
            r is Some ==> self.in_bounds(address.0 as int, bytes@.len() as int)
                && self.abs(address.0 as int) + bytes@.len() <= old(dev).contents().len()
                && final(dev).contents() == spec_write(old(dev).contents(), self.abs(address.0 as int), bytes@),
            !self.in_bounds(address.0 as int, bytes@.len() as int) ==> r is None && final(dev).contents() == old(dev).contents(),
            old(dev).never_fails() && self.in_bounds(address.0 as int, bytes@.len() as int)
                && self.abs(address.0 as int) + bytes@.len() <= old(dev).contents().len() ==> r is Some,
    {
        if address.0 >= self.length || bytes.len() > (self.length - address.0) as usize {
            return None;
        }
        let absolute = match self.absolute_address(address) {
            Some(a) => a,
            None => return None,
        };
        dev.write(absolute, bytes)
    }

    /// Writes a byte to this storage area. Returns None if storage is inaccessible or
    /// out-of-bounds.
    pub fn write_byte<S: StorageInterface>(&self, dev: &mut S, address: RawStorageAddress, byte: u8) -> (r: Option<()>)
        requires
            self.addressable(address.0 as int, 1),
        ensures
            final(dev).contents().len() == old(dev).contents().len(),
            final(dev).never_fails() == old(dev).never_fails(),
            r is Some ==> address.0 < self.length && self.abs(address.0 as int) < old(dev).contents().len()
                && final(dev).contents() == old(dev).contents().update(self.abs(address.0 as int), byte),
            address.0 >= self.length ==> r is None && final(dev).contents() == old(dev).contents(),
            old(dev).never_fails() && address.0 < self.length && self.abs(address.0 as int) < old(dev).contents().len()
                ==> r is Some,
    {
        let buffer = [byte];
        let r = self.write_bytes(dev, address, &buffer);
        proof {
            if r is Some {
                assert(spec_write(old(dev).contents(), self.abs(address.0 as int), buffer@) =~= old(dev).contents().update(
                    self.abs(address.0 as int), byte));
            }
        }
        r
    }

    /// Fills `count` bytes with the given byte value, starting from the given address.
    pub fn fill_bytes<S: StorageInterface>(&self, dev: &mut S, address: RawStorageAddress, count: u16, byte: u8) -> (r: Option<()>)
        requires
            self.addressable(address.0 as int, count as int),
        ensures
            final(dev).contents().len() == old(dev).contents().len(),
            final(dev).never_fails() == old(dev).never_fails(),
            r is Some ==> (count == 0 || (self.in_bounds(address.0 as int, count as int)
                && self.abs(address.0 as int) + count <= old(dev).contents().len()))
                && final(dev).contents() == spec_fill(old(dev).contents(), self.abs(address.0 as int), count as int, byte),
            count > 0 && !self.in_bounds(address.0 as int, count as int) ==> r is None,
            old(dev).never_fails() && (count == 0 || self.in_bounds(address.0 as int, count as int))
                && self.abs(address.0 as int) + count <= old(dev).contents().len() ==> r is Some,
    {
        let mut offset: u16 = 0;
        while offset < count
            invariant
                offset <= count,
                self.addressable(address.0 as int, count as int),
                offset > 0 ==> address.0 + offset <= self.length && address.0 < self.length,
                dev.contents().len() == old(dev).contents().len(),
                dev.never_fails() == old(dev).never_fails(),
                offset > 0 ==> self.abs(address.0 as int) + offset <= old(dev).contents().len(),
                dev.contents() == spec_fill(old(dev).contents(), self.abs(address.0 as int), offset as int, byte),
            decreases count - offset,
        {
            let a = address.offset(offset);
            let ghost before = dev.contents();
            let w = self.write_byte(dev, a, byte);
            if w.is_none() {
                return None;
            }
            proof {
                assert(dev.contents() =~= spec_fill(old(dev).contents(), self.abs(address.0 as int), offset + 1, byte));
            }
            offset = offset + 1;
        }
        Some(())
    }
}

/// The contents of a device after `count` bytes from `address` are set to `byte`.
pub open spec fn spec_fill(contents: Seq<u8>, address: int, count: int, byte: u8) -> Seq<u8> {
    Seq::new(contents.len(), |i: int| if address <= i < address + count { byte } else { contents[i] })
}

} // verus!

use vstd::prelude::*;
use crate::raw_storage::{RawStorage, RawStorageAddress};
use crate::storage::{spec_write, StorageInterface};

verus! {

/// The page size of the EEPROM that holds the drive image: it is written one page at a time.
pub const CAT24C_PAGE_SIZE: usize = 64;

/// The first 64 bytes of the boot sector: the jump, the OEM name, the BIOS parameter block of a
/// small FAT12 volume labelled "Delta Pico" and its file system type.
pub open spec fn boot_sector_head() -> Seq<u8> {
    seq![
        0xEB, 0x3C, 0x90, 0x4D, 0x53, 0x44, 0x4F, 0x53, 0x35, 0x2E, 0x30, 0x00,
        0x02, 0x01, 0x01, 0x00, 0x01, 0x10, 0x00, 0x10, 0x00, 0xF8, 0x01, 0x00,
        0x01, 0x00, 0x01, 0x00, 0x00, 0x00, 0x00, 0x00, 0x00, 0x00, 0x00, 0x00,
        0x80, 0x00, 0x29, 0x34, 0x12, 0x00, 0x00, 0x44, 0x65, 0x6C, 0x74, 0x61,
        0x20, 0x50, 0x69, 0x63, 0x6F, 0x20, 0x46, 0x41, 0x54, 0x31, 0x32, 0x20,
        0x20, 0x20, 0x00, 0x00,
    ]
}

/// The boot sector: its head, zeros, and the signature 0x55 0xAA in the last two of its 512 bytes.
pub open spec fn boot_sector() -> Seq<u8> {
    Seq::new(512, |i: int| if i < 64 { boot_sector_head()[i] } else if i == 510 { 0x55u8 } else if i == 511 { 0xAAu8 } else { 0u8 })
}

/// The start of the file allocation table: the media descriptor and the reserved entries.
pub open spec fn fat_table_head() -> Seq<u8> {
    seq![0xF8u8, 0xFF, 0xFF, 0xFF, 0x0F]
}

/// The root directory's first entry: the volume label.
pub open spec fn root_directory_head() -> Seq<u8> {
    seq![
        0x44, 0x65, 0x6C, 0x74, 0x61, 0x20, 0x50, 0x69, 0x63, 0x6F, 0x20, 0x08,
        0x00, 0x00, 0x00, 0x00, 0x00, 0x00, 0x00, 0x00, 0x00, 0x00, 0x4F, 0x6D,
        0x65, 0x43, 0x00, 0x00, 0x00, 0x00, 0x00, 0x00,
    ]
}

/// The text of the README placed in the data area.
pub open spec fn readme_text() -> Seq<u8> {
    seq![
        0x59, 0x6F, 0x75, 0x72, 0x20, 0x44, 0x65, 0x6C, 0x74, 0x61, 0x20, 0x50,
        0x69, 0x63, 0x6F, 0x20, 0x69, 0x73, 0x20, 0x6D, 0x6F, 0x75, 0x6E, 0x74,
        0x65, 0x64, 0x20, 0x61, 0x73, 0x20, 0x55, 0x53, 0x42, 0x20, 0x66, 0x6C,
        0x61, 0x73, 0x68, 0x20, 0x73, 0x74, 0x6F, 0x72, 0x61, 0x67, 0x65, 0x2E,
        0x20, 0x45, 0x6A, 0x65, 0x63, 0x74, 0x20, 0x74, 0x68, 0x65, 0x20, 0x64,
        0x72, 0x69, 0x76, 0x65, 0x20, 0x69, 0x6E, 0x20, 0x79, 0x6F, 0x75, 0x72,
        0x20, 0x4F, 0x53, 0x20, 0x6F, 0x6E, 0x63, 0x65, 0x20, 0x64, 0x6F, 0x6E,
        0x65, 0x21,
    ]
}

/// `v` with its elements from `a` up to `b` replaced by `items`, as `Vec::splice` does.
pub open spec fn splice(v: Seq<u8>, a: int, b: int, items: Seq<u8>) -> Seq<u8> {
    v.subrange(0, a) + items + v.subrange(b, v.len() as int)
}

/// The drive image, in stages: a blank image of `block_num` blocks of `block_size` bytes, then the
/// boot sector, the allocation table, the root directory and the README each put in place of all
/// but the last byte of blocks 0, 1, 2 and 3 as they then stand.
pub open spec fn image_stage(block_num: int, block_size: int, stage: int) -> Seq<u8>
    decreases stage,
{
    if stage <= 0 {
        Seq::new((block_num * block_size) as nat, |i: int| 0u8)
    } else {
        let items = if stage == 1 {
            boot_sector()
        } else if stage == 2 {
            fat_table_head()
        } else if stage == 3 {
            root_directory_head()
        } else {
            readme_text()
        };
        splice(
            image_stage(block_num, block_size, stage - 1),
            block_size * (stage - 1),
            block_size * stage - 1,
            items,
        )
    }
}

/// The drive image that `reset` writes.
pub open spec fn fat_image(block_num: int, block_size: int) -> Seq<u8> {
    image_stage(block_num, block_size, 4)
}

/// Whether the image can be built: the blank image's size fits in memory, blocks are not empty,
/// each block replaced lies within the image as it then stands, and each stage fits in memory.
pub open spec fn fat_image_ok(block_num: int, block_size: int) -> bool {
    &&& block_size >= 1
    &&& block_num >= 0
    &&& block_num * block_size <= usize::MAX
    &&& block_size * 4 <= usize::MAX
    &&& block_size - 1 <= image_stage(block_num, block_size, 0).len()
    &&& image_stage(block_num, block_size, 1).len() <= usize::MAX
    &&& block_size * 2 - 1 <= image_stage(block_num, block_size, 1).len()
    &&& image_stage(block_num, block_size, 2).len() <= usize::MAX
    &&& block_size * 3 - 1 <= image_stage(block_num, block_size, 2).len()
    &&& image_stage(block_num, block_size, 3).len() <= usize::MAX
    &&& block_size * 4 - 1 <= image_stage(block_num, block_size, 3).len()
    &&& image_stage(block_num, block_size, 4).len() <= usize::MAX
}

/// The area address of page `i`, as a 16-bit address.
pub open spec fn page_address(i: int) -> int {
    (i * 64) % 65536
}

/// The device contents after pages 0 to `n - 1` of `data` are written to `storage`.
pub open spec fn pages_written(c: Seq<u8>, storage: RawStorage, data: Seq<u8>, n: int) -> Seq<u8>
    decreases n,
{
    if n <= 0 {
        c
    } else {
        spec_write(
            pages_written(c, storage, data, n - 1),
            storage.abs(page_address(n - 1)),
            data.subrange((n - 1) * 64, n * 64),
        )
    }
}

/// The bytes of pages 0 to `n - 1` of `storage`, one after another.
pub open spec fn pages_read(c: Seq<u8>, storage: RawStorage, n: int) -> Seq<u8>
    decreases n,
{
    if n <= 0 {
        Seq::empty()
    } else {
        pages_read(c, storage, n - 1) + c.subrange(storage.abs(page_address(n - 1)), storage.abs(page_address(n - 1)) + 64)
    }
}

/// Whether pages 0 to `n - 1` of `storage` lie inside the area and on a device of `len` bytes.
pub open spec fn pages_fit(storage: RawStorage, len: int, n: int) -> bool {
    forall|i: int| 0 <= i < n ==> {
        &&& storage.in_bounds(#[trigger] page_address(i), 64)
        &&& storage.abs(page_address(i)) + 64 <= len
    }
}

/// Whether the device addresses of pages 0 to `n - 1` of `storage` can be computed.
pub open spec fn pages_addressable(storage: RawStorage, n: int) -> bool {
    forall|i: int| 0 <= i < n ==> storage.addressable(#[trigger] page_address(i), 1)
}

/// `v` with its elements from `a` up to `b` replaced by `items`.
fn splice_bytes(v: Vec<u8>, a: usize, b: usize, items: &[u8]) -> (r: Vec<u8>)
    requires
        a <= b <= v@.len(),
        v@.len() - (b - a) + items@.len() <= usize::MAX,
    ensures
        r@ == splice(v@, a as int, b as int, items@),
{
    let mut r: Vec<u8> = Vec::new();
    let mut i: usize = 0;
    while i < a
        invariant
            i <= a <= b <= v@.len(),
            r@ == v@.subrange(0, i as int),
        decreases a - i,
    {
        r.push(v[i]);
        i = i + 1;
    }
    let mut j: usize = 0;
    while j < items.len()
        invariant
            j <= items@.len(),
            r@ == v@.subrange(0, a as int) + items@.subrange(0, j as int),
        decreases items@.len() - j,
    {
        r.push(items[j]);
        j = j + 1;
    }
    let mut k: usize = b;
    while k < v.len()
        invariant
            b <= k <= v@.len(),
            r@ == v@.subrange(0, a as int) + items@ + v@.subrange(b as int, k as int),
        decreases v@.len() - k,
    {
        r.push(v[k]);
        k = k + 1;
    }
    assert(items@.subrange(0, items@.len() as int) == items@);
    r
}

/// Page `i` of `data`.
fn page_of(data: &[u8], i: usize) -> (r: Vec<u8>)
    requires
        (i + 1) * 64 <= data@.len(),
    ensures
        r@ == data@.subrange(i * 64, (i + 1) * 64),
{
    let len = data.len();
    assert(i * 64 + 64 == (i + 1) * 64) by (nonlinear_arith);
    let start = i * CAT24C_PAGE_SIZE;
    let mut r: Vec<u8> = Vec::new();
    let mut k: usize = 0;
    while k < CAT24C_PAGE_SIZE
        invariant
            start == i * 64,
            start + 64 <= data@.len(),
            k <= 64,
            r@ == data@.subrange(start as int, start + k),
        decreases 64 - k,
    {
        r.push(data[start + k]);
        k = k + 1;
    }
    r
}

/// Where the next read or write of the file system driver goes.
#[derive(PartialEq, Eq, Copy, Clone, Debug, Structural)]
pub enum SeekFrom {
    Start(u64),
    End(i64),
    Current(i64),
}

/// A block device for a FAT file system, backed by a storage area, with a position for reads and
/// writes.
pub struct FatInterface {
    pub storage: RawStorage,
    pub pointer: RawStorageAddress,
}

impl FatInterface {
    pub fn new(storage: RawStorage) -> (f: Self)
        ensures
            f.storage == storage,
            f.pointer.0 == 0,
    {
        FatInterface { storage, pointer: RawStorageAddress(0) }
    }

    /// Builds the image of a freshly formatted drive of `block_num` blocks of `block_size` bytes,
    /// holding a README, and writes it to storage a page at a time. Stops at the first page that
    /// cannot be written and gives `None`.
    pub fn reset<S: StorageInterface>(&self, dev: &mut S, block_num: usize, block_size: usize) -> (r: Option<()>)
        requires
            fat_image_ok(block_num as int, block_size as int),
            pages_addressable(self.storage, (fat_image(block_num as int, block_size as int).len() / 64) as int),
        ensures
            final(dev).contents().len() == old(dev).contents().len(),
            final(dev).never_fails() == old(dev).never_fails(),
            r is Some ==> final(dev).contents() == pages_written(
                old(dev).contents(),
                self.storage,
                fat_image(block_num as int, block_size as int),
                (fat_image(block_num as int, block_size as int).len() / 64) as int,
            ),
            old(dev).never_fails() && pages_fit(
                self.storage,
                old(dev).contents().len() as int,
                (fat_image(block_num as int, block_size as int).len() / 64) as int,
            ) ==> r is Some,
    {
        let image = build_fat_image(block_num, block_size);
        write_pages(&self.storage, dev, image.as_slice(), image.len() / CAT24C_PAGE_SIZE)
    }

    /// Reads the whole drive, `block_num` blocks of `block_size` bytes rounded down to whole
    /// pages, a page at a time. Gives `None` if a page cannot be read.
    pub fn read_all<S: StorageInterface>(&self, dev: &mut S, block_num: usize, block_size: usize) -> (r: Option<Vec<u8>>)
        requires
            block_num * block_size <= usize::MAX,
            pages_addressable(self.storage, block_num * block_size / 64),
        ensures
            final(dev).contents() == old(dev).contents(),
            final(dev).never_fails() == old(dev).never_fails(),
            r matches Some(v) ==> pages_fit(self.storage, old(dev).contents().len() as int, block_num * block_size / 64)
                && v@ == pages_read(old(dev).contents(), self.storage, block_num * block_size / 64),
            old(dev).never_fails() && pages_fit(self.storage, old(dev).contents().len() as int, block_num * block_size / 64)
                ==> r is Some,
    {
        let n = block_num * block_size / CAT24C_PAGE_SIZE;
        let mut out: Vec<u8> = Vec::new();
        let mut i: usize = 0;
        while i < n
            invariant
                i <= n,
                n == block_num * block_size / 64,
                block_num * block_size <= usize::MAX,
                pages_addressable(self.storage, n as int),
                dev.contents() == old(dev).contents(),
                dev.never_fails() == old(dev).never_fails(),
                pages_fit(self.storage, old(dev).contents().len() as int, i as int),
                out@ == pages_read(old(dev).contents(), self.storage, i as int),
            decreases n - i,
        {
            assert(i * 64 < block_num * block_size) by (nonlinear_arith)
                requires i < n, n == block_num * block_size / 64, block_num * block_size >= 0;
            let address = i * CAT24C_PAGE_SIZE;
            let a16 = address as u16;
            proof {
                assert(a16 == address % 65536) by (bit_vector)
                    requires a16 == address as u16;
                assert(a16 == page_address(i as int));
                assert(self.storage.addressable(page_address(i as int), 1));
            }
            let page = match self.storage.read_bytes(dev, RawStorageAddress(a16), 64) {
                Some(p) => p,
                None => {
                    return None;
                }
            };
            let mut k: usize = 0;
            while k < page.len()
                invariant
                    k <= page@.len(),
                    out@ == pages_read(old(dev).contents(), self.storage, i as int) + page@.subrange(0, k as int),
                decreases page@.len() - k,
            {
                out.push(page[k]);
                k = k + 1;
            }
            assert(page@.subrange(0, page@.len() as int) == page@);
            proof {
                assert forall|j: int| 0 <= j < i + 1 implies {
                    &&& self.storage.in_bounds(#[trigger] page_address(j), 64)
                    &&& self.storage.abs(page_address(j)) + 64 <= old(dev).contents().len()
                } by {
                    if j < i {
                        assert(self.storage.in_bounds(page_address(j), 64));
                    }
                }
            }
            i = i + 1;
        }
        Some(out)
    }

    /// Writes `data`, the whole drive of `block_num` blocks of `block_size` bytes rounded down to
    /// whole pages, to storage a page at a time. Stops at the first page that cannot be written
    /// and gives `None`.
    pub fn write_all<S: StorageInterface>(&self, dev: &mut S, data: &[u8], block_num: usize, block_size: usize) -> (r: Option<()>)
        requires
            block_num * block_size <= usize::MAX,
            (block_num * block_size / 64) * 64 <= data@.len(),
            pages_addressable(self.storage, block_num * block_size / 64),
        ensures
            final(dev).contents().len() == old(dev).contents().len(),
            final(dev).never_fails() == old(dev).never_fails(),
            r is Some ==> final(dev).contents() == pages_written(old(dev).contents(), self.storage, data@, block_num * block_size / 64),
            old(dev).never_fails() && pages_fit(self.storage, old(dev).contents().len() as int, block_num * block_size / 64)
                ==> r is Some,
    {
        let n = block_num * block_size / CAT24C_PAGE_SIZE;
        write_pages(&self.storage, dev, data, n)
    }

    /// Reads as many bytes as `buf` holds, counted modulo 65536, from the position into the
    /// start of `buf`, and gives the length of `buf`. The position does not move. Gives `Err` if
    /// storage cannot be read there.
    pub fn read<S: StorageInterface>(&mut self, dev: &mut S, buf: &mut [u8]) -> (r: Result<usize, ()>)
        requires
            old(self).storage.addressable(old(self).pointer.0 as int, 1),
        ensures
            *final(self) == *old(self),
            final(dev).contents() == old(dev).contents(),
            final(dev).never_fails() == old(dev).never_fails(),
            final(buf)@.len() == old(buf)@.len(),
            ({
                let count = (old(buf)@.len() % 65536) as int;
                let at = old(self).storage.abs(old(self).pointer.0 as int);
                &&& r is Ok ==> r == Ok::<usize, ()>(old(buf)@.len() as usize)
                    && old(self).storage.in_bounds(old(self).pointer.0 as int, count)
                    && at + count <= old(dev).contents().len()
                    && final(buf)@ == old(dev).contents().subrange(at, at + count) + old(buf)@.subrange(count, old(buf)@.len() as int)
                &&& r is Err ==> final(buf)@ == old(buf)@
                &&& old(dev).never_fails() && old(self).storage.in_bounds(old(self).pointer.0 as int, count)
                    && at + count <= old(dev).contents().len() ==> r is Ok
            }),
    {
        let len = buf.len();
        let count = len as u16;
        proof {
            assert(count == len % 65536) by (bit_vector)
                requires count == len as u16;
        }
        let bytes = match self.storage.read_bytes(dev, self.pointer, count) {
            Some(b) => b,
            None => {
                return Err(());
            },
        };
        let mut i: usize = 0;
        while i < bytes.len()
            invariant
                bytes@.len() == count,
                count <= buf@.len(),
                buf@.len() == old(buf)@.len(),
                i <= bytes@.len(),
                buf@ == bytes@.subrange(0, i as int) + old(buf)@.subrange(i as int, old(buf)@.len() as int),
            decreases bytes@.len() - i,
        {
            buf[i] = bytes[i];
            i = i + 1;
        }
        assert(bytes@.subrange(0, i as int) == bytes@);
        Ok(buf.len())
    }

    /// Writes the first 64 bytes of `buf` (all of it if shorter) at the position, and gives how
    /// many bytes were written. The position does not move. Gives `Err` if storage cannot be
    /// written there.
    pub fn write<S: StorageInterface>(&mut self, dev: &mut S, buf: &[u8]) -> (r: Result<usize, ()>)
        requires
            old(self).storage.addressable(old(self).pointer.0 as int, 1),
        ensures
            *final(self) == *old(self),
            final(dev).contents().len() == old(dev).contents().len(),
            final(dev).never_fails() == old(dev).never_fails(),
            ({
                let count = if buf@.len() > 64 { 64 } else { buf@.len() as int };
                let at = old(self).storage.abs(old(self).pointer.0 as int);
                &&& r is Ok ==> r == Ok::<usize, ()>(count as usize)
                    && old(self).storage.in_bounds(old(self).pointer.0 as int, count)
                    && at + count <= old(dev).contents().len()
                    && final(dev).contents() == spec_write(old(dev).contents(), at, buf@.subrange(0, count))
                &&& old(dev).never_fails() && old(self).storage.in_bounds(old(self).pointer.0 as int, count)
                    && at + count <= old(dev).contents().len() ==> r is Ok
            }),
    {
        let count: usize = if buf.len() > 64 { 64 } else { buf.len() };
        let mut part: Vec<u8> = Vec::new();
        let mut i: usize = 0;
        while i < count
            invariant
                count <= buf@.len(),
                i <= count,
                part@ == buf@.subrange(0, i as int),
            decreases count - i,
        {
            part.push(buf[i]);
            i = i + 1;
        }
        match self.storage.write_bytes(dev, self.pointer, part.as_slice()) {
            Some(()) => Ok(count),
            None => Err(()),
        }
    }

    /// Nothing is buffered, so flushing always succeeds.
    pub fn flush(&mut self) -> (r: Result<(), ()>)
        ensures
            r is Ok,
            *final(self) == *old(self),
    {
        Ok(())
    }

    /// Moves the position to an offset from the start, from the end of the area, or from the
    /// current position, and gives the new position. Gives `Err`, leaving the position, if the
    /// new position does not fit in 16 bits.
    pub fn seek(&mut self, pos: SeekFrom) -> (r: Result<u64, ()>)
        requires
            pos matches SeekFrom::End(x) ==> old(self).storage.length + x <= i64::MAX,
            pos matches SeekFrom::Current(x) ==> old(self).pointer.0 + x <= i64::MAX,
        ensures
            final(self).storage == old(self).storage,
            ({
                let target: int = match pos {
                    SeekFrom::Start(x) => x as int,
                    SeekFrom::End(x) => old(self).storage.length + x,
                    SeekFrom::Current(x) => old(self).pointer.0 + x,
                };
                &&& 0 <= target <= u16::MAX ==> r == Ok::<u64, ()>(target as u64) && final(self).pointer.0 == target
                &&& !(0 <= target <= u16::MAX) ==> r is Err && final(self).pointer == old(self).pointer
            }),
    {
        let target: i128 = match pos {
            SeekFrom::Start(x) => x as i128,
            SeekFrom::End(x) => (self.storage.end().0 as i64 + x) as i128,
            SeekFrom::Current(x) => (self.pointer.0 as i64 + x) as i128,
        };
        if target < 0 || target > u16::MAX as i128 {
            return Err(());
        }
        self.pointer = RawStorageAddress(target as u16);
        Ok(target as u64)
    }
}

/// Builds the image that `reset` writes.
fn build_fat_image(block_num: usize, block_size: usize) -> (r: Vec<u8>)
    requires
        fat_image_ok(block_num as int, block_size as int),
    ensures
        r@ == fat_image(block_num as int, block_size as int),
{
    let head: [u8; 64] = [
        0xEB, 0x3C, 0x90, 0x4D, 0x53, 0x44, 0x4F, 0x53, 0x35, 0x2E, 0x30, 0x00,
        0x02, 0x01, 0x01, 0x00, 0x01, 0x10, 0x00, 0x10, 0x00, 0xF8, 0x01, 0x00,
        0x01, 0x00, 0x01, 0x00, 0x00, 0x00, 0x00, 0x00, 0x00, 0x00, 0x00, 0x00,
        0x80, 0x00, 0x29, 0x34, 0x12, 0x00, 0x00, 0x44, 0x65, 0x6C, 0x74, 0x61,
        0x20, 0x50, 0x69, 0x63, 0x6F, 0x20, 0x46, 0x41, 0x54, 0x31, 0x32, 0x20,
        0x20, 0x20, 0x00, 0x00,
    ];
    let mut boot: Vec<u8> = Vec::new();
    let mut i: usize = 0;
    while i < 512
        invariant
            i <= 512,
            head@ == boot_sector_head(),
            boot@ == boot_sector().subrange(0, i as int),
        decreases 512 - i,
    {
        let b: u8 = if i < 64 { head[i] } else if i == 510 { 0x55 } else if i == 511 { 0xAA } else { 0 };
        boot.push(b);
        i = i + 1;
    }
    assert(boot@ == boot_sector());
    let fat: [u8; 5] = [0xF8, 0xFF, 0xFF, 0xFF, 0x0F];
    let root: [u8; 32] = [
        0x44, 0x65, 0x6C, 0x74, 0x61, 0x20, 0x50, 0x69, 0x63, 0x6F, 0x20, 0x08,
        0x00, 0x00, 0x00, 0x00, 0x00, 0x00, 0x00, 0x00, 0x00, 0x00, 0x4F, 0x6D,
        0x65, 0x43, 0x00, 0x00, 0x00, 0x00, 0x00, 0x00,
    ];
    let readme: [u8; 86] = [
        0x59, 0x6F, 0x75, 0x72, 0x20, 0x44, 0x65, 0x6C, 0x74, 0x61, 0x20, 0x50,
        0x69, 0x63, 0x6F, 0x20, 0x69, 0x73, 0x20, 0x6D, 0x6F, 0x75, 0x6E, 0x74,
        0x65, 0x64, 0x20, 0x61, 0x73, 0x20, 0x55, 0x53, 0x42, 0x20, 0x66, 0x6C,
        0x61, 0x73, 0x68, 0x20, 0x73, 0x74, 0x6F, 0x72, 0x61, 0x67, 0x65, 0x2E,
        0x20, 0x45, 0x6A, 0x65, 0x63, 0x74, 0x20, 0x74, 0x68, 0x65, 0x20, 0x64,
        0x72, 0x69, 0x76, 0x65, 0x20, 0x69, 0x6E, 0x20, 0x79, 0x6F, 0x75, 0x72,
        0x20, 0x4F, 0x53, 0x20, 0x6F, 0x6E, 0x63, 0x65, 0x20, 0x64, 0x6F, 0x6E,
        0x65, 0x21,
    ];
    assert(fat@ == fat_table_head());
    assert(root@ == root_directory_head());
    assert(readme@ == readme_text());
    let blank: Vec<u8> = vec![0u8; block_num * block_size];
    assert(blank@ == image_stage(block_num as int, block_size as int, 0));
    let s1 = splice_bytes(blank, 0, block_size - 1, boot.as_slice());
    assert(s1@ == image_stage(block_num as int, block_size as int, 1));
    let s2 = splice_bytes(s1, block_size, block_size * 2 - 1, fat.as_slice());
    assert(s2@ == image_stage(block_num as int, block_size as int, 2));
    let s3 = splice_bytes(s2, block_size * 2, block_size * 3 - 1, root.as_slice());
    assert(s3@ == image_stage(block_num as int, block_size as int, 3));
    let s4 = splice_bytes(s3, block_size * 3, block_size * 4 - 1, readme.as_slice());
    s4
}

/// Writes pages 0 to `n - 1` of `data` to `storage`, stopping at the first failure.
fn write_pages<S: StorageInterface>(storage: &RawStorage, dev: &mut S, data: &[u8], n: usize) -> (r: Option<()>)
    requires
        n * 64 <= data@.len(),
        pages_addressable(*storage, n as int),
    ensures
        final(dev).contents().len() == old(dev).contents().len(),
        final(dev).never_fails() == old(dev).never_fails(),
        r is Some ==> final(dev).contents() == pages_written(old(dev).contents(), *storage, data@, n as int),
        old(dev).never_fails() && pages_fit(*storage, old(dev).contents().len() as int, n as int) ==> r is Some,
{
    let mut i: usize = 0;
    while i < n
        invariant
            i <= n,
            n * 64 <= data@.len(),
            pages_addressable(*storage, n as int),
            dev.contents().len() == old(dev).contents().len(),
            dev.never_fails() == old(dev).never_fails(),
            dev.contents() == pages_written(old(dev).contents(), *storage, data@, i as int),
        decreases n - i,
    {
        let len = data.len();
        assert((i + 1) * 64 <= n * 64) by (nonlinear_arith)
            requires i < n;
        assert(i * 64 < (i + 1) * 64) by (nonlinear_arith);
        let address = i * CAT24C_PAGE_SIZE;
        let a16 = address as u16;
        proof {
            assert(a16 == address % 65536) by (bit_vector)
                requires a16 == address as u16;
            assert(a16 == page_address(i as int));
            assert(storage.addressable(page_address(i as int), 1));
        }
        let page = page_of(data, i);
        match storage.write_bytes(dev, RawStorageAddress(a16), page.as_slice()) {
            Some(()) => {},
            None => {
                proof {
                    if old(dev).never_fails() && pages_fit(*storage, old(dev).contents().len() as int, n as int) {
                        assert(storage.in_bounds(page_address(i as int), 64));
                    }
                }
                return None;
            },
        }
        i = i + 1;
    }
    Some(())
}

/// Reading pages depends only on the bytes of those pages.
proof fn lemma_pages_read_frame(c1: Seq<u8>, c2: Seq<u8>, storage: RawStorage, n: int)
    requires
        0 <= n,
        n * 64 <= 65536,
        storage.abs(n * 64) <= c1.len(),
        storage.abs(n * 64) <= c2.len(),
        storage.start_address >= 0,
        forall|i: int| storage.abs(0) <= i < storage.abs(n * 64) ==> c1[i] == c2[i],
    ensures
        pages_read(c1, storage, n) == pages_read(c2, storage, n),
    decreases n,
{
    if n > 0 {
        assert((n - 1) * 64 == n * 64 - 64);
        lemma_pages_read_frame(c1, c2, storage, n - 1);
        assert(page_address(n - 1) == (n - 1) * 64) by {
            assert(((n - 1) * 64) % 65536 == (n - 1) * 64) by (nonlinear_arith)
                requires 0 <= (n - 1) * 64 < 65536;
        }
        let a = storage.abs(page_address(n - 1));
        assert(c1.subrange(a, a + 64) =~= c2.subrange(a, a + 64));
    }
}

/// Writing the whole drive a page at a time and reading it back gives the data written, when the
/// pages lie within the 16-bit address space and on the device.
pub proof fn lemma_write_all_then_read_all(c: Seq<u8>, storage: RawStorage, data: Seq<u8>, n: int)
    requires
        0 <= n,
        n * 64 <= 65536,
        n * 64 <= data.len(),
        storage.abs(n * 64) <= c.len(),
    ensures
        pages_read(pages_written(c, storage, data, n), storage, n) == data.subrange(0, n * 64),
    decreases n,
{
    if n > 0 {
        let prev = pages_written(c, storage, data, n - 1);
        let now = pages_written(c, storage, data, n);
        assert(page_address(n - 1) == (n - 1) * 64) by {
            assert(((n - 1) * 64) % 65536 == (n - 1) * 64) by (nonlinear_arith)
                requires 0 <= (n - 1) * 64 < 65536;
        }
        lemma_pages_written_len(c, storage, data, n - 1);
        let a = storage.abs((n - 1) * 64);
        crate::storage::lemma_write_then_read(prev, a, data.subrange((n - 1) * 64, n * 64));
        lemma_pages_read_frame(now, prev, storage, n - 1);
        lemma_write_all_then_read_all(c, storage, data, n - 1);
        assert(data.subrange(0, (n - 1) * 64) + data.subrange((n - 1) * 64, n * 64) =~= data.subrange(0, n * 64));
    }
}

proof fn lemma_pages_written_len(c: Seq<u8>, storage: RawStorage, data: Seq<u8>, n: int)
    ensures
        pages_written(c, storage, data, n).len() == c.len(),
    decreases n,
{
    if n > 0 {
        lemma_pages_written_len(c, storage, data, n - 1);
    }
}

} // verus!

use vstd::prelude::*;
use crate::chunk_table::{lemma_set_then_lookup, lemma_write_then_read_bytes, padded, ChunkAddress, ChunkIndex, ChunkTable, CHUNK_ADDRESS_SIZE};
use crate::storage::{spec_write, StorageInterface};

verus! {

/// The stored history of calculations: entry `i` of the chunk table's map points at the first
/// chunk of the serialized bytes of calculation `i`.
#[derive(PartialEq, Eq, Copy, Clone, Debug, Structural)]
pub struct CalculationHistory {
    pub table: ChunkTable,
}

/// The number of chunks that `len` bytes fill.
pub open spec fn chunks_for(len: int) -> int {
    len / 16 + if len % 16 > 0 { 1int } else { 0int }
}

impl CalculationHistory {
    /// `c` with map entry `idx` pointing at chunk `address`.
    pub open spec fn entry_set(self, c: Seq<u8>, idx: ChunkIndex, address: int) -> Seq<u8> {
        c.update(self.table.abs(CHUNK_ADDRESS_SIZE * idx.0), (address / 256) as u8).update(
            self.table.abs(CHUNK_ADDRESS_SIZE * idx.0 + 1),
            (address % 256) as u8,
        )
    }

    /// Whether `after` is `c` with the chunks of `previous` (the first chunk of an earlier
    /// calculation and its number of chunks) marked as free; with no earlier calculation, `c`
    /// itself.
    pub open spec fn freed(self, c: Seq<u8>, previous: Option<(ChunkAddress, u16)>, after: Seq<u8>) -> bool {
        match previous {
            None => after == c,
            Some((address, length)) => self.table.states_set(c, after, address.0 as int, length as int, false),
        }
    }

    /// Whether every chunk of `previous` has a state flag, so that freeing it cannot fall outside
    /// the table.
    pub open spec fn frees_cleanly(self, previous: Option<(ChunkAddress, u16)>) -> bool {
        match previous {
            None => true,
            Some((address, length)) => length == 0 || (address.0 + length - 1) / 8 < self.table.state_len(),
        }
    }

    /// Whether `after` is `before` with `data` stored as calculation `idx` at chunk `address`:
    /// `address` starts the lowest run of free chunks in `before` long enough for `data`; `marked`
    /// is `before` with those chunks marked as used; then map entry `idx` is pointed at `address`
    /// and `data`, padded to whole chunks, is written from there.
    pub open spec fn stored(self, before: Seq<u8>, idx: ChunkIndex, address: int, data: Seq<u8>, marked: Seq<u8>, after: Seq<u8>) -> bool {
        let n = chunks_for(data.len() as int);
        &&& self.table.free_run_at(before, address, n)
        &&& forall|s: int| 1 <= s < address ==> !#[trigger] self.table.free_run_at(before, s, n)
        &&& self.table.states_set(before, marked, address, n, true)
        &&& after == spec_write(self.entry_set(marked, idx, address), self.table.chunk_abs(address), padded(data))
    }

    /// Whether writing `data` as calculation `idx`, over the earlier calculation's chunks
    /// `previous`, can take the device from `before` to `after` and give `r`, with `mid` the
    /// device once `previous` is freed. Where the device never fails and holds the whole table,
    /// `previous` is freed exactly (where its chunks all have state flags), and with
    /// `idx` inside the map the write succeeds exactly when `mid` has a run of free chunks long
    /// enough for `data`.
    pub open spec fn write_outcome(
        self,
        before: Seq<u8>,
        previous: Option<(ChunkAddress, u16)>,
        idx: ChunkIndex,
        data: Seq<u8>,
        never_fails: bool,
        mid: Seq<u8>,
        r: Option<()>,
        after: Seq<u8>,
    ) -> bool {
        let ok = never_fails && self.table.fits(before.len() as int);
        &&& ok && self.frees_cleanly(previous) ==> self.freed(before, previous, mid)
        &&& r is Some ==> exists|address: int, marked: Seq<u8>| #[trigger] self.stored(mid, idx, address, data, marked, after)
        &&& ok && self.frees_cleanly(previous) && idx.0 < self.table.chunks ==> (r is Some <==> exists|s: int|
            #[trigger] self.table.free_run_at(mid, s, chunks_for(data.len() as int)))
    }

    /// Writes `bytes`, the serialized form of a calculation, as calculation `idx`. `previous` is
    /// where the calculation at `idx` was stored before, if it was (its first chunk and its
    /// number of chunks): those chunks are freed first, whether or not that succeeds. Then enough
    /// chunks for `bytes` are allocated, entry `idx` of the map is pointed at them, and `bytes` are
    /// written there. `None` if the allocation, the map entry or the write fails.
    pub fn write_calculation_at_index<S: StorageInterface>(
        &self,
        dev: &mut S,
        idx: ChunkIndex,
        previous: Option<(ChunkAddress, u16)>,
        bytes: Vec<u8>,
    ) -> (r: Option<()>)
        requires
            self.table.wf(),
            idx.0 < 0x8000,
            bytes@.len() <= 16 * 0xFFFF,
            previous matches Some((address, length)) ==> address.0 + length <= 0x10000 && (length > 0
                ==> self.table.state_addr() + (address.0 + length - 1) / 8 <= u16::MAX),
        ensures
            final(dev).contents().len() == old(dev).contents().len(),
            final(dev).never_fails() == old(dev).never_fails(),
            exists|mid: Seq<u8>| #[trigger] self.write_outcome(
                old(dev).contents(),
                previous,
                idx,
                bytes@,
                old(dev).never_fails(),
                mid,
                r,
                final(dev).contents(),
            ),
    {
        let ghost c0 = dev.contents();
        let ghost ok = dev.never_fails() && self.table.fits(c0.len() as int);
        if let Some((address, length)) = previous {
            let _ = self.table.free_chunks(dev, address, length);
        }
        let ghost mid = dev.contents();
        let ghost data = bytes@;
        let ghost n = chunks_for(data.len() as int);
        let count = self.table.chunks_required_for_bytes(bytes.len());
        assert(count == n);
        let r = match self.table.allocate_chunks(dev, count) {
            None => None,
            Some(address) => {
                let ghost marked = dev.contents();
                let ghost a = address.0 as int;
                proof {
                    assert(data.len() > 0 ==> (data.len() - 1) / 16 == n - 1);
                    assert(padded(data).len() == 16 * n);
                }
                match self.table.set_chunk_for_index(dev, idx, address) {
                    None => {
                        proof {
                            if ok && self.frees_cleanly(previous) && idx.0 < self.table.chunks {
                                assert(self.table.storage.in_bounds(CHUNK_ADDRESS_SIZE * idx.0, 2));
                            }
                        }
                        None
                    },
                    Some(_) => {
                        proof {
                            assert(dev.contents() == self.entry_set(marked, idx, a));
                        }
                        let w = self.table.write_bytes(dev, address, bytes);
                        match w {
                            None => {
                                proof {
                                    if ok && self.frees_cleanly(previous) && idx.0 < self.table.chunks {
                                        assert(self.table.storage.in_bounds(
                                            self.table.heap_addr() + 16 * a,
                                            padded(data).len() as int,
                                        ));
                                    }
                                }
                                None
                            },
                            Some(_) => {
                                proof {
                                    assert(self.stored(mid, idx, a, data, marked, dev.contents()));
                                }
                                Some(())
                            },
                        }
                    },
                }
            },
        };
        proof {
            assert(self.write_outcome(c0, previous, idx, data, old(dev).never_fails(), mid, r, dev.contents()));
        }
        r
    }
}

/// A calculation written is read back: once `data` is stored as calculation `idx` at chunk
/// `address`, map entry `idx` points at `address`, the heap bytes from the start of that chunk
/// are `data`, and the chunks holding it are marked as used.
pub proof fn lemma_stored_then_read(
    history: CalculationHistory,
    before: Seq<u8>,
    idx: ChunkIndex,
    address: int,
    data: Seq<u8>,
    marked: Seq<u8>,
    after: Seq<u8>,
)
    requires
        history.table.wf(),
        history.table.fits(before.len() as int),
        idx.0 < history.table.chunks,
        history.stored(before, idx, address, data, marked, after),
    ensures
        history.table.map_entry(after, idx.0 as int) == address,
        after.subrange(history.table.chunk_abs(address), history.table.chunk_abs(address) + data.len()) == data,
        forall|ch: int| address <= ch < address + chunks_for(data.len() as int) ==> #[trigger] history.table.chunk_used(after, ch),
{
    let table = history.table;
    let n = chunks_for(data.len() as int);
    let set = history.entry_set(marked, idx, address);
    let base = table.chunk_abs(address);
    assert(padded(data).len() == 16 * n);
    assert(base + padded(data).len() <= table.abs(table.state_addr()));
    lemma_write_then_read_bytes(table, set, address, data);
    lemma_set_then_lookup(table, marked, idx.0 as int, address as u16);
    assert(table.map_entry(after, idx.0 as int) == table.map_entry(set, idx.0 as int));
    assert forall|ch: int| address <= ch < address + n implies #[trigger] table.chunk_used(after, ch) by {
        assert(table.chunk_used(marked, ch));
        assert(table.state_byte(after, ch / 8) == table.state_byte(marked, ch / 8));
    }
}

} // verus!

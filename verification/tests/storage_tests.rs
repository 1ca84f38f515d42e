use delta_pico::calculation_history::CalculationHistory;
use delta_pico::chunk_table::{ChunkAddress, ChunkIndex, ChunkTable};
use delta_pico::raw_storage::{RawStorage, RawStorageAddress};
use delta_pico::settings::{Settings, SettingsValues, FALSE_BYTE, TRUE_BYTE};
use delta_pico::storage::{MemoryStorage, StorageInterface};

#[test]
fn memory_storage_reads_back_writes() {
    let mut dev = MemoryStorage::new(128);
    assert_eq!(dev.write(10, &[1, 2, 3]), Some(()));
    assert_eq!(dev.read(9, 5), Some(vec![0, 1, 2, 3, 0]));
    assert_eq!(dev.write(126, &[1, 2, 3]), None);
    assert_eq!(dev.read(120, 9), None);
}

#[test]
fn clear_range_zeroes_whole_blocks() {
    let mut dev = MemoryStorage::new(256);
    dev.bytes = vec![0xAA; 256];
    assert_eq!(dev.clear_range(10, 70), Some(()));
    // Blocks of 64 are written at 10 and 74, so bytes 10 .. 138 are cleared.
    assert_eq!(dev.bytes[9], 0xAA);
    assert!(dev.bytes[10..138].iter().all(|b| *b == 0));
    assert_eq!(dev.bytes[138], 0xAA);
}

#[test]
fn raw_storage_addresses() {
    let area = RawStorage { start_address: 100, length: 20 };
    assert!(area.valid_address(RawStorageAddress(19)));
    assert!(!area.valid_address(RawStorageAddress(20)));
    assert_eq!(area.absolute_address(RawStorageAddress(5)), Some(105));
    assert_eq!(area.absolute_address(RawStorageAddress(25)), None);
    assert_eq!(area.end().0, 20);
    assert_eq!(RawStorageAddress(7).offset(3).0, 10);
    assert_eq!(RawStorageAddress(7).signed_offset(-3).0, 4);
}

#[test]
fn raw_storage_reads_back_writes_within_the_area() {
    let mut dev = MemoryStorage::new(256);
    let area = RawStorage { start_address: 100, length: 20 };
    assert_eq!(area.write_bytes(&mut dev, RawStorageAddress(2), &[7, 8]), Some(()));
    assert_eq!(dev.bytes[102], 7);
    assert_eq!(area.read_bytes(&mut dev, RawStorageAddress(2), 2), Some(vec![7, 8]));
    assert_eq!(area.read_byte(&mut dev, RawStorageAddress(3)), Some(8));
    assert_eq!(area.write_byte(&mut dev, RawStorageAddress(19), 9), Some(()));
    assert_eq!(area.read_byte(&mut dev, RawStorageAddress(19)), Some(9));
    // Out of the area.
    assert_eq!(area.write_bytes(&mut dev, RawStorageAddress(19), &[1, 2]), None);
    assert_eq!(area.read_bytes(&mut dev, RawStorageAddress(20), 1), None);
    assert_eq!(area.fill_bytes(&mut dev, RawStorageAddress(4), 3, 0x55), Some(()));
    assert_eq!(&dev.bytes[104..107], &[0x55, 0x55, 0x55]);
}

fn table() -> ChunkTable {
    ChunkTable { storage: RawStorage { start_address: 0, length: 2 * 16 + 16 * 16 + 2 }, start_address: 0, chunks: 16 }
}

#[test]
fn chunk_table_layout() {
    let t = table();
    assert_eq!(t.total_length(), 32 + 256 + 2);
    assert_eq!(t.chunks_required_for_bytes(0), 0);
    assert_eq!(t.chunks_required_for_bytes(16), 1);
    assert_eq!(t.chunks_required_for_bytes(17), 2);
}

#[test]
fn allocate_then_free_restores_the_table() {
    let t = table();
    let mut dev = MemoryStorage::new(512);
    assert_eq!(t.clear(&mut dev, true), Some(()));
    let before = dev.bytes.clone();
    let a = t.allocate_chunks(&mut dev, 3).unwrap();
    assert_eq!(a.0, 1);
    let b = t.allocate_chunks(&mut dev, 2).unwrap();
    assert_eq!(b.0, 4);
    assert_eq!(t.free_chunks(&mut dev, b, 2), Some(()));
    assert_eq!(t.free_chunks(&mut dev, a, 3), Some(()));
    assert_eq!(dev.bytes, before);
}

#[test]
fn allocation_fails_when_full() {
    let t = table();
    let mut dev = MemoryStorage::new(512);
    t.clear(&mut dev, true).unwrap();
    assert!(t.allocate_chunks(&mut dev, 15).is_some());
    assert!(t.allocate_chunks(&mut dev, 1).is_none());
}

#[test]
fn chunk_write_then_read() {
    let t = table();
    let mut dev = MemoryStorage::new(512);
    let data = [9u8; 16];
    assert_eq!(t.write_chunk(&mut dev, ChunkAddress(2), &data), Some(()));
    assert_eq!(t.read_chunk(&mut dev, ChunkAddress(2)), Some(data.to_vec()));
}

#[test]
fn index_set_then_lookup() {
    let t = table();
    let mut dev = MemoryStorage::new(512);
    assert_eq!(t.set_chunk_for_index(&mut dev, ChunkIndex(3), ChunkAddress(0x0102)), Some(()));
    assert_eq!(t.chunk_for_index(&mut dev, ChunkIndex(3)).map(|c| c.0), Some(0x0102));
    assert_eq!(t.chunk_for_index(&mut dev, ChunkIndex(4)).map(|c| c.0), None);
}

#[test]
fn write_bytes_then_iterate() {
    let t = table();
    let mut dev = MemoryStorage::new(512);
    let data: Vec<u8> = (0..20).collect();
    assert_eq!(t.write_bytes(&mut dev, ChunkAddress(5), data.clone()), Some(()));
    let mut it = t.iter_bytes(&mut dev, ChunkAddress(5));
    let mut read = Vec::new();
    for _ in 0..20 {
        read.push(it.next(&mut dev).unwrap());
    }
    assert_eq!(read, data);
}

#[test]
fn settings_save_then_load() {
    let mut dev = MemoryStorage::new(2048);
    let mut s = Settings::new(RawStorage { start_address: 0, length: 1028 });
    assert_eq!(s.values, SettingsValues::default());
    s.values.show_heap_usage = true;
    assert_eq!(s.save(&mut dev), Some(()));
    assert_eq!(dev.bytes[1], TRUE_BYTE);
    assert_eq!(dev.bytes[2], FALSE_BYTE);
    let loaded = s.load(&mut dev).unwrap();
    assert!(loaded.show_heap_usage && !loaded.show_frame_time && loaded.fire_button_press_only);
}

#[test]
fn settings_default_for_unknown_bytes() {
    let mut dev = MemoryStorage::new(2048);
    let mut s = Settings::new(RawStorage { start_address: 0, length: 1028 });
    dev.bytes[3] = 0x12;
    s.load_into_self(&mut dev);
    assert_eq!(s.values, SettingsValues::default());
}

#[test]
fn second_init_loads_settings() {
    let mut dev = MemoryStorage::new(2048);
    dev.bytes[1] = TRUE_BYTE;
    dev.bytes[2] = TRUE_BYTE;
    dev.bytes[3] = FALSE_BYTE;
    let mut os = delta_pico::os::OperatingSystem::new(240, 320);
    os.second_init(&mut dev);
    let v = &os.filesystem.settings.values;
    assert!(v.show_heap_usage && v.show_frame_time && !v.fire_button_press_only);
    // Storage too small to hold the settings leaves the defaults.
    let mut tiny = MemoryStorage::new(2);
    let mut fresh = delta_pico::os::OperatingSystem::new(240, 320);
    fresh.second_init(&mut tiny);
    assert_eq!(fresh.filesystem.settings.values, SettingsValues::default());
}

#[test]
fn bytes_read_back_as_written() {
    let t = table();
    let mut dev = MemoryStorage::new(1024);
    let data: Vec<u8> = (1..=40).collect();
    assert_eq!(t.write_bytes(&mut dev, ChunkAddress(3), data.clone()), Some(()));
    assert_eq!(t.read_bytes(&mut dev, ChunkAddress(3), 40), Some(data.clone()));
    // The rest of the last chunk is padding.
    assert_eq!(t.read_bytes(&mut dev, ChunkAddress(3), 48).unwrap()[40..], [0u8; 8]);
    assert_eq!(t.read_bytes(&mut dev, ChunkAddress(4), 3), Some(vec![17, 18, 19]));
}

#[test]
fn loaded_settings_are_applied_or_kept() {
    let mut s = Settings::new(RawStorage { start_address: 0, length: 1028 });
    let v = SettingsValues { show_heap_usage: true, show_frame_time: true, fire_button_press_only: false };
    s.apply_loaded(None);
    assert_eq!(s.values, SettingsValues::default());
    s.apply_loaded(Some(v.clone()));
    assert_eq!(s.values, v);
}

#[test]
fn calculation_written_is_read_back() {
    let history = CalculationHistory { table: table() };
    let mut dev = MemoryStorage::new(512);
    history.table.clear(&mut dev, true).unwrap();
    let bytes: Vec<u8> = (1..=20).collect();
    assert_eq!(history.write_calculation_at_index(&mut dev, ChunkIndex(2), None, bytes.clone()), Some(()));
    let at = history.table.chunk_for_index(&mut dev, ChunkIndex(2)).unwrap();
    assert_eq!(at.0, 1);
    assert_eq!(history.table.read_bytes(&mut dev, at, 20), Some(bytes));
    // The two chunks that hold it are taken, so the next allocation comes after them.
    assert_eq!(history.table.allocate_chunks(&mut dev, 1).map(|a| a.0), Some(3));
}

#[test]
fn rewriting_a_calculation_frees_its_old_chunks() {
    let history = CalculationHistory { table: table() };
    let mut dev = MemoryStorage::new(512);
    history.table.clear(&mut dev, true).unwrap();
    history.write_calculation_at_index(&mut dev, ChunkIndex(0), None, vec![7; 40]).unwrap();
    history.write_calculation_at_index(&mut dev, ChunkIndex(1), None, vec![8; 5]).unwrap();
    assert_eq!(history.table.chunk_for_index(&mut dev, ChunkIndex(1)).map(|a| a.0), Some(4));
    // Calculation 0 took chunks 1 to 3; rewriting it shorter frees them and reuses chunk 1.
    let old_area = Some((ChunkAddress(1), 3));
    assert_eq!(history.write_calculation_at_index(&mut dev, ChunkIndex(0), old_area, vec![9; 16]), Some(()));
    let at = history.table.chunk_for_index(&mut dev, ChunkIndex(0)).unwrap();
    assert_eq!(at.0, 1);
    assert_eq!(history.table.read_bytes(&mut dev, at, 16), Some(vec![9; 16]));
    assert_eq!(history.table.read_bytes(&mut dev, ChunkAddress(4), 5), Some(vec![8; 5]));
    assert_eq!(history.table.allocate_chunks(&mut dev, 2).map(|a| a.0), Some(2));
}

#[test]
fn calculation_write_fails_when_the_table_is_full() {
    let history = CalculationHistory { table: table() };
    let mut dev = MemoryStorage::new(512);
    history.table.clear(&mut dev, true).unwrap();
    assert_eq!(history.write_calculation_at_index(&mut dev, ChunkIndex(0), None, vec![1; 16 * 15]), Some(()));
    assert_eq!(history.write_calculation_at_index(&mut dev, ChunkIndex(1), None, vec![1]), None);
    assert_eq!(history.table.chunk_for_index(&mut dev, ChunkIndex(1)), None);
}

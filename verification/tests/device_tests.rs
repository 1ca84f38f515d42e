use delta_pico::fat::{FatInterface, SeekFrom};
use delta_pico::hal::{decode_row, ButtonMatrixState, HeldReading, RawButtonEvent};
use delta_pico::raw_storage::{RawStorage, RawStorageAddress};
use delta_pico::storage::MemoryStorage;

fn fat() -> FatInterface {
    FatInterface::new(RawStorage { start_address: 0, length: 8 * 512 })
}

#[test]
fn reset_writes_a_boot_sector_and_a_readme() {
    let mut dev = MemoryStorage::new(8 * 512);
    assert_eq!(fat().reset(&mut dev, 8, 512), Some(()));
    assert_eq!(&dev.bytes[0..3], &[0xEB, 0x3C, 0x90]);
    assert_eq!(&dev.bytes[43..53], b"Delta Pico");
    assert_eq!(&dev.bytes[510..512], &[0x55, 0xAA]);
    // The boot sector takes the place of the first 511 bytes, so the table follows it directly.
    assert_eq!(&dev.bytes[512..517], &[0xF8, 0xFF, 0xFF, 0xFF, 0x0F]);
    assert_eq!(&dev.bytes[1024..1034], b"Delta Pico");
    let text = b"Your Delta Pico is mounted";
    let found = dev.bytes.windows(text.len()).any(|w| w == text);
    assert!(found);
}

#[test]
fn reset_fails_when_storage_is_too_small() {
    let mut dev = MemoryStorage::new(1024);
    assert_eq!(fat().reset(&mut dev, 8, 512), None);
}

#[test]
fn read_all_and_write_all_round_trip() {
    let mut dev = MemoryStorage::new(4096);
    let f = fat();
    let data: Vec<u8> = (0..4096u32).map(|i| (i % 251) as u8).collect();
    assert_eq!(f.write_all(&mut dev, &data, 8, 512), Some(()));
    assert_eq!(f.read_all(&mut dev, 8, 512), Some(data));
}

#[test]
fn block_io_at_the_position() {
    let mut dev = MemoryStorage::new(4096);
    let mut f = fat();
    assert_eq!(f.seek(SeekFrom::Start(100)), Ok(100));
    let long = [7u8; 100];
    assert_eq!(f.write(&mut dev, &long), Ok(64));
    assert_eq!(dev.bytes[163], 7);
    assert_eq!(dev.bytes[164], 0);
    let mut buf = [0u8; 4];
    assert_eq!(f.read(&mut dev, &mut buf), Ok(4));
    assert_eq!(buf, [7, 7, 7, 7]);
    assert_eq!(f.flush(), Ok(()));
    assert_eq!(f.seek(SeekFrom::Current(-50)), Ok(50));
    assert_eq!(f.seek(SeekFrom::End(-96)), Ok(4000));
    assert_eq!(f.seek(SeekFrom::Current(-5000)), Err(()));
    assert_eq!(f.pointer, RawStorageAddress(4000));
    assert_eq!(f.seek(SeekFrom::Start(70000)), Err(()));
}

#[test]
fn row_readings_decode_to_keys() {
    assert_eq!(decode_row(2, 0xFF), None);
    // Column pin 0 pulled low.
    assert_eq!(decode_row(2, 0b1111_1110), Some((2, 0)));
    // Pins are wired out of order: pin 4 is column 6, row pin 6 is row 4.
    assert_eq!(decode_row(6, 0b1110_1111), Some((4, 6)));
    // With two columns low, the higher one counts.
    assert_eq!(decode_row(0, 0b1101_1110), Some((0, 5)));
}

#[test]
fn debouncing_presses_and_releases() {
    let mut m = ButtonMatrixState::new();
    assert_eq!(m.confirm_press((1, 2), Some((1, 3))), None);
    assert_eq!(m.confirm_press((1, 2), Some((1, 2))), Some(RawButtonEvent::Press(1, 2)));
    assert_eq!(m.held_reading(Some((1, 2))), HeldReading::StillHeld);
    assert_eq!(m.held_reading(None), HeldReading::ConfirmRelease);
    assert_eq!(m.confirm_release(Some((1, 2))), None);
    assert_eq!(m.confirm_release(None), Some(RawButtonEvent::Release(1, 2)));
    assert_eq!(m.currently_pressed, None);
    m.confirm_press((0, 0), Some((0, 0)));
    assert_eq!(m.held_reading(Some((3, 3))), HeldReading::Released(RawButtonEvent::Release(0, 0)));
}

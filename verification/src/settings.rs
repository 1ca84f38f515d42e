use vstd::prelude::*;
use crate::storage::StorageInterface;
use crate::raw_storage::{RawStorage, RawStorageAddress};

verus! {

/// The value of a true boolean when stored as a byte. Chosen so that a fully 0xFF'd or 0x00'd
/// memory can be detected, and settings can be left unset.
pub const TRUE_BYTE: u8 = 0x39;

/// The value of a false boolean when stored as a byte.
pub const FALSE_BYTE: u8 = 0xB5;

/// The minimum size that the storage area used for settings should be. Future-proofed!
pub const MINIMUM_STORAGE_SIZE: u16 = 1028;

/// The values of all settings.
#[derive(PartialEq, Eq, Clone, Copy, Debug, Structural)]
pub struct SettingsValues {
    pub show_heap_usage: bool,
    pub show_frame_time: bool,
    pub fire_button_press_only: bool,
}

impl SettingsValues {
    pub open spec fn spec_default() -> SettingsValues {
        SettingsValues { show_heap_usage: false, show_frame_time: false, fire_button_press_only: true }
    }
}

impl Default for SettingsValues {
    fn default() -> (r: Self)
        ensures
            r == SettingsValues::spec_default(),
    {
        SettingsValues { show_heap_usage: false, show_frame_time: false, fire_button_press_only: true }
    }
}

/// The boolean a stored byte means: `TRUE_BYTE` and `FALSE_BYTE` mean true and false, and any
/// other byte means `default`.
pub open spec fn decode_bool(byte: u8, default: bool) -> bool {
    if byte == TRUE_BYTE {
        true
    } else if byte == FALSE_BYTE {
        false
    } else {
        default
    }
}

/// The byte a boolean is stored as.
pub open spec fn encode_bool(value: bool) -> u8 {
    if value {
        TRUE_BYTE
    } else {
        FALSE_BYTE
    }
}

/// Settings, kept in a storage area: the flag at address 1 is `show_heap_usage`, at 2
/// `show_frame_time`, and at 3 `fire_button_press_only`.
pub struct Settings {
    pub storage: RawStorage,
    pub values: SettingsValues,
}

impl Settings {
    /// The device address of the settings byte `address`.
    pub open spec fn abs(self, address: int) -> int {
        self.storage.abs(address)
    }

    /// The settings that the device's contents hold.
    pub open spec fn stored_values(self, c: Seq<u8>) -> SettingsValues {
        let d = SettingsValues::spec_default();
        SettingsValues {
            show_heap_usage: decode_bool(c[self.abs(1)], d.show_heap_usage),
            show_frame_time: decode_bool(c[self.abs(2)], d.show_frame_time),
            fire_button_press_only: decode_bool(c[self.abs(3)], d.fire_button_press_only),
        }
    }

    /// The storage area holds the settings bytes, and the device holds them.
    pub open spec fn readable(self, dev_len: int) -> bool {
        &&& 3 < self.storage.length
        &&& self.abs(3) < dev_len
    }

    /// The device addresses of the settings bytes fit in 16 bits.
    pub open spec fn wf(self) -> bool {
        self.storage.addressable(1, 3)
    }

    /// Returns a new `Settings` instance with default settings.
    pub fn new(storage: RawStorage) -> (r: Self)
        ensures
            r.storage == storage,
            r.values == SettingsValues::spec_default(),
    {
        Self { storage, values: SettingsValues::default() }
    }

    /// Loads settings values from storage, using their defaults if any are not set. Returns None
    /// if storage is inaccessible. This does not change `self`.
    pub fn load<S: StorageInterface>(&self, dev: &mut S) -> (r: Option<SettingsValues>)
        requires
            self.wf(),
        ensures
            final(dev).contents() == old(dev).contents(),
            final(dev).never_fails() == old(dev).never_fails(),
            r matches Some(v) ==> self.readable(old(dev).contents().len() as int) && v == self.stored_values(old(dev).contents()),
            old(dev).never_fails() && self.readable(old(dev).contents().len() as int) ==> r is Some,
            self.storage.length <= 3 ==> r is None,
    {
        let default = SettingsValues::default();
        let show_heap_usage = match self.read_bool(dev, RawStorageAddress(1), default.show_heap_usage) {
            Some(b) => b,
            None => return None,
        };
        let show_frame_time = match self.read_bool(dev, RawStorageAddress(2), default.show_frame_time) {
            Some(b) => b,
            None => return None,
        };
        let fire_button_press_only = match self.read_bool(dev, RawStorageAddress(3), default.fire_button_press_only) {
            Some(b) => b,
            None => return None,
        };
        Some(SettingsValues { show_heap_usage, show_frame_time, fire_button_press_only })
    }

    /// Loads settings values from storage and replaces the values in this instance with those
    /// loaded. If loading fails, keeps using the existing values.
    pub fn load_into_self<S: StorageInterface>(&mut self, dev: &mut S)
        requires
            old(self).wf(),
        ensures
            final(dev).contents() == old(dev).contents(),
            final(dev).never_fails() == old(dev).never_fails(),
            final(self).storage == old(self).storage,
            final(self).values == old(self).values || (old(self).readable(old(dev).contents().len() as int)
                && final(self).values == old(self).stored_values(old(dev).contents())),
            old(dev).never_fails() && old(self).readable(old(dev).contents().len() as int) ==> final(self).values
                == old(self).stored_values(old(dev).contents()),
            !old(self).readable(old(dev).contents().len() as int) ==> final(self).values == old(self).values,
    {
        let loaded = self.load(dev);
        self.apply_loaded(loaded);
    }

    /// Uses the values `loaded` from storage, or keeps the existing ones if loading failed
    /// (`None`).
    pub fn apply_loaded(&mut self, loaded: Option<SettingsValues>)
        ensures
            final(self).storage == old(self).storage,
            final(self).values == match loaded {
                Some(v) => v,
                None => old(self).values,
            },
    {
        if let Some(values) = loaded {
            self.values = values;
        }
    }

    /// Saves the settings values in this instance to storage. Returns None if storage is
    /// inaccessible.
    pub fn save<S: StorageInterface>(&self, dev: &mut S) -> (r: Option<()>)
        requires
            self.wf(),
        ensures
            final(dev).contents().len() == old(dev).contents().len(),
            final(dev).never_fails() == old(dev).never_fails(),
            r is Some ==> self.readable(old(dev).contents().len() as int) && final(dev).contents() == old(dev).contents().update(
                self.abs(1),
                encode_bool(self.values.show_heap_usage),
            ).update(self.abs(2), encode_bool(self.values.show_frame_time)).update(
                self.abs(3),
                encode_bool(self.values.fire_button_press_only),
            ),
            old(dev).never_fails() && self.readable(old(dev).contents().len() as int) ==> r is Some,
            self.storage.length <= 1 ==> r is None && final(dev).contents() == old(dev).contents(),
    {
        if self.write_bool(dev, RawStorageAddress(1), self.values.show_heap_usage).is_none() {
            return None;
        }
        if self.write_bool(dev, RawStorageAddress(2), self.values.show_frame_time).is_none() {
            return None;
        }
        if self.write_bool(dev, RawStorageAddress(3), self.values.fire_button_press_only).is_none() {
            return None;
        }
        Some(())
    }

    /// Loads a boolean from storage, or falls back to a given default if no valid boolean is
    /// stored. Returns None if storage is inaccessible.
    fn read_bool<S: StorageInterface>(&self, dev: &mut S, address: RawStorageAddress, default: bool) -> (r: Option<bool>)
        requires
            self.storage.addressable(address.0 as int, 1),
        ensures
            final(dev).contents() == old(dev).contents(),
            final(dev).never_fails() == old(dev).never_fails(),
            r matches Some(b) ==> address.0 < self.storage.length && self.abs(address.0 as int) < old(dev).contents().len()
                && b == decode_bool(old(dev).contents()[self.abs(address.0 as int)], default),
            address.0 >= self.storage.length ==> r is None,
            old(dev).never_fails() && address.0 < self.storage.length && self.abs(address.0 as int) < old(dev).contents().len()
                ==> r is Some,
    {
        let byte = match self.storage.read_byte(dev, address) {
            Some(b) => b,
            None => return None,
        };
        if byte == TRUE_BYTE {
            Some(true)
        } else if byte == FALSE_BYTE {
            Some(false)
        } else {
            Some(default)
        }
    }

    /// Writes a boolean to storage. Returns None if storage is inaccessible.
    fn write_bool<S: StorageInterface>(&self, dev: &mut S, address: RawStorageAddress, value: bool) -> (r: Option<()>)
        requires
            self.storage.addressable(address.0 as int, 1),
        ensures
            final(dev).contents().len() == old(dev).contents().len(),
            final(dev).never_fails() == old(dev).never_fails(),
            r is Some ==> address.0 < self.storage.length && self.abs(address.0 as int) < old(dev).contents().len()
                && final(dev).contents() == old(dev).contents().update(self.abs(address.0 as int), encode_bool(value)),
            address.0 >= self.storage.length ==> r is None && final(dev).contents() == old(dev).contents(),
            old(dev).never_fails() && address.0 < self.storage.length && self.abs(address.0 as int) < old(dev).contents().len()
                ==> r is Some,
    {
        let byte = if value {
            TRUE_BYTE
        } else {
            FALSE_BYTE
        };
        self.storage.write_byte(dev, address, byte)
    }
}

/// Saving settings and loading them back gives the saved values: a successful save leaves the
/// device holding exactly the values that were saved.
pub proof fn lemma_save_then_load(settings: Settings, before: Seq<u8>, after: Seq<u8>)
    requires
        settings.readable(before.len() as int),
        after == before.update(settings.abs(1), encode_bool(settings.values.show_heap_usage)).update(
            settings.abs(2),
            encode_bool(settings.values.show_frame_time),
        ).update(settings.abs(3), encode_bool(settings.values.fire_button_press_only)),
    ensures
        settings.stored_values(after) == settings.values,
{
}

} // verus!

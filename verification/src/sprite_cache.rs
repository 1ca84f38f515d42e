use vstd::prelude::*;
use crate::graphics::Sprite;

verus! {

/// What the sprite cache holds for a calculation it has laid out.
#[derive(Clone, Debug)]
pub enum SpriteCacheEntryData {
    /// The calculation lies below the screen: only the heights of its expression and its result
    /// are kept, for laying out the others.
    Height { calculation: u16, result: u16 },
    /// The calculation is at least partly on screen, drawn onto a sprite.
    Sprite(Sprite),
}

/// A slot of the sprite cache.
#[derive(Clone, Debug)]
pub enum SpriteCacheEntry {
    /// The cache was cleared and this calculation has not been laid out since.
    Blank,
    /// The calculation lies entirely above the screen; it needs neither drawing nor a height.
    ClippedOffTop,
    /// The calculation has been laid out since the cache was last cleared.
    Entry { data: SpriteCacheEntryData },
}

impl SpriteCacheEntry {
    pub fn is_blank(&self) -> (r: bool)
        ensures
            r == self is Blank,
    {
        match self {
            SpriteCacheEntry::Blank => true,
            _ => false,
        }
    }
}

/// Drawings of the calculations that are not being edited, kept so that each frame only lays out
/// the calculation being edited; one slot per calculation.
#[derive(Clone, Debug)]
pub struct SpriteCache {
    entries: Vec<SpriteCacheEntry>,
}

impl SpriteCache {
    /// The slots of the cache.
    pub closed spec fn slots(&self) -> Seq<SpriteCacheEntry> {
        self.entries@
    }

    /// A cache with no slots.
    pub fn new() -> (c: Self)
        ensures
            c.slots().len() == 0,
    {
        SpriteCache { entries: Vec::new() }
    }

    /// Drops every cached drawing and makes `new_len` blank slots.
    pub fn clear(&mut self, new_len: usize)
        ensures
            final(self).slots().len() == new_len,
            forall|i: int| 0 <= i < new_len ==> #[trigger] final(self).slots()[i] is Blank,
    {
        self.entries.clear();
        self.entries = Vec::with_capacity(new_len);
        let mut i: usize = 0;
        while i < new_len
            invariant
                i <= new_len,
                self.entries@.len() == i,
                forall|j: int| 0 <= j < i ==> #[trigger] self.entries@[j] is Blank,
            decreases new_len - i,
        {
            self.entries.push(SpriteCacheEntry::Blank);
            i = i + 1;
        }
    }

    /// The data cached at `index`, or `None` if that calculation is clipped off the top. The slot
    /// must exist and must not be blank.
    pub fn entry_data(&self, index: usize) -> (r: Option<&SpriteCacheEntryData>)
        requires
            index < self.slots().len(),
            !(self.slots()[index as int] is Blank),
        ensures
            self.slots()[index as int] is ClippedOffTop ==> r is None,
            self.slots()[index as int] matches SpriteCacheEntry::Entry { data } ==> r == Some(&data),
    {
        match &self.entries[index] {
            SpriteCacheEntry::Entry { data } => Some(data),
            SpriteCacheEntry::ClippedOffTop => None,
            SpriteCacheEntry::Blank => vstd::pervasive::unreached(),
        }
    }

    /// The slot at `index`, which must exist.
    pub fn entry(&self, index: usize) -> (r: &SpriteCacheEntry)
        requires
            index < self.slots().len(),
        ensures
            *r == self.slots()[index as int],
    {
        &self.entries[index]
    }

    /// Replaces the slot at `index`, which must exist.
    pub fn set_entry(&mut self, index: usize, entry: SpriteCacheEntry)
        requires
            index < old(self).slots().len(),
        ensures
            final(self).slots() == old(self).slots().update(index as int, entry),
    {
        self.entries.set(index, entry);
    }
}

} // verus!

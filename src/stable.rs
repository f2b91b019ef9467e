use vstd::prelude::*;
use ic_stable_structures::memory_manager::{MemoryId, MemoryManager, VirtualMemory};
use ic_stable_structures::storable::Blob;
use ic_stable_structures::{Cell, DefaultMemoryImpl, Memory, StableBTreeMap};

verus! {

/// Largest number of bytes that the record map holds under one key.
pub const MAX_VALUE_SIZE: usize = 1024;

/// One durable address space, cut into disjoint regions by a tag.
#[verifier::external_body]
pub struct RegionAllocator {
    manager: MemoryManager<DefaultMemoryImpl>,
}

/// A region of the durable address space.
#[verifier::external_body]
pub struct Region {
    memory: VirtualMemory<DefaultMemoryImpl>,
}

/// A durable cell that holds one 64-bit counter.
#[verifier::external_body]
pub struct CounterCell {
    cell: Cell<u64, VirtualMemory<DefaultMemoryImpl>>,
}

/// A durable ordered map from 64-bit keys to byte strings of at most
/// `MAX_VALUE_SIZE` bytes.
#[verifier::external_body]
pub struct RecordMap {
    map: StableBTreeMap<u64, Blob<1024>, VirtualMemory<DefaultMemoryImpl>>,
}

/// The value that a counter cell holds.
pub uninterp spec fn counter_value(c: CounterCell) -> u64;

/// What a record map holds.
pub uninterp spec fn map_contents(m: RecordMap) -> Map<u64, Seq<u8>>;

impl RegionAllocator {
    /// Relies on `MemoryManager::init` over `DefaultMemoryImpl::default()`: the
    /// canister's stable memory, with the regions handed out before, or a
    /// fresh in-process memory off the canister platform. The canister has one
    /// stable memory, so a process makes one allocator there.
    #[verifier::external_body]
    pub fn init() -> (r: Self) {
        RegionAllocator { manager: MemoryManager::init(DefaultMemoryImpl::default()) }
    }

    /// Relies on `MemoryManager::get`: the region with this tag; `MemoryId::new`
    /// refuses the tag 255, which marks free space. Regions of one allocator
    /// share its memory, so each tag is taken once, by the service that owns
    /// the allocator.
    #[verifier::external_body]
    pub(crate) fn region(&self, tag: u8) -> (r: Region)
        requires
            tag < 255,
    {
        Region { memory: self.manager.get(MemoryId::new(tag)) }
    }
}

impl CounterCell {
    /// Relies on `StableCell::init` with the initial value 0: a region of size
    /// 0 gets a new cell that holds 0, another region gives back the cell that
    /// it holds. Also hands back the region's size before the call, from
    /// `Memory::size`.
    #[verifier::external_body]
    pub fn init(region: Region) -> (r: Option<(CounterCell, u64)>)
        ensures
            r matches Some((c, size)) ==> (size == 0 ==> counter_value(c) == 0),
    {
        let size = region.memory.size();
        match Cell::init(region.memory, 0u64) {
            Ok(cell) => Some((CounterCell { cell }, size)),
            Err(_) => None,
        }
    }

    /// Relies on `StableCell::get`: the value held.
    #[verifier::external_body]
    pub fn get(&self) -> (r: u64)
        ensures
            r == counter_value(*self),
    {
        *self.cell.get()
    }

    /// Relies on `StableCell::set`: the cell then holds `value`. The write
    /// needs more memory only where the region is empty or too small for the
    /// value, which a cell of a `u64` set up by `init` never is, so it
    /// succeeds.
    #[verifier::external_body]
    pub fn set(&mut self, value: u64) -> (r: bool)
        ensures
            r,
            counter_value(*final(self)) == value,
    {
        self.cell.set(value).is_ok()
    }
}

impl RecordMap {
    /// Relies on `StableBTreeMap::init`: a region of size 0 gets a new, empty
    /// map, another region gives back the map that it holds. Also hands back
    /// the region's size before the call, from `Memory::size`. A region that
    /// holds a map of another layout version stops the process.
    #[verifier::external_body]
    pub fn init(region: Region) -> (r: (RecordMap, u64))
        ensures
            r.1 == 0 ==> map_contents(r.0).dom().is_empty(),
    {
        let size = region.memory.size();
        (RecordMap { map: StableBTreeMap::init(region.memory) }, size)
    }

    /// Relies on `StableBTreeMap::get`: the bytes held under `key`, if any.
    #[verifier::external_body]
    pub fn get(&self, key: u64) -> (r: Option<Vec<u8>>)
        ensures
            r is Some <==> map_contents(*self).contains_key(key),
            r matches Some(v) ==> v@ == map_contents(*self)[key],
    {
        self.map.get(&key).map(|b| b.as_slice().to_vec())
    }

    /// Relies on `StableBTreeMap::insert` and `Blob::try_from`: `value` is held
    /// under `key` in place of what was there, which is handed back.
    #[verifier::external_body]
    pub fn insert(&mut self, key: u64, value: &Vec<u8>) -> (r: Option<Vec<u8>>)
        requires
            value@.len() <= MAX_VALUE_SIZE,
        ensures
            map_contents(*final(self)) == map_contents(*old(self)).insert(key, value@),
            r is Some <==> map_contents(*old(self)).contains_key(key),
            r matches Some(v) ==> v@ == map_contents(*old(self))[key],
    {
        let blob: Blob<1024> = Blob::try_from(value.as_slice()).unwrap();
        self.map.insert(key, blob).map(|b| b.as_slice().to_vec())
    }

    /// Relies on `StableBTreeMap::remove`: the entry under `key` leaves the
    /// map and is handed back.
    #[verifier::external_body]
    pub fn remove(&mut self, key: u64) -> (r: Option<Vec<u8>>)
        ensures
            map_contents(*final(self)) == map_contents(*old(self)).remove(key),
            r is Some <==> map_contents(*old(self)).contains_key(key),
            r matches Some(v) ==> v@ == map_contents(*old(self))[key],
    {
        self.map.remove(&key).map(|b| b.as_slice().to_vec())
    }

    /// Relies on `StableBTreeMap::iter`: every entry once, by ascending key.
    #[verifier::external_body]
    pub fn entries(&self) -> (r: Vec<(u64, Vec<u8>)>)
        ensures
            forall|i: int, j: int| 0 <= i < j < r@.len() ==> r@[i].0 < r@[j].0,
            forall|i: int|
                0 <= i < r@.len() ==> map_contents(*self).contains_key(#[trigger] r@[i].0)
                    && r@[i].1@ == map_contents(*self)[r@[i].0],
            forall|k: u64|
                map_contents(*self).contains_key(k) ==> exists|i: int|
                    0 <= i < r@.len() && #[trigger] r@[i].0 == k,
    {
        self.map.iter().map(|(k, v)| (k, v.as_slice().to_vec())).collect()
    }
}

} // verus!

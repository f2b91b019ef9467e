use vstd::prelude::*;
use crate::codec::{decode, encode_rental, decode_rental, encoded_len, lemma_decode_encode, MAX_RECORD_SIZE};
use crate::rental::{BasketRental, RentalView};
use crate::stable::{RecordMap, Region, map_contents};

verus! {

/// `b` is the stored form of a booking with id `k`.
pub open spec fn holds_record(b: Seq<u8>, k: u64) -> bool {
    decode(b) matches Some(v) && v.id == k
}

/// Whether every entry is the stored form of a booking under its own key,
/// with no key above `last`.
pub fn stored_consistent(last: u64, entries: &Vec<(u64, Vec<u8>)>) -> (r: bool)
    ensures
        r == (forall|j: int|
            0 <= j < entries@.len() ==> holds_record(#[trigger] entries@[j].1@, entries@[j].0)
                && entries@[j].0 <= last),
{
    let mut i: usize = 0;
    while i < entries.len()
        invariant
            i <= entries@.len(),
            forall|j: int|
                0 <= j < i ==> holds_record(#[trigger] entries@[j].1@, entries@[j].0)
                    && entries@[j].0 <= last,
        decreases entries@.len() - i,
    {
        if entries[i].0 > last {
            proof {
                let e = entries@[i as int];
                assert(e.0 > last);
                if forall|j: int|
                    0 <= j < entries@.len() ==> holds_record(#[trigger] entries@[j].1@, entries@[j].0)
                        && entries@[j].0 <= last {
                    assert(holds_record(entries@[i as int].1@, entries@[i as int].0));
                }
            }
            return false;
        }
        match decode_rental(&entries[i].1) {
            Some(v) => {
                if v.id != entries[i].0 {
                    return false;
                }
            },
            None => return false,
        }
        i = i + 1;
    }
    true
}

/// Bookings kept by id in a durable ordered map, each in its stored form.
pub struct RecordStore {
    map: RecordMap,
}

impl RecordStore {
    /// The stored forms, by id.
    pub closed spec fn bytes(&self) -> Map<u64, Seq<u8>> {
        map_contents(self.map)
    }

    /// Every stored form reads back as a booking under its own id.
    pub open spec fn wf(&self) -> bool {
        forall|k: u64|
            #[trigger] self.bytes().contains_key(k) ==> holds_record(self.bytes()[k], k)
    }

    /// The bookings held, by id.
    pub open spec fn records(&self) -> Map<u64, RentalView> {
        Map::new(|k: u64| self.bytes().contains_key(k), |k: u64| decode(self.bytes()[k])->0)
    }

    /// Attaches to the map kept in `region`, creating it empty where the
    /// region is blank; also says whether it was. `None` exactly where
    /// `stored_consistent` refuses the entries held against `last`.
    pub fn attach(region: Region, last: u64) -> (r: Option<(RecordStore, bool)>)
        ensures
            r matches Some((s, blank)) ==> s.wf() && (forall|k: u64|
                #[trigger] s.records().contains_key(k) ==> k <= last) && (blank
                ==> s.records().is_empty()),
    {
        let (map, size) = RecordMap::init(region);
        let entries = map.entries();
        if !stored_consistent(last, &entries) {
            return None;
        }
        let store = RecordStore { map };
        assert forall|k: u64| #[trigger] store.bytes().contains_key(k) implies holds_record(
            store.bytes()[k],
            k,
        ) && k <= last by {
            let j = choose|j: int| 0 <= j < entries@.len() && #[trigger] entries@[j].0 == k;
            assert(holds_record(entries@[j].1@, entries@[j].0) && entries@[j].0 <= last);
        }
        proof {
            if size == 0 {
                assert(store.records().dom() =~= Set::empty());
            }
        }
        Some((store, size == 0))
    }

    /// The booking under `id`, if any.
    pub fn get(&self, id: u64) -> (r: Option<BasketRental>)
        requires
            self.wf(),
        ensures
            r is Some <==> self.records().contains_key(id),
            r matches Some(x) ==> x@ == self.records()[id],
    {
        match self.map.get(id) {
            Some(bytes) => decode_rental(&bytes),
            None => None,
        }
    }

    /// Stores `rental` under its id in place of what was there, which is
    /// handed back.
    pub fn insert(&mut self, rental: &BasketRental) -> (r: Option<BasketRental>)
        requires
            old(self).wf(),
            rental@.is_valid(),
            encoded_len(rental@.borrower_name) <= MAX_RECORD_SIZE,
        ensures
            final(self).wf(),
            final(self).records() == old(self).records().insert(rental.id, rental@),
            r is Some <==> old(self).records().contains_key(rental.id),
            r matches Some(x) ==> x@ == old(self).records()[rental.id],
    {
        let bytes = encode_rental(rental);
        proof {
            lemma_decode_encode(rental@);
        }
        let previous = self.map.insert(rental.id, &bytes);
        assert(final(self).records() =~= old(self).records().insert(rental.id, rental@));
        match previous {
            Some(b) => decode_rental(&b),
            None => None,
        }
    }

    /// Takes the booking under `id` out of the store and hands it back.
    pub fn remove(&mut self, id: u64) -> (r: Option<BasketRental>)
        requires
            old(self).wf(),
        ensures
            final(self).wf(),
            final(self).records() == old(self).records().remove(id),
            r is Some <==> old(self).records().contains_key(id),
            r matches Some(x) ==> x@ == old(self).records()[id],
    {
        let previous = self.map.remove(id);
        assert(final(self).records() =~= old(self).records().remove(id));
        match previous {
            Some(b) => decode_rental(&b),
            None => None,
        }
    }

    /// Every booking held, by ascending id.
    pub fn iterate(&self) -> (r: Vec<BasketRental>)
        requires
            self.wf(),
        ensures
            forall|i: int, j: int| 0 <= i < j < r@.len() ==> r@[i].id < r@[j].id,
            forall|i: int|
                0 <= i < r@.len() ==> self.records().contains_key(#[trigger] r@[i].id)
                    && r@[i]@ == self.records()[r@[i].id],
            forall|k: u64|
                self.records().contains_key(k) ==> exists|i: int|
                    0 <= i < r@.len() && #[trigger] r@[i].id == k,
    {
        let entries = self.map.entries();
        let mut out: Vec<BasketRental> = Vec::new();
        let mut i: usize = 0;
        while i < entries.len()
            invariant
                i <= entries@.len(),
                out@.len() == i,
                self.wf(),
                forall|a: int, b: int| 0 <= a < b < entries@.len() ==> entries@[a].0 < entries@[b].0,
                forall|j: int|
                    0 <= j < entries@.len() ==> self.bytes().contains_key(#[trigger] entries@[j].0)
                        && entries@[j].1@ == self.bytes()[entries@[j].0],
                forall|j: int|
                    0 <= j < i ==> #[trigger] out@[j].id == entries@[j].0 && out@[j]@ == self.records()[entries@[j].0],
            decreases entries@.len() - i,
        {
            let ghost k = entries@[i as int].0;
            assert(self.bytes().contains_key(k));
            match decode_rental(&entries[i].1) {
                Some(v) => {
                    out.push(v);
                },
                None => {
                    assert(false);
                    return out;
                },
            }
            i = i + 1;
        }
        proof {
            assert forall|k: u64| self.records().contains_key(k) implies exists|i: int|
                0 <= i < out@.len() && #[trigger] out@[i].id == k by {
                let j = choose|j: int| 0 <= j < entries@.len() && #[trigger] entries@[j].0 == k;
                assert(out@[j].id == k);
            }
        }
        out
    }
}

} // verus!

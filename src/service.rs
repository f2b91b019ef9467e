use vstd::prelude::*;
use crate::codec::{encoded_len, name_fits, MAX_RECORD_SIZE};
use crate::error::{
    Error, delete_missing, delete_missing_text, get_missing, get_missing_text, update_missing,
    update_missing_text,
};
use crate::ids::IdGenerator;
use crate::rental::{
    BasketRental, BasketRentalPayload, RentalView, is_listed_court, is_listed_court_type,
    make_rental, rental_from, status_for_hour,
};
use crate::stable::RegionAllocator;
use crate::store::RecordStore;

verus! {

/// Tag of the region that holds the identifier counter.
pub const COUNTER_REGION: u8 = 0;

/// Tag of the region that holds the bookings.
pub const RECORD_REGION: u8 = 1;

/// The booking service: a durable identifier counter and a durable store of
/// bookings, attached to their regions once and handed to every operation.
pub struct RentalService {
    ids: IdGenerator,
    store: RecordStore,
}

/// `out` lists, by ascending id, exactly the bookings of `records` whose
/// court type is listed.
pub open spec fn is_listing(records: Map<u64, RentalView>, out: Seq<RentalView>) -> bool {
    &&& forall|i: int, j: int| 0 <= i < j < out.len() ==> out[i].id < out[j].id
    &&& forall|i: int|
        0 <= i < out.len() ==> records.contains_key(#[trigger] out[i].id) && out[i]
            == records[out[i].id] && is_listed_court(out[i].court_type)
    &&& forall|k: u64|
        records.contains_key(k) && is_listed_court(records[k].court_type) ==> exists|i: int|
            0 <= i < out.len() && #[trigger] out[i].id == k
}

/// `after` is `before` with the booking `r`, made from `p`, added under the
/// next identifier.
pub open spec fn added(
    before: RentalService,
    after: RentalService,
    p: BasketRentalPayload,
    r: RentalView,
) -> bool {
    &&& before.last_id() < u64::MAX
    &&& r == rental_from((before.last_id() + 1) as u64, p)
    &&& after.last_id() == r.id
    &&& !before.records().contains_key(r.id)
    &&& after.records() == before.records().insert(r.id, r)
}

/// `after` is `before` once an update of `id` with `p` gave `r`: the new
/// booking where `id` was held, nothing otherwise.
pub open spec fn updated(
    before: RentalService,
    after: RentalService,
    id: u64,
    p: BasketRentalPayload,
    r: Option<RentalView>,
) -> bool {
    &&& after.last_id() == before.last_id()
    &&& match r {
        Some(x) => before.records().contains_key(id) && x == rental_from(id, p)
            && after.records() == before.records().insert(id, x),
        None => !before.records().contains_key(id) && after.records() == before.records(),
    }
}

/// `after` is `before` once a deletion of `id` has run.
pub open spec fn deleted(before: RentalService, after: RentalService, id: u64) -> bool {
    &&& after.last_id() == before.last_id()
    &&& after.records() == before.records().remove(id)
}

impl RentalService {
    /// The last identifier handed out; 0 before the first.
    pub closed spec fn last_id(&self) -> u64 {
        self.ids.last()
    }

    /// The bookings held, by id.
    pub closed spec fn records(&self) -> Map<u64, RentalView> {
        self.store.records()
    }

    /// Every stored booking reads back under its id, and no id above the
    /// counter is in use.
    pub closed spec fn wf(&self) -> bool {
        &&& self.store.wf()
        &&& forall|k: u64| #[trigger] self.store.records().contains_key(k) ==> k <= self.ids.last()
    }

    /// Takes over `regions` and attaches to the counter in region
    /// `COUNTER_REGION` and the bookings in region `RECORD_REGION`, creating
    /// them where their regions are blank; also says whether both were.
    /// `None` where the counter cannot be set up, or where `stored_consistent`
    /// refuses the stored bookings against the counter.
    pub fn attach(regions: RegionAllocator) -> (r: Option<(RentalService, bool)>)
        ensures
            r matches Some((s, blank)) ==> s.wf() && (blank ==> s.last_id() == 0
                && s.records().is_empty()),
    {
        let counter_region = regions.region(COUNTER_REGION);
        let record_region = regions.region(RECORD_REGION);
        let (ids, ids_blank) = match IdGenerator::attach(counter_region) {
            Some(p) => p,
            None => return None,
        };
        let last = ids.current();
        let (store, store_blank) = match RecordStore::attach(record_region, last) {
            Some(p) => p,
            None => return None,
        };
        Some((RentalService { ids, store }, ids_blank && store_blank))
    }

    /// Every booking held is held under its own id.
    pub proof fn lemma_held_under_own_id(&self, k: u64)
        requires
            self.wf(),
            self.records().contains_key(k),
        ensures
            self.records()[k].id == k,
    {
        assert(self.store.bytes().contains_key(k));
    }

    /// No id above the last one handed out is in use.
    pub proof fn lemma_unused_above_last(&self, id: u64)
        requires
            self.wf(),
            id > self.last_id(),
        ensures
            !self.records().contains_key(id),
    {
    }

    /// The booking under `id`, if any.
    pub fn _get_basket_rental(&self, id: &u64) -> (r: Option<BasketRental>)
        requires
            self.wf(),
        ensures
            r is Some <==> self.records().contains_key(*id),
            r matches Some(x) ==> x@ == self.records()[*id],
    {
        self.store.get(*id)
    }

    /// The booking under `id`, or `NotFound` where there is none.
    pub fn get_basket_rental(&self, id: u64) -> (r: Result<BasketRental, Error>)
        requires
            self.wf(),
        ensures
            r is Ok <==> self.records().contains_key(id),
            r matches Ok(x) ==> x@ == self.records()[id],
            r matches Err(e) ==> e.text() == get_missing_text(id),
    {
        match self._get_basket_rental(&id) {
            Some(rental) => Ok(rental),
            None => Err(get_missing(id)),
        }
    }

    /// Stores `rental` under its id, in place of what was there.
    pub fn do_insert(&mut self, rental: &BasketRental)
        requires
            old(self).wf(),
            rental@.is_valid(),
            rental.id <= old(self).last_id(),
            encoded_len(rental.borrower_name@) <= MAX_RECORD_SIZE,
        ensures
            final(self).wf(),
            final(self).last_id() == old(self).last_id(),
            final(self).records() == old(self).records().insert(rental.id, rental@),
    {
        self.store.insert(rental);
    }

    /// Whether a booking with this payload fits in one stored record, as
    /// adding, and updating a held booking, ask.
    pub fn payload_fits(payload: &BasketRentalPayload) -> (r: bool)
        ensures
            r == (encoded_len(payload.borrower_name@) <= MAX_RECORD_SIZE),
    {
        name_fits(&payload.borrower_name)
    }

    /// Creates a booking from `payload` under the next identifier, with the
    /// status that its hour gives, and hands it back. `None`, with nothing
    /// changed, exactly where every identifier is used up.
    pub fn add_basket_rental(&mut self, payload: BasketRentalPayload) -> (r: Option<BasketRental>)
        requires
            old(self).wf(),
            encoded_len(payload.borrower_name@) <= MAX_RECORD_SIZE,
        ensures
            final(self).wf(),
            r matches Some(x) ==> added(*old(self), *final(self), payload, x@),
            r is None ==> final(self).records() == old(self).records() && final(self).last_id()
                == old(self).last_id(),
            r is None <==> old(self).last_id() == u64::MAX,
    {
        let id = match self.ids.next() {
            Some(id) => id,
            None => return None,
        };
        proof {
            old(self).lemma_unused_above_last(id);
        }
        let rental = make_rental(id, payload);
        self.store.insert(&rental);
        Some(rental)
    }

    /// Replaces the borrower, date, hour and court type of the booking under
    /// `id` with those of `payload`, derives its status anew and hands it
    /// back; `NotFound`, with nothing changed, where there is none.
    pub fn update_basket_rental(
        &mut self,
        id: u64,
        payload: BasketRentalPayload,
    ) -> (r: Result<BasketRental, Error>)
        requires
            old(self).wf(),
            old(self).records().contains_key(id) ==> encoded_len(payload.borrower_name@)
                <= MAX_RECORD_SIZE,
        ensures
            final(self).wf(),
            r matches Ok(x) ==> updated(*old(self), *final(self), id, payload, Some(x@)),
            r is Err ==> updated(*old(self), *final(self), id, payload, None),
            r matches Err(e) ==> e.text() == update_missing_text(id),
    {
        match self.store.get(id) {
            Some(mut rental) => {
                rental.borrower_name = payload.borrower_name;
                rental.loan_date = payload.loan_date;
                rental.hour = payload.hour;
                rental.court_type = payload.court_type;
                rental.status = status_for_hour(rental.hour);
                self.do_insert(&rental);
                Ok(rental)
            },
            None => Err(update_missing(id)),
        }
    }

    /// Takes the booking under `id` out and hands it back; `NotFound`, with
    /// nothing changed, where there is none.
    pub fn delete_basket_rental(&mut self, id: u64) -> (r: Result<BasketRental, Error>)
        requires
            old(self).wf(),
        ensures
            final(self).wf(),
            deleted(*old(self), *final(self), id),
            r is Ok <==> old(self).records().contains_key(id),
            r matches Ok(x) ==> x@ == old(self).records()[id],
            r matches Err(e) ==> e.text() == delete_missing_text(id),
    {
        match self.store.remove(id) {
            Some(rental) => Ok(rental),
            None => {
                assert(final(self).records() =~= old(self).records());
                Err(delete_missing(id))
            },
        }
    }

    /// The bookings whose court type is A, B or C, by ascending id.
    pub fn show_list(&self) -> (r: Vec<BasketRental>)
        requires
            self.wf(),
        ensures
            is_listing(self.records(), r@.map_values(|x: BasketRental| x@)),
    {
        let all = self.store.iterate();
        let mut out: Vec<BasketRental> = Vec::new();
        let mut i: usize = 0;
        let ghost picked: Seq<int> = Seq::empty();
        while i < all.len()
            invariant
                i <= all@.len(),
                picked.len() == out@.len(),
                forall|a: int, b: int| 0 <= a < b < all@.len() ==> all@[a].id < all@[b].id,
                forall|j: int|
                    0 <= j < all@.len() ==> self.records().contains_key(#[trigger] all@[j].id)
                        && all@[j]@ == self.records()[all@[j].id],
                forall|j: int|
                    0 <= j < out@.len() ==> 0 <= #[trigger] picked[j] < i && out@[j]@
                        == all@[picked[j]]@ && is_listed_court(out@[j].court_type),
                forall|a: int, b: int| 0 <= a < b < out@.len() ==> picked[a] < picked[b],
                forall|j: int|
                    0 <= j < i && is_listed_court(#[trigger] all@[j].court_type) ==> exists|m: int|
                        0 <= m < out@.len() && picked[m] == j,
            decreases all@.len() - i,
        {
            let ghost old_picked = picked;
            let ghost old_len = out@.len();
            if is_listed_court_type(all[i].court_type) {
                out.push(all[i].clone());
                proof {
                    picked = picked.push(i as int);
                    assert(picked[old_len as int] == i);
                }
            }
            proof {
                assert forall|j: int|
                    0 <= j < i + 1 && is_listed_court(#[trigger] all@[j].court_type) implies exists|
                    m: int,
                | 0 <= m < out@.len() && picked[m] == j by {
                    if j < i {
                        let m = choose|m: int| 0 <= m < old_len && old_picked[m] == j;
                        assert(picked[m] == j);
                    } else {
                        assert(picked[old_len as int] == j);
                    }
                }
            }
            i = i + 1;
        }
        proof {
            let v = out@.map_values(|x: BasketRental| x@);
            let recs = self.records();
            assert forall|a: int, b: int| 0 <= a < b < v.len() implies v[a].id < v[b].id by {
                assert(picked[a] < picked[b]);
                assert(v[a] == all@[picked[a]]@);
                assert(v[b] == all@[picked[b]]@);
            }
            assert forall|m: int| 0 <= m < v.len() implies recs.contains_key(#[trigger] v[m].id)
                && v[m] == recs[v[m].id] && is_listed_court(v[m].court_type) by {
                assert(v[m] == all@[picked[m]]@);
                assert(recs.contains_key(all@[picked[m]].id));
            }
            assert forall|k: u64|
                recs.contains_key(k) && is_listed_court(recs[k].court_type) implies exists|m: int|
                0 <= m < v.len() && #[trigger] v[m].id == k by {
                let j = choose|j: int| 0 <= j < all@.len() && #[trigger] all@[j].id == k;
                assert(is_listed_court(all@[j].court_type));
                let m = choose|m: int| 0 <= m < out@.len() && picked[m] == j;
                assert(v[m].id == k);
            }
        }
        out
    }
}

} // verus!

use vstd::prelude::*;
use crate::rental::{BasketRentalPayload, RentalView, is_listed_court, status_text};
use crate::service::{RentalService, added, deleted, is_listing, updated};

verus! {

/// A booking that `add_basket_rental` hands back is then found under its id,
/// exactly as it was handed back.
pub proof fn lemma_found_after_add(
    before: RentalService,
    after: RentalService,
    p: BasketRentalPayload,
    r: RentalView,
)
    requires
        added(before, after, p, r),
    ensures
        after.records().contains_key(r.id),
        after.records()[r.id] == r,
{
}

/// Two successive additions hand out strictly increasing ids, and the first
/// addition to a service whose counter is at 0 hands out the id 1.
pub proof fn lemma_ids_increase(
    s0: RentalService,
    s1: RentalService,
    s2: RentalService,
    p1: BasketRentalPayload,
    p2: BasketRentalPayload,
    r1: RentalView,
    r2: RentalView,
)
    requires
        added(s0, s1, p1, r1),
        added(s1, s2, p2, r2),
    ensures
        r1.id < r2.id,
        s0.last_id() == 0 ==> r1.id == 1,
{
}

/// The status is "lunas" exactly when the hour is 17 or later, and "belum"
/// otherwise.
pub proof fn lemma_status_follows_hour(hour: u64)
    ensures
        status_text(hour) == "lunas"@ <==> hour >= 17,
        status_text(hour) == "belum"@ <==> hour < 17,
{
    reveal_strlit("lunas");
    reveal_strlit("belum");
    assert("lunas"@[0] != "belum"@[0]);
}

/// A booking created or replaced from a payload carries the status that the
/// payload's hour gives.
pub proof fn lemma_written_status(
    before: RentalService,
    after: RentalService,
    id: u64,
    p: BasketRentalPayload,
    r: RentalView,
)
    requires
        added(before, after, p, r) || updated(before, after, id, p, Some(r)),
    ensures
        r.hour == p.hour,
        r.status == status_text(p.hour),
{
}

/// Updating an id that is not held, because it was never handed out or was
/// deleted, fails and leaves the bookings as they were.
pub proof fn lemma_update_absent(
    s0: RentalService,
    s1: RentalService,
    s2: RentalService,
    id: u64,
    p: BasketRentalPayload,
    r: Option<RentalView>,
)
    requires
        s0.wf(),
        id > s0.last_id() || deleted(s0, s1, id),
        id > s0.last_id() ==> s1 == s0,
        updated(s1, s2, id, p, r),
    ensures
        r is None,
        s2.records() == s1.records(),
{
    if id > s0.last_id() {
        s0.lemma_unused_above_last(id);
    }
}

/// After a deletion of `id`, no booking is held under `id`.
pub proof fn lemma_absent_after_delete(before: RentalService, after: RentalService, id: u64)
    requires
        deleted(before, after, id),
    ensures
        !after.records().contains_key(id),
{
}

/// A held booking whose court type is not A, B or C is left out of the
/// listing, though it is still held.
pub proof fn lemma_unlisted_court_left_out(
    s: RentalService,
    out: Seq<RentalView>,
    id: u64,
)
    requires
        is_listing(s.records(), out),
        s.records().contains_key(id),
        !is_listed_court(s.records()[id].court_type),
    ensures
        forall|i: int| 0 <= i < out.len() ==> out[i].id != id,
        s.records().contains_key(id),
{
    assert forall|i: int| 0 <= i < out.len() implies out[i].id != id by {
        if out[i].id == id {
            assert(is_listed_court(out[i].court_type));
        }
    }
}

} // verus!

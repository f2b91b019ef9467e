use court_rentals::error::Error;
use court_rentals::rental::{BasketRental, BasketRentalPayload};
use court_rentals::service::RentalService;
use court_rentals::codec::encode_rental;
use court_rentals::stable::RegionAllocator;
use court_rentals::store::stored_consistent;

fn fresh() -> RentalService {
    let (service, blank) = RentalService::attach(RegionAllocator::init()).unwrap();
    assert!(blank);
    service
}

fn payload(name: &str, date: u64, hour: u64, court: char) -> BasketRentalPayload {
    BasketRentalPayload {
        borrower_name: name.to_string(),
        loan_date: date,
        hour,
        court_type: court,
    }
}

fn message(e: Error) -> String {
    match e {
        Error::NotFound { msg } => msg,
    }
}

#[test]
fn walkthrough() {
    let mut s = fresh();
    let added = s.add_basket_rental(payload("Ana", 20240101, 18, 'A')).unwrap();
    assert_eq!(added.id, 1);
    assert_eq!(added.status, "lunas");
    let listed = s.show_list();
    assert_eq!(listed, vec![added.clone()]);
    let updated = s.update_basket_rental(1, payload("Ana", 20240101, 10, 'A')).unwrap();
    assert_eq!(updated.id, 1);
    assert_eq!(updated.status, "belum");
    assert_eq!(updated.hour, 10);
    let removed = s.delete_basket_rental(1).unwrap();
    assert_eq!(removed, updated);
    let missing = s.get_basket_rental(1).unwrap_err();
    assert_eq!(message(missing), "a rental with id=1 not found");
}

#[test]
fn get_after_add_gives_same_record() {
    let mut s = fresh();
    let added = s.add_basket_rental(payload("Budi Santoso", 1700000000, 9, 'C')).unwrap();
    let found = s.get_basket_rental(added.id).unwrap();
    assert_eq!(found, added);
    assert_eq!(found.borrower_name, "Budi Santoso");
    assert_eq!(found.loan_date, 1700000000);
    assert_eq!(found.court_type, 'C');
    assert_eq!(s._get_basket_rental(&added.id), Some(added));
}

#[test]
fn ids_start_at_one_and_increase() {
    let mut s = fresh();
    let a = s.add_basket_rental(payload("a", 1, 1, 'A')).unwrap();
    let b = s.add_basket_rental(payload("b", 2, 2, 'B')).unwrap();
    let c = s.add_basket_rental(payload("c", 3, 3, 'C')).unwrap();
    assert_eq!((a.id, b.id, c.id), (1, 2, 3));
}

#[test]
fn ids_not_reused_after_delete() {
    let mut s = fresh();
    let a = s.add_basket_rental(payload("a", 1, 1, 'A')).unwrap();
    s.delete_basket_rental(a.id).unwrap();
    let b = s.add_basket_rental(payload("b", 2, 2, 'B')).unwrap();
    assert_eq!(b.id, 2);
}

#[test]
fn status_follows_hour() {
    let mut s = fresh();
    for (hour, expected) in [(0u64, "belum"), (16, "belum"), (17, "lunas"), (23, "lunas"), (99, "lunas"), (u64::MAX, "lunas")] {
        let r = s.add_basket_rental(payload("x", 0, hour, 'A')).unwrap();
        assert_eq!(r.status, expected);
        let u = s.update_basket_rental(r.id, payload("x", 0, hour, 'B')).unwrap();
        assert_eq!(u.status, expected);
        assert_eq!(s.get_basket_rental(r.id).unwrap().status, expected);
    }
}

#[test]
fn update_changes_status_both_ways() {
    let mut s = fresh();
    let r = s.add_basket_rental(payload("Ana", 5, 10, 'A')).unwrap();
    assert_eq!(r.status, "belum");
    let u = s.update_basket_rental(r.id, payload("Ani", 6, 17, 'B')).unwrap();
    assert_eq!(u.status, "lunas");
    assert_eq!(u.borrower_name, "Ani");
    assert_eq!(u.loan_date, 6);
    assert_eq!(u.court_type, 'B');
    assert_eq!(s.get_basket_rental(r.id).unwrap(), u);
}

#[test]
fn update_missing_id_is_not_found() {
    let mut s = fresh();
    let e = s.update_basket_rental(7, payload("x", 0, 0, 'A')).unwrap_err();
    assert_eq!(message(e), "couldn't update a rental with id=7. rental not found");
    assert!(s.get_basket_rental(7).is_err());
    assert!(s.show_list().is_empty());
}

#[test]
fn update_deleted_id_is_not_found() {
    let mut s = fresh();
    let r = s.add_basket_rental(payload("x", 0, 0, 'A')).unwrap();
    s.delete_basket_rental(r.id).unwrap();
    let e = s.update_basket_rental(r.id, payload("y", 1, 20, 'B')).unwrap_err();
    assert_eq!(message(e), "couldn't update a rental with id=1. rental not found");
    assert!(s.get_basket_rental(r.id).is_err());
}

#[test]
fn delete_missing_id_is_not_found() {
    let mut s = fresh();
    let e = s.delete_basket_rental(18446744073709551615).unwrap_err();
    assert_eq!(
        message(e),
        "couldn't delete a rental with id=18446744073709551615. rental not found."
    );
}

#[test]
fn get_missing_id_message() {
    let s = fresh();
    assert_eq!(message(s.get_basket_rental(0).unwrap_err()), "a rental with id=0 not found");
    assert_eq!(message(s.get_basket_rental(42).unwrap_err()), "a rental with id=42 not found");
}

#[test]
fn delete_then_get_is_not_found() {
    let mut s = fresh();
    let a = s.add_basket_rental(payload("a", 1, 18, 'A')).unwrap();
    let b = s.add_basket_rental(payload("b", 2, 19, 'B')).unwrap();
    assert_eq!(s.delete_basket_rental(a.id).unwrap(), a);
    assert!(s.get_basket_rental(a.id).is_err());
    assert_eq!(s.get_basket_rental(b.id).unwrap(), b);
    assert!(s.delete_basket_rental(a.id).is_err());
}

#[test]
fn list_leaves_out_other_courts() {
    let mut s = fresh();
    let a = s.add_basket_rental(payload("a", 1, 1, 'A')).unwrap();
    let d = s.add_basket_rental(payload("d", 2, 2, 'D')).unwrap();
    let c = s.add_basket_rental(payload("c", 3, 3, 'C')).unwrap();
    let lower = s.add_basket_rental(payload("e", 4, 4, 'a')).unwrap();
    let b = s.add_basket_rental(payload("b", 5, 5, 'B')).unwrap();
    let listed: Vec<BasketRental> = s.show_list();
    assert_eq!(listed, vec![a, c, b]);
    assert_eq!(s.get_basket_rental(d.id).unwrap().court_type, 'D');
    assert_eq!(s.get_basket_rental(lower.id).unwrap().court_type, 'a');
}

#[test]
fn list_is_by_ascending_id() {
    let mut s = fresh();
    for i in 0..12u64 {
        s.add_basket_rental(payload("n", i, i, 'B')).unwrap();
    }
    s.delete_basket_rental(5).unwrap();
    let ids: Vec<u64> = s.show_list().iter().map(|r| r.id).collect();
    assert_eq!(ids, vec![1, 2, 3, 4, 6, 7, 8, 9, 10, 11, 12]);
}

#[test]
fn empty_store_lists_nothing() {
    let s = fresh();
    assert!(s.show_list().is_empty());
}

#[test]
fn record_size_bound() {
    let fits = payload(&"x".repeat(996), 0, 0, 'A');
    let too_long = payload(&"x".repeat(997), 0, 0, 'A');
    assert!(RentalService::payload_fits(&fits));
    assert!(!RentalService::payload_fits(&too_long));
    let wide = payload(&"é".repeat(498), 0, 0, 'A');
    assert!(RentalService::payload_fits(&wide));
    let wider = payload(&"é".repeat(499), 0, 0, 'A');
    assert!(!RentalService::payload_fits(&wider));
    let mut s = fresh();
    let r = s.add_basket_rental(fits).unwrap();
    assert_eq!(s.get_basket_rental(r.id).unwrap().borrower_name.len(), 996);
}

#[test]
fn unicode_names_and_courts_are_kept() {
    let mut s = fresh();
    let r = s.add_basket_rental(payload("Śri Dewi 🏀", 77, 17, '€')).unwrap();
    let back = s.get_basket_rental(r.id).unwrap();
    assert_eq!(back.borrower_name, "Śri Dewi 🏀");
    assert_eq!(back.court_type, '€');
    assert!(s.show_list().is_empty());
}

#[test]
fn do_insert_replaces_record() {
    let mut s = fresh();
    let mut r = s.add_basket_rental(payload("a", 1, 1, 'A')).unwrap();
    r.borrower_name = "z".to_string();
    s.do_insert(&r);
    assert_eq!(s.get_basket_rental(r.id).unwrap().borrower_name, "z");
}

#[test]
fn oversized_update_of_absent_id_is_not_found() {
    let mut s = fresh();
    let e = s.update_basket_rental(3, payload(&"x".repeat(5000), 0, 0, 'A')).unwrap_err();
    assert_eq!(message(e), "couldn't update a rental with id=3. rental not found");
    assert!(s.show_list().is_empty());
}

#[test]
fn stored_entries_are_checked() {
    let good = encode_rental(&BasketRental {
        id: 2,
        borrower_name: "a".to_string(),
        loan_date: 0,
        hour: 18,
        court_type: 'A',
        status: "lunas".to_string(),
    });
    assert!(stored_consistent(0, &vec![]));
    assert!(stored_consistent(2, &vec![(2, good.clone())]));
    assert!(stored_consistent(9, &vec![(2, good.clone())]));
    assert!(!stored_consistent(1, &vec![(2, good.clone())]));
    assert!(!stored_consistent(9, &vec![(3, good.clone())]));
    assert!(!stored_consistent(9, &vec![(2, good.clone()), (4, vec![1, 2, 3])]));
}

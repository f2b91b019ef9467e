use vstd::prelude::*;

verus! {

/// First hour of the day at which a booking counts as paid.
pub const PAID_FROM_HOUR: u64 = 17;

/// Text of the status of a booking for the given hour: paid from
/// `PAID_FROM_HOUR` on, unpaid before.
pub open spec fn status_text(hour: u64) -> Seq<char> {
    if hour >= PAID_FROM_HOUR {
        "lunas"@
    } else {
        "belum"@
    }
}

/// The court types that are listed.
pub open spec fn is_listed_court(c: char) -> bool {
    c == 'A' || c == 'B' || c == 'C'
}

/// Mathematical value of a stored booking.
pub struct RentalView {
    pub id: u64,
    pub borrower_name: Seq<char>,
    pub loan_date: u64,
    pub hour: u64,
    pub court_type: char,
    pub status: Seq<char>,
}

impl RentalView {
    /// The status agrees with the hour.
    pub open spec fn is_valid(self) -> bool {
        self.status == status_text(self.hour)
    }
}

/// One court booking.
#[derive(Debug, PartialEq, Eq)]
pub struct BasketRental {
    pub id: u64,
    pub borrower_name: String,
    pub loan_date: u64,
    pub hour: u64,
    pub court_type: char,
    pub status: String,
}

impl View for BasketRental {
    type V = RentalView;

    open spec fn view(&self) -> RentalView {
        RentalView {
            id: self.id,
            borrower_name: self.borrower_name@,
            loan_date: self.loan_date,
            hour: self.hour,
            court_type: self.court_type,
            status: self.status@,
        }
    }
}

impl Clone for BasketRental {
    fn clone(&self) -> (r: Self)
        ensures
            r@ == self@,
    {
        BasketRental {
            id: self.id,
            borrower_name: self.borrower_name.clone(),
            loan_date: self.loan_date,
            hour: self.hour,
            court_type: self.court_type,
            status: self.status.clone(),
        }
    }
}

/// What a client supplies to create or replace a booking.
#[derive(Debug, PartialEq, Eq)]
pub struct BasketRentalPayload {
    pub borrower_name: String,
    pub loan_date: u64,
    pub hour: u64,
    pub court_type: char,
}

/// The booking that a payload describes under the given id.
pub open spec fn rental_from(id: u64, p: BasketRentalPayload) -> RentalView {
    RentalView {
        id,
        borrower_name: p.borrower_name@,
        loan_date: p.loan_date,
        hour: p.hour,
        court_type: p.court_type,
        status: status_text(p.hour),
    }
}

/// Status text for a booking at `hour`.
pub fn status_for_hour(hour: u64) -> (r: String)
    ensures
        r@ == status_text(hour),
{
    if hour >= PAID_FROM_HOUR {
        "lunas".to_owned()
    } else {
        "belum".to_owned()
    }
}

/// Builds the booking that `payload` describes under `id`.
pub fn make_rental(id: u64, payload: BasketRentalPayload) -> (r: BasketRental)
    ensures
        r@ == rental_from(id, payload),
{
    let status = status_for_hour(payload.hour);
    BasketRental {
        id,
        borrower_name: payload.borrower_name,
        loan_date: payload.loan_date,
        hour: payload.hour,
        court_type: payload.court_type,
        status,
    }
}

/// Whether a booking is shown in the listing.
pub fn is_listed_court_type(c: char) -> (r: bool)
    ensures
        r == is_listed_court(c),
{
    match c {
        'A' => true,
        'B' => true,
        'C' => true,
        _ => false,
    }
}

} // verus!

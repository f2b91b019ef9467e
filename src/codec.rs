use vstd::prelude::*;
use vstd::utf8::*;
use crate::rental::{BasketRental, RentalView, status_text, status_for_hour};
use crate::stable::MAX_VALUE_SIZE;

verus! {

broadcast use vstd::utf8::group_utf8_lib;

/// Largest number of bytes that one stored record may take.
pub const MAX_RECORD_SIZE: usize = MAX_VALUE_SIZE;

/// Bytes taken by the fixed part of a record: id, loan date, hour, court type.
pub const FIXED_PART: usize = 28;

/// Little-endian bytes of a 64-bit integer.
pub open spec fn le8(x: u64) -> Seq<u8> {
    seq![
        x as u8, (x >> 8u64) as u8, (x >> 16u64) as u8, (x >> 24u64) as u8,
        (x >> 32u64) as u8, (x >> 40u64) as u8, (x >> 48u64) as u8, (x >> 56u64) as u8,
    ]
}

/// Little-endian bytes of a 32-bit integer.
pub open spec fn le4(x: u32) -> Seq<u8> {
    seq![x as u8, (x >> 8u32) as u8, (x >> 16u32) as u8, (x >> 24u32) as u8]
}

/// The 64-bit integer whose little-endian bytes start `b` at `at`.
pub open spec fn read_le8(b: Seq<u8>, at: int) -> u64 {
    (b[at] as u64) | ((b[at + 1] as u64) << 8u64) | ((b[at + 2] as u64) << 16u64)
        | ((b[at + 3] as u64) << 24u64) | ((b[at + 4] as u64) << 32u64)
        | ((b[at + 5] as u64) << 40u64) | ((b[at + 6] as u64) << 48u64)
        | ((b[at + 7] as u64) << 56u64)
}

/// The 32-bit integer whose little-endian bytes start `b` at `at`.
pub open spec fn read_le4(b: Seq<u8>, at: int) -> u32 {
    (b[at] as u32) | ((b[at + 1] as u32) << 8u32) | ((b[at + 2] as u32) << 16u32)
        | ((b[at + 3] as u32) << 24u32)
}

/// The stored form of a booking: id, loan date and hour as 8 little-endian
/// bytes each, the court type's code point as 4, then the borrower's name in
/// UTF-8. The status is not stored: it follows from the hour.
pub open spec fn encode(r: RentalView) -> Seq<u8> {
    le8(r.id) + le8(r.loan_date) + le8(r.hour) + le4(r.court_type as u32) + encode_utf8(
        r.borrower_name,
    )
}

/// Reads back a stored booking; `None` where `b` is no stored form.
pub open spec fn decode(b: Seq<u8>) -> Option<RentalView> {
    if b.len() < FIXED_PART {
        None
    } else {
        let code = read_le4(b, 24);
        let name = b.subrange(FIXED_PART as int, b.len() as int);
        if is_scalar(code) && valid_utf8(name) {
            let hour = read_le8(b, 16);
            Some(
                RentalView {
                    id: read_le8(b, 0),
                    borrower_name: decode_utf8(name),
                    loan_date: read_le8(b, 8),
                    hour,
                    court_type: code as char,
                    status: status_text(hour),
                },
            )
        } else {
            None
        }
    }
}

/// Number of bytes that the stored form of a booking with this name takes.
pub open spec fn encoded_len(name: Seq<char>) -> nat {
    FIXED_PART as nat + encode_utf8(name).len()
}

/// Reading back the stored form of a valid booking gives that booking.
pub proof fn lemma_decode_encode(r: RentalView)
    requires
        r.is_valid(),
    ensures
        decode(encode(r)) == Some(r),
        encode(r).len() == encoded_len(r.borrower_name),
{
    let b = encode(r);
    let c = r.court_type as u32;
    lemma_read_le8(r.id);
    lemma_read_le8(r.loan_date);
    lemma_read_le8(r.hour);
    lemma_read_le4(c);
    assert(b.len() == 28 + encode_utf8(r.borrower_name).len());
    assert(b.subrange(0, 8) == le8(r.id));
    assert(read_le8(b, 0) == read_le8(le8(r.id), 0));
    assert(read_le8(b, 8) == read_le8(le8(r.loan_date), 0));
    assert(read_le8(b, 16) == read_le8(le8(r.hour), 0));
    assert(read_le4(b, 24) == read_le4(le4(c), 0));
    assert(b.subrange(28, b.len() as int) =~= encode_utf8(r.borrower_name));
    assert((c as char) == r.court_type);
    assert(decode(b).unwrap() == r);
}

proof fn lemma_read_le8(x: u64)
    ensures
        read_le8(le8(x), 0) == x,
{
    let b = le8(x);
    let (b0, b1, b2, b3, b4, b5, b6, b7) = (b[0], b[1], b[2], b[3], b[4], b[5], b[6], b[7]);
    assert(b0 == x as u8 && b1 == (x >> 8u64) as u8 && b2 == (x >> 16u64) as u8 && b3 == (x
        >> 24u64) as u8 && b4 == (x >> 32u64) as u8 && b5 == (x >> 40u64) as u8 && b6 == (x
        >> 48u64) as u8 && b7 == (x >> 56u64) as u8);
    assert((b0 == x as u8 && b1 == (x >> 8u64) as u8 && b2 == (x >> 16u64) as u8 && b3 == (x
        >> 24u64) as u8 && b4 == (x >> 32u64) as u8 && b5 == (x >> 40u64) as u8 && b6 == (x
        >> 48u64) as u8 && b7 == (x >> 56u64) as u8) ==> ((b0 as u64) | ((b1 as u64) << 8u64)
        | ((b2 as u64) << 16u64) | ((b3 as u64) << 24u64) | ((b4 as u64) << 32u64) | ((
    b5 as u64) << 40u64) | ((b6 as u64) << 48u64) | ((b7 as u64) << 56u64)) == x)
        by (bit_vector);
}

proof fn lemma_read_le4(x: u32)
    ensures
        read_le4(le4(x), 0) == x,
{
    let b = le4(x);
    let (b0, b1, b2, b3) = (b[0], b[1], b[2], b[3]);
    assert(b0 == x as u8 && b1 == (x >> 8u32) as u8 && b2 == (x >> 16u32) as u8 && b3 == (x
        >> 24u32) as u8);
    assert((b0 == x as u8 && b1 == (x >> 8u32) as u8 && b2 == (x >> 16u32) as u8 && b3 == (x
        >> 24u32) as u8) ==> ((b0 as u32) | ((b1 as u32) << 8u32) | ((b2 as u32) << 16u32)
        | ((b3 as u32) << 24u32)) == x) by (bit_vector);
}


/// Relies on `std::str::from_utf8`: it accepts exactly the valid UTF-8 byte
/// sequences, and the text it gives back has those bytes.
#[verifier::external_body]
fn text_from_utf8(b: &[u8]) -> (r: Option<String>)
    ensures
        valid_utf8(b@) ==> r is Some,
        r matches Some(s) ==> encode_utf8(s@) == b@,
{
    std::str::from_utf8(b).ok().map(|s| s.to_owned())
}

/// Relies on `char::from_u32`: it gives the character with that code point,
/// and there is one for every Unicode scalar value.
#[verifier::external_body]
fn char_from_code(code: u32) -> (r: Option<char>)
    ensures
        is_scalar(code) ==> r is Some,
        r matches Some(c) ==> c as u32 == code,
{
    char::from_u32(code)
}

fn push_le8(out: &mut Vec<u8>, x: u64)
    ensures
        final(out)@ == old(out)@ + le8(x),
{
    out.push(x as u8);
    out.push((x >> 8u64) as u8);
    out.push((x >> 16u64) as u8);
    out.push((x >> 24u64) as u8);
    out.push((x >> 32u64) as u8);
    out.push((x >> 40u64) as u8);
    out.push((x >> 48u64) as u8);
    out.push((x >> 56u64) as u8);
    assert(final(out)@ =~= old(out)@ + le8(x));
}

fn push_le4(out: &mut Vec<u8>, x: u32)
    ensures
        final(out)@ == old(out)@ + le4(x),
{
    out.push(x as u8);
    out.push((x >> 8u32) as u8);
    out.push((x >> 16u32) as u8);
    out.push((x >> 24u32) as u8);
    assert(final(out)@ =~= old(out)@ + le4(x));
}

fn get_le8(b: &Vec<u8>, at: usize) -> (r: u64)
    requires
        at <= 24,
        at + 8 <= b@.len(),
    ensures
        r == read_le8(b@, at as int),
{
    (b[at] as u64) | ((b[at + 1] as u64) << 8u64) | ((b[at + 2] as u64) << 16u64) | ((b[at
        + 3] as u64) << 24u64) | ((b[at + 4] as u64) << 32u64) | ((b[at + 5] as u64) << 40u64)
        | ((b[at + 6] as u64) << 48u64) | ((b[at + 7] as u64) << 56u64)
}

fn get_le4(b: &Vec<u8>, at: usize) -> (r: u32)
    requires
        at <= 24,
        at + 4 <= b@.len(),
    ensures
        r == read_le4(b@, at as int),
{
    (b[at] as u32) | ((b[at + 1] as u32) << 8u32) | ((b[at + 2] as u32) << 16u32) | ((b[at
        + 3] as u32) << 24u32)
}

/// Whether the stored form of a booking with this borrower name stays
/// within `MAX_RECORD_SIZE` bytes.
pub fn name_fits(name: &String) -> (r: bool)
    ensures
        r == (encoded_len(name@) <= MAX_RECORD_SIZE),
{
    name.as_str().as_bytes().len() <= MAX_RECORD_SIZE - FIXED_PART
}

/// The stored form of `r`.
pub fn encode_rental(r: &BasketRental) -> (out: Vec<u8>)
    ensures
        out@ == encode(r@),
{
    let mut out: Vec<u8> = Vec::new();
    push_le8(&mut out, r.id);
    push_le8(&mut out, r.loan_date);
    push_le8(&mut out, r.hour);
    push_le4(&mut out, r.court_type as u32);
    let name = r.borrower_name.as_str().as_bytes();
    let ghost head = out@;
    let mut i: usize = 0;
    while i < name.len()
        invariant
            i <= name@.len(),
            out@ == head + name@.subrange(0, i as int),
        decreases name@.len() - i,
    {
        out.push(name[i]);
        i = i + 1;
        assert(out@ =~= head + name@.subrange(0, i as int));
    }
    assert(name@.subrange(0, name@.len() as int) =~= name@);
    assert(out@ =~= encode(r@));
    out
}

/// Reads back a stored booking; `None` where `b` is no stored form.
pub fn decode_rental(b: &Vec<u8>) -> (r: Option<BasketRental>)
    ensures
        match r {
            Some(x) => decode(b@) == Some(x@),
            None => decode(b@) is None,
        },
{
    if b.len() < FIXED_PART {
        return None;
    }
    let code = get_le4(b, 24);
    let court_type = match char_from_code(code) {
        Some(c) => c,
        None => return None,
    };
    let mut tail: Vec<u8> = Vec::new();
    let mut i: usize = FIXED_PART;
    while i < b.len()
        invariant
            FIXED_PART <= i <= b@.len(),
            tail@ == b@.subrange(FIXED_PART as int, i as int),
        decreases b@.len() - i,
    {
        tail.push(b[i]);
        i = i + 1;
        assert(tail@ =~= b@.subrange(FIXED_PART as int, i as int));
    }
    let borrower_name = match text_from_utf8(tail.as_slice()) {
        Some(s) => s,
        None => return None,
    };
    proof {
        assert(valid_utf8(tail@)) by {
            encode_utf8_valid_utf8(borrower_name@);
        }
        encode_utf8_decode_utf8(borrower_name@);
        assert(decode_utf8(tail@) == borrower_name@);
        assert(tail@ == b@.subrange(FIXED_PART as int, b@.len() as int));
        char_is_scalar(court_type);
        char_u32_cast(court_type, code);
    }
    let hour = get_le8(b, 16);
    Some(
        BasketRental {
            id: get_le8(b, 0),
            borrower_name,
            loan_date: get_le8(b, 8),
            hour,
            court_type,
            status: status_for_hour(hour),
        },
    )
}

} // verus!

use vstd::prelude::*;
use vstd::string::*;

verus! {

/// The decimal digit `d`, for `d < 10`.
pub open spec fn digit(d: nat) -> char {
    seq!['0', '1', '2', '3', '4', '5', '6', '7', '8', '9'][d as int]
}

/// Decimal notation of `n`, without leading zeros.
pub open spec fn decimal(n: nat) -> Seq<char>
    decreases n,
{
    if n < 10 {
        seq![digit(n)]
    } else {
        decimal(n / 10) + seq![digit(n % 10)]
    }
}

/// Text of the error for a lookup of an absent id.
pub open spec fn get_missing_text(id: u64) -> Seq<char> {
    "a rental with id="@ + decimal(id as nat) + " not found"@
}

/// Text of the error for an update of an absent id.
pub open spec fn update_missing_text(id: u64) -> Seq<char> {
    "couldn't update a rental with id="@ + decimal(id as nat) + ". rental not found"@
}

/// Text of the error for a deletion of an absent id.
pub open spec fn delete_missing_text(id: u64) -> Seq<char> {
    "couldn't delete a rental with id="@ + decimal(id as nat) + ". rental not found."@
}

/// Why an operation on a booking failed.
#[derive(Debug, PartialEq, Eq)]
pub enum Error {
    /// No booking has the id asked for.
    NotFound { msg: String },
}

impl Error {
    /// The message that the error carries.
    pub open spec fn text(&self) -> Seq<char> {
        match self {
            Error::NotFound { msg } => msg@,
        }
    }
}

/// The text of the decimal digit `d`.
fn digit_text(d: u64) -> (r: &'static str)
    requires
        d < 10,
    ensures
        r@ == seq![digit(d as nat)],
{
    proof {
        reveal_strlit("0");
        reveal_strlit("1");
        reveal_strlit("2");
        reveal_strlit("3");
        reveal_strlit("4");
        reveal_strlit("5");
        reveal_strlit("6");
        reveal_strlit("7");
        reveal_strlit("8");
        reveal_strlit("9");
    }
    let r = if d == 0 {
        "0"
    } else if d == 1 {
        "1"
    } else if d == 2 {
        "2"
    } else if d == 3 {
        "3"
    } else if d == 4 {
        "4"
    } else if d == 5 {
        "5"
    } else if d == 6 {
        "6"
    } else if d == 7 {
        "7"
    } else if d == 8 {
        "8"
    } else {
        "9"
    };
    assert(r@ =~= seq![digit(d as nat)]);
    r
}

/// Appends the decimal notation of `n` to `s`.
fn push_decimal(s: &mut String, n: u64)
    ensures
        final(s)@ == old(s)@ + decimal(n as nat),
    decreases n,
{
    if n >= 10 {
        push_decimal(s, n / 10);
    }
    s.append(digit_text(n % 10));
    assert(final(s)@ =~= old(s)@ + decimal(n as nat));
}

/// `before`, the decimal notation of `id`, then `after`.
fn text_around_id(before: &str, id: u64, after: &str) -> (r: String)
    ensures
        r@ == before@ + decimal(id as nat) + after@,
{
    let mut r = before.to_owned();
    push_decimal(&mut r, id);
    r.append(after);
    r
}

/// The error for a lookup of an absent id.
pub fn get_missing(id: u64) -> (r: Error)
    ensures
        r.text() == get_missing_text(id),
{
    Error::NotFound { msg: text_around_id("a rental with id=", id, " not found") }
}

/// The error for an update of an absent id.
pub fn update_missing(id: u64) -> (r: Error)
    ensures
        r.text() == update_missing_text(id),
{
    Error::NotFound {
        msg: text_around_id("couldn't update a rental with id=", id, ". rental not found"),
    }
}

/// The error for a deletion of an absent id.
pub fn delete_missing(id: u64) -> (r: Error)
    ensures
        r.text() == delete_missing_text(id),
{
    Error::NotFound {
        msg: text_around_id("couldn't delete a rental with id=", id, ". rental not found."),
    }
}

} // verus!

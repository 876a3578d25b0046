use vstd::prelude::*;

verus! {

/// What the `POST` routes answer: whether the insert went through, and the
/// first row of the table's listing read right after it.
pub struct InsertReply<T> {
    pub status: bool,
    pub result: Option<T>,
}

/// Builds the answer of a `POST` route from the insert's outcome and the
/// table's listing.
pub fn insert_reply<T>(inserted: bool, listing: Vec<T>) -> (r: InsertReply<T>)
    ensures
        r.status == inserted,
        listing@.len() == 0 ==> r.result is None,
        listing@.len() > 0 ==> r.result == Some(listing@[0]),
{
    let mut listing = listing;
    let result = if listing.len() == 0 {
        None
    } else {
        Some(listing.swap_remove(0))
    };
    InsertReply { status: inserted, result }
}

} // verus!

//! What holds across the operations of the library.

use vstd::prelude::*;
use crate::ids::{is_hex_digit, hex_value, lower_digits, is_id_text, id_bytes_of, hex_text_of};
use crate::models::{BookingView, DogView, OwnerView};
use crate::store::{
    DatabaseView, UpdateAck, after_cancel, cancel_ack, is_first_with_id, no_booking_with_id,
    rows_of, rows_with_id, upcoming_rows, is_upcoming, lemma_first_unique,
};

verus! {

proof fn lemma_lower_digit(k: int)
    requires
        0 <= k < 16,
    ensures
        is_hex_digit(lower_digits()[k]),
        hex_value(lower_digits()[k]) == k,
{
    let d = lower_digits();
    if k == 0 { assert(d[0] == '0'); }
    else if k == 1 { assert(d[1] == '1'); }
    else if k == 2 { assert(d[2] == '2'); }
    else if k == 3 { assert(d[3] == '3'); }
    else if k == 4 { assert(d[4] == '4'); }
    else if k == 5 { assert(d[5] == '5'); }
    else if k == 6 { assert(d[6] == '6'); }
    else if k == 7 { assert(d[7] == '7'); }
    else if k == 8 { assert(d[8] == '8'); }
    else if k == 9 { assert(d[9] == '9'); }
    else if k == 10 { assert(d[10] == 'a'); }
    else if k == 11 { assert(d[11] == 'b'); }
    else if k == 12 { assert(d[12] == 'c'); }
    else if k == 13 { assert(d[13] == 'd'); }
    else if k == 14 { assert(d[14] == 'e'); }
    else { assert(d[15] == 'f'); }
}

/// The text of an identifier, as an insertion acknowledgment hands it out, is
/// identifier text and names that same identifier: a dog or booking request
/// that references a created owner by it is accepted, and refers to that owner.
pub proof fn lemma_id_text_round_trip(id: Seq<u8>)
    requires
        id.len() == 12,
    ensures
        is_id_text(hex_text_of(id)),
        id_bytes_of(hex_text_of(id)) == id,
{
    let t = hex_text_of(id);
    assert forall|i: int| 0 <= i < 24 implies #[trigger] is_hex_digit(t[i]) by {
        let v = id[i / 2] as int;
        if i % 2 == 0 {
            lemma_lower_digit(v / 16);
        } else {
            lemma_lower_digit(v % 16);
        }
    }
    assert forall|i: int| 0 <= i < 12 implies #[trigger] id_bytes_of(t)[i] == id[i] by {
        let v = id[i] as int;
        assert((2 * i) / 2 == i && (2 * i) % 2 == 0);
        assert((2 * i + 1) / 2 == i && (2 * i + 1) % 2 == 1);
        lemma_lower_digit(v / 16);
        lemma_lower_digit(v % 16);
        assert(v / 16 * 16 + v % 16 == v);
    }
    assert(id_bytes_of(t) =~= id);
}

/// Cancelling twice leaves the collections as cancelling once does, the
/// second acknowledgment reports no change, and a matching booking ends up
/// cancelled.
pub proof fn lemma_cancel_twice(v: DatabaseView, id: Seq<u8>)
    ensures
        after_cancel(after_cancel(v, id), id) == after_cancel(v, id),
        cancel_ack(after_cancel(v, id), id).modified_count == 0,
        cancel_ack(after_cancel(v, id), id).matched_count == cancel_ack(v, id).matched_count,
        forall|i: int| is_first_with_id(v.bookings, id, i) ==> (#[trigger] after_cancel(v, id).bookings[i]).cancelled,
{
    let v1 = after_cancel(v, id);
    if exists|i: int| is_first_with_id(v.bookings, id, i) {
        let i = choose|i: int| is_first_with_id(v.bookings, id, i);
        assert(is_first_with_id(v1.bookings, id, i));
        let c = choose|c: int| is_first_with_id(v1.bookings, id, c);
        lemma_first_unique(v1.bookings, id, i, c);
        assert(v1.bookings.update(i, crate::store::cancelled_view(v1.bookings[i])) =~= v1.bookings);
        assert forall|k: int| is_first_with_id(v.bookings, id, k) implies (#[trigger] v1.bookings[k]).cancelled by {
            lemma_first_unique(v.bookings, id, i, k);
        }
    }
}

/// Cancelling a well-formed identifier that no booking has changes nothing
/// and is acknowledged with no match.
pub proof fn lemma_cancel_absent(v: DatabaseView, id: Seq<u8>)
    requires
        no_booking_with_id(v.bookings, id),
    ensures
        after_cancel(v, id) == v,
        cancel_ack(v, id) == (UpdateAck { matched_count: 0, modified_count: 0 }),
{
    assert(!exists|i: int| is_first_with_id(v.bookings, id, i));
}

/// Every row a booking yields carries that booking's fields and an owner
/// with the referenced identifier; there is one when such an owner exists.
pub proof fn lemma_rows_of(b: BookingView, owners: Seq<OwnerView>, dogs: Seq<DogView>)
    ensures
        forall|k: int| 0 <= k < rows_of(b, owners, dogs).len() ==> {
            let f = #[trigger] rows_of(b, owners, dogs)[k];
            &&& f.id == b.id
            &&& f.owner.id == b.owner
            &&& f.start_time == b.start_time
            &&& f.duration_in_minutes == b.duration_in_minutes
            &&& f.cancelled == b.cancelled
        },
        (exists|j: int| 0 <= j < owners.len() && owners[j].id == b.owner) ==> rows_of(b, owners, dogs).len() > 0,
    decreases owners.len(),
{
    if owners.len() > 0 {
        lemma_rows_of(b, owners.drop_last(), dogs);
        if exists|j: int| 0 <= j < owners.len() && owners[j].id == b.owner {
            let j = choose|j: int| 0 <= j < owners.len() && owners[j].id == b.owner;
            if j < owners.len() - 1 {
                assert(owners.drop_last()[j] == owners[j]);
            }
        }
    }
}

/// Listing at time `now` yields no row of a cancelled booking, nor of one that
/// started before `now`.
pub proof fn lemma_listed_are_upcoming(
    bookings: Seq<BookingView>,
    owners: Seq<OwnerView>,
    dogs: Seq<DogView>,
    now: i64,
)
    ensures
        forall|k: int| 0 <= k < upcoming_rows(bookings, owners, dogs, now).len() ==> {
            let f = #[trigger] upcoming_rows(bookings, owners, dogs, now)[k];
            !f.cancelled && f.start_time >= now
        },
    decreases bookings.len(),
{
    if bookings.len() > 0 {
        let rest = upcoming_rows(bookings.drop_last(), owners, dogs, now);
        let last = rows_of(bookings.last(), owners, dogs);
        lemma_listed_are_upcoming(bookings.drop_last(), owners, dogs, now);
        lemma_rows_of(bookings.last(), owners, dogs);
        if is_upcoming(bookings.last(), now) {
            assert forall|k: int| 0 <= k < (rest + last).len() implies {
                let f = #[trigger] (rest + last)[k];
                !f.cancelled && f.start_time >= now
            } by {
                if k >= rest.len() {
                    assert((rest + last)[k] == last[k - rest.len()]);
                }
            }
        }
    }
}

/// Every row fetched by identifier belongs to a booking with that identifier.
pub proof fn lemma_rows_with_id_match(
    bookings: Seq<BookingView>,
    owners: Seq<OwnerView>,
    dogs: Seq<DogView>,
    id: Seq<u8>,
)
    ensures
        forall|k: int| 0 <= k < rows_with_id(bookings, owners, dogs, id).len() ==>
            (#[trigger] rows_with_id(bookings, owners, dogs, id)[k]).id == id,
        no_booking_with_id(bookings, id) ==> rows_with_id(bookings, owners, dogs, id).len() == 0,
    decreases bookings.len(),
{
    if bookings.len() > 0 {
        let rest = rows_with_id(bookings.drop_last(), owners, dogs, id);
        let last = rows_of(bookings.last(), owners, dogs);
        lemma_rows_with_id_match(bookings.drop_last(), owners, dogs, id);
        lemma_rows_of(bookings.last(), owners, dogs);
        if no_booking_with_id(bookings, id) {
            assert(bookings.last() == bookings[bookings.len() - 1]);
            assert(no_booking_with_id(bookings.drop_last(), id)) by {
                assert forall|j: int| 0 <= j < bookings.drop_last().len() implies bookings.drop_last()[j].id != id by {
                    assert(bookings.drop_last()[j] == bookings[j]);
                }
            }
        }
        if bookings.last().id == id {
            assert forall|k: int| 0 <= k < (rest + last).len() implies (#[trigger] (rest + last)[k]).id == id by {
                if k >= rest.len() {
                    assert((rest + last)[k] == last[k - rest.len()]);
                }
            }
        }
    }
}

/// A booking is fetched by its identifier whether or not it is cancelled or
/// past, as long as its owner exists; the first row is that booking's.
pub proof fn lemma_fetch_ignores_state(
    bookings: Seq<BookingView>,
    owners: Seq<OwnerView>,
    dogs: Seq<DogView>,
    i: int,
    j: int,
)
    requires
        is_first_with_id(bookings, bookings[i].id, i),
        0 <= j < owners.len(),
        owners[j].id == bookings[i].owner,
    ensures
        rows_with_id(bookings, owners, dogs, bookings[i].id).len() > 0,
        rows_with_id(bookings, owners, dogs, bookings[i].id)[0] == rows_of(bookings[i], owners, dogs)[0],
    decreases bookings.len(),
{
    let id = bookings[i].id;
    let rest = rows_with_id(bookings.drop_last(), owners, dogs, id);
    let last = rows_of(bookings.last(), owners, dogs);
    lemma_rows_of(bookings[i], owners, dogs);
    if i < bookings.len() - 1 {
        assert(bookings.drop_last()[i] == bookings[i]);
        assert(is_first_with_id(bookings.drop_last(), id, i));
        lemma_fetch_ignores_state(bookings.drop_last(), owners, dogs, i, j);
        if bookings.last().id == id {
            assert((rest + last)[0] == rest[0]);
        }
    } else {
        assert(no_booking_with_id(bookings.drop_last(), id)) by {
            assert forall|k: int| 0 <= k < bookings.drop_last().len() implies bookings.drop_last()[k].id != id by {
                assert(bookings.drop_last()[k] == bookings[k]);
            }
        }
        lemma_rows_with_id_match(bookings.drop_last(), owners, dogs, id);
        assert(rest =~= seq![]);
        assert(rest + last =~= last);
    }
}

/// A booking created under a fresh identifier, for an owner that exists, is
/// fetched by that identifier with the owner, start time and duration it was
/// created with.
pub proof fn lemma_created_booking_fetched(v: DatabaseView, b: BookingView, j: int)
    requires
        no_booking_with_id(v.bookings, b.id),
        0 <= j < v.owners.len(),
        v.owners[j].id == b.owner,
    ensures
        ({
            let rows = rows_with_id(v.bookings.push(b), v.owners, v.dogs, b.id);
            &&& rows.len() > 0
            &&& rows[0].id == b.id
            &&& rows[0].owner.id == b.owner
            &&& rows[0].start_time == b.start_time
            &&& rows[0].duration_in_minutes == b.duration_in_minutes
            &&& rows[0].cancelled == b.cancelled
        }),
{
    let bs = v.bookings.push(b);
    let i = v.bookings.len() as int;
    assert(is_first_with_id(bs, b.id, i)) by {
        assert forall|k: int| 0 <= k < i implies bs[k].id != b.id by {
            assert(bs[k] == v.bookings[k]);
        }
    }
    lemma_fetch_ignores_state(bs, v.owners, v.dogs, i, j);
    lemma_rows_of(b, v.owners, v.dogs);
}

} // verus!

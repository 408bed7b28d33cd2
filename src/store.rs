//! The gateway over the owner, dog and booking collections, and the queries
//! that join a booking to its owner and that owner's dogs.

use vstd::prelude::*;
use crate::ids::{RecordId, is_id_text, id_bytes_of};
use crate::models::{
    Booking, BookingView, Dog, DogView, FullBooking, FullBookingView, Owner, OwnerView,
    ServiceError, dog_views,
};

verus! {

/// The acknowledgment of an insertion: the identifier of the inserted record.
#[derive(Clone, Copy, Debug)]
pub struct InsertAck {
    pub inserted_id: RecordId,
}

/// The acknowledgment of an update: how many records matched, and how many of
/// those were changed.
#[derive(Clone, Copy, Debug, PartialEq, Eq, Structural)]
pub struct UpdateAck {
    pub matched_count: u64,
    pub modified_count: u64,
}

pub open spec fn owner_views(s: Seq<Owner>) -> Seq<OwnerView> {
    s.map_values(|o: Owner| o@)
}

pub open spec fn booking_views(s: Seq<Booking>) -> Seq<BookingView> {
    s.map_values(|b: Booking| b@)
}

pub open spec fn full_views(s: Seq<FullBooking>) -> Seq<FullBookingView> {
    s.map_values(|f: FullBooking| f@)
}

/// The three collections, each in insertion order.
pub struct DatabaseView {
    pub owners: Seq<OwnerView>,
    pub dogs: Seq<DogView>,
    pub bookings: Seq<BookingView>,
}

/// The dogs whose owner reference is `owner`, in collection order.
pub open spec fn dogs_of(dogs: Seq<DogView>, owner: Seq<u8>) -> Seq<DogView>
    decreases dogs.len(),
{
    if dogs.len() == 0 {
        seq![]
    } else {
        let rest = dogs_of(dogs.drop_last(), owner);
        if dogs.last().owner == owner {
            rest.push(dogs.last())
        } else {
            rest
        }
    }
}

/// A booking joined to one owner record and to that owner's dogs.
pub open spec fn enriched(b: BookingView, o: OwnerView, dogs: Seq<DogView>) -> FullBookingView {
    FullBookingView {
        id: b.id,
        owner: o,
        start_time: b.start_time,
        duration_in_minutes: b.duration_in_minutes,
        cancelled: b.cancelled,
        dogs: dogs_of(dogs, o.id),
    }
}

/// The rows a booking yields: one per owner record with the referenced
/// identifier, in collection order; none when the owner is absent.
pub open spec fn rows_of(b: BookingView, owners: Seq<OwnerView>, dogs: Seq<DogView>) -> Seq<FullBookingView>
    decreases owners.len(),
{
    if owners.len() == 0 {
        seq![]
    } else {
        let rest = rows_of(b, owners.drop_last(), dogs);
        if owners.last().id == b.owner {
            rest.push(enriched(b, owners.last(), dogs))
        } else {
            rest
        }
    }
}

/// A booking that is listed at time `now`: not cancelled and not yet started.
pub open spec fn is_upcoming(b: BookingView, now: i64) -> bool {
    !b.cancelled && b.start_time >= now
}

/// The joined rows of the bookings that are upcoming at `now`, in collection order.
pub open spec fn upcoming_rows(
    bookings: Seq<BookingView>,
    owners: Seq<OwnerView>,
    dogs: Seq<DogView>,
    now: i64,
) -> Seq<FullBookingView>
    decreases bookings.len(),
{
    if bookings.len() == 0 {
        seq![]
    } else {
        let rest = upcoming_rows(bookings.drop_last(), owners, dogs, now);
        if is_upcoming(bookings.last(), now) {
            rest + rows_of(bookings.last(), owners, dogs)
        } else {
            rest
        }
    }
}

/// The joined rows of the bookings with identifier `id`, whatever their state.
pub open spec fn rows_with_id(
    bookings: Seq<BookingView>,
    owners: Seq<OwnerView>,
    dogs: Seq<DogView>,
    id: Seq<u8>,
) -> Seq<FullBookingView>
    decreases bookings.len(),
{
    if bookings.len() == 0 {
        seq![]
    } else {
        let rest = rows_with_id(bookings.drop_last(), owners, dogs, id);
        if bookings.last().id == id {
            rest + rows_of(bookings.last(), owners, dogs)
        } else {
            rest
        }
    }
}

/// `i` is the position of the first booking with identifier `id`.
pub open spec fn is_first_with_id(bookings: Seq<BookingView>, id: Seq<u8>, i: int) -> bool {
    &&& 0 <= i < bookings.len()
    &&& bookings[i].id == id
    &&& forall|j: int| 0 <= j < i ==> bookings[j].id != id
}

/// No booking has identifier `id`.
pub open spec fn no_booking_with_id(bookings: Seq<BookingView>, id: Seq<u8>) -> bool {
    forall|j: int| 0 <= j < bookings.len() ==> bookings[j].id != id
}

/// The booking with its cancelled flag set.
pub open spec fn cancelled_view(b: BookingView) -> BookingView {
    BookingView { cancelled: true, ..b }
}

/// The collections after the first booking with identifier `id` is cancelled.
pub open spec fn after_cancel(v: DatabaseView, id: Seq<u8>) -> DatabaseView {
    if exists|i: int| is_first_with_id(v.bookings, id, i) {
        let i = choose|i: int| is_first_with_id(v.bookings, id, i);
        DatabaseView { bookings: v.bookings.update(i, cancelled_view(v.bookings[i])), ..v }
    } else {
        v
    }
}

/// The acknowledgment of cancelling the first booking with identifier `id`.
pub open spec fn cancel_ack(v: DatabaseView, id: Seq<u8>) -> UpdateAck {
    if exists|i: int| is_first_with_id(v.bookings, id, i) {
        let i = choose|i: int| is_first_with_id(v.bookings, id, i);
        UpdateAck { matched_count: 1, modified_count: if v.bookings[i].cancelled { 0 } else { 1 } }
    } else {
        UpdateAck { matched_count: 0, modified_count: 0 }
    }
}

/// The first booking with a given identifier has one position.
pub proof fn lemma_first_unique(bookings: Seq<BookingView>, id: Seq<u8>, i: int, j: int)
    requires
        is_first_with_id(bookings, id, i),
        is_first_with_id(bookings, id, j),
    ensures
        i == j,
{
    if i < j {
        assert(bookings[i].id == id);
    } else if j < i {
        assert(bookings[j].id == id);
    }
}

/// Relies on chrono's `Utc::now`: the current time, in milliseconds since the
/// Unix epoch. Nothing is promised of its value.
#[verifier::external_body]
fn now_millis() -> (r: i64) {
    chrono::Utc::now().timestamp_millis()
}

/// The dogs whose owner reference is `owner`, copied, in collection order.
fn dogs_of_owner(dogs: &Vec<Dog>, owner: &RecordId) -> (r: Vec<Dog>)
    ensures
        dog_views(r@) == dogs_of(dog_views(dogs@), owner@),
{
    let ghost all = dog_views(dogs@);
    let mut r: Vec<Dog> = Vec::new();
    let mut i: usize = 0;
    assert(all.subrange(0, 0) =~= seq![]);
    while i < dogs.len()
        invariant
            i <= dogs.len(),
            all == dog_views(dogs@),
            dog_views(r@) == dogs_of(all.subrange(0, i as int), owner@),
        decreases dogs.len() - i,
    {
        let ghost before = r@;
        let ghost pre = all.subrange(0, i as int);
        let ghost cur = all.subrange(0, i + 1);
        assert(cur.drop_last() =~= pre);
        assert(cur.last() == dogs@[i as int]@);
        if dogs[i].owner.same_as(owner) {
            let d = dogs[i].duplicate();
            r.push(d);
            assert(dog_views(r@) =~= dog_views(before).push(d@));
        }
        i = i + 1;
    }
    assert(all.subrange(0, dogs.len() as int) =~= all);
    r
}

pub struct Database {
    owners: Vec<Owner>,
    dogs: Vec<Dog>,
    bookings: Vec<Booking>,
}

impl View for Database {
    type V = DatabaseView;

    closed spec fn view(&self) -> DatabaseView {
        DatabaseView {
            owners: owner_views(self.owners@),
            dogs: dog_views(self.dogs@),
            bookings: booking_views(self.bookings@),
        }
    }
}

impl Database {
    /// Three empty collections.
    pub fn new() -> (r: Database)
        ensures
            r@.owners.len() == 0,
            r@.dogs.len() == 0,
            r@.bookings.len() == 0,
    {
        let r = Database { owners: Vec::new(), dogs: Vec::new(), bookings: Vec::new() };
        assert(r@.owners =~= seq![]);
        assert(r@.dogs =~= seq![]);
        assert(r@.bookings =~= seq![]);
        r
    }

    /// The collections holding the given records, in the given order.
    pub fn from_records(owners: Vec<Owner>, dogs: Vec<Dog>, bookings: Vec<Booking>) -> (r: Database)
        ensures
            r@.owners == owner_views(owners@),
            r@.dogs == dog_views(dogs@),
            r@.bookings == booking_views(bookings@),
    {
        Database { owners, dogs, bookings }
    }

    /// Inserts an owner record.
    pub fn create_owner(&mut self, owner: Owner) -> (r: InsertAck)
        ensures
            final(self)@.owners == old(self)@.owners.push(owner@),
            final(self)@.dogs == old(self)@.dogs,
            final(self)@.bookings == old(self)@.bookings,
            r.inserted_id@ == owner._id@,
    {
        let ack = InsertAck { inserted_id: owner._id };
        let ghost before = self.owners@;
        self.owners.push(owner);
        assert(owner_views(self.owners@) =~= owner_views(before).push(owner@));
        ack
    }

    /// Inserts a dog record.
    pub fn create_dog(&mut self, dog: Dog) -> (r: InsertAck)
        ensures
            final(self)@.dogs == old(self)@.dogs.push(dog@),
            final(self)@.owners == old(self)@.owners,
            final(self)@.bookings == old(self)@.bookings,
            r.inserted_id@ == dog._id@,
    {
        let ack = InsertAck { inserted_id: dog._id };
        let ghost before = self.dogs@;
        self.dogs.push(dog);
        assert(dog_views(self.dogs@) =~= dog_views(before).push(dog@));
        ack
    }

    /// Inserts a booking record.
    pub fn create_booking(&mut self, booking: Booking) -> (r: InsertAck)
        ensures
            final(self)@.bookings == old(self)@.bookings.push(booking@),
            final(self)@.owners == old(self)@.owners,
            final(self)@.dogs == old(self)@.dogs,
            r.inserted_id@ == booking._id@,
    {
        let ack = InsertAck { inserted_id: booking._id };
        let ghost before = self.bookings@;
        self.bookings.push(booking);
        assert(booking_views(self.bookings@) =~= booking_views(before).push(booking@));
        ack
    }

    /// The position of the first booking with identifier `id`.
    fn position_of(&self, id: &RecordId) -> (r: Option<usize>)
        ensures
            r matches Some(k) ==> is_first_with_id(self@.bookings, id@, k as int),
            r is None ==> no_booking_with_id(self@.bookings, id@),
    {
        let mut i: usize = 0;
        while i < self.bookings.len()
            invariant
                i <= self.bookings.len(),
                forall|j: int| 0 <= j < i ==> #[trigger] self@.bookings[j].id != id@,
            decreases self.bookings.len() - i,
        {
            assert(self@.bookings[i as int] == self.bookings@[i as int]@);
            if self.bookings[i]._id.same_as(id) {
                return Some(i);
            }
            i = i + 1;
        }
        None
    }

    /// Sets the cancelled flag of the first booking named by `booking_id`.
    /// Succeeds for all identifier text, also when no booking matches or the
    /// booking is cancelled already; `NotFound`, with nothing changed, for
    /// other text.
    pub fn cancel_booking(&mut self, booking_id: &str) -> (r: Result<UpdateAck, ServiceError>)
        ensures
            r is Ok <==> is_id_text(booking_id@),
            r matches Err(e) ==> e == ServiceError::NotFound && final(self)@ == old(self)@,
            r matches Ok(ack) ==> {
                &&& final(self)@ == after_cancel(old(self)@, id_bytes_of(booking_id@))
                &&& ack == cancel_ack(old(self)@, id_bytes_of(booking_id@))
            },
    {
        let id = match RecordId::parse_str(booking_id) {
            Some(id) => id,
            None => return Err(ServiceError::NotFound),
        };
        let ghost v = self@;
        match self.position_of(&id) {
            None => {
                assert(!exists|i: int| is_first_with_id(v.bookings, id@, i));
                Ok(UpdateAck { matched_count: 0, modified_count: 0 })
            },
            Some(k) => {
                proof {
                    let c = choose|i: int| is_first_with_id(v.bookings, id@, i);
                    lemma_first_unique(v.bookings, id@, c, k as int);
                }
                let mut b = self.bookings[k];
                let modified: u64 = if b.cancelled { 0 } else { 1 };
                b.cancelled = true;
                let ghost before = self.bookings@;
                self.bookings.set(k, b);
                assert(booking_views(self.bookings@) =~= booking_views(before).update(
                    k as int,
                    cancelled_view(v.bookings[k as int]),
                ));
                assert(self@ =~= after_cancel(v, id@));
                Ok(UpdateAck { matched_count: 1, modified_count: modified })
            },
        }
    }

    /// Appends the joined rows of one booking to `out`.
    fn append_rows(&self, b: &Booking, out: &mut Vec<FullBooking>)
        ensures
            full_views(final(out)@) == full_views(old(out)@) + rows_of(b@, self@.owners, self@.dogs),
    {
        let ghost start = full_views(out@);
        let ghost owners = self@.owners;
        let mut j: usize = 0;
        assert(owners.subrange(0, 0) =~= seq![]);
        assert(start + seq![] =~= start);
        while j < self.owners.len()
            invariant
                j <= self.owners.len(),
                owners == self@.owners,
                full_views(out@) == start + rows_of(b@, owners.subrange(0, j as int), self@.dogs),
            decreases self.owners.len() - j,
        {
            let ghost before = full_views(out@);
            let ghost pre = owners.subrange(0, j as int);
            let ghost cur = owners.subrange(0, j + 1);
            assert(cur.drop_last() =~= pre);
            assert(cur.last() == self.owners@[j as int]@);
            if self.owners[j]._id.same_as(&b.owner) {
                let o = self.owners[j].duplicate();
                let dogs = dogs_of_owner(&self.dogs, &o._id);
                let row = FullBooking {
                    _id: b._id,
                    owner: o,
                    start_time: b.start_time,
                    duration_in_minutes: b.duration_in_minutes,
                    cancelled: b.cancelled,
                    dogs,
                };
                out.push(row);
                assert(full_views(out@) =~= before.push(row@));
                assert(row@ == enriched(b@, cur.last(), self@.dogs));
                assert(start + rows_of(b@, pre, self@.dogs).push(row@) =~= (start + rows_of(
                    b@,
                    pre,
                    self@.dogs,
                )).push(row@));
            }
            j = j + 1;
        }
        assert(owners.subrange(0, self.owners.len() as int) =~= owners);
    }

    /// The joined rows of the bookings that are upcoming at `now`.
    pub fn get_bookings_at(&self, now: i64) -> (r: Vec<FullBooking>)
        ensures
            full_views(r@) == upcoming_rows(self@.bookings, self@.owners, self@.dogs, now),
    {
        let ghost all = self@.bookings;
        let mut out: Vec<FullBooking> = Vec::new();
        let mut i: usize = 0;
        assert(all.subrange(0, 0) =~= seq![]);
        assert(full_views(out@) =~= seq![]);
        while i < self.bookings.len()
            invariant
                i <= self.bookings.len(),
                all == self@.bookings,
                full_views(out@) == upcoming_rows(all.subrange(0, i as int), self@.owners, self@.dogs, now),
            decreases self.bookings.len() - i,
        {
            let ghost pre = all.subrange(0, i as int);
            let ghost cur = all.subrange(0, i + 1);
            assert(cur.drop_last() =~= pre);
            assert(cur.last() == self.bookings@[i as int]@);
            let b = self.bookings[i];
            if !b.cancelled && b.start_time >= now {
                self.append_rows(&b, &mut out);
            }
            i = i + 1;
        }
        assert(all.subrange(0, self.bookings.len() as int) =~= all);
        out
    }

    /// The joined rows of the bookings that are upcoming now.
    pub fn get_bookings(&self) -> (r: Vec<FullBooking>)
        ensures
            exists|now: i64| full_views(r@) == upcoming_rows(self@.bookings, self@.owners, self@.dogs, now),
    {
        let now = now_millis();
        let r = self.get_bookings_at(now);
        assert(full_views(r@) == upcoming_rows(self@.bookings, self@.owners, self@.dogs, now));
        r
    }

    /// The joined rows of the bookings with identifier `id`.
    fn rows_for_id(&self, id: &RecordId) -> (r: Vec<FullBooking>)
        ensures
            full_views(r@) == rows_with_id(self@.bookings, self@.owners, self@.dogs, id@),
    {
        let ghost all = self@.bookings;
        let mut out: Vec<FullBooking> = Vec::new();
        let mut i: usize = 0;
        assert(all.subrange(0, 0) =~= seq![]);
        assert(full_views(out@) =~= seq![]);
        while i < self.bookings.len()
            invariant
                i <= self.bookings.len(),
                all == self@.bookings,
                full_views(out@) == rows_with_id(all.subrange(0, i as int), self@.owners, self@.dogs, id@),
            decreases self.bookings.len() - i,
        {
            let ghost pre = all.subrange(0, i as int);
            let ghost cur = all.subrange(0, i + 1);
            assert(cur.drop_last() =~= pre);
            assert(cur.last() == self.bookings@[i as int]@);
            let b = self.bookings[i];
            if b._id.same_as(id) {
                self.append_rows(&b, &mut out);
            }
            i = i + 1;
        }
        assert(all.subrange(0, self.bookings.len() as int) =~= all);
        out
    }

    /// The first joined row of the booking named by `booking_id`, whether or not
    /// it is cancelled or past; `NotFound` when the text is not identifier text
    /// or no such row exists.
    pub fn get_booking(&self, booking_id: &str) -> (r: Result<FullBooking, ServiceError>)
        ensures
            r is Ok <==> is_id_text(booking_id@) && rows_with_id(
                self@.bookings,
                self@.owners,
                self@.dogs,
                id_bytes_of(booking_id@),
            ).len() > 0,
            r matches Err(e) ==> e == ServiceError::NotFound,
            r matches Ok(f) ==> f@ == rows_with_id(
                self@.bookings,
                self@.owners,
                self@.dogs,
                id_bytes_of(booking_id@),
            )[0],
    {
        let id = match RecordId::parse_str(booking_id) {
            Some(id) => id,
            None => return Err(ServiceError::NotFound),
        };
        let mut rows = self.rows_for_id(&id);
        if rows.len() == 0 {
            return Err(ServiceError::NotFound);
        }
        let ghost views = full_views(rows@);
        let f = rows.remove(0);
        assert(views[0] == f@);
        Ok(f)
    }
}

} // verus!

//! Request handling: convert the payload, then persist it. A refused payload
//! leaves the collections as they were.

use vstd::prelude::*;
use crate::ids::{is_id_text, id_bytes_of};
use crate::models::{
    Booking, BookingRequest, Dog, DogRequest, Owner, OwnerRequest, ServiceError, opt_text,
};
use crate::store::{Database, InsertAck};

verus! {

/// Creates an owner from a request; always succeeds.
pub fn create_owner(db: &mut Database, request: OwnerRequest) -> (r: Result<InsertAck, ServiceError>)
    ensures
        r is Ok,
        r matches Ok(ack) ==> {
            let o = final(db)@.owners.last();
            &&& final(db)@.owners.len() == old(db)@.owners.len() + 1
            &&& final(db)@.owners.drop_last() == old(db)@.owners
            &&& final(db)@.dogs == old(db)@.dogs
            &&& final(db)@.bookings == old(db)@.bookings
            &&& o.id == ack.inserted_id@
            &&& o.id.len() == 12
            &&& o.name == request.name@
            &&& o.email == request.email@
            &&& o.phone == request.phone@
            &&& o.address == request.address@
        },
{
    let owner = match Owner::try_from(request) {
        Ok(o) => o,
        Err(e) => return Err(e),
    };
    let ghost before = db@.owners;
    let ack = db.create_owner(owner);
    assert(db@.owners.drop_last() =~= before);
    Ok(ack)
}

/// Creates a dog from a request; `Validation`, with nothing written, when the
/// owner reference is not identifier text.
pub fn create_dog(db: &mut Database, request: DogRequest) -> (r: Result<InsertAck, ServiceError>)
    ensures
        r is Ok <==> is_id_text(request.owner@),
        r matches Err(e) ==> e == ServiceError::Validation && final(db)@ == old(db)@,
        r matches Ok(ack) ==> {
            let d = final(db)@.dogs.last();
            &&& final(db)@.dogs.len() == old(db)@.dogs.len() + 1
            &&& final(db)@.dogs.drop_last() == old(db)@.dogs
            &&& final(db)@.owners == old(db)@.owners
            &&& final(db)@.bookings == old(db)@.bookings
            &&& d.id == ack.inserted_id@
            &&& d.id.len() == 12
            &&& d.owner == id_bytes_of(request.owner@)
            &&& d.name == opt_text(request.name)
            &&& d.age == request.age
            &&& d.breed == opt_text(request.breed)
        },
{
    let dog = match Dog::try_from(request) {
        Ok(d) => d,
        Err(e) => return Err(e),
    };
    let ghost before = db@.dogs;
    let ack = db.create_dog(dog);
    assert(db@.dogs.drop_last() =~= before);
    Ok(ack)
}

/// Creates a booking from a request, not cancelled; `Validation`, with nothing
/// written, when the owner reference is not identifier text.
pub fn create_booking(db: &mut Database, request: BookingRequest) -> (r: Result<InsertAck, ServiceError>)
    ensures
        r is Ok <==> is_id_text(request.owner@),
        r matches Err(e) ==> e == ServiceError::Validation && final(db)@ == old(db)@,
        r matches Ok(ack) ==> {
            let b = final(db)@.bookings.last();
            &&& final(db)@.bookings.len() == old(db)@.bookings.len() + 1
            &&& final(db)@.bookings.drop_last() == old(db)@.bookings
            &&& final(db)@.owners == old(db)@.owners
            &&& final(db)@.dogs == old(db)@.dogs
            &&& b.id == ack.inserted_id@
            &&& b.id.len() == 12
            &&& b.owner == id_bytes_of(request.owner@)
            &&& b.start_time == request.start_time
            &&& b.duration_in_minutes == request.duration_in_minutes
            &&& !b.cancelled
        },
{
    let booking = match Booking::try_from(request) {
        Ok(b) => b,
        Err(e) => return Err(e),
    };
    let ghost before = db@.bookings;
    let ack = db.create_booking(booking);
    assert(db@.bookings.drop_last() =~= before);
    Ok(ack)
}

} // verus!

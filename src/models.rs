//! Stored records, the request payloads they are made from, and the enriched
//! booking read-model.

use vstd::prelude::*;
use crate::ids::{RecordId, is_id_text, id_bytes_of};

verus! {

/// Why a request was refused.
#[derive(Clone, Copy, Debug, PartialEq, Eq, Structural)]
pub enum ServiceError {
    /// A referenced identifier is not well-formed text.
    Validation,
    /// The named record is absent, or its identifier is not well-formed text.
    NotFound,
}

impl ServiceError {
    /// A description of the error for the client.
    pub fn message(&self) -> (r: String)
        ensures
            *self == ServiceError::Validation ==> r@ == "invalid identifier reference"@,
            *self == ServiceError::NotFound ==> r@ == "record not found"@,
    {
        match self {
            ServiceError::Validation => String::from_str("invalid identifier reference"),
            ServiceError::NotFound => String::from_str("record not found"),
        }
    }
}

/// Optional text, as a sequence of characters.
pub open spec fn opt_text(o: Option<String>) -> Option<Seq<char>> {
    match o {
        Some(s) => Some(s@),
        None => None,
    }
}

/// A copy of optional text.
pub fn copy_opt_text(o: &Option<String>) -> (r: Option<String>)
    ensures
        opt_text(r) == opt_text(*o),
{
    match o {
        Some(s) => Some(s.clone()),
        None => None,
    }
}

pub struct OwnerRequest {
    pub name: String,
    pub email: String,
    pub phone: String,
    pub address: String,
}

pub struct Owner {
    pub _id: RecordId,
    pub name: String,
    pub email: String,
    pub phone: String,
    pub address: String,
}

pub struct OwnerView {
    pub id: Seq<u8>,
    pub name: Seq<char>,
    pub email: Seq<char>,
    pub phone: Seq<char>,
    pub address: Seq<char>,
}

impl View for Owner {
    type V = OwnerView;

    open spec fn view(&self) -> OwnerView {
        OwnerView {
            id: self._id@,
            name: self.name@,
            email: self.email@,
            phone: self.phone@,
            address: self.address@,
        }
    }
}

impl Owner {
    /// The owner a request describes, under a fresh identifier.
    pub fn try_from(item: OwnerRequest) -> (r: Result<Owner, ServiceError>)
        ensures
            r is Ok,
            r matches Ok(o) ==> {
                &&& o._id@.len() == 12
                &&& o.name@ == item.name@
                &&& o.email@ == item.email@
                &&& o.phone@ == item.phone@
                &&& o.address@ == item.address@
            },
    {
        Ok(Owner {
            _id: RecordId::new(),
            name: item.name,
            email: item.email,
            phone: item.phone,
            address: item.address,
        })
    }

    /// A copy of the record.
    pub fn duplicate(&self) -> (r: Owner)
        ensures
            r@ == self@,
    {
        Owner {
            _id: self._id,
            name: self.name.clone(),
            email: self.email.clone(),
            phone: self.phone.clone(),
            address: self.address.clone(),
        }
    }
}

pub struct DogRequest {
    pub owner: String,
    pub name: Option<String>,
    pub age: Option<u8>,
    pub breed: Option<String>,
}

pub struct Dog {
    pub _id: RecordId,
    pub owner: RecordId,
    pub name: Option<String>,
    pub age: Option<u8>,
    pub breed: Option<String>,
}

pub struct DogView {
    pub id: Seq<u8>,
    pub owner: Seq<u8>,
    pub name: Option<Seq<char>>,
    pub age: Option<u8>,
    pub breed: Option<Seq<char>>,
}

impl View for Dog {
    type V = DogView;

    open spec fn view(&self) -> DogView {
        DogView {
            id: self._id@,
            owner: self.owner@,
            name: opt_text(self.name),
            age: self.age,
            breed: opt_text(self.breed),
        }
    }
}

impl Dog {
    /// The dog a request describes, under a fresh identifier; refused when the
    /// owner reference is not identifier text.
    pub fn try_from(item: DogRequest) -> (r: Result<Dog, ServiceError>)
        ensures
            r is Ok <==> is_id_text(item.owner@),
            r matches Err(e) ==> e == ServiceError::Validation,
            r matches Ok(d) ==> {
                &&& d._id@.len() == 12
                &&& d.owner@ == id_bytes_of(item.owner@)
                &&& d@.name == opt_text(item.name)
                &&& d.age == item.age
                &&& d@.breed == opt_text(item.breed)
            },
    {
        let id = RecordId::new();
        let owner = match RecordId::parse_str(item.owner.as_str()) {
            Some(o) => o,
            None => return Err(ServiceError::Validation),
        };
        Ok(Dog { _id: id, owner, name: item.name, age: item.age, breed: item.breed })
    }

    /// A copy of the record.
    pub fn duplicate(&self) -> (r: Dog)
        ensures
            r@ == self@,
    {
        Dog {
            _id: self._id,
            owner: self.owner,
            name: copy_opt_text(&self.name),
            age: self.age,
            breed: copy_opt_text(&self.breed),
        }
    }
}

pub struct BookingRequest {
    pub owner: String,
    /// Milliseconds since the Unix epoch.
    pub start_time: i64,
    pub duration_in_minutes: i64,
}

#[derive(Clone, Copy, Debug)]
pub struct Booking {
    pub _id: RecordId,
    pub owner: RecordId,
    /// Milliseconds since the Unix epoch.
    pub start_time: i64,
    pub duration_in_minutes: i64,
    pub cancelled: bool,
}

pub struct BookingView {
    pub id: Seq<u8>,
    pub owner: Seq<u8>,
    pub start_time: i64,
    pub duration_in_minutes: i64,
    pub cancelled: bool,
}

impl View for Booking {
    type V = BookingView;

    open spec fn view(&self) -> BookingView {
        BookingView {
            id: self._id@,
            owner: self.owner@,
            start_time: self.start_time,
            duration_in_minutes: self.duration_in_minutes,
            cancelled: self.cancelled,
        }
    }
}

impl Booking {
    /// The booking a request describes, not cancelled, under a fresh
    /// identifier; refused when the owner reference is not identifier text.
    pub fn try_from(item: BookingRequest) -> (r: Result<Booking, ServiceError>)
        ensures
            r is Ok <==> is_id_text(item.owner@),
            r matches Err(e) ==> e == ServiceError::Validation,
            r matches Ok(b) ==> {
                &&& b._id@.len() == 12
                &&& b.owner@ == id_bytes_of(item.owner@)
                &&& b.start_time == item.start_time
                &&& b.duration_in_minutes == item.duration_in_minutes
                &&& !b.cancelled
            },
    {
        let id = RecordId::new();
        let owner = match RecordId::parse_str(item.owner.as_str()) {
            Some(o) => o,
            None => return Err(ServiceError::Validation),
        };
        Ok(Booking {
            _id: id,
            owner,
            start_time: item.start_time,
            duration_in_minutes: item.duration_in_minutes,
            cancelled: false,
        })
    }
}

/// A booking with its owner's record in place of the reference, and the
/// owner's dogs.
pub struct FullBooking {
    pub _id: RecordId,
    pub owner: Owner,
    pub start_time: i64,
    pub duration_in_minutes: i64,
    pub cancelled: bool,
    pub dogs: Vec<Dog>,
}

pub struct FullBookingView {
    pub id: Seq<u8>,
    pub owner: OwnerView,
    pub start_time: i64,
    pub duration_in_minutes: i64,
    pub cancelled: bool,
    pub dogs: Seq<DogView>,
}

/// The views of a sequence of dogs.
pub open spec fn dog_views(dogs: Seq<Dog>) -> Seq<DogView> {
    dogs.map_values(|d: Dog| d@)
}

impl View for FullBooking {
    type V = FullBookingView;

    open spec fn view(&self) -> FullBookingView {
        FullBookingView {
            id: self._id@,
            owner: self.owner@,
            start_time: self.start_time,
            duration_in_minutes: self.duration_in_minutes,
            cancelled: self.cancelled,
            dogs: dog_views(self.dogs@),
        }
    }
}

} // verus!

use dog_walking::models::{BookingRequest, DogRequest, OwnerRequest, ServiceError};
use dog_walking::routes::{create_booking, create_dog, create_owner};
use dog_walking::store::{Database, UpdateAck};

fn ann() -> OwnerRequest {
    OwnerRequest {
        name: "Ann".to_string(),
        email: "a@x.com".to_string(),
        phone: "1".to_string(),
        address: "Addr".to_string(),
    }
}

// far in the future: 2100-01-01 in milliseconds since the epoch
const FUTURE: i64 = 4_102_444_800_000;

#[test]
fn test_create_booking() {
    let mut db = Database::new();
    let owner = dog_walking::models::Owner::try_from(OwnerRequest {
        name: "Name".to_string(),
        email: "test@example.com".to_string(),
        phone: "0001112233".to_string(),
        address: "1337 Whoville, Texas".to_string(),
    })
    .unwrap();
    let id = owner._id;
    let ack = db.create_owner(owner);
    assert!(ack.inserted_id.same_as(&id));
}

#[test]
fn walk_through_owner_dog_booking_cancel() {
    let mut db = Database::new();
    let o = create_owner(&mut db, ann()).unwrap().inserted_id.to_hex();
    create_dog(
        &mut db,
        DogRequest { owner: o.clone(), name: Some("Rex".to_string()), age: Some(3), breed: None },
    )
    .unwrap();
    let b = create_booking(
        &mut db,
        BookingRequest { owner: o.clone(), start_time: FUTURE, duration_in_minutes: 30 },
    )
    .unwrap()
    .inserted_id
    .to_hex();

    let full = db.get_booking(&b).unwrap();
    assert_eq!(full.owner.name, "Ann");
    assert_eq!(full.dogs.len(), 1);
    assert_eq!(full.dogs[0].name, Some("Rex".to_string()));

    let listed = db.get_bookings();
    assert_eq!(listed.len(), 1);
    assert_eq!(listed[0]._id.to_hex(), b);

    db.cancel_booking(&b).unwrap();
    let listed = db.get_bookings();
    assert!(listed.iter().all(|f| f._id.to_hex() != b));
    assert!(listed.is_empty());
}

#[test]
fn dog_for_created_owner_is_accepted() {
    let mut db = Database::new();
    let ack = create_owner(&mut db, ann()).unwrap();
    let d = create_dog(
        &mut db,
        DogRequest { owner: ack.inserted_id.to_hex(), name: None, age: None, breed: None },
    );
    assert!(d.is_ok());
}

#[test]
fn malformed_references_write_nothing() {
    let mut db = Database::new();
    let o = create_owner(&mut db, ann()).unwrap().inserted_id.to_hex();
    create_booking(&mut db, BookingRequest { owner: o, start_time: FUTURE, duration_in_minutes: 30 })
        .unwrap();
    let before = db.get_bookings_at(0).len();
    for bad in ["", "xyz", "507f1f77bcf86cd79943901", "507f1f77bcf86cd79943901g"] {
        let d = create_dog(
            &mut db,
            DogRequest { owner: bad.to_string(), name: None, age: None, breed: None },
        );
        assert_eq!(d.err(), Some(ServiceError::Validation));
        let b = create_booking(
            &mut db,
            BookingRequest { owner: bad.to_string(), start_time: FUTURE, duration_in_minutes: 1 },
        );
        assert_eq!(b.err(), Some(ServiceError::Validation));
    }
    let rows = db.get_bookings_at(0);
    assert_eq!(rows.len(), before);
    assert!(rows[0].dogs.is_empty());
}

#[test]
fn cancel_twice_is_idempotent() {
    let mut db = Database::new();
    let o = create_owner(&mut db, ann()).unwrap().inserted_id.to_hex();
    let b = create_booking(&mut db, BookingRequest { owner: o, start_time: FUTURE, duration_in_minutes: 30 })
        .unwrap()
        .inserted_id
        .to_hex();
    let first = db.cancel_booking(&b).unwrap();
    assert_eq!(first, UpdateAck { matched_count: 1, modified_count: 1 });
    let second = db.cancel_booking(&b).unwrap();
    assert_eq!(second, UpdateAck { matched_count: 1, modified_count: 0 });
    assert!(db.get_booking(&b).unwrap().cancelled);
}

#[test]
fn cancel_of_absent_id_matches_nothing() {
    let mut db = Database::new();
    let ack = db.cancel_booking("507f1f77bcf86cd799439011").unwrap();
    assert_eq!(ack, UpdateAck { matched_count: 0, modified_count: 0 });
}

#[test]
fn cancel_of_malformed_id_is_not_found() {
    let mut db = Database::new();
    assert_eq!(db.cancel_booking("nope").err(), Some(ServiceError::NotFound));
}

#[test]
fn listing_skips_cancelled_and_past_bookings() {
    let mut db = Database::new();
    let o = create_owner(&mut db, ann()).unwrap().inserted_id.to_hex();
    let mk = |db: &mut Database, t: i64| {
        create_booking(db, BookingRequest { owner: o.clone(), start_time: t, duration_in_minutes: 10 })
            .unwrap()
            .inserted_id
            .to_hex()
    };
    let past = mk(&mut db, 1_000);
    let edge = mk(&mut db, 5_000);
    let later = mk(&mut db, 9_000);
    let cancelled = mk(&mut db, 9_500);
    db.cancel_booking(&cancelled).unwrap();
    let ids: Vec<String> = db.get_bookings_at(5_000).iter().map(|f| f._id.to_hex()).collect();
    assert_eq!(ids, vec![edge.clone(), later.clone()]);
    assert!(!ids.contains(&past));
    assert!(!ids.contains(&cancelled));
}

#[test]
fn fetch_by_id_ignores_cancelled_and_time() {
    let mut db = Database::new();
    let o = create_owner(&mut db, ann()).unwrap().inserted_id.to_hex();
    let b = create_booking(&mut db, BookingRequest { owner: o, start_time: 1_000, duration_in_minutes: 20 })
        .unwrap()
        .inserted_id
        .to_hex();
    db.cancel_booking(&b).unwrap();
    assert!(db.get_bookings_at(0).is_empty());
    let f = db.get_booking(&b).unwrap();
    assert!(f.cancelled);
    assert_eq!(f.start_time, 1_000);
}

#[test]
fn fetched_booking_matches_request() {
    let mut db = Database::new();
    let o = create_owner(&mut db, ann()).unwrap().inserted_id.to_hex();
    let b = create_booking(
        &mut db,
        BookingRequest { owner: o.clone(), start_time: 1_234_567, duration_in_minutes: 75 },
    )
    .unwrap()
    .inserted_id
    .to_hex();
    let f = db.get_booking(&b).unwrap();
    assert_eq!(f.owner._id.to_hex(), o);
    assert_eq!(f.start_time, 1_234_567);
    assert_eq!(f.duration_in_minutes, 75);
    assert!(!f.cancelled);
}

#[test]
fn booking_without_owner_is_dropped_from_queries() {
    let mut db = Database::new();
    let b = create_booking(
        &mut db,
        BookingRequest {
            owner: "507f1f77bcf86cd799439011".to_string(),
            start_time: FUTURE,
            duration_in_minutes: 30,
        },
    )
    .unwrap()
    .inserted_id
    .to_hex();
    assert!(db.get_bookings_at(0).is_empty());
    assert_eq!(db.get_booking(&b).err(), Some(ServiceError::NotFound));
}

#[test]
fn get_booking_errors() {
    let db = Database::new();
    assert_eq!(db.get_booking("bad").err(), Some(ServiceError::NotFound));
    assert_eq!(db.get_booking("507f1f77bcf86cd799439011").err(), Some(ServiceError::NotFound));
}

#[test]
fn dogs_are_those_of_the_owner() {
    let mut db = Database::new();
    let a = create_owner(&mut db, ann()).unwrap().inserted_id.to_hex();
    let other = create_owner(
        &mut db,
        OwnerRequest {
            name: "Bob".to_string(),
            email: "b@x.com".to_string(),
            phone: "2".to_string(),
            address: "Elsewhere".to_string(),
        },
    )
    .unwrap()
    .inserted_id
    .to_hex();
    for (owner, name) in [(&a, "Rex"), (&other, "Fido"), (&a, "Bella")] {
        create_dog(
            &mut db,
            DogRequest { owner: owner.clone(), name: Some(name.to_string()), age: None, breed: None },
        )
        .unwrap();
    }
    let b = create_booking(&mut db, BookingRequest { owner: a, start_time: FUTURE, duration_in_minutes: 30 })
        .unwrap()
        .inserted_id
        .to_hex();
    let f = db.get_booking(&b).unwrap();
    let names: Vec<Option<String>> = f.dogs.iter().map(|d| d.name.clone()).collect();
    assert_eq!(names, vec![Some("Rex".to_string()), Some("Bella".to_string())]);
}

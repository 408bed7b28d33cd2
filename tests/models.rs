use dog_walking::ids::RecordId;
use dog_walking::models::{
    Booking, BookingRequest, Dog, DogRequest, Owner, OwnerRequest, ServiceError,
};

#[test]
fn deserialize_json_to_dogrequest_and_convert_to_dog() {
    let dog_request = DogRequest {
        owner: "507f1f77bcf86cd799439011".to_string(),
        name: Some("Max".to_string()),
        age: Some(5),
        breed: None,
    };
    let dog = Dog::try_from(dog_request).unwrap();
    assert_eq!(dog.name, Some("Max".to_string()));
    assert_eq!(dog.age, Some(5));
    assert_eq!(dog.breed, None);
    assert_eq!(dog.owner.to_hex(), "507f1f77bcf86cd799439011");
}

#[test]
fn parse_reads_the_bytes() {
    let id = RecordId::parse_str("507f1f77bcf86cd799439011").unwrap();
    assert_eq!(
        id.bytes,
        [0x50, 0x7f, 0x1f, 0x77, 0xbc, 0xf8, 0x6c, 0xd7, 0x99, 0x43, 0x90, 0x11]
    );
}

#[test]
fn parse_accepts_upper_case_and_writes_lower_case() {
    let id = RecordId::parse_str("507F1F77BCF86CD799439011").unwrap();
    assert_eq!(id.to_hex(), "507f1f77bcf86cd799439011");
}

#[test]
fn parse_refuses_malformed_text() {
    assert!(RecordId::parse_str("").is_none());
    assert!(RecordId::parse_str("507f1f77bcf86cd79943901").is_none());
    assert!(RecordId::parse_str("507f1f77bcf86cd7994390111").is_none());
    assert!(RecordId::parse_str("507f1f77bcf86cd79943901g").is_none());
    assert!(RecordId::parse_str("507f1f77bcf86cd79943901\u{e9}").is_none());
}

#[test]
fn fresh_ids_round_trip_and_differ() {
    let a = RecordId::new();
    let b = RecordId::new();
    assert!(!a.same_as(&b));
    let text = a.to_hex();
    assert_eq!(text.len(), 24);
    assert!(RecordId::parse_str(&text).unwrap().same_as(&a));
}

#[test]
fn owner_conversion_keeps_fields() {
    let owner = Owner::try_from(OwnerRequest {
        name: "Ann".to_string(),
        email: "a@x.com".to_string(),
        phone: "1".to_string(),
        address: "Addr".to_string(),
    })
    .unwrap();
    assert_eq!(owner.name, "Ann");
    assert_eq!(owner.email, "a@x.com");
    assert_eq!(owner.phone, "1");
    assert_eq!(owner.address, "Addr");
}

#[test]
fn dog_with_malformed_owner_is_refused() {
    let r = Dog::try_from(DogRequest {
        owner: "not-an-id".to_string(),
        name: None,
        age: None,
        breed: None,
    });
    assert_eq!(r.err(), Some(ServiceError::Validation));
}

#[test]
fn booking_conversion_keeps_fields() {
    let b = Booking::try_from(BookingRequest {
        owner: "507f1f77bcf86cd799439011".to_string(),
        start_time: 1_700_000_000_000,
        duration_in_minutes: 45,
    })
    .unwrap();
    assert_eq!(b.owner.to_hex(), "507f1f77bcf86cd799439011");
    assert_eq!(b.start_time, 1_700_000_000_000);
    assert_eq!(b.duration_in_minutes, 45);
    assert!(!b.cancelled);
}

#[test]
fn booking_with_malformed_owner_is_refused() {
    let r = Booking::try_from(BookingRequest {
        owner: "507f1f77bcf86cd79943901z".to_string(),
        start_time: 0,
        duration_in_minutes: 30,
    });
    assert_eq!(r.err(), Some(ServiceError::Validation));
}

#[test]
fn error_messages() {
    assert_eq!(ServiceError::Validation.message(), "invalid identifier reference");
    assert_eq!(ServiceError::NotFound.message(), "record not found");
}

use dog_walking::database::{Database, Receipt, UpdateReceipt};
use dog_walking::error::RepositoryError;
use dog_walking::identifier::Identifier;
use dog_walking::models::{Booking, Dog, FullBooking, Owner};

const NOW: i64 = 1_700_000_000_000;
const DAY: i64 = 86_400_000;

fn key(last: u8) -> Identifier {
    Identifier { bytes: [0xaa, 0, 0, 0, 0, 0, 0, 0, 0, 0, 0, last] }
}

fn owner(last: u8, profile: &str) -> Owner {
    Owner { id: key(last), profile: profile.to_string() }
}

fn dog(last: u8, owner: u8, name: &str) -> Dog {
    Dog { id: key(last), owner: key(owner), name: Some(name.to_string()), age: None, breed: None }
}

fn booking(last: u8, owner: u8, start_time: i64) -> Booking {
    Booking { id: key(last), owner: key(owner), start_time, cancelled: false }
}

#[test]
fn new_repository_is_empty() {
    let db = Database::init();
    assert!(db.bookings().is_empty());
    assert!(db.dogs().is_empty());
    assert!(db.owners().is_empty());
    assert_eq!(db.get_bookings_at(NOW), Vec::<FullBooking>::new());
    assert_eq!(db.get_bookings(), Vec::<FullBooking>::new());
}

#[test]
fn create_reports_the_identifier_and_stores_in_order() {
    let mut db = Database::init();
    assert_eq!(db.create_owner(owner(1, "Ada")), Ok(Receipt { inserted_id: key(1) }));
    assert_eq!(db.create_owner(owner(2, "Bob")), Ok(Receipt { inserted_id: key(2) }));
    assert_eq!(db.create_dog(dog(3, 1, "Rex")), Ok(Receipt { inserted_id: key(3) }));
    assert_eq!(db.create_booking(booking(4, 1, NOW)), Ok(Receipt { inserted_id: key(4) }));
    assert_eq!(db.owners(), &vec![owner(1, "Ada"), owner(2, "Bob")]);
    assert_eq!(db.dogs(), &vec![dog(3, 1, "Rex")]);
    assert_eq!(db.bookings(), &vec![booking(4, 1, NOW)]);
}

#[test]
fn create_refuses_a_taken_identifier() {
    let mut db = Database::init();
    db.create_owner(owner(1, "Ada")).unwrap();
    db.create_dog(dog(1, 1, "Rex")).unwrap();
    db.create_booking(booking(1, 1, NOW)).unwrap();
    assert_eq!(db.create_owner(owner(1, "Eve")), Err(RepositoryError::DuplicateKey(key(1))));
    assert_eq!(db.create_dog(dog(1, 1, "Max")), Err(RepositoryError::DuplicateKey(key(1))));
    assert_eq!(
        db.create_booking(booking(1, 1, NOW + DAY)),
        Err(RepositoryError::DuplicateKey(key(1)))
    );
    assert_eq!(db.owners(), &vec![owner(1, "Ada")]);
    assert_eq!(db.dogs(), &vec![dog(1, 1, "Rex")]);
    assert_eq!(db.bookings(), &vec![booking(1, 1, NOW)]);
}

#[test]
fn the_same_identifier_may_be_used_in_two_collections() {
    let mut db = Database::init();
    assert!(db.create_owner(owner(1, "Ada")).is_ok());
    assert!(db.create_dog(dog(1, 1, "Rex")).is_ok());
    assert!(db.create_booking(booking(1, 1, NOW)).is_ok());
}

#[test]
fn cancel_sets_the_flag_and_nothing_else() {
    let mut db = Database::init();
    db.create_owner(owner(1, "Ada")).unwrap();
    db.create_dog(dog(2, 1, "Rex")).unwrap();
    db.create_booking(booking(3, 1, NOW)).unwrap();
    db.create_booking(booking(4, 1, NOW + DAY)).unwrap();
    let receipt = db.cancel_booking(&key(4).to_hex());
    assert_eq!(receipt, Ok(UpdateReceipt { matched_count: 1, modified_count: 1 }));
    assert_eq!(
        db.bookings(),
        &vec![
            booking(3, 1, NOW),
            Booking { id: key(4), owner: key(1), start_time: NOW + DAY, cancelled: true },
        ]
    );
    assert_eq!(db.owners(), &vec![owner(1, "Ada")]);
    assert_eq!(db.dogs(), &vec![dog(2, 1, "Rex")]);
}

#[test]
fn cancel_reads_upper_case_identifiers() {
    let mut db = Database::init();
    db.create_booking(booking(0xab, 1, NOW)).unwrap();
    let receipt = db.cancel_booking("AA00000000000000000000AB");
    assert_eq!(receipt, Ok(UpdateReceipt { matched_count: 1, modified_count: 1 }));
    assert!(db.bookings()[0].cancelled);
}

#[test]
fn cancel_twice_is_cancel_once() {
    let mut db = Database::init();
    db.create_booking(booking(3, 1, NOW)).unwrap();
    let text = key(3).to_hex();
    assert_eq!(
        db.cancel_booking(&text),
        Ok(UpdateReceipt { matched_count: 1, modified_count: 1 })
    );
    let after_first = db.bookings().clone();
    assert_eq!(
        db.cancel_booking(&text),
        Ok(UpdateReceipt { matched_count: 1, modified_count: 0 })
    );
    assert_eq!(db.bookings(), &after_first);
    assert!(db.bookings()[0].cancelled);
}

#[test]
fn cancel_of_a_missing_booking_changes_nothing() {
    let mut db = Database::init();
    db.create_booking(booking(3, 1, NOW)).unwrap();
    let receipt = db.cancel_booking(&key(9).to_hex());
    assert_eq!(receipt, Ok(UpdateReceipt { matched_count: 0, modified_count: 0 }));
    assert_eq!(db.bookings(), &vec![booking(3, 1, NOW)]);
}

#[test]
fn cancel_in_an_empty_repository_changes_nothing() {
    let mut db = Database::init();
    let receipt = db.cancel_booking("507f1f77bcf86cd799439011");
    assert_eq!(receipt, Ok(UpdateReceipt { matched_count: 0, modified_count: 0 }));
    assert!(db.bookings().is_empty());
}

#[test]
fn cancel_refuses_malformed_text() {
    let mut db = Database::init();
    db.create_booking(booking(3, 1, NOW)).unwrap();
    assert_eq!(
        db.cancel_booking("booking-3"),
        Err(RepositoryError::InvalidIdentifier("booking-3".to_string()))
    );
    assert_eq!(db.cancel_booking(""), Err(RepositoryError::InvalidIdentifier(String::new())));
    assert_eq!(db.bookings(), &vec![booking(3, 1, NOW)]);
}

#[test]
fn cancel_does_not_look_at_owners_or_dogs() {
    let mut db = Database::init();
    db.create_owner(owner(3, "Ada")).unwrap();
    db.create_dog(dog(3, 3, "Rex")).unwrap();
    let receipt = db.cancel_booking(&key(3).to_hex());
    assert_eq!(receipt, Ok(UpdateReceipt { matched_count: 0, modified_count: 0 }));
    assert_eq!(db.owners(), &vec![owner(3, "Ada")]);
    assert_eq!(db.dogs(), &vec![dog(3, 3, "Rex")]);
}

#[test]
fn booking_to_come_is_listed_until_it_is_cancelled() {
    let mut db = Database::init();
    db.create_owner(owner(1, "Ada")).unwrap();
    db.create_booking(booking(3, 1, NOW + DAY)).unwrap();
    let listing = db.get_bookings_at(NOW);
    assert_eq!(listing.len(), 1);
    assert_eq!(listing[0].id, key(3));
    db.cancel_booking(&key(3).to_hex()).unwrap();
    assert_eq!(db.get_bookings_at(NOW), Vec::<FullBooking>::new());
    assert_eq!(db.get_bookings_at(NOW - 10 * DAY), Vec::<FullBooking>::new());
}

#[test]
fn booking_is_listed_until_its_start_has_passed() {
    let mut db = Database::init();
    db.create_owner(owner(1, "Ada")).unwrap();
    db.create_booking(booking(3, 1, NOW)).unwrap();
    assert_eq!(db.get_bookings_at(NOW - 1).len(), 1);
    assert_eq!(db.get_bookings_at(NOW).len(), 1);
    assert_eq!(db.get_bookings_at(NOW + 1).len(), 0);
    assert_eq!(db.get_bookings_at(i64::MAX).len(), 0);
    assert_eq!(db.get_bookings_at(i64::MIN).len(), 1);
}

#[test]
fn booking_stored_as_cancelled_is_not_listed() {
    let mut db = Database::init();
    db.create_owner(owner(1, "Ada")).unwrap();
    db.create_booking(Booking { id: key(3), owner: key(1), start_time: NOW, cancelled: true })
        .unwrap();
    assert_eq!(db.get_bookings_at(NOW - DAY), Vec::<FullBooking>::new());
}

#[test]
fn booking_without_stored_owner_is_left_out() {
    let mut db = Database::init();
    db.create_owner(owner(1, "Ada")).unwrap();
    db.create_dog(dog(5, 2, "Stray")).unwrap();
    db.create_booking(booking(3, 2, NOW + DAY)).unwrap();
    db.create_booking(booking(4, 1, NOW + DAY)).unwrap();
    let listing = db.get_bookings_at(NOW);
    assert_eq!(listing.len(), 1);
    assert_eq!(listing[0].id, key(4));
    assert_eq!(listing[0].owner, owner(1, "Ada"));
}

#[test]
fn booking_is_listed_once_its_owner_is_stored() {
    let mut db = Database::init();
    db.create_booking(booking(3, 1, NOW + DAY)).unwrap();
    assert_eq!(db.get_bookings_at(NOW), Vec::<FullBooking>::new());
    db.create_owner(owner(1, "Ada")).unwrap();
    assert_eq!(db.get_bookings_at(NOW).len(), 1);
}

#[test]
fn owner_without_dogs_is_listed_with_no_dogs() {
    let mut db = Database::init();
    db.create_owner(owner(1, "Ada")).unwrap();
    db.create_owner(owner(2, "Bob")).unwrap();
    db.create_dog(dog(5, 2, "Max")).unwrap();
    db.create_booking(booking(3, 1, NOW + DAY)).unwrap();
    assert_eq!(
        db.get_bookings_at(NOW),
        vec![FullBooking {
            id: key(3),
            owner: owner(1, "Ada"),
            start_time: NOW + DAY,
            cancelled: false,
            dogs: vec![],
        }]
    );
}

#[test]
fn listing_keeps_the_order_of_bookings_and_dogs() {
    let mut db = Database::init();
    db.create_owner(owner(2, "Bob")).unwrap();
    db.create_owner(owner(1, "Ada")).unwrap();
    db.create_dog(dog(12, 1, "Rex")).unwrap();
    db.create_dog(dog(10, 2, "Max")).unwrap();
    db.create_dog(dog(11, 1, "Fay")).unwrap();
    db.create_booking(booking(22, 1, NOW + 2 * DAY)).unwrap();
    db.create_booking(booking(20, 2, NOW + 3 * DAY)).unwrap();
    db.create_booking(booking(21, 1, NOW - DAY)).unwrap();
    db.create_booking(booking(23, 1, NOW + DAY)).unwrap();
    assert_eq!(
        db.get_bookings_at(NOW),
        vec![
            FullBooking {
                id: key(22),
                owner: owner(1, "Ada"),
                start_time: NOW + 2 * DAY,
                cancelled: false,
                dogs: vec![dog(12, 1, "Rex"), dog(11, 1, "Fay")],
            },
            FullBooking {
                id: key(20),
                owner: owner(2, "Bob"),
                start_time: NOW + 3 * DAY,
                cancelled: false,
                dogs: vec![dog(10, 2, "Max")],
            },
            FullBooking {
                id: key(23),
                owner: owner(1, "Ada"),
                start_time: NOW + DAY,
                cancelled: false,
                dogs: vec![dog(12, 1, "Rex"), dog(11, 1, "Fay")],
            },
        ]
    );
}

#[test]
fn listing_is_the_same_when_asked_again() {
    let mut db = Database::init();
    db.create_owner(owner(1, "Ada")).unwrap();
    db.create_dog(dog(2, 1, "Rex")).unwrap();
    db.create_booking(booking(3, 1, NOW + DAY)).unwrap();
    db.create_booking(booking(4, 1, NOW + DAY)).unwrap();
    assert_eq!(db.get_bookings_at(NOW), db.get_bookings_at(NOW));
}

#[test]
fn listing_by_the_clock_shows_what_is_to_come() {
    let mut db = Database::init();
    db.create_owner(owner(1, "Ada")).unwrap();
    db.create_booking(booking(3, 1, i64::MAX)).unwrap();
    db.create_booking(booking(4, 1, 0)).unwrap();
    let listing = db.get_bookings();
    assert_eq!(listing.len(), 1);
    assert_eq!(listing[0].id, key(3));
}

#[test]
fn owner_dog_and_booking_make_one_entry_until_cancelled() {
    let mut db = Database::init();
    let o1 = Owner::create("O1".to_string());
    let owner_id = o1.id;
    let owner_text = owner_id.to_hex();
    db.create_owner(o1).unwrap();
    let d1 = Dog::try_from(dog_walking::models::DogRequest {
        owner: owner_text,
        name: Some("Rex".to_string()),
        age: None,
        breed: None,
    })
    .unwrap();
    let dog_id = d1.id;
    db.create_dog(d1).unwrap();
    let tomorrow = NOW + DAY;
    let b1 = Booking::create(owner_id, tomorrow);
    let booking_id = b1.id;
    assert_eq!(db.create_booking(b1), Ok(Receipt { inserted_id: booking_id }));
    assert_eq!(
        db.get_bookings_at(NOW),
        vec![FullBooking {
            id: booking_id,
            owner: Owner { id: owner_id, profile: "O1".to_string() },
            start_time: tomorrow,
            cancelled: false,
            dogs: vec![Dog {
                id: dog_id,
                owner: owner_id,
                name: Some("Rex".to_string()),
                age: None,
                breed: None,
            }],
        }]
    );
    assert_eq!(
        db.cancel_booking(&booking_id.to_hex()),
        Ok(UpdateReceipt { matched_count: 1, modified_count: 1 })
    );
    assert_eq!(db.get_bookings_at(NOW), Vec::<FullBooking>::new());
}

//! The repository: the three collections of bookings, dogs and owners, and
//! the operations on them.
//!
//! Within each collection no two records share an identifier. Nothing ties
//! the collections together: a booking or a dog may name an owner that is
//! not stored, and the listing of active bookings leaves such bookings out.

use crate::clock::now_millis;
use crate::error::RepositoryError;
use crate::identifier::{identifier_bytes, is_identifier_text, Identifier};
use crate::join::{active_bookings, entries, find_owner, holds_owner, list_active};
use crate::models::{Booking, Dog, FullBooking, Owner};
use vstd::prelude::*;

verus! {

/// What the repository holds: each collection in the order in which its
/// records were stored.
pub struct Collections {
    pub bookings: Seq<Booking>,
    pub dogs: Seq<Dog>,
    pub owners: Seq<Owner>,
}

/// Whether a booking is stored under the identifier with the bytes `id`.
pub open spec fn holds_booking(bookings: Seq<Booking>, id: Seq<u8>) -> bool {
    exists|i: int| 0 <= i < bookings.len() && (#[trigger] bookings[i]).id@ == id
}

/// Whether a dog is stored under the identifier with the bytes `id`.
pub open spec fn holds_dog(dogs: Seq<Dog>, id: Seq<u8>) -> bool {
    exists|i: int| 0 <= i < dogs.len() && (#[trigger] dogs[i]).id@ == id
}

/// Whether a booking that is not cancelled is stored under the identifier
/// with the bytes `id`.
pub open spec fn holds_open_booking(bookings: Seq<Booking>, id: Seq<u8>) -> bool {
    exists|i: int|
        0 <= i < bookings.len() && (#[trigger] bookings[i]).id@ == id && !bookings[i].cancelled
}

/// `booking`, cancelled. Nothing else of it changes.
pub open spec fn cancelled(booking: Booking) -> Booking {
    Booking { cancelled: true, ..booking }
}

/// The bookings after the one stored under the identifier with the bytes
/// `id` has been cancelled. The others are as they were, and so is the order.
pub open spec fn cancel_in(bookings: Seq<Booking>, id: Seq<u8>) -> Seq<Booking> {
    bookings.map_values(
        |b: Booking|
            if b.id@ == id {
                cancelled(b)
            } else {
                b
            },
    )
}

/// What cancelling the booking under the identifier with the bytes `id`
/// reports: whether a booking was found, and whether it was changed, each as
/// a count of records.
pub open spec fn cancel_receipt(bookings: Seq<Booking>, id: Seq<u8>) -> UpdateReceipt {
    UpdateReceipt {
        matched_count: if holds_booking(bookings, id) {
            1
        } else {
            0
        },
        modified_count: if holds_open_booking(bookings, id) {
            1
        } else {
            0
        },
    }
}

/// No two bookings share an identifier.
pub open spec fn distinct_bookings(bookings: Seq<Booking>) -> bool {
    forall|i: int, j: int|
        0 <= i < j < bookings.len() ==> (#[trigger] bookings[i]).id@ != (#[trigger] bookings[j]).id@
}

/// No two dogs share an identifier.
pub open spec fn distinct_dogs(dogs: Seq<Dog>) -> bool {
    forall|i: int, j: int|
        0 <= i < j < dogs.len() ==> (#[trigger] dogs[i]).id@ != (#[trigger] dogs[j]).id@
}

/// No two owners share an identifier.
pub open spec fn distinct_owners(owners: Seq<Owner>) -> bool {
    forall|i: int, j: int|
        0 <= i < j < owners.len() ==> (#[trigger] owners[i]).id@ != (#[trigger] owners[j]).id@
}

impl Collections {
    /// No two records of a collection share an identifier.
    pub open spec fn wf(self) -> bool {
        &&& distinct_bookings(self.bookings)
        &&& distinct_dogs(self.dogs)
        &&& distinct_owners(self.owners)
    }
}

/// The confirmation of a stored record.
#[derive(Debug, Clone, Copy, PartialEq, Eq)]
pub struct Receipt {
    /// The identifier under which the record is stored.
    pub inserted_id: Identifier,
}

/// The confirmation of an update.
#[derive(Debug, Clone, Copy, PartialEq, Eq)]
pub struct UpdateReceipt {
    /// How many records the update was aimed at: one or none.
    pub matched_count: u64,
    /// How many records the update changed: one or none.
    pub modified_count: u64,
}

/// The repository of bookings, dogs and owners.
pub struct Database {
    booking: Vec<Booking>,
    dog: Vec<Dog>,
    owner: Vec<Owner>,
}

impl View for Database {
    type V = Collections;

    closed spec fn view(&self) -> Collections {
        Collections { bookings: self.booking@, dogs: self.dog@, owners: self.owner@ }
    }
}

fn find_booking(bookings: &Vec<Booking>, id: &Identifier) -> (found: Option<usize>)
    ensures
        found is Some <==> holds_booking(bookings@, id@),
        found matches Some(i) ==> i < bookings.len() && bookings[i as int].id == *id,
{
    let mut i: usize = 0;
    while i < bookings.len()
        invariant
            0 <= i <= bookings.len(),
            forall|j: int| 0 <= j < i ==> bookings[j].id@ != id@,
        decreases bookings.len() - i,
    {
        if bookings[i].id.equals(id) {
            return Some(i);
        }
        i += 1;
    }
    None
}

fn find_dog(dogs: &Vec<Dog>, id: &Identifier) -> (found: Option<usize>)
    ensures
        found is Some <==> holds_dog(dogs@, id@),
        found matches Some(i) ==> i < dogs.len() && dogs[i as int].id == *id,
{
    let mut i: usize = 0;
    while i < dogs.len()
        invariant
            0 <= i <= dogs.len(),
            forall|j: int| 0 <= j < i ==> dogs[j].id@ != id@,
        decreases dogs.len() - i,
    {
        if dogs[i].id.equals(id) {
            return Some(i);
        }
        i += 1;
    }
    None
}

impl Database {
    #[verifier::type_invariant]
    spec fn keys_are_unique(self) -> bool {
        &&& distinct_bookings(self.booking@)
        &&& distinct_dogs(self.dog@)
        &&& distinct_owners(self.owner@)
    }

    /// An empty repository.
    pub fn init() -> (db: Database)
        ensures
            db@.bookings == Seq::<Booking>::empty(),
            db@.dogs == Seq::<Dog>::empty(),
            db@.owners == Seq::<Owner>::empty(),
            db@.wf(),
    {
        Database { booking: Vec::new(), dog: Vec::new(), owner: Vec::new() }
    }

    /// The stored bookings, in the order in which they were stored.
    pub fn bookings(&self) -> (all: &Vec<Booking>)
        ensures
            all@ == self@.bookings,
    {
        &self.booking
    }

    /// The stored dogs, in the order in which they were stored.
    pub fn dogs(&self) -> (all: &Vec<Dog>)
        ensures
            all@ == self@.dogs,
    {
        &self.dog
    }

    /// The stored owners, in the order in which they were stored.
    pub fn owners(&self) -> (all: &Vec<Owner>)
        ensures
            all@ == self@.owners,
    {
        &self.owner
    }

    /// Stores `owner` behind the owners that are there. An owner whose
    /// identifier is taken is refused, and nothing changes.
    pub fn create_owner(&mut self, owner: Owner) -> (r: Result<Receipt, RepositoryError>)
        ensures
            final(self)@.wf(),
            final(self)@.bookings == old(self)@.bookings,
            final(self)@.dogs == old(self)@.dogs,
            holds_owner(old(self)@.owners, owner.id@) ==> r == Err::<Receipt, RepositoryError>(
                RepositoryError::DuplicateKey(owner.id),
            ) && final(self)@.owners == old(self)@.owners,
            !holds_owner(old(self)@.owners, owner.id@) ==> r == Ok::<Receipt, RepositoryError>(
                Receipt { inserted_id: owner.id },
            ) && final(self)@.owners == old(self)@.owners.push(owner),
    {
        proof {
            use_type_invariant(&*self);
        }
        let id = owner.id;
        assert(self@.wf());
        assert(self.keys_are_unique());
        match find_owner(&self.owner, &id) {
            Some(_) => Err(RepositoryError::DuplicateKey(id)),
            None => {
                // The collection is taken out while it grows, so that the
                // repository is whole at every step.
                let mut grown: Vec<Owner> = Vec::new();
                core::mem::swap(&mut self.owner, &mut grown);
                grown.push(owner);
                core::mem::swap(&mut self.owner, &mut grown);
                Ok(Receipt { inserted_id: id })
            },
        }
    }

    /// Stores `dog` behind the dogs that are there. A dog whose identifier
    /// is taken is refused, and nothing changes. Whether its owner is stored
    /// is not looked at.
    pub fn create_dog(&mut self, dog: Dog) -> (r: Result<Receipt, RepositoryError>)
        ensures
            final(self)@.wf(),
            final(self)@.bookings == old(self)@.bookings,
            final(self)@.owners == old(self)@.owners,
            holds_dog(old(self)@.dogs, dog.id@) ==> r == Err::<Receipt, RepositoryError>(
                RepositoryError::DuplicateKey(dog.id),
            ) && final(self)@.dogs == old(self)@.dogs,
            !holds_dog(old(self)@.dogs, dog.id@) ==> r == Ok::<Receipt, RepositoryError>(
                Receipt { inserted_id: dog.id },
            ) && final(self)@.dogs == old(self)@.dogs.push(dog),
    {
        proof {
            use_type_invariant(&*self);
        }
        let id = dog.id;
        match find_dog(&self.dog, &id) {
            Some(_) => Err(RepositoryError::DuplicateKey(id)),
            None => {
                // The collection is taken out while it grows, so that the
                // repository is whole at every step.
                let mut grown: Vec<Dog> = Vec::new();
                core::mem::swap(&mut self.dog, &mut grown);
                grown.push(dog);
                core::mem::swap(&mut self.dog, &mut grown);
                Ok(Receipt { inserted_id: id })
            },
        }
    }

    /// Stores `booking` behind the bookings that are there. A booking whose
    /// identifier is taken is refused, and nothing changes. Whether its owner
    /// is stored is not looked at.
    pub fn create_booking(&mut self, booking: Booking) -> (r: Result<Receipt, RepositoryError>)
        ensures
            final(self)@.wf(),
            final(self)@.dogs == old(self)@.dogs,
            final(self)@.owners == old(self)@.owners,
            holds_booking(old(self)@.bookings, booking.id@) ==> r == Err::<
                Receipt,
                RepositoryError,
            >(RepositoryError::DuplicateKey(booking.id)) && final(self)@.bookings == old(
                self,
            )@.bookings,
            !holds_booking(old(self)@.bookings, booking.id@) ==> r == Ok::<
                Receipt,
                RepositoryError,
            >(Receipt { inserted_id: booking.id }) && final(self)@.bookings == old(
                self,
            )@.bookings.push(booking),
    {
        proof {
            use_type_invariant(&*self);
        }
        let id = booking.id;
        match find_booking(&self.booking, &id) {
            Some(_) => Err(RepositoryError::DuplicateKey(id)),
            None => {
                // The collection is taken out while it grows, so that the
                // repository is whole at every step.
                let mut grown: Vec<Booking> = Vec::new();
                core::mem::swap(&mut self.booking, &mut grown);
                grown.push(booking);
                core::mem::swap(&mut self.booking, &mut grown);
                Ok(Receipt { inserted_id: id })
            },
        }
    }

    /// Cancels the booking whose identifier is written in `booking_id`, and
    /// touches nothing else. Text that is not an identifier is refused.
    /// Where no booking is stored under the identifier, nothing changes and
    /// the receipt counts no record: that is no error. Cancelling a booking
    /// that is cancelled already changes nothing either.
    pub fn cancel_booking(&mut self, booking_id: &str) -> (r: Result<
        UpdateReceipt,
        RepositoryError,
    >)
        ensures
            final(self)@.wf(),
            final(self)@.dogs == old(self)@.dogs,
            final(self)@.owners == old(self)@.owners,
            !is_identifier_text(booking_id@) ==> (r matches Err(
                RepositoryError::InvalidIdentifier(text),
            ) && text@ == booking_id@) && final(self)@.bookings == old(self)@.bookings,
            is_identifier_text(booking_id@) ==> r == Ok::<UpdateReceipt, RepositoryError>(
                cancel_receipt(old(self)@.bookings, identifier_bytes(booking_id@)),
            ) && final(self)@.bookings == cancel_in(
                old(self)@.bookings,
                identifier_bytes(booking_id@),
            ),
    {
        proof {
            use_type_invariant(&*self);
        }
        match Identifier::parse(booking_id) {
            Err(e) => Err(e),
            Ok(id) => {
                let ghost before = self.booking@;
                let receipt = match find_booking(&self.booking, &id) {
                    None => {
                        proof {
                            assert(before =~= cancel_in(before, id@));
                        }
                        UpdateReceipt { matched_count: 0, modified_count: 0 }
                    },
                    Some(at) => {
                        if self.booking[at].cancelled {
                            proof {
                                assert(before =~= cancel_in(before, id@));
                            }
                            UpdateReceipt { matched_count: 1, modified_count: 0 }
                        } else {
                            let mut changed: Vec<Booking> = Vec::new();
                            core::mem::swap(&mut self.booking, &mut changed);
                            changed[at].cancelled = true;
                            proof {
                                assert(changed@ =~= cancel_in(before, id@));
                            }
                            core::mem::swap(&mut self.booking, &mut changed);
                            UpdateReceipt { matched_count: 1, modified_count: 1 }
                        }
                    },
                };
                Ok(receipt)
            },
        }
    }

    /// Lists the bookings that are active at `now`: those that are not
    /// cancelled and start at `now` or later, in the order in which they were
    /// stored, each with its owner and the owner's dogs. A booking whose
    /// owner is not stored is left out.
    pub fn get_bookings_at(&self, now: i64) -> (listing: Vec<FullBooking>)
        ensures
            entries(listing@) == active_bookings(self@.bookings, self@.owners, self@.dogs, now),
            self@.wf(),
    {
        proof {
            use_type_invariant(self);
        }
        list_active(&self.booking, &self.owner, &self.dog, now)
    }

    /// Lists the bookings that are active now. The clock is read once, and
    /// every booking is held against that one moment.
    pub fn get_bookings(&self) -> (listing: Vec<FullBooking>)
        ensures
            exists|now: i64|
                entries(listing@) == #[trigger] active_bookings(
                    self@.bookings,
                    self@.owners,
                    self@.dogs,
                    now,
                ),
            self@.wf(),
    {
        let now = now_millis();
        self.get_bookings_at(now)
    }
}

} // verus!

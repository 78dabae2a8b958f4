//! The records that the repository stores, and the requests that they are
//! made from.

use crate::error::RepositoryError;
use crate::identifier::{identifier_bytes, is_identifier_text, Identifier};
use vstd::prelude::*;

verus! {

/// A dog owner. The profile is carried as it was given.
#[derive(Debug, PartialEq, Eq)]
pub struct Owner {
    pub id: Identifier,
    pub profile: String,
}

/// A dog, which belongs to exactly one owner.
#[derive(Debug, PartialEq, Eq)]
pub struct Dog {
    pub id: Identifier,
    pub owner: Identifier,
    pub name: Option<String>,
    pub age: Option<u8>,
    pub breed: Option<String>,
}

/// What a caller sends to register a dog: the owner is still text.
#[derive(Debug, PartialEq, Eq)]
pub struct DogRequest {
    pub owner: String,
    pub name: Option<String>,
    pub age: Option<u8>,
    pub breed: Option<String>,
}

/// A walk booked by an owner. `start_time` counts milliseconds from the Unix
/// epoch.
#[derive(Debug, Clone, Copy, PartialEq, Eq)]
pub struct Booking {
    pub id: Identifier,
    pub owner: Identifier,
    pub start_time: i64,
    pub cancelled: bool,
}

/// A booking together with its owner and the owner's dogs. It is computed
/// when bookings are listed and never stored.
#[derive(Debug, PartialEq, Eq)]
pub struct FullBooking {
    pub id: Identifier,
    pub owner: Owner,
    pub start_time: i64,
    pub cancelled: bool,
    pub dogs: Vec<Dog>,
}

/// A `FullBooking` with its dogs as a sequence.
pub struct FullBookingView {
    pub id: Identifier,
    pub owner: Owner,
    pub start_time: i64,
    pub cancelled: bool,
    pub dogs: Seq<Dog>,
}

impl View for FullBooking {
    type V = FullBookingView;

    open spec fn view(&self) -> FullBookingView {
        FullBookingView {
            id: self.id,
            owner: self.owner,
            start_time: self.start_time,
            cancelled: self.cancelled,
            dogs: self.dogs@,
        }
    }
}

fn clone_text(text: &Option<String>) -> (copy: Option<String>)
    ensures
        copy == *text,
{
    match text {
        Some(s) => Some(s.clone()),
        None => None,
    }
}

impl Clone for Owner {
    fn clone(&self) -> (copy: Self)
        ensures
            copy == *self,
    {
        Owner { id: self.id, profile: self.profile.clone() }
    }
}

impl Clone for Dog {
    fn clone(&self) -> (copy: Self)
        ensures
            copy == *self,
    {
        Dog {
            id: self.id,
            owner: self.owner,
            name: clone_text(&self.name),
            age: self.age,
            breed: clone_text(&self.breed),
        }
    }
}

impl Owner {
    /// A new owner with this profile, under a freshly minted identifier.
    pub fn create(profile: String) -> (owner: Owner)
        ensures
            owner.profile == profile,
    {
        Owner { id: Identifier::generate(), profile }
    }
}

impl Booking {
    /// The booking that `owner` makes for `start_time` under the identifier
    /// `id`. A new booking is not cancelled.
    pub fn new(id: Identifier, owner: Identifier, start_time: i64) -> (booking: Booking)
        ensures
            booking == (Booking { id, owner, start_time, cancelled: false }),
    {
        Booking { id, owner, start_time, cancelled: false }
    }

    /// The booking that `owner` makes for `start_time`, under a freshly
    /// minted identifier.
    pub fn create(owner: Identifier, start_time: i64) -> (booking: Booking)
        ensures
            booking.owner == owner,
            booking.start_time == start_time,
            !booking.cancelled,
    {
        Booking::new(Identifier::generate(), owner, start_time)
    }
}

impl Dog {
    /// What `request` asks for, as the record stored under `id`: the owner is
    /// read from its written form, the other fields are taken as they are.
    /// An owner that is not an identifier is reported, with its text, and no
    /// record is made.
    pub fn from_request(id: Identifier, request: DogRequest) -> (r: Result<Dog, RepositoryError>)
        ensures
            is_identifier_text(request.owner@) ==> (r matches Ok(dog) && dog.id == id
                && dog.owner@ == identifier_bytes(request.owner@) && dog.name == request.name
                && dog.age == request.age && dog.breed == request.breed),
            !is_identifier_text(request.owner@) ==> (r matches Err(
                RepositoryError::InvalidOwnerReference(text),
            ) && text@ == request.owner@),
    {
        match Identifier::parse(request.owner.as_str()) {
            Ok(owner) => Ok(
                Dog { id, owner, name: request.name, age: request.age, breed: request.breed },
            ),
            Err(_) => Err(RepositoryError::InvalidOwnerReference(request.owner)),
        }
    }

    /// What `request` asks for, as a record under a freshly minted
    /// identifier. It succeeds exactly when the owner is the written form of
    /// an identifier.
    pub fn try_from(request: DogRequest) -> (r: Result<Dog, RepositoryError>)
        ensures
            is_identifier_text(request.owner@) ==> (r matches Ok(dog) && dog.owner@
                == identifier_bytes(request.owner@) && dog.name == request.name && dog.age
                == request.age && dog.breed == request.breed),
            !is_identifier_text(request.owner@) ==> (r matches Err(
                RepositoryError::InvalidOwnerReference(text),
            ) && text@ == request.owner@),
    {
        Dog::from_request(Identifier::generate(), request)
    }
}

} // verus!

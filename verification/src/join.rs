//! The listing of active bookings: each booking that is neither cancelled
//! nor past, with its owner and the owner's dogs.
//!
//! A booking whose owner is not among the owners is left out of the listing
//! without an error. An owner without dogs is listed with no dogs. The
//! listing keeps the order of the bookings, and each owner's dogs keep the
//! order of the dogs.

use crate::identifier::Identifier;
use crate::models::{Booking, Dog, FullBooking, FullBookingView, Owner};
use vstd::prelude::*;

verus! {

/// Whether `booking` is still to come at `now`: not cancelled, and starting
/// at `now` or later.
pub open spec fn is_active(booking: Booking, now: i64) -> bool {
    !booking.cancelled && booking.start_time >= now
}

/// The test for an owner being stored under the identifier with the bytes
/// `id`.
pub open spec fn stored_under(id: Seq<u8>) -> spec_fn(Owner) -> bool {
    |o: Owner| o.id@ == id
}

/// The test for a dog belonging to the owner with the bytes `owner`.
pub open spec fn owned_by(owner: Seq<u8>) -> spec_fn(Dog) -> bool {
    |d: Dog| d.owner@ == owner
}

/// The owners stored under the identifier with the bytes `id`, in their
/// order.
pub open spec fn owners_with(owners: Seq<Owner>, id: Seq<u8>) -> Seq<Owner> {
    owners.filter(stored_under(id))
}

/// Whether some owner is stored under the identifier with the bytes `id`.
pub open spec fn holds_owner(owners: Seq<Owner>, id: Seq<u8>) -> bool {
    exists|i: int| 0 <= i < owners.len() && (#[trigger] owners[i]).id@ == id
}

/// The dogs that belong to the owner with the bytes `owner`, in their order.
pub open spec fn dogs_of(dogs: Seq<Dog>, owner: Seq<u8>) -> Seq<Dog> {
    dogs.filter(owned_by(owner))
}

/// Whether `booking` is listed at `now`: it is active and its owner is
/// stored.
pub open spec fn is_listed(booking: Booking, owners: Seq<Owner>, now: i64) -> bool {
    is_active(booking, now) && holds_owner(owners, booking.owner@)
}

/// The entry of a listed booking: its own fields, the first owner stored
/// under its owner reference, and that owner's dogs.
pub open spec fn full_booking(booking: Booking, owners: Seq<Owner>, dogs: Seq<Dog>)
    -> FullBookingView {
    FullBookingView {
        id: booking.id,
        owner: owners_with(owners, booking.owner@).first(),
        start_time: booking.start_time,
        cancelled: booking.cancelled,
        dogs: dogs_of(dogs, booking.owner@),
    }
}

/// The listing at `now`: the listed bookings in their order, each as its
/// entry.
pub open spec fn active_bookings(
    bookings: Seq<Booking>,
    owners: Seq<Owner>,
    dogs: Seq<Dog>,
    now: i64,
) -> Seq<FullBookingView> {
    bookings.filter(|b: Booking| is_listed(b, owners, now)).map_values(
        |b: Booking| full_booking(b, owners, dogs),
    )
}

/// The entries of a listing, each with its dogs as a sequence.
pub open spec fn entries(listing: Seq<FullBooking>) -> Seq<FullBookingView> {
    listing.map_values(|entry: FullBooking| entry@)
}

/// Where an element meets `pred` and none before it does, it is the first of
/// those that meet `pred`.
pub proof fn lemma_filter_first<A>(s: Seq<A>, pred: spec_fn(A) -> bool, i: int)
    requires
        0 <= i < s.len(),
        pred(s[i]),
        forall|j: int| 0 <= j < i ==> !pred(#[trigger] s[j]),
    ensures
        s.filter(pred).len() > 0,
        s.filter(pred).first() == s[i],
    decreases s.len(),
{
    reveal(Seq::filter);
    let front = s.drop_last();
    if i < s.len() - 1 {
        lemma_filter_first(front, pred, i);
    } else {
        lemma_filter_none(front, pred);
    }
}

/// Where no element meets `pred`, none is kept.
pub proof fn lemma_filter_none<A>(s: Seq<A>, pred: spec_fn(A) -> bool)
    requires
        forall|j: int| 0 <= j < s.len() ==> !pred(#[trigger] s[j]),
    ensures
        s.filter(pred).len() == 0,
    decreases s.len(),
{
    reveal(Seq::filter);
    if s.len() > 0 {
        lemma_filter_none(s.drop_last(), pred);
    }
}

/// Where an owner is stored under an identifier, the first of the owners
/// under it is one of the stored owners and has that identifier.
pub proof fn lemma_first_owner_is_stored(owners: Seq<Owner>, id: Seq<u8>)
    requires
        holds_owner(owners, id),
    ensures
        owners_with(owners, id).len() > 0,
        owners.contains(owners_with(owners, id).first()),
        owners_with(owners, id).first().id@ == id,
{
    let under_id = stored_under(id);
    let found = owners.filter(under_id);
    let j = choose|j: int| 0 <= j < owners.len() && (#[trigger] owners[j]).id@ == id;
    assert(under_id(owners[j]));
    owners.lemma_filter_contains(under_id, j);
    owners.lemma_filter_pred(under_id, 0);
    assert(found.contains(found[0]));
    owners.lemma_filter_contains_rev(under_id, found[0]);
}

/// The dogs of an owner are stored dogs, and each of them names that owner.
pub proof fn lemma_dogs_belong(dogs: Seq<Dog>, owner: Seq<u8>)
    ensures
        forall|k: int|
            0 <= k < dogs_of(dogs, owner).len() ==> (#[trigger] dogs_of(dogs, owner)[k]).owner@
                == owner && dogs.contains(dogs_of(dogs, owner)[k]),
{
    let of_owner = owned_by(owner);
    let found = dogs.filter(of_owner);
    assert forall|k: int| 0 <= k < found.len() implies (#[trigger] found[k]).owner@ == owner
        && dogs.contains(found[k]) by {
        dogs.lemma_filter_pred(of_owner, k);
        assert(found.contains(found[k]));
        dogs.lemma_filter_contains_rev(of_owner, found[k]);
    }
}

/// The position of the first owner stored under `id`, if there is one.
pub fn find_owner(owners: &Vec<Owner>, id: &Identifier) -> (found: Option<usize>)
    ensures
        found is Some <==> holds_owner(owners@, id@),
        found matches Some(i) ==> i < owners.len() && owners[i as int] == owners_with(
            owners@,
            id@,
        ).first() && owners[i as int].id == *id,
{
    let mut i: usize = 0;
    while i < owners.len()
        invariant
            0 <= i <= owners.len(),
            forall|j: int| 0 <= j < i ==> owners[j].id@ != id@,
        decreases owners.len() - i,
    {
        if owners[i].id.equals(id) {
            proof {
                lemma_filter_first(owners@, stored_under(id@), i as int);
            }
            return Some(i);
        }
        i += 1;
    }
    None
}

/// The dogs that belong to `owner`, in their order.
pub fn dogs_of_owner(dogs: &Vec<Dog>, owner: &Identifier) -> (found: Vec<Dog>)
    ensures
        found@ == dogs_of(dogs@, owner@),
{
    let mut found: Vec<Dog> = Vec::new();
    let ghost pred = owned_by(owner@);
    let mut i: usize = 0;
    proof {
        reveal(Seq::filter);
        assert(dogs@.take(0) =~= Seq::<Dog>::empty());
    }
    while i < dogs.len()
        invariant
            0 <= i <= dogs.len(),
            pred == owned_by(owner@),
            found@ == dogs@.take(i as int).filter(pred),
        decreases dogs.len() - i,
    {
        proof {
            assert(dogs@.take(i + 1) =~= dogs@.take(i as int).push(dogs[i as int]));
            dogs@.take(i as int).lemma_filter_push(dogs[i as int], pred);
        }
        if dogs[i].owner.equals(owner) {
            found.push(dogs[i].clone());
        }
        i += 1;
    }
    proof {
        assert(dogs@.take(dogs.len() as int) =~= dogs@);
    }
    found
}

/// Lists the bookings that are active at `now`, each with its owner and the
/// owner's dogs. Bookings whose owner is not stored are left out.
pub fn list_active(bookings: &Vec<Booking>, owners: &Vec<Owner>, dogs: &Vec<Dog>, now: i64) -> (listing:
    Vec<FullBooking>)
    ensures
        entries(listing@) == active_bookings(bookings@, owners@, dogs@, now),
{
    let mut listing: Vec<FullBooking> = Vec::new();
    let ghost listed = |b: Booking| is_listed(b, owners@, now);
    let ghost entry_of = |b: Booking| full_booking(b, owners@, dogs@);
    let mut i: usize = 0;
    proof {
        reveal(Seq::filter);
        assert(bookings@.take(0) =~= Seq::<Booking>::empty());
        assert(entries(listing@) =~= bookings@.take(0).filter(listed).map_values(entry_of));
    }
    while i < bookings.len()
        invariant
            0 <= i <= bookings.len(),
            listed == (|b: Booking| is_listed(b, owners@, now)),
            entry_of == (|b: Booking| full_booking(b, owners@, dogs@)),
            entries(listing@) == bookings@.take(i as int).filter(listed).map_values(entry_of),
        decreases bookings.len() - i,
    {
        let booking = bookings[i];
        let ghost before = listing@;
        proof {
            assert(bookings@.take(i + 1) =~= bookings@.take(i as int).push(booking));
            bookings@.take(i as int).lemma_filter_push(booking, listed);
        }
        if !booking.cancelled && booking.start_time >= now {
            match find_owner(owners, &booking.owner) {
                Some(at) => {
                    let entry = FullBooking {
                        id: booking.id,
                        owner: owners[at].clone(),
                        start_time: booking.start_time,
                        cancelled: booking.cancelled,
                        dogs: dogs_of_owner(dogs, &booking.owner),
                    };
                    listing.push(entry);
                    proof {
                        assert(entry@ == entry_of(booking));
                        assert(entries(listing@) =~= entries(before).push(entry@));
                        assert(bookings@.take(i + 1).filter(listed).map_values(entry_of)
                            =~= bookings@.take(i as int).filter(listed).map_values(entry_of).push(
                            entry_of(booking),
                        ));
                    }
                },
                None => {},
            }
        }
        i += 1;
    }
    proof {
        assert(bookings@.take(bookings.len() as int) =~= bookings@);
    }
    listing
}

} // verus!

//! What holds of the repository whatever it stores: how cancelling behaves
//! when it is repeated or finds nothing, and which bookings the listing of
//! active bookings shows.

use crate::database::{
    cancel_in, cancel_receipt, cancelled, distinct_bookings, holds_booking, holds_open_booking,
    UpdateReceipt,
};
use crate::join::{
    active_bookings, dogs_of, full_booking, holds_owner, is_active, is_listed, lemma_dogs_belong,
    lemma_filter_none, lemma_first_owner_is_stored, owned_by, owners_with,
};
use crate::models::{Booking, Dog, FullBookingView, Owner};
use vstd::prelude::*;

verus! {

/// Whether `listing` has an entry for the booking with the bytes `id`.
pub open spec fn lists(listing: Seq<FullBookingView>, id: Seq<u8>) -> bool {
    exists|k: int| 0 <= k < listing.len() && (#[trigger] listing[k]).id@ == id
}

/// Whether `entry` is the entry of one of `bookings` that is listed at `now`.
pub open spec fn is_entry_of_listed(
    entry: FullBookingView,
    bookings: Seq<Booking>,
    owners: Seq<Owner>,
    dogs: Seq<Dog>,
    now: i64,
) -> bool {
    exists|i: int|
        0 <= i < bookings.len() && is_listed(#[trigger] bookings[i], owners, now) && entry
            == full_booking(bookings[i], owners, dogs)
}

/// Every entry of the listing is the entry of a stored booking that is
/// active and whose owner is stored, and every such booking has its entry.
pub proof fn lemma_listing_is_exact(
    bookings: Seq<Booking>,
    owners: Seq<Owner>,
    dogs: Seq<Dog>,
    now: i64,
)
    ensures
        forall|k: int|
            0 <= k < active_bookings(bookings, owners, dogs, now).len() ==> is_entry_of_listed(
                #[trigger] active_bookings(bookings, owners, dogs, now)[k],
                bookings,
                owners,
                dogs,
                now,
            ),
        forall|i: int|
            0 <= i < bookings.len() && is_listed(#[trigger] bookings[i], owners, now)
                ==> active_bookings(bookings, owners, dogs, now).contains(
                full_booking(bookings[i], owners, dogs),
            ),
{
    let listed = |b: Booking| is_listed(b, owners, now);
    let entry_of = |b: Booking| full_booking(b, owners, dogs);
    let kept = bookings.filter(listed);
    let listing = active_bookings(bookings, owners, dogs, now);
    assert(listing == kept.map_values(entry_of));
    assert forall|k: int| 0 <= k < listing.len() implies is_entry_of_listed(
        #[trigger] listing[k],
        bookings,
        owners,
        dogs,
        now,
    ) by {
        bookings.lemma_filter_pred(listed, k);
        assert(kept.contains(kept[k]));
        bookings.lemma_filter_contains_rev(listed, kept[k]);
        let i = choose|i: int| 0 <= i < bookings.len() && bookings[i] == kept[k];
        assert(is_listed(bookings[i], owners, now));
        assert(listing[k] == full_booking(bookings[i], owners, dogs));
    }
    assert forall|i: int|
        0 <= i < bookings.len() && is_listed(
            #[trigger] bookings[i],
            owners,
            now,
        ) implies listing.contains(full_booking(bookings[i], owners, dogs)) by {
        assert(listed(bookings[i]));
        bookings.lemma_filter_contains(listed, i);
        let k = choose|k: int| 0 <= k < kept.len() && kept[k] == bookings[i];
        assert(listing[k] == full_booking(bookings[i], owners, dogs));
    }
}

/// Where no booking stored under an identifier is active, or none has its
/// owner stored, the listing has no entry for that identifier.
pub proof fn lemma_unlisted_is_absent(
    bookings: Seq<Booking>,
    owners: Seq<Owner>,
    dogs: Seq<Dog>,
    now: i64,
    id: Seq<u8>,
)
    requires
        forall|i: int|
            0 <= i < bookings.len() && (#[trigger] bookings[i]).id@ == id ==> !is_listed(
                bookings[i],
                owners,
                now,
            ),
    ensures
        !lists(active_bookings(bookings, owners, dogs, now), id),
{
    lemma_listing_is_exact(bookings, owners, dogs, now);
    let listing = active_bookings(bookings, owners, dogs, now);
    if lists(listing, id) {
        let k = choose|k: int| 0 <= k < listing.len() && (#[trigger] listing[k]).id@ == id;
        assert(is_entry_of_listed(listing[k], bookings, owners, dogs, now));
        let i = choose|i: int|
            0 <= i < bookings.len() && is_listed(#[trigger] bookings[i], owners, now) && listing[k]
                == full_booking(bookings[i], owners, dogs);
        assert(bookings[i].id@ == id);
    }
}

/// Cancelling twice is cancelling once: the second call finds the bookings
/// as the first one left them, changes no record and says so, and the
/// booking stays cancelled.
pub proof fn lemma_cancel_is_idempotent(bookings: Seq<Booking>, id: Seq<u8>)
    ensures
        cancel_in(cancel_in(bookings, id), id) == cancel_in(bookings, id),
        cancel_receipt(cancel_in(bookings, id), id).modified_count == 0,
        cancel_receipt(cancel_in(bookings, id), id).matched_count == cancel_receipt(
            bookings,
            id,
        ).matched_count,
        forall|i: int|
            0 <= i < bookings.len() && (#[trigger] bookings[i]).id@ == id ==> cancel_in(
                bookings,
                id,
            )[i].cancelled,
{
    let once = cancel_in(bookings, id);
    assert(cancel_in(once, id) =~= once);
    if holds_open_booking(once, id) {
        let i = choose|i: int|
            0 <= i < once.len() && (#[trigger] once[i]).id@ == id && !once[i].cancelled;
        assert(once[i] == cancelled(bookings[i]));
    }
    if holds_booking(once, id) {
        let i = choose|i: int| 0 <= i < once.len() && (#[trigger] once[i]).id@ == id;
        assert(bookings[i].id@ == id);
    }
    if holds_booking(bookings, id) {
        let i = choose|i: int| 0 <= i < bookings.len() && (#[trigger] bookings[i]).id@ == id;
        assert(once[i].id@ == id);
    }
}

/// Cancelling changes the flag and nothing else: every booking keeps its
/// place, its identifier, its owner and its start, bookings under other
/// identifiers are untouched, and no booking that was cancelled is open
/// again.
pub proof fn lemma_cancel_touches_only_the_flag(bookings: Seq<Booking>, id: Seq<u8>)
    ensures
        cancel_in(bookings, id).len() == bookings.len(),
        forall|i: int|
            0 <= i < bookings.len() ==> {
                let before = #[trigger] bookings[i];
                let after = cancel_in(bookings, id)[i];
                &&& after.id == before.id
                &&& after.owner == before.owner
                &&& after.start_time == before.start_time
                &&& after.cancelled == (before.cancelled || before.id@ == id)
            },
        distinct_bookings(bookings) ==> distinct_bookings(cancel_in(bookings, id)),
{
}

/// Cancelling under an identifier that no booking is stored under succeeds,
/// changes nothing and reports that no record was found or changed.
pub proof fn lemma_cancel_of_missing_changes_nothing(bookings: Seq<Booking>, id: Seq<u8>)
    requires
        !holds_booking(bookings, id),
    ensures
        cancel_in(bookings, id) == bookings,
        cancel_receipt(bookings, id) == (UpdateReceipt { matched_count: 0, modified_count: 0 }),
{
    assert(cancel_in(bookings, id) =~= bookings);
    if holds_open_booking(bookings, id) {
        let i = choose|i: int|
            0 <= i < bookings.len() && (#[trigger] bookings[i]).id@ == id && !bookings[i].cancelled;
        assert(holds_booking(bookings, id));
    }
}

/// A booking that is not cancelled, starts at `now` or later and has its
/// owner stored is in the listing, with that owner and the owner's dogs.
pub proof fn lemma_active_booking_is_listed(
    bookings: Seq<Booking>,
    owners: Seq<Owner>,
    dogs: Seq<Dog>,
    now: i64,
    i: int,
)
    requires
        0 <= i < bookings.len(),
        !bookings[i].cancelled,
        bookings[i].start_time >= now,
        holds_owner(owners, bookings[i].owner@),
    ensures
        active_bookings(bookings, owners, dogs, now).contains(
            full_booking(bookings[i], owners, dogs),
        ),
        lists(active_bookings(bookings, owners, dogs, now), bookings[i].id@),
{
    lemma_listing_is_exact(bookings, owners, dogs, now);
    assert(is_listed(bookings[i], owners, now));
    let listing = active_bookings(bookings, owners, dogs, now);
    let entry = full_booking(bookings[i], owners, dogs);
    let k = choose|k: int| 0 <= k < listing.len() && listing[k] == entry;
    assert(listing[k].id@ == bookings[i].id@);
}

/// Once a booking is cancelled, the next listing does not show it, whenever
/// it is asked for.
pub proof fn lemma_cancelled_booking_is_absent(
    bookings: Seq<Booking>,
    owners: Seq<Owner>,
    dogs: Seq<Dog>,
    now: i64,
    id: Seq<u8>,
)
    ensures
        !lists(active_bookings(cancel_in(bookings, id), owners, dogs, now), id),
{
    lemma_unlisted_is_absent(cancel_in(bookings, id), owners, dogs, now, id);
}

/// A booking that starts before `now` is not in the listing at `now`.
pub proof fn lemma_past_booking_is_absent(
    bookings: Seq<Booking>,
    owners: Seq<Owner>,
    dogs: Seq<Dog>,
    now: i64,
    i: int,
)
    requires
        distinct_bookings(bookings),
        0 <= i < bookings.len(),
        bookings[i].start_time < now,
    ensures
        !lists(active_bookings(bookings, owners, dogs, now), bookings[i].id@),
{
    assert forall|j: int|
        0 <= j < bookings.len() && (#[trigger] bookings[j]).id@ == bookings[i].id@ implies !is_listed(
        bookings[j],
        owners,
        now,
    ) by {
        assert(j == i);
    }
    lemma_unlisted_is_absent(bookings, owners, dogs, now, bookings[i].id@);
}

/// A booking whose owner is not stored is left out of the listing, and the
/// listing is made all the same.
pub proof fn lemma_orphan_booking_is_absent(
    bookings: Seq<Booking>,
    owners: Seq<Owner>,
    dogs: Seq<Dog>,
    now: i64,
    i: int,
)
    requires
        distinct_bookings(bookings),
        0 <= i < bookings.len(),
        !holds_owner(owners, bookings[i].owner@),
    ensures
        !lists(active_bookings(bookings, owners, dogs, now), bookings[i].id@),
{
    assert forall|j: int|
        0 <= j < bookings.len() && (#[trigger] bookings[j]).id@ == bookings[i].id@ implies !is_listed(
        bookings[j],
        owners,
        now,
    ) by {
        assert(j == i);
    }
    lemma_unlisted_is_absent(bookings, owners, dogs, now, bookings[i].id@);
}

/// An active booking of an owner who has no dogs is in the listing, with
/// that owner and an empty list of dogs.
pub proof fn lemma_owner_without_dogs_is_listed(
    bookings: Seq<Booking>,
    owners: Seq<Owner>,
    dogs: Seq<Dog>,
    now: i64,
    i: int,
)
    requires
        0 <= i < bookings.len(),
        is_active(bookings[i], now),
        holds_owner(owners, bookings[i].owner@),
        forall|k: int| 0 <= k < dogs.len() ==> (#[trigger] dogs[k]).owner@ != bookings[i].owner@,
    ensures
        active_bookings(bookings, owners, dogs, now).contains(
            FullBookingView {
                id: bookings[i].id,
                owner: owners_with(owners, bookings[i].owner@).first(),
                start_time: bookings[i].start_time,
                cancelled: false,
                dogs: Seq::empty(),
            },
        ),
{
    lemma_active_booking_is_listed(bookings, owners, dogs, now, i);
    lemma_filter_none(dogs, owned_by(bookings[i].owner@));
    assert(dogs_of(dogs, bookings[i].owner@) =~= Seq::<Dog>::empty());
}

/// Every entry of the listing hangs together: its owner is stored under the
/// identifier that the booking names, and its dogs are exactly the stored
/// dogs of that owner.
pub proof fn lemma_entries_are_coherent(
    bookings: Seq<Booking>,
    owners: Seq<Owner>,
    dogs: Seq<Dog>,
    now: i64,
    k: int,
)
    requires
        0 <= k < active_bookings(bookings, owners, dogs, now).len(),
    ensures
        ({
            let entry = active_bookings(bookings, owners, dogs, now)[k];
            &&& !entry.cancelled
            &&& entry.start_time >= now
            &&& owners.contains(entry.owner)
            &&& entry.dogs == dogs_of(dogs, entry.owner.id@)
            &&& forall|d: int| 0 <= d < entry.dogs.len() ==> (#[trigger] entry.dogs[d]).owner@ == entry.owner.id@
        }),
{
    lemma_listing_is_exact(bookings, owners, dogs, now);
    let listing = active_bookings(bookings, owners, dogs, now);
    assert(is_entry_of_listed(listing[k], bookings, owners, dogs, now));
    let i = choose|i: int|
        0 <= i < bookings.len() && is_listed(#[trigger] bookings[i], owners, now) && listing[k]
            == full_booking(bookings[i], owners, dogs);
    lemma_first_owner_is_stored(owners, bookings[i].owner@);
    lemma_dogs_belong(dogs, bookings[i].owner@);
}

} // verus!

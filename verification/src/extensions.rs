//! The type map that travels with requests and responses.
use crate::haberdasher::MyMiddlewareValue;
use crate::timings::Timings;
use vstd::prelude::*;

verus! {

/// A type under which an `http::Extensions` can hold a value. `Other` numbers the types that
/// this library does not look at.
pub enum Slot {
    Timings,
    MyMiddlewareValue,
    Other(int),
}

/// A value that an `http::Extensions` holds. `Other` numbers the values of the types that this
/// library does not look at.
pub enum Stored {
    Timings(Timings),
    MyMiddlewareValue(MyMiddlewareValue),
    Other(int),
}

/// What an `http::Extensions` holds: at most one value of each type.
pub type Held = Map<Slot, Stored>;

/// The `Timings` among what is held.
pub open spec fn held_timings(held: Held) -> Option<Timings> {
    if held.contains_key(Slot::Timings) && held[Slot::Timings] is Timings {
        Some(held[Slot::Timings]->Timings_0)
    } else {
        None
    }
}

/// The `MyMiddlewareValue` among what is held.
pub open spec fn held_value(held: Held) -> Option<MyMiddlewareValue> {
    if held.contains_key(Slot::MyMiddlewareValue) && held[Slot::MyMiddlewareValue] is MyMiddlewareValue {
        Some(held[Slot::MyMiddlewareValue]->MyMiddlewareValue_0)
    } else {
        None
    }
}

/// `held` once `timings` has taken the place of any `Timings` in it.
pub open spec fn with_timings(held: Held, timings: Timings) -> Held {
    held.insert(Slot::Timings, Stored::Timings(timings))
}

/// `held` once `value` has taken the place of any `MyMiddlewareValue` in it.
pub open spec fn with_value(held: Held, value: MyMiddlewareValue) -> Held {
    held.insert(Slot::MyMiddlewareValue, Stored::MyMiddlewareValue(value))
}

/// `copy` holds clones of what `held` holds. The clone of a value whose type this library does
/// not look at is whatever that type's `clone` gives.
pub open spec fn held_clone(held: Held, copy: Held) -> bool {
    &&& copy.dom() == held.dom()
    &&& held_timings(copy) == held_timings(held)
    &&& held_value(copy) == held_value(held)
}

/// `http::Extensions`, a map from types to one value each.
#[verifier::external_type_specification]
#[verifier::external_body]
pub struct ExExtensions(http::Extensions);

/// What an `http::Extensions` holds.
pub uninterp spec fn contents(extensions: http::Extensions) -> Held;

/// `http::Extensions::new` gives a map that holds nothing.
pub assume_specification[ http::Extensions::new ]() -> (extensions: http::Extensions)
    ensures
        contents(extensions) == Held::empty(),
;

/// `http::Extensions::extend` takes over everything that `other` holds; where both hold a value
/// of one type, the one of `other` stays.
pub assume_specification[ http::Extensions::extend ](
    extensions: &mut http::Extensions,
    other: http::Extensions,
)
    ensures
        contents(*final(extensions)) == contents(*old(extensions)).union_prefer_right(
            contents(other),
        ),
;

/// `http::Extensions::clone` clones every value that is held. A `Timings` and a
/// `MyMiddlewareValue` equal their clones, since both types are `Copy`.
pub assume_specification[ <http::Extensions as Clone>::clone ](
    extensions: &http::Extensions,
) -> (copy: http::Extensions)
    ensures
        held_clone(contents(*extensions), contents(copy)),
;

/// Calls `http::Extensions::insert` with a `Timings`, which takes the place of the `Timings`
/// held before; all else stays.
#[verifier::external_body]
pub(crate) fn insert_timings(extensions: &mut http::Extensions, timings: Timings)
    ensures
        contents(*final(extensions)) == with_timings(contents(*old(extensions)), timings),
{
    extensions.insert(timings);
}

/// Calls `http::Extensions::get` for a `Timings` and copies the one that is held, if any.
#[verifier::external_body]
pub(crate) fn get_timings(extensions: &http::Extensions) -> (timings: Option<Timings>)
    ensures
        timings == held_timings(contents(*extensions)),
{
    extensions.get::<Timings>().copied()
}

/// Calls `http::Extensions::insert` with a `MyMiddlewareValue`, which takes the place of the one
/// held before; all else stays.
#[verifier::external_body]
pub(crate) fn insert_value(extensions: &mut http::Extensions, value: MyMiddlewareValue)
    ensures
        contents(*final(extensions)) == with_value(contents(*old(extensions)), value),
{
    extensions.insert(value);
}

/// Calls `http::Extensions::get` for a `MyMiddlewareValue` and copies the one that is held, if
/// any.
#[verifier::external_body]
pub(crate) fn get_value(extensions: &http::Extensions) -> (value: Option<MyMiddlewareValue>)
    ensures
        value == held_value(contents(*extensions)),
{
    extensions.get::<MyMiddlewareValue>().copied()
}

/// What was put among the extensions is found there, and everything else stays as it was: a
/// `Timings` and a `MyMiddlewareValue` never take each other's place.
pub proof fn lemma_what_was_put_is_found(
    held: Held,
    timings: Timings,
    value: MyMiddlewareValue,
    slot: Slot,
)
    ensures
        held_timings(with_timings(held, timings)) == Some(timings),
        held_value(with_timings(held, timings)) == held_value(held),
        held_value(with_value(held, value)) == Some(value),
        held_timings(with_value(held, value)) == held_timings(held),
        held_timings(held.remove(Slot::Timings)) is None,
        held_value(held.remove(Slot::MyMiddlewareValue)) is None,
        slot != Slot::Timings ==> with_timings(held, timings).contains_key(slot)
            == held.contains_key(slot) && with_timings(held, timings)[slot] == held[slot],
        slot != Slot::MyMiddlewareValue ==> with_value(held, value).contains_key(slot)
            == held.contains_key(slot) && with_value(held, value)[slot] == held[slot],
{
}

} // verus!

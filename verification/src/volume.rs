//! The system's volume, as far as no sound device is needed for it.

use vstd::prelude::*;

verus! {

/// How far one step of the mouse wheel moves the volume, in percent.
pub const WHEEL_PERCENT: i32 = 5;

/// What is a click on the volume widget to set the mute state to?
pub fn mute_after_click(muted: bool) -> (set: bool)
    ensures
        set == !muted,
{
    !muted
}

/// What using a cached resource comes to: the cached one is used, or a new one
/// if none is cached and one can be had. It stays cached if the use went well,
/// so that a resource that went bad is asked for anew the next time.
pub open spec fn is_cached_use<T, R, A: FnOnce() -> Option<T>, F: FnOnce(&T) -> Option<R>>(
    before: Option<T>,
    after: Option<T>,
    acquire: A,
    use_it: F,
    resource: Option<T>,
    result: Option<R>,
) -> bool {
    &&& match before {
        Some(cached) => resource == Some(cached),
        None => call_ensures(acquire, (), resource),
    }
    &&& match resource {
        Some(found) => {
            &&& call_ensures(use_it, (&found,), result)
            &&& after == (if result is Some {
                Some(found)
            } else {
                None
            })
        },
        None => result is None && after is None,
    }
}

/// Uses the volume control of the sound device, which is cached in `slot`.
/// Asks for it with `acquire` if there is none yet or if the last use of it
/// failed. The result is `None` if the device cannot be had or used.
pub fn with_endpoint_volume<T, R, A: FnOnce() -> Option<T>, F: FnOnce(&T) -> Option<R>>(
    slot: &mut Option<T>,
    acquire: A,
    use_it: F,
) -> (result: Option<R>)
    requires
        call_requires(acquire, ()),
        forall|resource: &T| call_requires(use_it, (resource,)),
    ensures
        exists|resource: Option<T>| #[trigger]
            is_cached_use(*old(slot), *final(slot), acquire, use_it, resource, result),
{
    if slot.is_none() {
        *slot = acquire();
    }
    let ghost resource = *slot;
    let result = match &*slot {
        Some(found) => use_it(found),
        None => None,
    };
    if result.is_none() {
        *slot = None;
    }
    assert(is_cached_use(*old(slot), *slot, acquire, use_it, resource, result));
    result
}

} // verus!

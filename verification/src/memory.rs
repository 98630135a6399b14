//! Memory that may not be there.
use vstd::prelude::*;
use std::collections::TryReserveError;

verus! {

/// Room for `n` more elements behind those of `v` was tried for, and `ok` tells whether it was
/// there.
pub open spec fn room_tried<T>(v: Vec<T>, n: usize, ok: bool) -> bool {
    exists|b: &mut Vec<T>, r: Result<(), TryReserveError>| #[trigger]
        call_ensures(Vec::<T>::try_reserve, (b, n), r) && *b == v && ok == (r is Ok)
}

/// Whether there is room is what an attempt to reserve that much has said, and nothing else.
pub proof fn law_room_is_what_was_tried<T>(v: Vec<T>, n: usize, ok: bool)
    requires
        room_tried(v, n, ok),
    ensures
        exists|b: &mut Vec<T>, r: Result<(), TryReserveError>| #[trigger]
            call_ensures(Vec::<T>::try_reserve, (b, n), r) && *b == v && (ok <==> r is Ok),
{
}

/// Tries to make room for `n` more elements. Whether there is memory is not up to this code.
pub fn try_room<T>(v: &mut Vec<T>, n: usize) -> (ok: bool)
    ensures
        room_tried(*old(v), n, ok),
        final(v)@ == old(v)@,
{
    v.try_reserve(n).is_ok()
}

} // verus!

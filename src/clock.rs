//! Integer steps of reporting the current date to the engine.

use vstd::prelude::*;

verus! {

/// The offset in seconds of a UTC offset given in hours, when it fits in an
/// `i32`.
pub fn offset_seconds(hours: i64) -> (r: Option<i32>)
    ensures
        (i32::MIN <= hours * 3600 <= i32::MAX) <==> r is Some,
        r is Some ==> r->0 == hours * 3600,
{
    if hours < -596523 || hours > 596523 {
        return None;
    }
    let h = hours as i32;
    Some(h * 3600)
}

/// A month, day, hour, minute or second as a byte, when it fits in one.
pub fn date_part(v: u32) -> (r: Option<u8>)
    ensures
        (v <= u8::MAX) <==> r is Some,
        r is Some ==> r->0 == v,
{
    if v <= 255 {
        Some(v as u8)
    } else {
        None
    }
}

} // verus!

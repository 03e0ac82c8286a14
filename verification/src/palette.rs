//! Keyboard movement through the hits of the search palette.
use vstd::prelude::*;

verus! {

/// `v` limited to `lo..=hi`.
pub open spec fn clamp_int(v: int, lo: int, hi: int) -> int {
    if v < lo {
        lo
    } else if v > hi {
        hi
    } else {
        v
    }
}

/// The hit selected after moving by `delta` from `selected` among `hits`
/// hits: the move stops at either end instead of wrapping; with no
/// selection it starts before the first hit. Nothing is selected when
/// there are no hits.
pub fn palette_move(hits: usize, selected: Option<usize>, delta: i64) -> (res: Option<usize>)
    requires
        hits <= i64::MAX,
        match selected {
            Some(r) => r <= i64::MAX && i64::MIN <= r + delta <= i64::MAX,
            None => i64::MIN <= delta - 1,
        },
    ensures
        hits == 0 ==> res is None,
        hits > 0 ==> res == Some(
            clamp_int(
                match selected {
                    Some(r) => r + delta,
                    None => delta - 1,
                },
                0,
                hits - 1,
            ) as usize,
        ),
{
    if hits == 0 {
        return None;
    }
    let n = hits as i64;
    let cur: i64 = match selected {
        Some(r) => r as i64,
        None => -1,
    };
    let moved = cur + delta;
    let next = if moved < 0 {
        0
    } else if moved > n - 1 {
        n - 1
    } else {
        moved
    };
    Some(next as usize)
}

} // verus!

use vstd::prelude::*;

verus! {

/// Bit 31 of a 32-bit IEEE-754 encoding: set for negative values and for `-0.0`.
pub const SIGN_BIT: u32 = 0x8000_0000;

/// The encoding of positive infinity; a larger magnitude encodes a NaN.
pub const INFINITY_BITS: u32 = 0x7f80_0000;

/// The magnitude of an encoded `f32`: its exponent and fraction bits, which IEEE-754 lays
/// out so that a larger absolute value has a larger magnitude.
pub open spec fn magnitude_of(bits: u32) -> int {
    if bits >= SIGN_BIT {
        bits - SIGN_BIT
    } else {
        bits as int
    }
}

/// Whether the encoded `f32` is a NaN, which has no place in the order of numbers.
pub open spec fn is_nan_bits(bits: u32) -> bool {
    magnitude_of(bits) > INFINITY_BITS
}

/// An integer that orders encoded `f32` values as the numbers they stand for: for two
/// encodings that are not NaN, `a < b` as floats exactly when `order_key(a) < order_key(b)`,
/// and `-0.0` and `0.0` share the key 0.
pub open spec fn float_order_key(bits: u32) -> int {
    if bits >= SIGN_BIT {
        -magnitude_of(bits)
    } else {
        magnitude_of(bits)
    }
}

/// A hit at the encoded ray parameter `t` counts when `t` is a number no smaller than
/// `min_t`.
pub open spec fn survives(hit: Option<u32>, min_t: u32) -> bool {
    hit matches Some(t) && !is_nan_bits(t) && float_order_key(t) >= float_order_key(min_t)
}

/// Entry `i` holds the nearest hit that counts: no other hit that counts lies closer, and
/// none at the same distance comes later in the list.
pub open spec fn is_nearest(hits: Seq<Option<u32>>, min_t: u32, i: int) -> bool {
    &&& 0 <= i < hits.len()
    &&& survives(hits[i], min_t)
    &&& forall|j: int|
        0 <= j < hits.len() && #[trigger] survives(hits[j], min_t) ==> {
            &&& float_order_key(hits[i]->0) <= float_order_key(hits[j]->0)
            &&& j > i ==> float_order_key(hits[i]->0) < float_order_key(hits[j]->0)
        }
}

/// The order key of an encoded `f32`.
pub fn order_key(bits: u32) -> (k: i64)
    ensures
        k == float_order_key(bits),
{
    if bits >= SIGN_BIT {
        -((bits - SIGN_BIT) as i64)
    } else {
        bits as i64
    }
}

/// Whether an encoded `f32` is a NaN.
pub fn is_nan(bits: u32) -> (r: bool)
    ensures
        r == is_nan_bits(bits),
{
    let magnitude: u32 = if bits >= SIGN_BIT {
        bits - SIGN_BIT
    } else {
        bits
    };
    magnitude > INFINITY_BITS
}

/// Picks the nearest hit among the objects of a scene, scanned in order.
///
/// `hits[i]` is the encoding (`f32::to_bits`) of the ray parameter at which the ray meets
/// object `i`, or `None` where it misses. Hits closer than `min_t`, and NaN parameters, are
/// discarded, so that a ray leaving a surface does not hit that surface again at its
/// origin. Of equally near hits the last one is kept.
pub fn nearest_hit(hits: &Vec<Option<u32>>, min_t: u32) -> (r: Option<usize>)
    requires
        !is_nan_bits(min_t),
    ensures
        r is None <==> forall|i: int| 0 <= i < hits@.len() ==> !#[trigger] survives(hits@[i], min_t),
        r matches Some(i) ==> is_nearest(hits@, min_t, i as int),
{
    let min_key = order_key(min_t);
    let mut best: Option<usize> = None;
    let mut best_key: i64 = 0;
    let mut i: usize = 0;
    while i < hits.len()
        invariant
            i <= hits@.len(),
            min_key == float_order_key(min_t),
            best is None <==> forall|j: int| 0 <= j < i ==> !#[trigger] survives(hits@[j], min_t),
            best matches Some(b) ==> {
                &&& b < i
                &&& survives(hits@[b as int], min_t)
                &&& best_key == float_order_key(hits@[b as int]->0)
                &&& forall|j: int|
                    0 <= j < i && #[trigger] survives(hits@[j], min_t) ==> {
                        &&& best_key <= float_order_key(hits@[j]->0)
                        &&& j > b ==> best_key < float_order_key(hits@[j]->0)
                    }
            },
        decreases hits@.len() - i,
    {
        if let Some(t) = hits[i] {
            if !is_nan(t) {
                let key = order_key(t);
                if key >= min_key {
                    assert(survives(hits@[i as int], min_t));
                    let keep_best = match best {
                        Some(_) => key > best_key,
                        None => false,
                    };
                    if !keep_best {
                        best = Some(i);
                        best_key = key;
                    }
                }
            }
        }
        i = i + 1;
    }
    best
}

} // verus!

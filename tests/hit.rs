use rays::hit::{is_nan, nearest_hit, order_key};

const RAY_MIN_T: f32 = 0.0001;

fn bits(ts: &[Option<f32>]) -> Vec<Option<u32>> {
    ts.iter().map(|t| t.map(f32::to_bits)).collect()
}

#[test]
fn nearest_hit_picks_the_smallest_t() {
    let hits = bits(&[Some(2.0), None, Some(1.0), Some(3.5)]);
    assert_eq!(nearest_hit(&hits, RAY_MIN_T.to_bits()), Some(2));
}

#[test]
fn nearest_hit_discards_hits_too_close_to_the_origin() {
    let hits = bits(&[Some(0.00005), Some(7.0), Some(0.0), Some(-1.0)]);
    assert_eq!(nearest_hit(&hits, RAY_MIN_T.to_bits()), Some(1));
}

#[test]
fn nearest_hit_keeps_a_hit_exactly_at_the_minimum() {
    let hits = bits(&[Some(5.0), Some(RAY_MIN_T)]);
    assert_eq!(nearest_hit(&hits, RAY_MIN_T.to_bits()), Some(1));
}

#[test]
fn nearest_hit_keeps_the_last_of_equal_hits() {
    let hits = bits(&[Some(4.0), Some(1.5), Some(9.0), Some(1.5), Some(2.0)]);
    assert_eq!(nearest_hit(&hits, RAY_MIN_T.to_bits()), Some(3));
}

#[test]
fn nearest_hit_is_none_without_a_counting_hit() {
    assert_eq!(nearest_hit(&Vec::new(), RAY_MIN_T.to_bits()), None);
    let hits = bits(&[None, Some(-3.0), Some(0.0), Some(f32::NAN)]);
    assert_eq!(nearest_hit(&hits, RAY_MIN_T.to_bits()), None);
}

#[test]
fn nearest_hit_ignores_nan_and_accepts_infinity() {
    let hits = bits(&[Some(f32::NAN), Some(f32::INFINITY)]);
    assert_eq!(nearest_hit(&hits, RAY_MIN_T.to_bits()), Some(1));
}

#[test]
fn order_key_orders_floats_as_numbers() {
    let values = [
        f32::NEG_INFINITY,
        -1.0e30,
        -2.5,
        -1.0,
        -1.0e-30,
        0.0,
        1.0e-30,
        0.0001,
        1.0,
        2.5,
        1.0e30,
        f32::INFINITY,
    ];
    for i in 0..values.len() {
        for j in 0..values.len() {
            let a = values[i];
            let b = values[j];
            assert_eq!(
                order_key(a.to_bits()) < order_key(b.to_bits()),
                a < b,
                "{} vs {}",
                a,
                b
            );
        }
    }
    assert_eq!(order_key((-0.0f32).to_bits()), order_key(0.0f32.to_bits()));
    assert_eq!(order_key(1.0f32.to_bits()), 0x3f80_0000);
    assert_eq!(order_key((-1.0f32).to_bits()), -0x3f80_0000);
}

#[test]
fn is_nan_recognises_only_nan() {
    assert!(is_nan(f32::NAN.to_bits()));
    assert!(is_nan((-f32::NAN).to_bits()));
    assert!(!is_nan(f32::INFINITY.to_bits()));
    assert!(!is_nan(f32::NEG_INFINITY.to_bits()));
    assert!(!is_nan(0.0f32.to_bits()));
    assert!(!is_nan(3.0f32.to_bits()));
}

use core::cmp::Ordering;
use fixed_width_biguint::BigUint;
use num_traits::Zero;

/// A stream of limbs that looks random and is the same on every run.
fn next(state: &mut u64) -> u64 {
    *state = state.wrapping_mul(6364136223846793005).wrapping_add(1442695040888963407);
    let x = *state;
    (x >> 29) ^ x.rotate_left(17)
}

fn random(state: &mut u64, limbs: usize) -> BigUint {
    let mut bytes: Vec<u8> = Vec::new();
    for _ in 0..limbs {
        bytes.extend_from_slice(&next(state).to_le_bytes());
    }
    BigUint::from_bytes_le(&bytes)
}

fn from_limbs(limbs: &[u64]) -> BigUint {
    let mut bytes: Vec<u8> = Vec::new();
    for limb in limbs {
        bytes.extend_from_slice(&limb.to_le_bytes());
    }
    BigUint::from_bytes_le(&bytes)
}

#[test]
fn double_width_arithmetic_matches_the_machine() {
    let mut state: u64 = 7;
    for _ in 0..500 {
        let a = ((next(&mut state) as u128) << 64 | next(&mut state) as u128) >> 2;
        let b = (next(&mut state) as u128) << (next(&mut state) % 60) | 1;
        let (x, y) = (BigUint::from(a), BigUint::from(b));
        assert_eq!(x.clone() + y.clone(), BigUint::from(a + b));
        assert_eq!(x.clone() / y.clone(), BigUint::from(a / b));
        assert_eq!(x.clone() % y.clone(), BigUint::from(a % b));
        assert_eq!(x.clone() & y.clone(), BigUint::from(a & b));
        assert_eq!(x.clone() | y.clone(), BigUint::from(a | b));
        assert_eq!(x.clone() ^ y.clone(), BigUint::from(a ^ b));
        assert_eq!(x.clone() >> 77, BigUint::from(a >> 77));
        assert_eq!(BigUint::from(a >> 70) << 69, BigUint::from((a >> 70) << 69));
        let (hi, lo) = (if a > b { (a, b) } else { (b, a) });
        assert_eq!(BigUint::from(hi) - BigUint::from(lo), BigUint::from(hi - lo));
        let (s, t) = (a as u64, b as u64);
        assert_eq!(BigUint::from(s) * BigUint::from(t), BigUint::from(s as u128 * t as u128));
        assert_eq!(x.cmp(&y), a.cmp(&b));
    }
}

#[test]
fn long_division_recombines() {
    let mut state: u64 = 99;
    for n in 1..9 {
        for m in 1..9 {
            for _ in 0..20 {
                let a = random(&mut state, n);
                let b = random(&mut state, m);
                if b.is_zero() {
                    continue;
                }
                let (q, r) = a.div_rem(&b);
                assert!(r < b);
                assert_eq!(q * b + r, a);
            }
        }
    }
}

#[test]
fn long_division_corrects_its_digit_estimates() {
    // Leading limbs that overestimate the quotient digit.
    let top = 1u64 << 63;
    let cases = [
        (from_limbs(&[0, 0, top, top - 1]), from_limbs(&[1, 0, top])),
        (from_limbs(&[3, 0, top]), from_limbs(&[1, 0, 1 << 61])),
        (from_limbs(&[u64::MAX; 6]), from_limbs(&[u64::MAX; 3])),
        (from_limbs(&[0, u64::MAX - 1, top]), from_limbs(&[u64::MAX, top])),
        (from_limbs(&[0, 0, 0, 1]), from_limbs(&[u64::MAX, 1])),
    ];
    for (a, b) in cases {
        let (q, r) = a.div_rem(&b);
        assert!(r < b);
        assert_eq!(q * b + r, a);
    }
    let (q, r) = from_limbs(&[u64::MAX; 6]).div_rem(&from_limbs(&[u64::MAX; 3]));
    assert_eq!(q, from_limbs(&[1, 0, 0, 1]));
    assert!(r.is_zero());
}

#[test]
fn division_by_a_larger_number() {
    let (q, r) = BigUint::from(5u8).div_rem(&from_limbs(&[0, 1]));
    assert!(q.is_zero());
    assert_eq!(r, BigUint::from(5u8));
}

#[test]
fn division_by_one_limb() {
    let (q, r) = from_limbs(&[5, 0, 1]).div_rem_limb(10);
    assert_eq!(q.clone() * BigUint::from(10u8) + BigUint::from(r), from_limbs(&[5, 0, 1]));
    assert!(r < 10);
}

#[test]
fn carries_and_borrows_run_through() {
    let max = from_limbs(&[u64::MAX; 5]);
    let one = BigUint::from(1u8);
    let up = max.clone() + one.clone();
    assert_eq!(up, BigUint::from(1u8) << 320);
    assert_eq!(up.limb_len(), 6);
    let down = up - one;
    assert_eq!(down, max);
    assert_eq!(down.limb_len(), 5);
}

#[test]
fn products_of_several_limbs() {
    let max = from_limbs(&[u64::MAX; 2]);
    assert_eq!(max.clone() * max, from_limbs(&[1, 0, u64::MAX - 1, u64::MAX]));
    assert!((from_limbs(&[1, 2, 3]) * BigUint::zero()).is_zero());
}

#[test]
fn shifts_by_whole_limbs_and_past_the_end() {
    let x = from_limbs(&[1, 2, 3]);
    assert_eq!(x.clone() >> 64, from_limbs(&[2, 3]));
    assert_eq!(x.clone() << 128, from_limbs(&[0, 0, 1, 2, 3]));
    assert!((x.clone() >> 192).is_zero());
    assert!((x >> usize::MAX).is_zero());
    assert!((BigUint::zero() << usize::MAX).is_zero());
}

#[test]
fn bitwise_operations_of_unequal_length() {
    let a = from_limbs(&[0b1100, 7]);
    let b = from_limbs(&[0b1010]);
    assert_eq!(a.clone() & b.clone(), from_limbs(&[0b1000]));
    assert_eq!(a.clone() | b.clone(), from_limbs(&[0b1110, 7]));
    assert_eq!(a.clone() ^ b, from_limbs(&[0b0110, 7]));
    assert!((a.clone() ^ a).is_zero());
}

#[test]
fn leading_zeros_do_not_matter() {
    let x = from_limbs(&[5, 0, 0]);
    assert_eq!(x, BigUint::from(5u8));
    assert_eq!(x.limb_len(), 1);
    assert_eq!(from_limbs(&[0, 0]).limb_len(), 0);
    assert_eq!(BigUint::default(), BigUint::zero());
}

#[test]
fn order_looks_at_the_top_limb_first() {
    let small = from_limbs(&[9, 1]);
    let large = from_limbs(&[1, 2]);
    assert_eq!(small.cmp(&large), Ordering::Less);
    assert_eq!(large.cmp(&small), Ordering::Greater);
    assert_eq!(large.cmp(&large.clone()), Ordering::Equal);
    assert!(small < large);
    assert!(from_limbs(&[0, 0, 1]) > large);
}

#[test]
fn limbs_parity_and_one() {
    let x = from_limbs(&[4, 9]);
    assert_eq!(x.limb(0), 4);
    assert_eq!(x.limb(1), 9);
    assert_eq!(x.limb(2), 0);
    assert!(!x.is_odd());
    assert!(from_limbs(&[5, 9]).is_odd());
    assert!(!BigUint::zero().is_odd());
    assert!(BigUint::from(1u128).is_one());
    assert!(!from_limbs(&[1, 1]).is_one());
    assert!(!BigUint::zero().is_one());
}

#[test]
fn machine_integers_convert() {
    assert_eq!(BigUint::from(200u8), BigUint::from(200u128));
    assert_eq!(BigUint::from(60000u16), BigUint::from(60000u32));
    assert_eq!(BigUint::from(usize::MAX), BigUint::from(usize::MAX as u64));
    assert_eq!(BigUint::from(u128::MAX), from_limbs(&[u64::MAX, u64::MAX]));
}

#[test]
fn bytes_of_a_number() {
    assert_eq!(BigUint::zero().to_bytes_le(), vec![0]);
    assert_eq!(BigUint::zero().to_bytes_be(), vec![0]);
    assert_eq!(BigUint::from(0x010203u32).to_bytes_le(), vec![3, 2, 1]);
    assert_eq!(BigUint::from(0x010203u32).to_bytes_be(), vec![1, 2, 3]);
    let nine: Vec<u8> = vec![0, 0, 0, 0, 0, 0, 0, 0, 1];
    assert_eq!((BigUint::from(1u8) << 64).to_bytes_le(), nine);
    assert_eq!(BigUint::from_bytes_le(&nine), BigUint::from(1u8) << 64);
    assert_eq!(BigUint::from_bytes_be(&[1, 0, 0]), BigUint::from(65536u32));
    assert!(BigUint::from_bytes_be(&[]).is_zero());
}

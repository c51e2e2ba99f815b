use const_num_traits::{FromByteSlice, ToBytes};
use fixed_width_biguint::{BigUint, FixedWidthBigUint};

fn fw(value: u128, n: usize) -> FixedWidthBigUint {
    FixedWidthBigUint::new(BigUint::from(value), n)
}

#[test]
fn bytes_are_padded_to_the_width() {
    assert_eq!(fw(0x0102, 1).to_be_bytes(), vec![0, 0, 0, 0, 0, 0, 1, 2]);
    assert_eq!(fw(0x0102, 1).to_le_bytes(), vec![2, 1, 0, 0, 0, 0, 0, 0]);
    assert_eq!(fw(0, 1).to_be_bytes(), vec![0; 8]);
    assert_eq!(fw(0, 2).to_le_bytes(), vec![0; 16]);
}

#[test]
fn numbers_beyond_the_width() {
    let wide = fw((1 << 64) + 5, 1);
    assert_eq!(wide.clone().to_be_bytes(), vec![1, 0, 0, 0, 0, 0, 0, 0, 5]);
    assert_eq!(wide.to_le_bytes(), vec![5, 0, 0, 0, 0, 0, 0, 0]);
}

#[test]
fn a_width_of_zero() {
    assert_eq!(fw(0, 0).to_be_bytes(), vec![0]);
    assert_eq!(fw(0x0203, 0).to_be_bytes(), vec![2, 3]);
    assert!(fw(0x0203, 0).to_le_bytes().is_empty());
}

#[test]
fn slices_of_any_length_are_read() {
    let x = FixedWidthBigUint::from_be_slice(&[1, 2]).unwrap();
    assert_eq!(x, fw(0x0102, 1));
    assert_eq!(x.n_limbs(), 1);
    let y = FixedWidthBigUint::from_le_slice(&[1, 2]).unwrap();
    assert_eq!(y, fw(0x0201, 1));
    let nine = FixedWidthBigUint::from_be_slice(&[1, 0, 0, 0, 0, 0, 0, 0, 7]).unwrap();
    assert_eq!(nine, fw((1 << 64) + 7, 2));
    assert_eq!(nine.n_limbs(), 2);
    let empty = FixedWidthBigUint::from_be_slice(&[]).unwrap();
    assert_eq!(empty, fw(0, 1));
    assert_eq!(empty.n_limbs(), 1);
    assert_eq!(FixedWidthBigUint::from_le_slice(&[]).unwrap().n_limbs(), 1);
}

#[test]
fn numbers_survive_the_round_trip() {
    for n in 2..5 {
        let x = fw(0x0123_4567_89ab_cdef_0011_2233_4455_6677, n);
        let be = FixedWidthBigUint::from_be_slice(&x.clone().to_be_bytes()).unwrap();
        let le = FixedWidthBigUint::from_le_slice(&x.clone().to_le_bytes()).unwrap();
        assert_eq!(be, x);
        assert_eq!(le, x);
        assert_eq!(be.n_limbs(), n);
        assert_eq!(le.n_limbs(), n);
    }
}

#[test]
fn bytes_survive_the_round_trip() {
    let bytes: Vec<u8> = vec![0, 1, 2, 3, 4, 5, 6, 7, 8, 9, 10, 11, 12, 13, 14, 0];
    assert_eq!(FixedWidthBigUint::from_be_slice(&bytes).unwrap().to_be_bytes(), bytes);
    assert_eq!(FixedWidthBigUint::from_le_slice(&bytes).unwrap().to_le_bytes(), bytes);
}

use diagnosticism::gram_utils::{calc_doom, gram_doom_to_char};

#[test]
fn calc_doom_matches_decimal_text_length() {
    let mut values: Vec<u64> = vec![0, u64::MAX];
    let mut p: u64 = 1;
    loop {
        values.push(p);
        values.push(p - 1);
        values.push(p + 1);
        if p > u64::MAX / 10 {
            break;
        }
        values.push(p * 10 - 1);
        p *= 10;
    }
    for v in values {
        let expected = if v == 0 { 0 } else { v.to_string().len() as u32 };
        assert_eq!(expected, calc_doom(v), "digits of {v}");
    }
}

#[test]
fn calc_doom_exact_values() {
    assert_eq!(0, calc_doom(0));
    assert_eq!(1, calc_doom(1));
    assert_eq!(1, calc_doom(9));
    assert_eq!(2, calc_doom(10));
    assert_eq!(2, calc_doom(99));
    assert_eq!(3, calc_doom(100));
    assert_eq!(8, calc_doom(99_999_999));
    assert_eq!(9, calc_doom(100_000_000));
    assert_eq!(19, calc_doom(9_999_999_999_999_999_999));
    assert_eq!(20, calc_doom(10_000_000_000_000_000_000));
    assert_eq!(20, calc_doom(u64::MAX));
}

#[test]
fn gram_doom_to_char_picks_from_range() {
    let range = b"abcdefghijklmnopqrstuvwxyz";

    assert_eq!(b'_', gram_doom_to_char(0, b'_', b'*', range));
    assert_eq!(b'a', gram_doom_to_char(1, b'_', b'*', range));
    assert_eq!(b'c', gram_doom_to_char(3, b'_', b'*', range));
    assert_eq!(b'z', gram_doom_to_char(26, b'_', b'*', range));
    assert_eq!(b'*', gram_doom_to_char(27, b'_', b'*', range));
    assert_eq!(b'*', gram_doom_to_char(u32::MAX, b'_', b'*', range));
    assert_eq!(b'-', gram_doom_to_char(0, b'-', b'+', &[]));
    assert_eq!(b'+', gram_doom_to_char(1, b'-', b'+', &[]));
}

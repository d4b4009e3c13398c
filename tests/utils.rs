use tmledkey_hal_drv::utils::{double_bytes, int_to_bytes, DoubleConvertResult, IntConvertResult};
use tmledkey_hal_drv::{CHAR_MINUS, DIGITS, SEG_8};

#[test]
fn int_to_bytes_output() {
    assert_eq!(int_to_bytes(0).as_ref(), &[DIGITS[0]]);

    assert_eq!(
        int_to_bytes(1234567890).as_ref(),
        &[
            DIGITS[1], DIGITS[2], DIGITS[3], DIGITS[4], DIGITS[5], DIGITS[6], DIGITS[7],
            DIGITS[8], DIGITS[9], DIGITS[0]
        ]
    );

    assert_eq!(
        int_to_bytes(-1234567890).as_ref(),
        &[
            CHAR_MINUS, DIGITS[1], DIGITS[2], DIGITS[3], DIGITS[4], DIGITS[5], DIGITS[6],
            DIGITS[7], DIGITS[8], DIGITS[9], DIGITS[0]
        ]
    );

    assert_eq!(
        int_to_bytes(-1234).as_ref(),
        &[CHAR_MINUS, DIGITS[1], DIGITS[2], DIGITS[3], DIGITS[4]]
    );
}

#[test]
fn double_bytes_test() {
    let input: [u8; 4] = [1, 2, 3, 4];
    let check: [u8; 8] = [1, 0, 2, 0, 3, 0, 4, 0];
    let result = double_bytes(&input);
    assert_eq!(check, result.as_slice());
}

#[test]
fn int_to_bytes_extremes() {
    let min = int_to_bytes(i32::MIN);
    assert_eq!(
        &*min,
        &[
            CHAR_MINUS, DIGITS[2], DIGITS[1], DIGITS[4], DIGITS[7], DIGITS[4], DIGITS[8],
            DIGITS[3], DIGITS[6], DIGITS[4], DIGITS[8]
        ]
    );
    assert_eq!(min.len(), 11);
    let max = int_to_bytes(i32::MAX);
    assert_eq!(max.len(), 10);
    assert_eq!(max.last(), DIGITS[7]);
    assert_eq!(&*int_to_bytes(-7), &[CHAR_MINUS, DIGITS[7]]);
    assert_eq!(&*int_to_bytes(10), &[DIGITS[1], DIGITS[0]]);
}

#[test]
fn int_convert_result_edits() {
    let mut r = IntConvertResult::new();
    assert!(r.is_empty());
    r.remove_last();
    assert!(r.is_empty());
    r.add_last(DIGITS[1]);
    r.add_last(DIGITS[2]);
    r.add_first(DIGITS[0]);
    assert_eq!(&*r, &[DIGITS[0], DIGITS[1], DIGITS[2]]);
    r.set_last(DIGITS[2] | SEG_8);
    assert_eq!(r.last(), DIGITS[2] | SEG_8);
    r.remove_last();
    assert_eq!(&*r, &[DIGITS[0], DIGITS[1]]);
    for _ in 0..20 {
        r.add_last(DIGITS[9]);
    }
    assert_eq!(r.len(), 11);
    assert_eq!(r.as_slice()[0], DIGITS[0]);
}

#[test]
fn double_convert_result_joins_or_empties() {
    let joined = DoubleConvertResult::new(&[1, 2], &[3]);
    assert_eq!(&*joined, &[1, 2, 3]);
    let full = DoubleConvertResult::new(&[5; 11], &[6; 11]);
    assert_eq!(full.len(), 22);
    let over = DoubleConvertResult::new(&[5; 12], &[6; 11]);
    assert!(over.is_empty());
}

#[test]
fn double_bytes_empty() {
    assert!(double_bytes(&[]).is_empty());
}

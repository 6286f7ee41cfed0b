use typenet::error::StackError;
use typenet::try_ops::{TryAdd, TryGet, TryGetMut};

#[test]
fn try_add_errors_for_overflow() {
    assert!(matches!(u16::MAX.try_add(1), Err(_)));
    // Instants and durations are milliseconds on the caller's clock
    let now: u64 = 1_000;
    assert!(matches!(now.try_add(u64::MAX), Err(_)));
}

#[test]
fn try_add_adds_successfully() {
    assert_eq!((u16::MAX - 1).try_add(1), Ok(u16::MAX));

    let now: u64 = 1_000;
    let an_hour: u64 = 3_600_000;
    assert_eq!(now.try_add(an_hour), Ok(3_601_000));
    assert_eq!(usize::MAX.try_add(1usize), Err(StackError::Overflowed));
}

#[test]
fn try_get_and_try_get_mut_error_out_of_bounds() {
    let data1 = [1, 2, 3, 4, 5];
    assert!(matches!(data1.try_get(5), Err(_)));
    assert!(matches!(data1.try_get_range(2, 10), Err(_)));

    let mut data2 = [10, 20, 30, 40, 50];
    assert!(matches!(data2.try_set(5, 99), Err(_)));
    assert_eq!(data2, [10, 20, 30, 40, 50]);
}

#[test]
fn try_get_and_try_get_mut_succeed_in_bounds() {
    let data1 = [1, 2, 3, 4, 5];
    assert_eq!(data1.try_get(2), Ok(&3));
    assert_eq!(data1.try_get_range(1, 3), Ok(&[2, 3][..]));

    let mut data2 = [10, 20, 30, 40, 50];
    assert_eq!(data2.try_set(2, 33), Ok(()));
    assert_eq!(data2, [10, 20, 33, 40, 50]);
}

#[test]
fn out_of_bounds_errors_name_the_index_and_length() {
    let data = [1u8, 2, 3, 4, 5];
    assert_eq!(data.try_get(5), Err(StackError::IndexOutOfRange { index: 5, len: 5 }));
    assert_eq!(
        data.try_get_range(2, 10).map(|s| s.to_vec()),
        Err(StackError::RangeOutOfRange { start: 2, end: 10, len: 5 })
    );
    assert_eq!(
        StackError::RangeOutOfRange { start: 2, end: 10, len: 5 }.message(),
        "Index 2..10 out of range on `[u8]` of length 5"
    );
}

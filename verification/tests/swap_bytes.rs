use escher::swap_bytes::{SwapBytes, Swapped};
use escher::tokenized_options::schedule::schedule_insert;
use escher::tokenized_options::types::Status;
use escher::tokenized_options::ScheduleEntry;

#[test]
fn swap_bytes_reverses_the_byte_order() {
    assert_eq!(SwapBytes::swap_bytes(0x1234_5678u32), 0x7856_3412u32);
    assert_eq!(SwapBytes::swap_bytes(0x0102_0304_0506_0708u64), 0x0807_0605_0403_0201u64);
}

#[test]
fn scheduler_orders_option_ids_by_their_little_endian_bytes() {
    let mut s = Vec::new();
    schedule_insert(&mut s, ScheduleEntry { moment: 5, option_id: 1, status: Status::Deposit });
    schedule_insert(&mut s, ScheduleEntry { moment: 5, option_id: 256, status: Status::Deposit });
    assert_eq!(s[0].option_id, 256);
    assert_eq!(s[1].option_id, 1);
}

#[test]
fn swapped_stores_the_big_endian_form_and_restores_the_value() {
    let s = Swapped::from(1u64);
    assert_eq!(s.0, 1u64 << 56);
    assert_eq!(s.into_value(), 1u64);
    let t = Swapped::from(0xdead_beefu32);
    assert_eq!(t.into_value(), 0xdead_beefu32);
}

#[test]
fn swapped_keys_order_as_their_values() {
    // Lexical order of the stored bytes (the native little endian encoding of
    // the swapped value) is the numeric order of the values.
    let a = Swapped::from(255u64).0.to_le_bytes();
    let b = Swapped::from(256u64).0.to_le_bytes();
    assert!(a < b);
}

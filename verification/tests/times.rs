use tdcpix::time::{COARSE_TICK_PS, FINE_TICK_PS};
use tdcpix::{decode_time, DataWord};

fn word(lc: u16, lf: u8, tc: u8, tf: u8) -> DataWord {
    DataWord::decode(
        (lc as u64) << 17 | (lf as u64) << 12 | (tc as u64) << 5 | (tf as u64),
    )
}

#[test]
fn tick_lengths() {
    assert_eq!(COARSE_TICK_PS, 3125);
    assert_eq!(FINE_TICK_PS, 98);
}

#[test]
fn times_of_the_zero_word() {
    let w = DataWord::decode(0);
    assert_eq!(w.get_start_time(), 0);
    assert_eq!(w.get_duration(), 0);
    assert_eq!(w.get_time(), 0);
    assert_eq!(decode_time(&w), (0, 0));
}

#[test]
fn times_by_the_formula() {
    let w = word(2, 3, 4, 5);
    assert_eq!(w.get_start_time(), 2 * 3125 + 3 * 98);
    assert_eq!(w.get_start_time(), 6544);
    assert_eq!(w.get_duration(), 12990);
    assert_eq!(w.get_time(), 19534);
    assert_eq!(decode_time(&w), (6544, 12990));
}

#[test]
fn times_of_a_token() {
    let w = DataWord::from_hex("800001F00000").unwrap();
    assert_eq!(w.get_start_time(), 248 * 3125);
    assert_eq!(w.get_start_time(), 775_000);
    assert_eq!(w.get_duration(), 0);
    assert_eq!(w.get_time(), 775_000);
}

#[test]
fn times_of_the_largest_fields() {
    let w = DataWord::decode(0xFFFF_FFFF_FFFF);
    assert_eq!(w.get_start_time(), 4095 * 3125 + 31 * 98);
    assert_eq!(w.get_start_time(), 12_799_913);
    assert_eq!(w.get_duration(), 63 * 3125 + 31 * 98);
    assert_eq!(w.get_duration(), 199_913);
    assert_eq!(w.get_time(), 12_999_826);
}

#[test]
fn times_of_a_word_built_by_hand() {
    let mut w = DataWord::decode(0);
    w.leading_coarse_time = u16::MAX;
    w.leading_fine_time = u8::MAX;
    w.trailing_coarse_time = u8::MAX;
    w.trailing_fine_time = u8::MAX;
    assert_eq!(w.get_start_time(), 65535 * 3125 + 255 * 98);
    assert_eq!(w.get_duration(), 255 * 3125 + 255 * 98);
    assert_eq!(w.get_time(), w.get_start_time() + w.get_duration());
}

#[test]
fn end_is_start_plus_duration() {
    for lc in [0u16, 1, 17, 2047, 4095] {
        for tc in [0u8, 1, 63] {
            let w = word(lc, 7, tc, 30);
            assert_eq!(w.get_time(), w.get_start_time() + w.get_duration());
        }
    }
}

#[test]
fn start_time_is_linear_in_the_coarse_count() {
    for lc in [0u16, 1, 5, 100, 2047] {
        for lf in [0u8, 1, 31] {
            let a = word(lc, lf, 9, 9);
            let b = word(2 * lc, lf, 9, 9);
            let fine = lf as u64 * 98;
            assert_eq!(b.get_start_time() - fine, 2 * (a.get_start_time() - fine));
            assert_eq!(b.get_start_time() - a.get_start_time(), 3125 * lc as u64);
            assert_eq!(b.get_duration(), a.get_duration());
        }
    }
}

#[test]
fn selector_bits_do_not_change_the_times() {
    let plain = word(10, 1, 2, 3);
    let flagged = DataWord::decode(plain.raw | 1 << 29 | 1 << 11 | 1 << 47);
    assert_eq!(flagged.leading_coarse_time_selector, 1);
    assert_eq!(flagged.trailing_coarse_time_selector, 1);
    assert_eq!(decode_time(&flagged), decode_time(&plain));
    assert_eq!(flagged.get_time(), plain.get_time());
}

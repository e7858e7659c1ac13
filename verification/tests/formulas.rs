//! The arithmetic and the bytes, value by value.

use permafrost::bytes::{text_bytes, trim, u128_le_bytes};
use permafrost::fixed::{mul_fp_ceil, muldiv_ceil, muldiv_floor, pow_decay_fp, FP};
use permafrost::parcel::{find_value, refund_others};
use permafrost::{pot_after_release, AlkaneId, AlkaneTransfer, CallResponse, VaultError};

const MAX: u128 = u128::MAX;

#[test]
fn quotients_are_rounded_down() {
    assert_eq!(muldiv_floor(7, 3, 2), Ok(10));
    assert_eq!(muldiv_floor(6, 3, 2), Ok(9));
    assert_eq!(muldiv_floor(0, 3, 2), Ok(0));
    assert_eq!(muldiv_floor(MAX, MAX, MAX), Ok(MAX));
    assert_eq!(muldiv_floor(MAX, 2, 3), Ok(226854911280625642308916404954512140970));
    assert_eq!(muldiv_floor(MAX, MAX - 1, MAX), Ok(MAX - 1));
}

#[test]
fn quotients_are_rounded_up() {
    assert_eq!(muldiv_ceil(7, 3, 2), Ok(11));
    assert_eq!(muldiv_ceil(6, 3, 2), Ok(9));
    assert_eq!(muldiv_ceil(0, 3, 2), Ok(0));
    assert_eq!(muldiv_ceil(MAX, MAX, MAX), Ok(MAX));
    assert_eq!(muldiv_ceil(MAX, 1, 2), Ok(MAX / 2 + 1));
    assert_eq!(muldiv_ceil(1, 1, MAX), Ok(1));
}

#[test]
fn quotients_refuse_a_zero_divisor() {
    assert_eq!(muldiv_floor(1, 1, 0), Err(VaultError::DivisionByZero));
    assert_eq!(muldiv_ceil(0, 0, 0), Err(VaultError::DivisionByZero));
}

#[test]
fn quotients_refuse_to_leave_their_width() {
    assert_eq!(muldiv_floor(MAX, 2, 1), Err(VaultError::MuldivOverflow));
    assert_eq!(muldiv_floor(MAX, MAX, MAX - 1), Err(VaultError::MuldivOverflow));
    assert_eq!(muldiv_ceil(MAX, MAX, 1), Err(VaultError::MuldivOverflow));
    // Rounded down it fits, rounded up it does not.
    assert_eq!(muldiv_floor((1 << 65) - 1, (1 << 65) + 1, 4), Ok(MAX));
    assert_eq!(muldiv_ceil((1 << 65) - 1, (1 << 65) + 1, 4), Err(VaultError::MuldivOverflow));
}

#[test]
fn fixed_point_products_are_rounded_up() {
    assert_eq!(mul_fp_ceil(FP, FP), FP);
    assert_eq!(mul_fp_ceil(FP, 5), 5);
    assert_eq!(mul_fp_ceil(FP / 2, FP / 2), FP / 4);
    assert_eq!(mul_fp_ceil(1, 1), 1);
    assert_eq!(mul_fp_ceil(0, FP), 0);
    assert_eq!(mul_fp_ceil(MAX, MAX), MAX);
}

#[test]
fn the_decay_power_takes_exact_values() {
    assert_eq!(pow_decay_fp(0, 365), FP);
    assert_eq!(pow_decay_fp(1, 1), 0);
    assert_eq!(pow_decay_fp(1, 2), FP / 2);
    assert_eq!(pow_decay_fp(3, 2), FP / 8);
    assert_eq!(pow_decay_fp(64, 2), 1);
    assert_eq!(pow_decay_fp(65, 2), 1);
    assert_eq!(pow_decay_fp(1, 365), 18396205048850073393);
    assert_eq!(pow_decay_fp(365, 365), 6776871140572888855);
    assert_eq!(pow_decay_fp(1, MAX), FP);
    assert_eq!(pow_decay_fp(u64::MAX, 365), 1);
}

#[test]
fn the_decay_power_is_monotone() {
    for p in [1, 2, 3, 7, 365, 1 << 70] {
        let mut prev = FP;
        for e in 0..600 {
            let cur = pow_decay_fp(e, p);
            assert!(cur <= prev, "p = {}, e = {}", p, e);
            prev = cur;
        }
    }
}

#[test]
fn the_pot_decays_by_exact_values() {
    assert_eq!(pot_after_release(0, 10, 365), 0);
    assert_eq!(pot_after_release(1_000, 0, 365), 1_000);
    assert_eq!(pot_after_release(3_650_000_000, 1, 365), 3_640_000_000 + 1);
    assert_eq!(pot_after_release(8_000, 3, 2), 1_000);
    assert_eq!(pot_after_release(8_001, 3, 2), 1_001);
    assert_eq!(pot_after_release(MAX, 1, 2), MAX / 2 + 1);
    assert_eq!(pot_after_release(MAX, 1, MAX), MAX);
}

#[test]
fn zero_periods_are_taken_for_one() {
    assert_eq!(pot_after_release(1_000, 1, 0), 0);
    assert_eq!(pot_after_release(1_000, 1, 1), 0);
    assert_eq!(pot_after_release(1_000, 0, 0), 1_000);
    assert_eq!(pot_after_release(MAX, u64::MAX, 0), 0);
}

#[test]
fn dust_never_drips_out() {
    for p in [2, 3, 365, MAX] {
        for e in [1, 2, 64, 1_000_000, u64::MAX] {
            assert!(pot_after_release(1, e, p) == 1, "p = {}, e = {}", p, e);
        }
    }
}

#[test]
fn a_larger_pot_stays_larger() {
    for e in [1, 10, 365, 3650] {
        let mut prev = 0;
        for b in [0, 1, 2, 999, 1_000, 1_000_000_007, FP, FP + 1, MAX] {
            let cur = pot_after_release(b, e, 365);
            assert!(prev <= cur && cur <= b);
            prev = cur;
        }
    }
}

#[test]
fn a_larger_pot_releases_more() {
    for p in [1, 2, 365, 1 << 70] {
        for e in [1, 10, 365, 3650] {
            let mut prev = 0;
            for b in [0, 1, 2, 999, 1_000, 1_000_000_007, FP, FP + 1, MAX] {
                let released = b - pot_after_release(b, e, p);
                assert!(prev <= released, "b = {}, e = {}, p = {}", b, e, p);
                prev = released;
            }
        }
    }
}

#[test]
fn a_shorter_horizon_weakens_the_forfeit() {
    for e in [0, 1, 2, 30, 365, 3650] {
        for b in [1, 1_000, 3_650_000_000, MAX] {
            let mut prev = 0;
            for p in [0, 1, 2, 3, 30, 364, 365, 366, 1 << 70, MAX] {
                let stays = pot_after_release(b, e, p);
                assert!(prev <= stays, "b = {}, e = {}, p = {}", b, e, p);
                prev = stays;
            }
        }
    }
    assert_eq!(pot_after_release(1_000, 1, 2), 500);
    assert_eq!(pot_after_release(1_000, 1, 4), 750);
}

#[test]
fn the_release_is_rounded_down_and_accurate() {
    // 364^e and 365^e stay within 128 bits for these drips.
    for e in 1..9u32 {
        for b in [1u128, 7, 365, 1_000, 12_345, 1_000_000_000] {
            let r = pot_after_release(b, e as u64, 365);
            let (num, den) = (364u128.pow(e), 365u128.pow(e));
            assert!(r * den >= b * num);
            assert!(r * den <= b * num + 2 * den);
        }
    }
}

#[test]
fn integers_are_written_least_significant_byte_first() {
    assert_eq!(u128_le_bytes(0), vec![0; 16]);
    assert_eq!(u128_le_bytes(0x0102).as_slice(), &0x0102u128.to_le_bytes());
    assert_eq!(u128_le_bytes(MAX), vec![255; 16]);
    let n: u128 = 0x0f0e0d0c0b0a09080706050403020100;
    assert_eq!(u128_le_bytes(n), (0..16).collect::<Vec<u8>>());
    assert_eq!(u128::from_le_bytes(u128_le_bytes(n).try_into().unwrap()), n);
}

#[test]
fn packed_texts_are_read_back() {
    assert_eq!(trim(398215580027291461371216), "PERMAFROST");
    assert_eq!(trim(362174960198), "FROST");
    assert_eq!(trim(0), "");
    assert_eq!(trim(u128::from_le_bytes(*b"sixteen-bytes-ok")), "sixteen-bytes-ok");
    assert_eq!(trim(u128::from_le_bytes(*b"a\0b\0\0c\0\0\0\0\0\0\0\0\0\0")), "abc");
    let umlaut = [0xc3, 0xa4, 0, 0, 0, 0, 0, 0, 0, 0, 0, 0, 0, 0, 0, 0];
    assert_eq!(trim(u128::from_le_bytes(umlaut)), "\u{e4}");
}

#[test]
fn bytes_that_are_no_text_are_read_as_nothing() {
    assert_eq!(trim(0xff), "");
    assert_eq!(trim(0xc3), "");
    assert_eq!(trim(u128::from_le_bytes(*b"name\xff\0\0\0\0\0\0\0\0\0\0\0")), "");
}

#[test]
fn texts_are_written_as_their_bytes() {
    assert_eq!(text_bytes(&String::from("FROST")), b"FROST".to_vec());
    assert_eq!(text_bytes(&String::from("\u{e4}")), vec![0xc3, 0xa4]);
    assert_eq!(text_bytes(&String::new()), Vec::<u8>::new());
}

fn transfer(tx: u128, value: u128) -> AlkaneTransfer {
    AlkaneTransfer { id: AlkaneId { block: 2, tx }, value }
}

#[test]
fn the_first_transfer_of_a_token_counts() {
    let parcel = vec![transfer(1, 10), transfer(2, 20), transfer(1, 30)];
    assert_eq!(find_value(&parcel, AlkaneId { block: 2, tx: 1 }), Some(10));
    assert_eq!(find_value(&parcel, AlkaneId { block: 2, tx: 2 }), Some(20));
    assert_eq!(find_value(&parcel, AlkaneId { block: 2, tx: 3 }), None);
    assert_eq!(find_value(&parcel, AlkaneId { block: 1, tx: 2 }), None);
    assert_eq!(find_value(&vec![], AlkaneId { block: 2, tx: 1 }), None);
}

#[test]
fn other_tokens_are_refunded_in_their_order() {
    let parcel = vec![transfer(3, 5), transfer(1, 10), transfer(2, 20), transfer(1, 30)];
    assert_eq!(
        refund_others(&parcel, AlkaneId { block: 2, tx: 1 }),
        vec![transfer(3, 5), transfer(2, 20)]
    );
    assert_eq!(refund_others(&parcel, AlkaneId { block: 9, tx: 9 }), parcel);
}

#[test]
fn forwarding_hands_everything_back() {
    let parcel = vec![transfer(3, 5), transfer(1, 10)];
    let response = CallResponse::forward(&parcel, vec![1, 2]);
    assert_eq!(response.alkanes, parcel);
    assert_eq!(response.data, vec![1, 2]);
}

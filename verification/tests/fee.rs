use bundle_sender::double::{rounded_whole, whole_part_of_quotient};
use bundle_sender::miner::{announce_fee, report_fee, Miner, ORDINARY_FEE_MAX};
use bundle_sender::text::{Badge, Outlet};
use bundle_sender::transaction::Keypair;

fn miner(priority_fee: u64) -> Miner {
    let bytes = solana_sdk::signature::Keypair::new().to_bytes();
    Miner { priority_fee, signer: Keypair::from_bytes(&bytes).unwrap() }
}

/// The fee as the hardware computes it.
fn expected(priority_fee: u64, difficult: u32) -> Option<u64> {
    let mut extra_fee = priority_fee;
    if difficult > 20 {
        let more = (extra_fee as f64 * (difficult as f64 - 20f64) / 20f64) as u64;
        extra_fee = extra_fee.checked_add(more.checked_mul(4)?)?;
        let most = priority_fee.checked_mul(3)?;
        if extra_fee > most {
            extra_fee = most;
        }
    }
    Some(extra_fee)
}

#[test]
fn fee_stays_up_to_the_base_difficulty() {
    assert_eq!(miner(1000).adjust_fee(0), 1000);
    assert_eq!(miner(1000).adjust_fee(19), 1000);
    assert_eq!(miner(1000).adjust_fee(20), 1000);
    assert_eq!(miner(u64::MAX).adjust_fee(20), u64::MAX);
}

#[test]
fn fee_grows_above_the_base_difficulty() {
    assert_eq!(miner(1000).adjust_fee(21), 1200);
    assert_eq!(miner(1000).adjust_fee(25), 2000);
    assert_eq!(miner(1000).adjust_fee(29), 2800);
    assert_eq!(miner(7).adjust_fee(22), 7);
    assert_eq!(miner(19).adjust_fee(22), 23);
    assert_eq!(miner(0).adjust_fee(4_000_000_000), 0);
}

#[test]
fn fee_is_capped_at_three_times_the_priority_fee() {
    assert_eq!(miner(1000).adjust_fee(30), 3000);
    assert_eq!(miner(1000).adjust_fee(31), 3000);
    assert_eq!(miner(1000).adjust_fee(u32::MAX), 3000);
}

#[test]
fn fee_is_monotone_and_bounded() {
    for fee in [0u64, 1, 19, 20, 21, 1000, 123_456_789, 1 << 40] {
        let miner = miner(fee);
        let mut last = 0;
        for difficult in 0..64 {
            let adjusted = miner.adjust_fee(difficult);
            assert!(fee <= adjusted && adjusted <= 3 * fee);
            assert!(last <= adjusted);
            last = adjusted;
        }
    }
}

#[test]
fn checked_fee_tells_of_overflow() {
    assert_eq!(miner(1000).checked_adjust_fee(25), Some(2000));
    assert_eq!(miner(u64::MAX).checked_adjust_fee(20), Some(u64::MAX));
    assert_eq!(miner(u64::MAX).checked_adjust_fee(21), None);
    assert_eq!(miner(u64::MAX / 3 + 1).checked_adjust_fee(21), None);
    assert_eq!(miner(1 << 60).checked_adjust_fee(u32::MAX), None);
}

#[test]
fn adjusted_fee_is_shown_above_the_base_difficulty() {
    assert!(announce_fee(1000, 20).is_none());
    assert!(report_fee(None).is_none());
    let line = announce_fee(1200, 21).unwrap();
    assert_eq!((line.outlet, line.badge), (Outlet::Console, Badge::Plain));
    assert_eq!(line.text, "change extra fee to 1200");
}

#[test]
fn ordinary_fees_fit_at_every_difficulty() {
    for fee in [0, 1, 10_000_000_000, ORDINARY_FEE_MAX] {
        for difficult in [0, 20, 21, 100, u32::MAX - 1, u32::MAX] {
            assert!(miner(fee).checked_adjust_fee(difficult).is_some());
        }
    }
}

#[test]
fn higher_priority_fee_never_lowers_the_fee() {
    for difficult in [0, 20, 21, 25, 29, 30, 31, u32::MAX] {
        let mut last = 0;
        for fee in [0, 1, 19, 20, 21, 1000, 123_456_789, ORDINARY_FEE_MAX] {
            let adjusted = miner(fee).adjust_fee(difficult);
            assert!(last <= adjusted);
            last = adjusted;
        }
    }
}

#[test]
fn fee_agrees_with_double_precision() {
    let mut fees: Vec<u64> = (0..200).collect();
    let mut seed: u64 = 0x9e37_79b9_7f4a_7c15;
    for shift in 0..64 {
        for _ in 0..40 {
            seed = seed.wrapping_mul(6364136223846793005).wrapping_add(1442695040888963407);
            fees.push((seed ^ (seed >> 29)) >> shift);
        }
        fees.push(1u64 << shift);
        fees.push((1u64 << shift) - 1);
        fees.push((1u64 << shift) | 1);
    }
    let difficulties = [0u32, 20, 21, 22, 23, 25, 27, 29, 30, 31, 37, 41, 63, 100, 1000, 65_537, u32::MAX];
    for fee in fees {
        let miner = miner_once(fee);
        for difficult in difficulties {
            assert_eq!(miner.checked_adjust_fee(difficult), expected(fee, difficult), "{fee} {difficult}");
        }
    }
}

fn miner_once(priority_fee: u64) -> Miner {
    let seed = [7u8; 32];
    let keypair = solana_sdk::signature::keypair_from_seed(&seed).unwrap();
    Miner { priority_fee, signer: Keypair::from_bytes(&keypair.to_bytes()).unwrap() }
}

#[test]
fn rounding_agrees_with_double_precision() {
    let mut seed: u64 = 42;
    for shift in 0..64 {
        for _ in 0..200 {
            seed = seed.wrapping_mul(6364136223846793005).wrapping_add(1442695040888963407);
            let n = (seed ^ (seed >> 31)) >> shift;
            assert_eq!(rounded_whole(n as u128, 1), (n as f64) as u128);
            let exact = (n as f64) as u128;
            assert_eq!(whole_part_of_quotient(exact, 20), (n as f64 / 20f64) as u128);
        }
    }
}

#[test]
fn ties_go_to_the_even_significand() {
    let base: u128 = 1 << 53;
    assert_eq!(rounded_whole(base + 1, 1), base);
    assert_eq!(rounded_whole(base + 2, 1), base + 2);
    assert_eq!(rounded_whole(base + 3, 1), base + 4);
    assert_eq!(rounded_whole(5, 2), 2);
    assert_eq!(rounded_whole(7, 2), 4);
}

#[test]
fn ordinary_quotients_are_exact() {
    for n in [0u128, 1, 19, 20, 21, 39, 40, 1_000_003, (1 << 48) * 20 - 1, (1 << 53) - 1] {
        assert_eq!(whole_part_of_quotient(n, 20), n / 20);
    }
    // Just below a whole number, the nearest double is that number.
    assert_eq!(whole_part_of_quotient((1u128 << 52) * 20 - 1, 20), 1 << 52);
}

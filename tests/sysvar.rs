use mollusk_mt::mollusk::MolluskMt;
use mollusk_mt::rent::Rent;
use mollusk_mt::sysvar::{
    add_slot_hash_entry, decode_clock, decode_rent, make_blockhash, Clock, EpochSchedule,
    SysvarKind, SysvarValue, MAX_SLOT_HASHES,
};

fn clock_of(m: &MolluskMt) -> Clock {
    match m.get_sysvar(SysvarKind::Clock) {
        SysvarValue::Clock(c) => c,
        _ => panic!("not a clock"),
    }
}

fn rent_of(m: &MolluskMt) -> Rent {
    match m.get_sysvar(SysvarKind::Rent) {
        SysvarValue::Rent(r) => r,
        _ => panic!("not a rent schedule"),
    }
}

fn epoch_schedule_of(m: &MolluskMt) -> EpochSchedule {
    match m.get_sysvar(SysvarKind::EpochSchedule) {
        SysvarValue::EpochSchedule(e) => e,
        _ => panic!("not an epoch schedule"),
    }
}

fn slot_hashes_of(m: &MolluskMt) -> Vec<(u64, [u8; 32])> {
    match m.get_sysvar(SysvarKind::SlotHashes) {
        SysvarValue::SlotHashes(s) => s,
        _ => panic!("not a slot-hash history"),
    }
}

#[test]
fn test_get_sysvar() {
    let mollusk = MolluskMt::new_default();
    assert_eq!(clock_of(&mollusk).slot, 0);
    assert!(epoch_schedule_of(&mollusk).slots_per_epoch > 0);
    assert!(rent_of(&mollusk).lamports_per_byte > 0);
}

#[test]
fn test_get_sysvar_mt() {
    let mollusk = MolluskMt::new_default();
    assert_eq!(clock_of(&mollusk).slot, 0);
    assert!(epoch_schedule_of(&mollusk).slots_per_epoch > 0);
    assert!(rent_of(&mollusk).lamports_per_byte > 0);
}

fn check_set_sysvar() {
    let mut mollusk = MolluskMt::new_default();
    let mut new_clock = clock_of(&mollusk);
    new_clock.slot = 42;
    new_clock.epoch = 1;
    mollusk.set_sysvar(SysvarValue::Clock(new_clock));
    let updated_clock = clock_of(&mollusk);
    assert_eq!(updated_clock.slot, 42);
    assert_eq!(updated_clock.epoch, 1);

    let mut new_rent = rent_of(&mollusk);
    let previous_lamports_per_byte = new_rent.lamports_per_byte;
    new_rent.lamports_per_byte = 12345;
    mollusk.set_sysvar(SysvarValue::Rent(new_rent));
    let updated_rent = rent_of(&mollusk);
    assert_eq!(updated_rent.lamports_per_byte, 12345);
    assert_ne!(updated_rent.lamports_per_byte, previous_lamports_per_byte);
}

#[test]
fn test_set_sysvar() {
    check_set_sysvar();
}

#[test]
fn test_set_sysvar_mt() {
    check_set_sysvar();
}

fn check_expire_blockhash() {
    let mut mollusk = MolluskMt::new_default();
    let initial = slot_hashes_of(&mollusk);
    mollusk.expire_blockhash();
    let updated = slot_hashes_of(&mollusk);
    assert!(updated.len() >= initial.len());
    let initial_first = initial.first().unwrap();
    let updated_first = updated.first().unwrap();
    assert!(initial_first.0 != updated_first.0 || initial_first.1 != updated_first.1);
}

#[test]
fn test_expire_blockhash() {
    check_expire_blockhash();
}

#[test]
fn test_expire_blockhash_mt() {
    check_expire_blockhash();
}

fn check_combined() {
    let mut mollusk = MolluskMt::new_default();
    let mut clock = clock_of(&mollusk);
    clock.slot = 100;
    clock.unix_timestamp = 1234567890;
    mollusk.set_sysvar(SysvarValue::Clock(clock));
    mollusk.expire_blockhash();
    let final_clock = clock_of(&mollusk);
    assert_eq!(final_clock.unix_timestamp, 1234567890);
    assert_eq!(final_clock.slot, 101);
    assert!(slot_hashes_of(&mollusk).len() > 0);
}

#[test]
fn test_combined_functionality() {
    check_combined();
}

#[test]
fn test_combined_sysvar_functionality_mt() {
    check_combined();
}

#[test]
fn test_warp_to_slot_integration() {
    let mut mollusk = MolluskMt::new_default();
    mollusk.warp_to_slot(500);
    assert_eq!(clock_of(&mollusk).slot, 500);
    mollusk.expire_blockhash();
    let slot_hashes = slot_hashes_of(&mollusk);
    assert!(slot_hashes.len() > 0);
    assert!(slot_hashes[0].0 >= 500);
}

#[test]
fn test_warp_to_slot_integration_mt() {
    let mut mollusk = MolluskMt::new_default();
    mollusk.warp_to_slot(500);
    assert_eq!(clock_of(&mollusk).slot, 500);
    mollusk.expire_blockhash();
    let slot_hashes = slot_hashes_of(&mollusk);
    assert!(slot_hashes.len() > 0);
    assert!(slot_hashes[0].0 <= 501);
}

#[test]
fn test_minimum_balance_for_rent_exemption() {
    let mollusk = MolluskMt::new_default();
    let min_balance_zero = mollusk.minimum_balance_for_rent_exemption(0);
    assert!(min_balance_zero >= 1);
    let min_balance = mollusk.minimum_balance_for_rent_exemption(100);
    assert!(min_balance >= min_balance_zero);
    let min_balance_larger = mollusk.minimum_balance_for_rent_exemption(1000);
    assert!(min_balance_larger >= min_balance);
}

#[test]
fn minimum_balance_values() {
    let mut mollusk = MolluskMt::new_default();
    assert_eq!(mollusk.minimum_balance_for_rent_exemption(0), 128 * 6960);
    assert_eq!(mollusk.minimum_balance_for_rent_exemption(100), 228 * 6960);
    let mut rent = rent_of(&mollusk);
    rent.lamports_per_byte = 1000;
    rent.exemption_threshold = 2.0f64.to_le_bytes();
    mollusk.set_sysvar(SysvarValue::Rent(rent));
    assert_eq!(mollusk.minimum_balance_for_rent_exemption(10), 2 * 138 * 1000);
    rent.exemption_threshold = 1.5f64.to_le_bytes();
    mollusk.set_sysvar(SysvarValue::Rent(rent));
    assert_eq!(mollusk.minimum_balance_for_rent_exemption(10), 207_000);
    rent.lamports_per_byte = 0;
    mollusk.set_sysvar(SysvarValue::Rent(rent));
    assert_eq!(mollusk.minimum_balance_for_rent_exemption(10), 1);
}

#[test]
fn rent_past_largest_length_has_no_minimum() {
    let rent = Rent::new_default();
    assert_eq!(rent.try_minimum_balance(10 * 1024 * 1024 + 1), None);
    assert_eq!(rent.try_minimum_balance(0), Some(128 * 6960));
}

#[test]
fn expire_blockhash_puts_new_slot_first() {
    let mut mollusk = MolluskMt::new_default();
    mollusk.warp_to_slot(41);
    mollusk.expire_blockhash();
    let clock = clock_of(&mollusk);
    let slot_hashes = slot_hashes_of(&mollusk);
    assert_eq!(clock.slot, 42);
    assert_eq!(slot_hashes[0].0, 42);
    assert_eq!(slot_hashes.len(), MAX_SLOT_HASHES);
    assert_eq!(&slot_hashes[0].1[0..8], &41u64.to_le_bytes());
    assert_eq!(slot_hashes[0].1[16], 255);
    assert_eq!(slot_hashes[1].0, 0);
}

#[test]
fn blockhash_layout() {
    let h = make_blockhash(0x0102, 0x0a0b0c);
    let mut expected = [0u8; 32];
    expected[0] = 0x02;
    expected[1] = 0x01;
    expected[8] = 0x0c;
    expected[9] = 0x0b;
    expected[10] = 0x0a;
    expected[16] = 255;
    assert_eq!(h, expected);
}

#[test]
fn slot_hash_history_replaces_inserts_and_caps() {
    let mut history: Vec<(u64, [u8; 32])> = vec![(9, [9; 32]), (5, [5; 32]), (2, [2; 32])];
    add_slot_hash_entry(&mut history, 5, [50; 32]);
    assert_eq!(history, vec![(9, [9; 32]), (5, [50; 32]), (2, [2; 32])]);
    add_slot_hash_entry(&mut history, 7, [7; 32]);
    assert_eq!(history, vec![(9, [9; 32]), (7, [7; 32]), (5, [50; 32]), (2, [2; 32])]);
    add_slot_hash_entry(&mut history, 1, [1; 32]);
    assert_eq!(history.last().unwrap().0, 1);
    let mut full: Vec<(u64, [u8; 32])> = (0..MAX_SLOT_HASHES as u64).rev().map(|s| (s + 1, [0; 32])).collect();
    add_slot_hash_entry(&mut full, 1000, [1; 32]);
    assert_eq!(full.len(), MAX_SLOT_HASHES);
    assert_eq!(full[0].0, 1000);
    assert_eq!(full.last().unwrap().0, 2);
}

#[test]
fn clock_bytes_decode_as_bincode_writes_them() {
    let clock = solana_clock::Clock {
        slot: 77,
        epoch_start_timestamp: -5,
        epoch: 3,
        leader_schedule_epoch: 4,
        unix_timestamp: 1_700_000_000,
    };
    let bytes = bincode::serialize(&clock).unwrap();
    let decoded = decode_clock(&bytes).unwrap();
    assert_eq!(
        decoded,
        Clock {
            slot: 77,
            epoch_start_timestamp: -5,
            epoch: 3,
            leader_schedule_epoch: 4,
            unix_timestamp: 1_700_000_000,
        }
    );
    assert!(decode_clock(&bytes[0..39].to_vec()).is_none());
}

#[test]
#[allow(deprecated)]
fn rent_bytes_decode_as_bincode_writes_them() {
    let rent = solana_rent::Rent {
        lamports_per_byte: 12,
        exemption_threshold: [1, 2, 3, 4, 5, 6, 7, 8],
        burn_percent: 9,
    };
    let bytes = bincode::serialize(&rent).unwrap();
    let decoded = decode_rent(&bytes).unwrap();
    assert_eq!(decoded.lamports_per_byte, 12);
    assert_eq!(decoded.exemption_threshold, [1, 2, 3, 4, 5, 6, 7, 8]);
    assert_eq!(decoded.burn_percent, 9);
    assert!(decode_rent(&bytes[0..16].to_vec()).is_none());
}

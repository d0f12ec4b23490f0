use mollusk_mt::account::{Account, AccountMeta, Instruction};
use mollusk_mt::address::{native_loader_id, Address};
use mollusk_mt::compile_accounts::{
    compile_accounts, compile_accounts_from_store, compile_instruction_accounts,
    compile_transaction_accounts,
};
use mollusk_mt::keys::KeyMap;
use mollusk_mt::program::{
    create_program_account, is_precompile, Builtin, LoaderKey, ProgramCache, ProgramCacheEntry,
};
use mollusk_mt::store::{AccountStore, InMemoryAccountStore};

fn addr(n: u8) -> Address {
    let mut bytes = [n; 32];
    bytes[0] = 200;
    Address::new_from_array(bytes)
}

fn program() -> Address {
    addr(99)
}

fn instruction(metas: Vec<AccountMeta>) -> Instruction {
    Instruction { program_id: program(), accounts: metas, data: vec![1, 2, 3] }
}

#[test]
fn duplicate_reference_takes_one_writable_slot() {
    let x = addr(1);
    let y = addr(2);
    let ix = instruction(vec![
        AccountMeta::new_readonly(x, false),
        AccountMeta::new_readonly(y, true),
        AccountMeta::new(x, false),
    ]);
    let km = KeyMap::compile_from_instruction(&ix);
    assert_eq!(km.entries.len(), 3);
    assert_eq!(km.entries[0].pubkey, x);
    assert!(km.entries[0].is_writable);
    assert!(!km.entries[0].is_signer);
    assert_eq!(km.entries[1].pubkey, y);
    assert!(km.entries[1].is_signer && !km.entries[1].is_writable);
    assert_eq!(km.entries[2].pubkey, program());
    assert!(!km.entries[2].is_signer && !km.entries[2].is_writable);
    let ias = compile_instruction_accounts(&km, &ix);
    assert_eq!(ias.len(), 3);
    assert_eq!(ias[2].index_in_transaction, 0);
    assert_eq!(ias[2].index_in_callee, 0);
    assert_eq!(ias[1].index_in_callee, 1);
    assert!(ias[0].is_writable);
}

#[test]
fn program_slot_holds_program_id_and_missing_accounts_are_synthesized() {
    let x = addr(1);
    let y = addr(2);
    let ix = instruction(vec![AccountMeta::new(x, true), AccountMeta::new_readonly(y, false)]);
    let accounts = vec![(x, Account::new(500, 2, &Address::zero()))];
    let loader = LoaderKey::V2.address();
    let compiled = compile_accounts(&ix, &accounts, loader);
    assert_eq!(compiled.transaction_accounts.len(), 3);
    assert_eq!(compiled.transaction_accounts[compiled.program_id_index].0, program());
    assert_eq!(compiled.program_id_index, 2);
    assert_eq!(compiled.transaction_accounts[0].1.lamports, 500);
    assert_eq!(compiled.transaction_accounts[0].1.data, vec![0, 0]);
    let missing = &compiled.transaction_accounts[1].1;
    assert_eq!((missing.lamports, missing.data.len(), missing.executable), (0, 0, false));
    assert_eq!(missing.owner, Address::zero());
    let stub = &compiled.transaction_accounts[2].1;
    assert!(stub.executable);
    assert_eq!(stub.owner, loader);
    assert_eq!(stub.lamports, 0);
}

#[test]
fn compiling_twice_gives_the_same_accounts() {
    let x = addr(1);
    let ix = instruction(vec![AccountMeta::new(x, true), AccountMeta::new(x, false)]);
    let accounts = vec![(x, Account::new(7, 1, &Address::zero()))];
    let first = compile_accounts(&ix, &accounts, native_loader_id());
    let second = compile_accounts(&ix, &accounts, native_loader_id());
    assert_eq!(first.program_id_index, second.program_id_index);
    assert_eq!(first.instruction_accounts, second.instruction_accounts);
    let keys = |c: &mollusk_mt::compile_accounts::CompiledAccounts| {
        c.transaction_accounts.iter().map(|(k, a)| (*k, a.lamports, a.data.clone())).collect::<Vec<_>>()
    };
    assert_eq!(keys(&first), keys(&second));
}

#[test]
fn compile_from_store_uses_store_then_default() {
    let x = addr(1);
    let y = addr(2);
    let mut store = InMemoryAccountStore::new();
    store.insert(x, Account::new(11, 0, &Address::zero()));
    let ix = instruction(vec![AccountMeta::new(x, true), AccountMeta::new(y, false)]);
    let compiled = compile_accounts_from_store(&ix, &store, LoaderKey::V3.address());
    assert_eq!(compiled.transaction_accounts[0].1.lamports, 11);
    assert_eq!(compiled.transaction_accounts[1].1.lamports, 0);
    assert_eq!(compiled.transaction_accounts[2].1.owner, LoaderKey::V3.address());
    assert!(store.get_account(&y).is_none());
    assert_eq!(store.default_account(&y).lamports, 0);
}

#[test]
fn batch_compilation_shares_slots_across_instructions() {
    let a = addr(1);
    let b = addr(2);
    let c = addr(3);
    let ixs = vec![
        instruction(vec![AccountMeta::new(a, true), AccountMeta::new_readonly(b, false)]),
        instruction(vec![AccountMeta::new(b, false), AccountMeta::new_readonly(c, true)]),
    ];
    let km = KeyMap::compile_from_instructions(&ixs);
    let keys: Vec<Address> = km.entries.iter().map(|m| m.pubkey).collect();
    assert_eq!(keys, vec![a, b, program(), c]);
    assert!(km.entries[1].is_writable);
    assert!(km.entries[3].is_signer);
    let accounts = vec![(b, Account::new(3, 0, &Address::zero()))];
    let shared = compile_transaction_accounts(&ixs, &km, &accounts, native_loader_id());
    assert_eq!(shared.len(), 4);
    assert_eq!(shared[1].1.lamports, 3);
    assert!(shared[2].1.executable);
    assert_eq!(shared[2].1.owner, native_loader_id());
    assert!(!shared[3].1.executable);
}

#[test]
fn well_known_addresses_match_the_sdk() {
    assert_eq!(native_loader_id().bytes, solana_sdk_ids::native_loader::id().to_bytes());
    assert_eq!(LoaderKey::V1.address().bytes, solana_sdk_ids::bpf_loader_deprecated::id().to_bytes());
    assert_eq!(LoaderKey::V2.address().bytes, solana_sdk_ids::bpf_loader::id().to_bytes());
    assert_eq!(LoaderKey::V3.address().bytes, solana_sdk_ids::bpf_loader_upgradeable::id().to_bytes());
    assert_eq!(LoaderKey::V4.address().bytes, solana_sdk_ids::loader_v4::id().to_bytes());
    assert_eq!(Address::zero().bytes, solana_sdk_ids::system_program::id().to_bytes());
    assert_eq!(
        mollusk_mt::sysvar::CLOCK_ID_BYTES,
        solana_sdk_ids::sysvar::clock::id().to_bytes()
    );
    assert_eq!(mollusk_mt::sysvar::RENT_ID_BYTES, solana_sdk_ids::sysvar::rent::id().to_bytes());
    let ed = Address::new_from_array(solana_sdk_ids::ed25519_program::id().to_bytes());
    let k1 = Address::new_from_array(solana_sdk_ids::secp256k1_program::id().to_bytes());
    let r1 = Address::new_from_array(solana_sdk_ids::secp256r1_program::id().to_bytes());
    assert!(is_precompile(&ed) && is_precompile(&k1) && is_precompile(&r1));
    assert!(!is_precompile(&Address::zero()));
    assert_eq!(LoaderKey::from_address(&LoaderKey::V4.address()), Some(LoaderKey::V4));
    assert_eq!(LoaderKey::from_address(&addr(5)), None);
}

#[test]
fn upgradeable_stub_points_at_its_program_data() {
    let id = addr(4);
    let entry = ProgramCacheEntry { loader: LoaderKey::V3, elf: vec![] };
    let account = create_program_account(&id, &entry);
    let pubkey = solana_pubkey::Pubkey::new_from_array(id.bytes);
    let programdata = solana_loader_v3_interface::get_program_data_address(&pubkey);
    let expected = bincode::serialize(
        &solana_loader_v3_interface::state::UpgradeableLoaderState::Program {
            programdata_address: programdata,
        },
    )
    .unwrap();
    assert_eq!(account.data, expected);
    assert_eq!(account.data.len(), 36);
    assert_eq!(account.lamports, (128 + 36) * 6960);
    assert!(account.executable);
    assert_eq!(account.owner, LoaderKey::V3.address());
}

#[test]
fn other_loader_stubs() {
    let id = addr(4);
    let v4 = create_program_account(&id, &ProgramCacheEntry { loader: LoaderKey::V4, elf: vec![9] });
    assert_eq!(v4.data.len(), 48);
    assert_eq!(v4.data[40], 1);
    assert_eq!(v4.lamports, (128 + 48) * 6960);
    let v2 = create_program_account(&id, &ProgramCacheEntry { loader: LoaderKey::V2, elf: vec![9] });
    assert!(v2.data.is_empty());
    assert_eq!(v2.lamports, 128 * 6960);
    let native = create_program_account(
        &id,
        &ProgramCacheEntry { loader: LoaderKey::Native, elf: b"name".to_vec() },
    );
    assert_eq!(native.data, b"name".to_vec());
    assert_eq!(native.owner, native_loader_id());
}

#[test]
fn program_cache_last_write_wins() {
    let mut cache = ProgramCache::new();
    let id = addr(6);
    assert!(cache.load_program(&id).is_none());
    assert_eq!(cache.loader_of(&Address::zero()), Some(LoaderKey::Native));
    cache.add_program(&id, LoaderKey::V2, &vec![1, 2]);
    cache.add_program(&id, LoaderKey::V3, &vec![3]);
    let entry = cache.load_program(&id).unwrap();
    assert_eq!(entry.loader, LoaderKey::V3);
    assert_eq!(entry.elf, vec![3]);
    assert_eq!(cache.get_all_keyed_program_accounts().len(), 4);
    assert!(cache.maybe_create_program_account(&addr(7)).is_none());
    assert!(cache.maybe_create_program_account(&id).unwrap().executable);
    cache.add_builtin(Builtin { program_id: addr(8), name: b"b".to_vec() });
    assert_eq!(cache.loader_of(&addr(8)), Some(LoaderKey::Native));
}

#[test]
fn store_insert_and_replace() {
    let mut store = InMemoryAccountStore::new();
    let k = addr(1);
    store.insert(k, Account::new(1, 0, &Address::zero()));
    store.store_account(k, Account::new(2, 0, &Address::zero()));
    assert_eq!(store.len(), 1);
    assert_eq!(store.get(&k).unwrap().lamports, 2);
}

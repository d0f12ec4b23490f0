use mollusk_mt::account::{Account, AccountMeta, ExecutionError, Instruction};
use mollusk_mt::address::Address;
use mollusk_mt::compile_accounts::CompiledAccounts;
use mollusk_mt::context::MolluskContextMt;
use mollusk_mt::mollusk::{EngineOutcome, InstructionResult, MolluskMt, SVM};
use mollusk_mt::program::ProgramCache;
use mollusk_mt::store::InMemoryAccountStore;
use mollusk_mt::sysvar::Sysvars;
use std::cell::Cell;

/// Compute units the system program charges for one instruction.
const DEFAULT_COMPUTE_UNITS: u64 = 150;

/// The system program's error for a transfer past the sender's balance.
const RESULT_WITH_NEGATIVE_LAMPORTS: u32 = 1;

/// A stand-in for the execution engine that runs the system program's
/// transfer, and counts its calls.
struct TransferEngine {
    calls: Cell<usize>,
}

impl TransferEngine {
    fn new() -> Self {
        TransferEngine { calls: Cell::new(0) }
    }
}

impl SVM for TransferEngine {
    fn execute(
        &self,
        _program_cache: &ProgramCache,
        _sysvars: &Sysvars,
        instruction: &Instruction,
        compiled: &CompiledAccounts,
    ) -> EngineOutcome {
        self.calls.set(self.calls.get() + 1);
        let unchanged = compiled.transaction_accounts.clone();
        let fail = |e: ExecutionError| EngineOutcome {
            result: Err(e),
            compute_units_consumed: DEFAULT_COMPUTE_UNITS,
            execution_time: 1,
            return_data: vec![],
            accounts: unchanged.clone(),
        };
        if instruction.program_id != Address::zero() {
            return fail(ExecutionError::UnsupportedProgramId);
        }
        if instruction.data.len() != 12 || instruction.data[0..4] != [2, 0, 0, 0] {
            return fail(ExecutionError::InvalidInstructionData);
        }
        if compiled.instruction_accounts.len() < 2 {
            return fail(ExecutionError::InvalidArgument);
        }
        let mut amount_bytes = [0u8; 8];
        amount_bytes.copy_from_slice(&instruction.data[4..12]);
        let amount = u64::from_le_bytes(amount_bytes);
        let from = compiled.instruction_accounts[0];
        let to = compiled.instruction_accounts[1];
        if !from.is_signer {
            return fail(ExecutionError::MissingRequiredSignature);
        }
        let mut accounts = compiled.transaction_accounts.clone();
        if accounts[from.index_in_transaction].1.lamports < amount {
            return fail(ExecutionError::Custom(RESULT_WITH_NEGATIVE_LAMPORTS));
        }
        accounts[from.index_in_transaction].1.lamports -= amount;
        accounts[to.index_in_transaction].1.lamports += amount;
        EngineOutcome {
            result: Ok(()),
            compute_units_consumed: DEFAULT_COMPUTE_UNITS,
            execution_time: 1,
            return_data: vec![],
            accounts,
        }
    }
}

fn addr(n: u8) -> Address {
    let mut bytes = [n; 32];
    bytes[0] = 200;
    Address::new_from_array(bytes)
}

fn system_account(lamports: u64) -> Account {
    Account::new(lamports, 0, &Address::zero())
}

fn transfer(from: &Address, to: &Address, lamports: u64) -> Instruction {
    let mut data = vec![2u8, 0, 0, 0];
    data.extend_from_slice(&lamports.to_le_bytes());
    Instruction {
        program_id: Address::zero(),
        accounts: vec![AccountMeta::new(*from, true), AccountMeta::new(*to, false)],
        data,
    }
}

fn context_with(accounts: &[(Address, u64)]) -> MolluskContextMt<InMemoryAccountStore> {
    let mut store = InMemoryAccountStore::new();
    for (k, lamports) in accounts {
        store.insert(*k, system_account(*lamports));
    }
    MolluskMt::new_default().with_context(store)
}

fn lamports_of(context: &MolluskContextMt<InMemoryAccountStore>, k: &Address) -> u64 {
    context.account_store.get(k).unwrap().lamports
}

fn resulting_lamports(result: &InstructionResult, k: &Address) -> u64 {
    result.resulting_accounts.iter().find(|(a, _)| a == k).unwrap().1.lamports
}

#[test]
fn test_transfer_with_context_mt() {
    let sender = addr(1);
    let recipient = addr(2);
    let base_lamports = 100_000_000u64;
    let transfer_amount = 42_000u64;
    let mut context = context_with(&[(sender, base_lamports), (recipient, base_lamports)]);
    let engine = TransferEngine::new();
    let result =
        context.process_instruction_log(&engine, &transfer(&sender, &recipient, transfer_amount), false);
    assert!(!result.program_result.is_err());
    assert_eq!(lamports_of(&context, &sender), base_lamports - transfer_amount);
    assert_eq!(lamports_of(&context, &recipient), base_lamports + transfer_amount);
}

#[test]
fn test_multiple_transfers_with_persistent_state_mt() {
    let alice = addr(1);
    let bob = addr(2);
    let charlie = addr(3);
    let initial_lamports = 1_000_000u64;
    let transfer1_amount = 200_000u64;
    let transfer2_amount = 150_000u64;
    let mut context = context_with(&[
        (alice, initial_lamports),
        (bob, initial_lamports),
        (charlie, initial_lamports),
    ]);
    let engine = TransferEngine::new();
    let result1 = context.process_instruction_log(&engine, &transfer(&alice, &bob, transfer1_amount), false);
    assert!(!result1.program_result.is_err());
    assert_eq!(result1.compute_units_consumed, DEFAULT_COMPUTE_UNITS);
    let result2 =
        context.process_instruction_log(&engine, &transfer(&bob, &charlie, transfer2_amount), false);
    assert!(!result2.program_result.is_err());
    assert_eq!(result2.compute_units_consumed, DEFAULT_COMPUTE_UNITS);
    assert_eq!(lamports_of(&context, &alice), initial_lamports - transfer1_amount);
    assert_eq!(
        lamports_of(&context, &bob),
        initial_lamports + transfer1_amount - transfer2_amount
    );
    assert_eq!(lamports_of(&context, &charlie), initial_lamports + transfer2_amount);
}

#[test]
fn test_multiple_transfers_with_persistent_state_mt_chain() {
    let alice = addr(1);
    let bob = addr(2);
    let charlie = addr(3);
    let initial_lamports = 1_000_000u64;
    let transfer1_amount = 200_000u64;
    let transfer2_amount = 150_000u64;
    let mut context = context_with(&[
        (alice, initial_lamports),
        (bob, initial_lamports),
        (charlie, initial_lamports),
    ]);
    let engine = TransferEngine::new();
    let result = context.process_instruction_chain_log(
        &engine,
        &vec![
            transfer(&alice, &bob, transfer1_amount),
            transfer(&bob, &charlie, transfer2_amount),
        ],
        false,
    );
    assert!(result.program_result.is_ok());
    assert_eq!(result.compute_units_consumed, 2 * DEFAULT_COMPUTE_UNITS);
    assert_eq!(lamports_of(&context, &alice), initial_lamports - transfer1_amount);
    assert_eq!(
        lamports_of(&context, &bob),
        initial_lamports + transfer1_amount - transfer2_amount
    );
    assert_eq!(lamports_of(&context, &charlie), initial_lamports + transfer2_amount);
}

#[test]
fn test_account_store_default_account_mt() {
    let mut context = MolluskMt::new_default().with_context(InMemoryAccountStore::new());
    let non_existent_key = addr(9);
    let recipient = addr(10);
    let stored_before = context.account_store.len();
    let engine = TransferEngine::new();
    let result =
        context.process_instruction_log(&engine, &transfer(&non_existent_key, &recipient, 1000), false);
    assert_eq!(
        result.program_result,
        Err(ExecutionError::Custom(RESULT_WITH_NEGATIVE_LAMPORTS))
    );
    assert!(context.account_store.get(&non_existent_key).is_none());
    assert!(context.account_store.get(&recipient).is_none());
    assert_eq!(context.account_store.len(), stored_before);
}

#[test]
fn test_process_instruction_chain_log_basic() {
    let payer = addr(1);
    let recipient = addr(2);
    let mut context = MolluskMt::new_default().with_context(InMemoryAccountStore::new());
    context.account_store.insert(payer, system_account(100_000_000));
    context.account_store.insert(recipient, system_account(0));
    let engine = TransferEngine::new();
    let result = context.process_instruction_chain_log(
        &engine,
        &vec![transfer(&payer, &recipient, 1_000_000)],
        false,
    );
    assert!(result.program_result.is_ok());
    assert_eq!(lamports_of(&context, &payer), 99_000_000);
    assert_eq!(lamports_of(&context, &recipient), 1_000_000);
}

#[test]
fn test_process_tx_multiple_transfers() {
    let alice = addr(1);
    let bob = addr(2);
    let charlie = addr(3);
    let initial_lamports = 1_000_000u64;
    let transfer1_amount = 200_000u64;
    let transfer2_amount = 150_000u64;
    let mut context = context_with(&[
        (alice, initial_lamports),
        (bob, initial_lamports),
        (charlie, initial_lamports),
    ]);
    let engine = TransferEngine::new();
    let instructions = vec![
        transfer(&alice, &bob, transfer1_amount),
        transfer(&bob, &charlie, transfer2_amount),
    ];
    let results = context.process_tx(&engine, &instructions, false);
    assert_eq!(results.len(), 2);
    for result in results.iter() {
        assert!(result.program_result.is_ok());
    }
    assert_eq!(lamports_of(&context, &alice), initial_lamports - transfer1_amount);
    assert_eq!(
        lamports_of(&context, &bob),
        initial_lamports + transfer1_amount - transfer2_amount
    );
    assert_eq!(lamports_of(&context, &charlie), initial_lamports + transfer2_amount);
}

#[test]
fn test_process_tx_with_failure() {
    let sender = addr(1);
    let recipient = addr(2);
    let base_lamports = 100_000u64;
    let transfer_amount = 200_000u64;
    let mut context = context_with(&[(sender, base_lamports), (recipient, base_lamports)]);
    let engine = TransferEngine::new();
    let instructions = vec![
        transfer(&sender, &recipient, 50_000),
        transfer(&sender, &recipient, transfer_amount),
    ];
    let results = context.process_tx(&engine, &instructions, false);
    assert_eq!(results.len(), 2);
    assert!(results[0].program_result.is_ok());
    assert!(results[1].program_result.is_err());
    assert_eq!(lamports_of(&context, &sender), base_lamports - 50_000);
    assert_eq!(lamports_of(&context, &recipient), base_lamports + 50_000);
}

#[test]
fn test_process_tx_simulated() {
    let alice = addr(1);
    let bob = addr(2);
    let initial_lamports = 500_000u64;
    let transfer_amount = 100_000u64;
    let mut context = context_with(&[(alice, initial_lamports), (bob, initial_lamports)]);
    let engine = TransferEngine::new();
    let instructions = vec![transfer(&alice, &bob, transfer_amount)];
    let results = context.process_tx(&engine, &instructions, true);
    assert_eq!(results.len(), 1);
    assert!(results[0].program_result.is_ok());
    assert_eq!(lamports_of(&context, &alice), initial_lamports);
    assert_eq!(lamports_of(&context, &bob), initial_lamports);
    let results = context.process_tx(&engine, &instructions, false);
    assert_eq!(results.len(), 1);
    assert!(results[0].program_result.is_ok());
    assert_eq!(lamports_of(&context, &alice), initial_lamports - transfer_amount);
    assert_eq!(lamports_of(&context, &bob), initial_lamports + transfer_amount);
}

#[test]
fn chain_transfers_through_three_accounts() {
    let a = addr(1);
    let b = addr(2);
    let c = addr(3);
    let mut context = context_with(&[(a, 1_000_000), (b, 1_000_000), (c, 1_000_000)]);
    let engine = TransferEngine::new();
    let result = context.process_instruction_chain_log(
        &engine,
        &vec![transfer(&a, &b, 200_000), transfer(&b, &c, 150_000)],
        false,
    );
    assert_eq!(result.program_result, Ok(()));
    assert_eq!(engine.calls.get(), 2);
    assert_eq!(lamports_of(&context, &a), 800_000);
    assert_eq!(lamports_of(&context, &b), 1_050_000);
    assert_eq!(lamports_of(&context, &c), 1_150_000);
}

#[test]
fn unfunded_signer_fails_and_store_is_unchanged() {
    let payer = addr(7);
    let recipient = addr(8);
    let mut context = context_with(&[(recipient, 5)]);
    let before = context.account_store.len();
    let engine = TransferEngine::new();
    let result = context.process_instruction_log(&engine, &transfer(&payer, &recipient, 1_000), false);
    assert_eq!(
        result.program_result,
        Err(ExecutionError::Custom(RESULT_WITH_NEGATIVE_LAMPORTS))
    );
    assert!(context.account_store.get(&payer).is_none());
    assert_eq!(lamports_of(&context, &recipient), 5);
    assert_eq!(context.account_store.len(), before);
}

#[test]
fn simulated_transfer_reports_success_without_persisting() {
    let a = addr(1);
    let b = addr(2);
    let mut context = context_with(&[(a, 500_000), (b, 500_000)]);
    let engine = TransferEngine::new();
    let ix = transfer(&a, &b, 100_000);
    let simulated = context.process_instruction_log(&engine, &ix, true);
    assert_eq!(simulated.program_result, Ok(()));
    assert_eq!(resulting_lamports(&simulated, &a), 400_000);
    assert_eq!(lamports_of(&context, &a), 500_000);
    assert_eq!(lamports_of(&context, &b), 500_000);
    let real = context.process_instruction_log(&engine, &ix, false);
    assert_eq!(real.program_result, simulated.program_result);
    assert_eq!(real.return_data, simulated.return_data);
    assert_eq!(lamports_of(&context, &a), 400_000);
    assert_eq!(lamports_of(&context, &b), 600_000);
}

#[test]
fn chain_stops_at_first_failure() {
    let a = addr(1);
    let b = addr(2);
    let c = addr(3);
    let mollusk = MolluskMt::new_default();
    let engine = TransferEngine::new();
    let accounts = vec![(a, system_account(100)), (b, system_account(0)), (c, system_account(0))];
    let chain = vec![
        transfer(&a, &b, 60),
        transfer(&a, &b, 60),
        transfer(&b, &c, 10),
    ];
    let result = mollusk.process_instruction_chain(&engine, &chain, &accounts);
    assert_eq!(
        result.program_result,
        Err(ExecutionError::Custom(RESULT_WITH_NEGATIVE_LAMPORTS))
    );
    assert_eq!(engine.calls.get(), 2);
    assert_eq!(result.compute_units_consumed, 2 * DEFAULT_COMPUTE_UNITS);
    assert_eq!(resulting_lamports(&result, &a), 40);
    assert_eq!(resulting_lamports(&result, &b), 60);
    assert_eq!(resulting_lamports(&result, &c), 0);
}

#[test]
fn failed_instruction_rolls_back_every_account() {
    let a = addr(1);
    let b = addr(2);
    let mollusk = MolluskMt::new_default();
    let engine = TransferEngine::new();
    let accounts = vec![(a, system_account(10)), (b, system_account(3))];
    let result = mollusk.process_instruction(&engine, &transfer(&a, &b, 11), &accounts);
    assert!(result.program_result.is_err());
    assert_eq!(resulting_lamports(&result, &a), 10);
    assert_eq!(resulting_lamports(&result, &b), 3);
}

#[test]
fn unsigned_transfer_is_refused() {
    let a = addr(1);
    let b = addr(2);
    let mollusk = MolluskMt::new_default();
    let engine = TransferEngine::new();
    let mut ix = transfer(&a, &b, 1);
    ix.accounts[0] = AccountMeta::new(a, false);
    let accounts = vec![(a, system_account(10)), (b, system_account(3))];
    let result = mollusk.process_instruction(&engine, &ix, &accounts);
    assert_eq!(result.program_result, Err(ExecutionError::MissingRequiredSignature));
}

#[test]
fn with_context_stores_program_stubs() {
    let context = MolluskMt::new_default().with_context(InMemoryAccountStore::new());
    assert_eq!(context.account_store.len(), 3);
    let system = context.account_store.get(&Address::zero()).unwrap();
    assert!(system.executable);
    assert_eq!(system.data, b"system_program".to_vec());
}

/// A stand-in engine that succeeds and leaves the given images in the
/// working set.
struct WritingEngine {
    writes: Vec<(Address, Account)>,
}

impl SVM for WritingEngine {
    fn execute(
        &self,
        _program_cache: &ProgramCache,
        _sysvars: &Sysvars,
        _instruction: &Instruction,
        compiled: &CompiledAccounts,
    ) -> EngineOutcome {
        let mut accounts = compiled.transaction_accounts.clone();
        for (k, image) in &self.writes {
            for (key, account) in accounts.iter_mut() {
                if key == k {
                    *account = image.clone();
                }
            }
        }
        EngineOutcome {
            result: Ok(()),
            compute_units_consumed: 1,
            execution_time: 1,
            return_data: vec![7],
            accounts,
        }
    }
}

#[test]
fn clock_account_write_updates_the_sysvar_snapshot() {
    let clock_id = Address::new_from_array(mollusk_mt::sysvar::CLOCK_ID_BYTES);
    let mut data = Vec::new();
    for field in [9u64, 0, 2, 3, 1_000] {
        data.extend_from_slice(&field.to_le_bytes());
    }
    let image = Account { lamports: 1, data, owner: Address::zero(), executable: false, rent_epoch: 0 };
    let engine = WritingEngine { writes: vec![(clock_id, image)] };
    let mut context = MolluskMt::new_default().with_context(InMemoryAccountStore::new());
    let ix = Instruction {
        program_id: Address::zero(),
        accounts: vec![AccountMeta::new(clock_id, false)],
        data: vec![],
    };
    let simulated = context.process_instruction_log(&engine, &ix, true);
    assert_eq!(simulated.return_data, vec![7]);
    assert_eq!(context.mollusk.sysvars.clock.slot, 0);
    context.process_instruction_log(&engine, &ix, false);
    assert_eq!(context.mollusk.sysvars.clock.slot, 9);
    assert_eq!(context.mollusk.sysvars.clock.epoch, 2);
    assert_eq!(context.mollusk.sysvars.clock.unix_timestamp, 1_000);
    assert_eq!(context.account_store.get(&clock_id).unwrap().lamports, 1);
}

#[test]
fn upgraded_program_becomes_visible_in_the_cache() {
    let program_id = addr(40);
    let programdata = addr(41);
    let v3 = mollusk_mt::program::LoaderKey::V3;
    let mut programdata_bytes = vec![3u8; 45];
    programdata_bytes.extend_from_slice(&[1, 2, 3]);
    let mut store = InMemoryAccountStore::new();
    store.insert(
        programdata,
        Account { lamports: 1, data: programdata_bytes, owner: v3.address(), executable: false, rent_epoch: 0 },
    );
    let mut program_data = vec![2u8, 0, 0, 0];
    program_data.extend_from_slice(&programdata.bytes);
    let program_image = Account {
        lamports: 1,
        data: program_data,
        owner: v3.address(),
        executable: true,
        rent_epoch: 0,
    };
    let engine = WritingEngine { writes: vec![(program_id, program_image)] };
    let mut context = MolluskMt::new_default().with_context(store);
    let ix = Instruction {
        program_id: Address::zero(),
        accounts: vec![AccountMeta::new(program_id, false)],
        data: vec![],
    };
    assert!(context.mollusk.program_cache.load_program(&program_id).is_none());
    let result = context.process_instruction_log(&engine, &ix, false);
    assert_eq!(result.program_result, Ok(()));
    let entry = context.mollusk.program_cache.load_program(&program_id).unwrap();
    assert_eq!(entry.loader, v3);
    assert_eq!(entry.elf, vec![1, 2, 3]);
}

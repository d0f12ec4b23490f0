//! The single-instruction executor and the chain runner, over a pluggable
//! execution engine.

use crate::account::{Account, AccountView, ExecutionError, Instruction, InstructionAccount};
use crate::address::{Address, NATIVE_LOADER_BYTES, ZERO_BYTES};
use crate::compile_accounts::{
    account_views, compile_accounts, find_account, CompiledAccounts,
};
use crate::program::{
    is_precompile, spec_is_precompile, LoaderKey, ProgramCache, LOADER_V2_BYTES, LOADER_V3_BYTES,
};
use crate::rent::{
    minimum_balance_computable, minimum_balance_spec, DEFAULT_LAMPORTS_PER_BYTE,
    UNIT_EXEMPTION_THRESHOLD,
};
use crate::sysvar::{kind_of, SysvarKind, SysvarValue, Sysvars, MAX_SLOT_HASHES};
use vstd::prelude::*;

verus! {

/// What the execution engine reports for one instruction.
pub struct EngineOutcome {
    pub result: Result<(), ExecutionError>,
    pub compute_units_consumed: u64,
    pub execution_time: u64,
    pub return_data: Vec<u8>,
    /// The transaction accounts after execution.
    pub accounts: Vec<(Address, Account)>,
}

pub struct EngineOutcomeView {
    pub result: Result<(), ExecutionError>,
    pub compute_units_consumed: u64,
    pub execution_time: u64,
    pub return_data: Seq<u8>,
    pub accounts: Seq<(Address, AccountView)>,
}

impl View for EngineOutcome {
    type V = EngineOutcomeView;

    open spec fn view(&self) -> EngineOutcomeView {
        EngineOutcomeView {
            result: self.result,
            compute_units_consumed: self.compute_units_consumed,
            execution_time: self.execution_time,
            return_data: self.return_data@,
            accounts: account_views(self.accounts@),
        }
    }
}

/// The bytecode verification and execution engine: it runs one instruction
/// on compiled accounts, with the program cache and the sysvars as its
/// environment, and reports the result, the units and time it took, the
/// return data and the transaction accounts after execution. Compute budget
/// and feature flags are the engine's own. Nothing is assumed of what it
/// reports: the harness is verified for every outcome.
pub trait SVM {
    fn execute(
        &self,
        program_cache: &ProgramCache,
        sysvars: &Sysvars,
        instruction: &Instruction,
        compiled: &CompiledAccounts,
    ) -> EngineOutcome;
}

/// The harness-level result of one instruction, or of a chain.
pub struct InstructionResult {
    pub compute_units_consumed: u64,
    pub execution_time: u64,
    pub program_result: Result<(), ExecutionError>,
    pub return_data: Vec<u8>,
    pub resulting_accounts: Vec<(Address, Account)>,
}

pub struct InstructionResultView {
    pub compute_units_consumed: u64,
    pub execution_time: u64,
    pub program_result: Result<(), ExecutionError>,
    pub return_data: Seq<u8>,
    pub resulting_accounts: Seq<(Address, AccountView)>,
}

impl View for InstructionResult {
    type V = InstructionResultView;

    open spec fn view(&self) -> InstructionResultView {
        InstructionResultView {
            compute_units_consumed: self.compute_units_consumed,
            execution_time: self.execution_time,
            program_result: self.program_result,
            return_data: self.return_data@,
            resulting_accounts: account_views(self.resulting_accounts@),
        }
    }
}

/// The images of the supplied accounts after a successful execution: the
/// engine's image where the engine holds the address, else the pre-execution one.
pub open spec fn post_images(
    accounts: Seq<(Address, AccountView)>,
    working: Seq<(Address, AccountView)>,
) -> Seq<(Address, AccountView)> {
    Seq::new(
        accounts.len(),
        |i: int|
            (
                accounts[i].0,
                match find_account(working, accounts[i].0) {
                    Some(a) => a,
                    None => accounts[i].1,
                },
            ),
    )
}

/// The result of one instruction over the supplied accounts, given what the
/// engine reported: on failure every account keeps its pre-execution image.
pub open spec fn result_of(
    accounts: Seq<(Address, AccountView)>,
    outcome: EngineOutcomeView,
) -> InstructionResultView {
    InstructionResultView {
        compute_units_consumed: outcome.compute_units_consumed,
        execution_time: outcome.execution_time,
        program_result: outcome.result,
        return_data: outcome.return_data,
        resulting_accounts: if outcome.result is Ok {
            post_images(accounts, outcome.accounts)
        } else {
            accounts
        },
    }
}

/// `a + b`, or the largest `u64` where that overflows.
pub open spec fn saturating_sum(a: u64, b: u64) -> u64 {
    if a + b > u64::MAX {
        u64::MAX
    } else {
        (a + b) as u64
    }
}

/// The result of a chain before any instruction ran.
pub open spec fn chain_start(accounts: Seq<(Address, AccountView)>) -> InstructionResultView {
    InstructionResultView {
        compute_units_consumed: 0,
        execution_time: 0,
        program_result: Ok(()),
        return_data: Seq::empty(),
        resulting_accounts: accounts,
    }
}

/// One more instruction of a chain: it runs on the accounts the previous one
/// left; units and time add up, the rest is the last instruction's.
pub open spec fn chain_step(state: InstructionResultView, outcome: EngineOutcomeView) -> InstructionResultView {
    let step = result_of(state.resulting_accounts, outcome);
    InstructionResultView {
        compute_units_consumed: saturating_sum(
            state.compute_units_consumed,
            step.compute_units_consumed,
        ),
        execution_time: saturating_sum(state.execution_time, step.execution_time),
        ..step
    }
}

/// A chain's result, given what the engine reported for each instruction run.
pub open spec fn run_chain(
    accounts: Seq<(Address, AccountView)>,
    outcomes: Seq<EngineOutcomeView>,
) -> InstructionResultView
    decreases outcomes.len(),
{
    if outcomes.len() == 0 {
        chain_start(accounts)
    } else {
        chain_step(run_chain(accounts, outcomes.drop_last()), outcomes.last())
    }
}

/// The engine was called once per instruction up to and including the first
/// failure, and not after it.
pub open spec fn stops_at_first_failure(n: nat, outcomes: Seq<EngineOutcomeView>) -> bool {
    &&& outcomes.len() <= n
    &&& forall|i: int| 0 <= i < outcomes.len() - 1 ==> (#[trigger] outcomes[i]).result is Ok
    &&& outcomes.len() < n ==> outcomes.len() > 0 && outcomes.last().result is Err
}

/// Every supplied account's image from the engine's working set.
pub fn collect_resulting_accounts(
    accounts: &Vec<(Address, Account)>,
    working: &Vec<(Address, Account)>,
) -> (r: Vec<(Address, Account)>)
    ensures
        account_views(r@) == post_images(account_views(accounts@), account_views(working@)),
{
    let ghost want = post_images(account_views(accounts@), account_views(working@));
    let mut out: Vec<(Address, Account)> = Vec::new();
    let mut i: usize = 0;
    while i < accounts.len()
        invariant
            0 <= i <= accounts.len(),
            want == post_images(account_views(accounts@), account_views(working@)),
            account_views(out@) =~= want.subrange(0, i as int),
        decreases accounts.len() - i,
    {
        let k = accounts[i].0;
        let a = match find_account_in(working, &k) {
            Some(a) => a,
            None => accounts[i].1.duplicate(),
        };
        let ghost before = out@;
        out.push((k, a));
        proof {
            assert(account_views(out@) =~= account_views(before).push((k, a@)));
            assert(want.subrange(0, i + 1) =~= want.subrange(0, i as int).push(want[i as int]));
        }
        i = i + 1;
    }
    proof {
        assert(want.subrange(0, accounts.len() as int) =~= want);
    }
    out
}

/// The first account stored under `k` in a keyed list.
pub fn find_account_in(accounts: &Vec<(Address, Account)>, k: &Address) -> (r: Option<Account>)
    ensures
        match r {
            Some(a) => find_account(account_views(accounts@), *k) == Some(a@),
            None => find_account(account_views(accounts@), *k) is None,
        },
{
    let ghost all = account_views(accounts@);
    assert(all.subrange(0, all.len() as int) =~= all);
    let mut i: usize = 0;
    while i < accounts.len()
        invariant
            0 <= i <= accounts.len(),
            all == account_views(accounts@),
            find_account(all, *k) == find_account(all.subrange(i as int, all.len() as int), *k),
        decreases accounts.len() - i,
    {
        let ghost rest = all.subrange(i as int, all.len() as int);
        assert(rest[0] == all[i as int]);
        if accounts[i].0.equals(k) {
            return Some(accounts[i].1.duplicate());
        }
        assert(rest.drop_first() =~= all.subrange(i + 1, all.len() as int));
        i = i + 1;
    }
    assert(all.subrange(i as int, all.len() as int).len() == 0);
    None
}

fn copy_accounts(accounts: &Vec<(Address, Account)>) -> (r: Vec<(Address, Account)>)
    ensures
        account_views(r@) == account_views(accounts@),
{
    let mut out: Vec<(Address, Account)> = Vec::new();
    let mut i: usize = 0;
    while i < accounts.len()
        invariant
            0 <= i <= accounts.len(),
            account_views(out@) =~= account_views(accounts@).subrange(0, i as int),
        decreases accounts.len() - i,
    {
        let ghost before = out@;
        out.push((accounts[i].0, accounts[i].1.duplicate()));
        proof {
            assert(account_views(out@) =~= account_views(before).push(account_views(accounts@)[i as int]));
        }
        i = i + 1;
    }
    out
}

/// Normalizes what the engine reported into the result over the supplied
/// accounts: their post-execution images on success, their pre-execution images
/// on failure.
pub fn finish_instruction(accounts: &Vec<(Address, Account)>, outcome: EngineOutcome) -> (r:
    InstructionResult)
    ensures
        r@ == result_of(account_views(accounts@), outcome@),
{
    let resulting_accounts = if outcome.result.is_ok() {
        collect_resulting_accounts(accounts, &outcome.accounts)
    } else {
        copy_accounts(accounts)
    };
    InstructionResult {
        compute_units_consumed: outcome.compute_units_consumed,
        execution_time: outcome.execution_time,
        program_result: outcome.result,
        return_data: outcome.return_data,
        resulting_accounts,
    }
}

/// The harness: a program cache and a sysvar snapshot.
pub struct MolluskMt {
    pub program_cache: ProgramCache,
    pub sysvars: Sysvars,
}

/// The loader that owns `program_id`: the native loader for a precompile,
/// else the cached program's loader.
pub open spec fn resolved_loader(cache: &ProgramCache, program_id: Address) -> Address {
    if spec_is_precompile(program_id) {
        Address { bytes: NATIVE_LOADER_BYTES }
    } else {
        cache.programs()[program_id].loader.spec_address()
    }
}

/// The instruction's program can be run: it is a precompile or cached.
pub open spec fn runnable(cache: &ProgramCache, program_id: Address) -> bool {
    spec_is_precompile(program_id) || cache.programs().contains_key(program_id)
}

impl MolluskMt {
    /// A harness with the builtin programs and the baseline sysvars.
    pub fn new_default() -> (r: MolluskMt)
        ensures
            r.program_cache.programs().dom() == set![
                Address { bytes: ZERO_BYTES },
                Address { bytes: LOADER_V2_BYTES },
                Address { bytes: LOADER_V3_BYTES },
            ],
            r.program_cache.programs()[Address { bytes: ZERO_BYTES }].loader == LoaderKey::Native,
            r.sysvars.clock.slot == 0,
            r.sysvars.rent.lamports_per_byte == DEFAULT_LAMPORTS_PER_BYTE,
            r.sysvars.rent.exemption_threshold == UNIT_EXEMPTION_THRESHOLD,
            r.sysvars.slot_hashes@.len() == MAX_SLOT_HASHES,
            forall|i: int| 0 <= i < MAX_SLOT_HASHES ==> #[trigger] r.sysvars.slot_hashes@[i] == (0u64, ZERO_BYTES),
    {
        MolluskMt { program_cache: ProgramCache::new(), sysvars: Sysvars::new() }
    }

    /// Adds (or replaces) a program with the given loader and bytes.
    pub fn add_program_with_elf_and_loader(
        &mut self,
        program_id: &Address,
        elf: &Vec<u8>,
        loader_key: LoaderKey,
    )
        ensures
            final(self).program_cache.programs() == old(self).program_cache.programs().insert(
                *program_id,
                crate::program::ProgramCacheEntryView { loader: loader_key, elf: elf@ },
            ),
            final(self).sysvars == old(self).sysvars,
    {
        self.program_cache.add_program(program_id, loader_key, elf);
    }

    /// Moves the clock to `slot`.
    pub fn warp_to_slot(&mut self, slot: u64)
        ensures
            final(self).sysvars.clock == (crate::sysvar::Clock { slot, ..old(self).sysvars.clock }),
            final(self).sysvars.same_except(&old(self).sysvars, SysvarKind::Clock),
            final(self).program_cache == old(self).program_cache,
    {
        self.sysvars.warp_to_slot(slot)
    }

    /// The current value of the sysvar of kind `kind`.
    pub fn get_sysvar(&self, kind: SysvarKind) -> (r: SysvarValue)
        ensures
            kind_of(r) == kind,
            self.sysvars.holds(r),
    {
        self.sysvars.get_sysvar(kind)
    }

    /// Replaces the sysvar of the value's kind.
    pub fn set_sysvar(&mut self, value: SysvarValue)
        ensures
            final(self).sysvars.holds(value),
            final(self).sysvars.same_except(&old(self).sysvars, kind_of(value)),
            final(self).program_cache == old(self).program_cache,
    {
        self.sysvars.set_sysvar(value)
    }

    /// Rotates the blockhash: a new slot-hash entry for the next slot, and
    /// the clock moved to it.
    pub fn expire_blockhash(&mut self)
        requires
            old(self).sysvars.clock.slot < u64::MAX,
        ensures
            final(self).sysvars.clock == (crate::sysvar::Clock {
                slot: (old(self).sysvars.clock.slot + 1) as u64,
                ..old(self).sysvars.clock
            }),
            exists|now: u64|
                final(self).sysvars.slot_hashes@ == crate::sysvar::add_slot_hash(
                    old(self).sysvars.slot_hashes@,
                    (old(self).sysvars.clock.slot + 1) as u64,
                    #[trigger] crate::sysvar::blockhash_of(old(self).sysvars.clock.slot, now),
                ),
            crate::sysvar::history_at_or_before(
                old(self).sysvars.slot_hashes@,
                old(self).sysvars.clock.slot,
            ) ==> (final(self).sysvars.slot_hashes@.len() > 0
                && final(self).sysvars.slot_hashes@[0].0 == final(self).sysvars.clock.slot),
            final(self).program_cache == old(self).program_cache,
    {
        self.sysvars.expire_blockhash()
    }

    /// The minimum balance for rent exemption of `data_len` bytes under the
    /// current rent schedule, and at least one lamport.
    pub fn minimum_balance_for_rent_exemption(&self, data_len: usize) -> (r: u64)
        requires
            minimum_balance_computable(self.sysvars.rent, data_len as nat),
            minimum_balance_spec(self.sysvars.rent, data_len as nat) is Some,
        ensures
            r == if minimum_balance_spec(self.sysvars.rent, data_len as nat)->0 >= 1 {
                minimum_balance_spec(self.sysvars.rent, data_len as nat)->0
            } else {
                1
            },
    {
        match self.sysvars.rent.try_minimum_balance(data_len) {
            Some(v) => if v >= 1 {
                v
            } else {
                1
            },
            None => 1,
        }
    }

    /// An account is rent exempt when it is the empty system-owned account,
    /// or when it holds the minimum balance for its data length.
    pub fn is_rent_exempt(&self, lamports: u64, space: usize, owner: &Address) -> (r: bool)
        requires
            minimum_balance_computable(self.sysvars.rent, space as nat),
            minimum_balance_spec(self.sysvars.rent, space as nat) is Some,
        ensures
            r == ((owner.bytes == ZERO_BYTES && lamports == 0) || lamports >= minimum_balance_spec(
                self.sysvars.rent,
                space as nat,
            )->0),
    {
        let empty = owner.equals(&Address::zero()) && lamports == 0;
        match self.sysvars.rent.try_minimum_balance(space) {
            Some(v) => empty || lamports >= v,
            None => empty,
        }
    }

    /// The loader that owns `program_id`.
    pub fn resolve_loader_key(&self, program_id: &Address) -> (r: Address)
        requires
            runnable(&self.program_cache, *program_id),
        ensures
            r == resolved_loader(&self.program_cache, *program_id),
    {
        if is_precompile(program_id) {
            Address { bytes: NATIVE_LOADER_BYTES }
        } else {
            match self.program_cache.loader_of(program_id) {
                Some(l) => l.address(),
                None => Address { bytes: NATIVE_LOADER_BYTES },  // unreachable: the program is cached
            }
        }
    }

    /// Runs one instruction on the supplied accounts. If the engine reports
    /// failure, every account keeps its pre-execution image.
    pub fn process_instruction<E: SVM>(
        &self,
        engine: &E,
        instruction: &Instruction,
        accounts: &Vec<(Address, Account)>,
    ) -> (r: InstructionResult)
        requires
            runnable(&self.program_cache, instruction.program_id),
        ensures
            exists|o: EngineOutcomeView| r@ == #[trigger] result_of(account_views(accounts@), o),
            r.program_result is Err ==> r@.resulting_accounts == account_views(accounts@),
    {
        let loader_key = self.resolve_loader_key(&instruction.program_id);
        let compiled = compile_accounts(instruction, accounts, loader_key);
        let outcome = engine.execute(&self.program_cache, &self.sysvars, instruction, &compiled);
        let ghost o = outcome@;
        let r = finish_instruction(accounts, outcome);
        assert(r@ == result_of(account_views(accounts@), o));
        r
    }

    /// Runs an instruction chain, each instruction on the accounts the
    /// previous one left, stopping after the first failure. Units and time
    /// add up; the result and the accounts are the last executed
    /// instruction's.
    pub fn process_instruction_chain<E: SVM>(
        &self,
        engine: &E,
        instructions: &Vec<Instruction>,
        accounts: &Vec<(Address, Account)>,
    ) -> (r: InstructionResult)
        requires
            forall|i: int|
                0 <= i < instructions@.len() ==> runnable(
                    &self.program_cache,
                    #[trigger] instructions@[i].program_id,
                ),
        ensures
            exists|outcomes: Seq<EngineOutcomeView>|
                stops_at_first_failure(instructions@.len() as nat, outcomes) && r@ == #[trigger] run_chain(
                    account_views(accounts@),
                    outcomes,
                ),
    {
        let mut state = InstructionResult {
            compute_units_consumed: 0,
            execution_time: 0,
            program_result: Ok(()),
            return_data: Vec::new(),
            resulting_accounts: copy_accounts(accounts),
        };
        let ghost mut outs: Seq<EngineOutcomeView> = Seq::empty();
        proof {
            assert(state@.return_data =~= Seq::<u8>::empty());
            assert(state@ == run_chain(account_views(accounts@), outs));
        }
        let mut i: usize = 0;
        while i < instructions.len()
            invariant
                0 <= i <= instructions.len(),
                outs.len() == i,
                forall|j: int| 0 <= j < i ==> (#[trigger] outs[j]).result is Ok,
                state@ == run_chain(account_views(accounts@), outs),
                forall|j: int|
                    0 <= j < instructions@.len() ==> runnable(
                        &self.program_cache,
                        #[trigger] instructions@[j].program_id,
                    ),
            decreases instructions.len() - i,
        {
            let ix = &instructions[i];
            assert(runnable(&self.program_cache, instructions@[i as int].program_id));
            let loader_key = self.resolve_loader_key(&ix.program_id);
            let compiled = compile_accounts(ix, &state.resulting_accounts, loader_key);
            let outcome = engine.execute(&self.program_cache, &self.sysvars, ix, &compiled);
            let ghost o = outcome@;
            let step = finish_instruction(&state.resulting_accounts, outcome);
            let failed = step.program_result.is_err();
            let next = InstructionResult {
                compute_units_consumed: state.compute_units_consumed.saturating_add(
                    step.compute_units_consumed,
                ),
                execution_time: state.execution_time.saturating_add(step.execution_time),
                program_result: step.program_result,
                return_data: step.return_data,
                resulting_accounts: step.resulting_accounts,
            };
            proof {
                let prev = outs;
                outs = outs.push(o);
                assert(outs.drop_last() =~= prev);
                assert(next@ == chain_step(state@, o));
            }
            state = next;
            if failed {
                proof {
                    assert(stops_at_first_failure(instructions@.len() as nat, outs));
                }
                return state;
            }
            i = i + 1;
        }
        proof {
            assert(stops_at_first_failure(instructions@.len() as nat, outs));
        }
        state
    }

    /// Runs one instruction on a transaction-wide working set that earlier
    /// instructions may have changed. On success the working set becomes the
    /// engine's; on failure it is left as it was. The result carries no
    /// accounts: they stay in the working set.
    pub fn process_instruction_with_compiled_context<E: SVM>(
        &self,
        engine: &E,
        instruction: &Instruction,
        transaction_accounts: &mut Vec<(Address, Account)>,
        instruction_accounts: Vec<InstructionAccount>,
        program_id_index: usize,
    ) -> (r: InstructionResult)
        ensures
            exists|o: EngineOutcomeView|
                #[trigger] working_set_after(account_views(old(transaction_accounts)@), o)
                    == account_views(final(transaction_accounts)@) && r.program_result == o.result
                    && r.compute_units_consumed == o.compute_units_consumed && r.execution_time
                    == o.execution_time && r.return_data@ == o.return_data,
            r.resulting_accounts@.len() == 0,
            r.program_result is Err ==> account_views(final(transaction_accounts)@) == account_views(
                old(transaction_accounts)@,
            ),
    {
        let mut working: Vec<(Address, Account)> = Vec::new();
        std::mem::swap(&mut working, transaction_accounts);
        let compiled = CompiledAccounts {
            program_id_index,
            instruction_accounts,
            transaction_accounts: working,
        };
        let outcome = engine.execute(&self.program_cache, &self.sysvars, instruction, &compiled);
        let ghost o = outcome@;
        let CompiledAccounts { transaction_accounts: before, .. } = compiled;
        assert(before@ == old(transaction_accounts)@);
        if outcome.result.is_ok() {
            *transaction_accounts = outcome.accounts;
        } else {
            *transaction_accounts = before;
        }
        let r = InstructionResult {
            compute_units_consumed: outcome.compute_units_consumed,
            execution_time: outcome.execution_time,
            program_result: outcome.result,
            return_data: outcome.return_data,
            resulting_accounts: Vec::new(),
        };
        assert(working_set_after(account_views(old(transaction_accounts)@), o) == account_views(
            transaction_accounts@,
        ));
        r
    }
}

/// The working set after one instruction: the engine's on success, the
/// previous one on failure.
pub open spec fn working_set_after(
    working: Seq<(Address, AccountView)>,
    outcome: EngineOutcomeView,
) -> Seq<(Address, AccountView)> {
    if outcome.result is Ok {
        outcome.accounts
    } else {
        working
    }
}

} // verus!

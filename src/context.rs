//! The stateful context: a harness over an account store that loads what
//! an instruction references, runs it, and persists its effects only when it
//! succeeded and is not a simulation.
//!
//! Sysvar accounts: when a persisted result holds clock or rent account
//! bytes, they replace the context's clock or rent schedule, so later
//! instructions of the same chain and later calls alike see them. A
//! simulation or a failure changes neither the store nor the sysvars nor the
//! program cache.
//!
//! The context owns its store and its cache; callers that share one context
//! across threads hold it behind a reader/writer lock, which gives every
//! write exclusive access.

use crate::account::{Account, AccountMeta, AccountView, Instruction, InstructionView};
use crate::address::{Address, NATIVE_LOADER_BYTES, ZERO_BYTES};
use crate::compile_accounts::{
    account_views, batch_refs, compile_instruction_accounts, compile_transaction_accounts,
    batch_accounts_spec, find_account, lemma_batch_key_map_covers,
    refs_key,
};
use crate::keys::{key_map_of_instructions, merge_metas, views_of, KeyMap};
use crate::mollusk::{
    chain_start, result_of, runnable, saturating_sum, EngineOutcomeView, InstructionResult,
    InstructionResultView, MolluskMt, SVM, find_account_in, working_set_after,
};
use crate::program::{
    decode_program_state, program_account_spec, LoaderKey, ProgramCache, ProgramCacheEntryView,
    LOADER_V3_BYTES, PROGRAMDATA_METADATA_SIZE,
};
use crate::store::AccountStore;
use crate::sysvar::{
    clock_from_bytes, decode_clock, decode_rent, rent_from_bytes, Clock, CLOCK_ID_BYTES,
    RENT_ID_BYTES,
};
use crate::rent::Rent;
use vstd::prelude::*;

verus! {

/// A harness with persistent account state.
pub struct MolluskContextMt<AS: AccountStore> {
    pub mollusk: MolluskMt,
    pub account_store: AS,
    pub hydrate_store: bool,
}

/// The account a store gives for `k`: the stored one, else its default.
pub open spec fn stored_or_default<AS: AccountStore>(store: &AS, k: Address) -> AccountView {
    if store.stored().contains_key(k) {
        store.stored()[k]
    } else {
        store.default_for(k)
    }
}

/// The addresses the account references of `ixs` name, deduplicated in
/// first-seen order (with merged privileges).
pub open spec fn referenced_accounts(ixs: Seq<InstructionView>) -> Seq<crate::account::AccountMeta>
    decreases ixs.len(),
{
    if ixs.len() == 0 {
        Seq::empty()
    } else {
        merge_metas(referenced_accounts(ixs.drop_last()), ixs.last().accounts)
    }
}

/// The accounts loaded for `ixs` from `store`.
pub open spec fn loaded_accounts<AS: AccountStore>(store: &AS, ixs: Seq<InstructionView>) -> Seq<
    (Address, AccountView),
> {
    let km = referenced_accounts(ixs);
    Seq::new(km.len(), |i: int| (km[i].pubkey, stored_or_default(store, km[i].pubkey)))
}

/// `m` with each account of `res` stored in order.
pub open spec fn insert_all(m: Map<Address, AccountView>, res: Seq<(Address, AccountView)>) -> Map<
    Address,
    AccountView,
>
    decreases res.len(),
{
    if res.len() == 0 {
        m
    } else {
        insert_all(m, res.drop_last()).insert(res.last().0, res.last().1)
    }
}

/// The array whose elements are `b`.
pub open spec fn array_of(b: Seq<u8>) -> [u8; 32] {
    choose|x: [u8; 32]| x@ == b
}

/// The address whose bytes are `b`.
pub open spec fn address_of(b: Seq<u8>) -> Address {
    Address { bytes: array_of(b) }
}

/// An executable program account of the upgradeable loader.
pub open spec fn is_upgradeable_program(k: Address, a: AccountView) -> bool {
    &&& a.executable
    &&& k != Address { bytes: ZERO_BYTES }
    &&& a.owner != Address { bytes: NATIVE_LOADER_BYTES }
    &&& a.owner == Address { bytes: LOADER_V3_BYTES }
}

/// An account whose bytes may update a sysvar: not an executable program.
pub open spec fn sysvar_eligible(k: Address, a: AccountView) -> bool {
    !(a.executable && k != Address { bytes: ZERO_BYTES } && a.owner != Address {
        bytes: NATIVE_LOADER_BYTES,
    })
}

/// The program bytes a resulting upgradeable program account makes visible:
/// what follows the metadata in its program-data account, when the store
/// holds that account and it has any.
pub open spec fn redeployed_elf(store: Map<Address, AccountView>, k: Address, a: AccountView) -> Option<
    Seq<u8>,
> {
    if is_upgradeable_program(k, a) && a.data.len() >= 36 && a.data.subrange(0, 4) == seq![
        2u8,
        0u8,
        0u8,
        0u8,
    ] {
        let pd = address_of(a.data.subrange(4, 36));
        if store.contains_key(pd) && store[pd].data.len() > PROGRAMDATA_METADATA_SIZE {
            Some(store[pd].data.subrange(PROGRAMDATA_METADATA_SIZE as int, store[pd].data.len() as int))
        } else {
            None
        }
    } else {
        None
    }
}

/// The program cache after the redeploys that `res` makes visible.
pub open spec fn cache_after(
    cache: Map<Address, ProgramCacheEntryView>,
    store: Map<Address, AccountView>,
    res: Seq<(Address, AccountView)>,
) -> Map<Address, ProgramCacheEntryView>
    decreases res.len(),
{
    if res.len() == 0 {
        cache
    } else {
        let c = cache_after(cache, store, res.drop_last());
        match redeployed_elf(store, res.last().0, res.last().1) {
            Some(elf) => c.insert(res.last().0, ProgramCacheEntryView { loader: LoaderKey::V3, elf }),
            None => c,
        }
    }
}

/// The clock after the clock-account writes in `res`.
pub open spec fn clock_after(clock: Clock, res: Seq<(Address, AccountView)>) -> Clock
    decreases res.len(),
{
    if res.len() == 0 {
        clock
    } else {
        let (k, a) = res.last();
        if k == (Address { bytes: CLOCK_ID_BYTES }) && sysvar_eligible(k, a) && a.data.len() >= 40 {
            clock_from_bytes(a.data)
        } else {
            clock_after(clock, res.drop_last())
        }
    }
}

/// The rent schedule after the rent-account writes in `res`.
pub open spec fn rent_after(rent: Rent, res: Seq<(Address, AccountView)>) -> Rent
    decreases res.len(),
{
    if res.len() == 0 {
        rent
    } else {
        let (k, a) = res.last();
        if k == (Address { bytes: RENT_ID_BYTES }) && sysvar_eligible(k, a) && a.data.len() >= 17 {
            rent_from_bytes(a.data)
        } else {
            rent_after(rent, res.drop_last())
        }
    }
}

pub proof fn lemma_cache_after_grows(
    cache: Map<Address, ProgramCacheEntryView>,
    store: Map<Address, AccountView>,
    res: Seq<(Address, AccountView)>,
)
    ensures
        forall|k: Address| cache.contains_key(k) ==> #[trigger] cache_after(cache, store, res).contains_key(k),
    decreases res.len(),
{
    if res.len() > 0 {
        lemma_cache_after_grows(cache, store, res.drop_last());
        assert forall|k: Address| cache.contains_key(k) implies #[trigger] cache_after(
            cache,
            store,
            res,
        ).contains_key(k) by {
            assert(cache_after(cache, store, res.drop_last()).contains_key(k));
        }
    }
}

impl MolluskMt {
    /// Wraps the harness around an account store, first storing the stub
    /// account of every cached program that the store does not hold.
    pub fn with_context<AS: AccountStore>(self, account_store: AS) -> (r: MolluskContextMt<AS>)
        ensures
            r.mollusk == self,
            r.hydrate_store,
            forall|k: Address| #[trigger] r.account_store.default_for(k) == account_store.default_for(k),
            forall|k: Address|
                #[trigger] r.account_store.stored().contains_key(k) <==> (
                account_store.stored().contains_key(k) || self.program_cache.programs().contains_key(k)),
            forall|k: Address|
                #[trigger] r.account_store.stored().contains_key(k) ==> r.account_store.stored()[k] == if account_store.stored().contains_key(k) {
                    account_store.stored()[k]
                } else {
                    program_account_spec(k, self.program_cache.programs()[k])
                },
    {
        let mut store = account_store;
        let stubs = self.program_cache.get_all_keyed_program_accounts();
        let ghost s = stubs@;
        let ghost programs = self.program_cache.programs();
        let mut i: usize = 0;
        while i < stubs.len()
            invariant
                0 <= i <= s.len(),
                s == stubs@,
                crate::keyed::addresses_unique(s),
                forall|j: int|
                    0 <= j < s.len() ==> programs.contains_key(#[trigger] s[j].0) && s[j].1@
                        == program_account_spec(s[j].0, programs[s[j].0]),
                forall|k: Address| #[trigger] store.default_for(k) == account_store.default_for(k),
                forall|k: Address|
                    #[trigger] store.stored().contains_key(k) <==> (account_store.stored().contains_key(k)
                        || exists|j: int| 0 <= j < i && s[j].0 == k),
                forall|k: Address|
                    #[trigger] store.stored().contains_key(k) ==> store.stored()[k] == if account_store.stored().contains_key(k) {
                        account_store.stored()[k]
                    } else {
                        program_account_spec(k, programs[k])
                    },
            decreases s.len() - i,
        {
            let k = stubs[i].0;
            let ghost old_store = store;
            match store.get_account(&k) {
                Some(_) => {},
                None => {
                    store.store_account(k, stubs[i].1.duplicate());
                },
            }
            proof {
                assert forall|x: Address|
                    #[trigger] store.stored().contains_key(x) <==> (account_store.stored().contains_key(x)
                        || exists|j: int| 0 <= j < i + 1 && s[j].0 == x) by {
                    if x == k {
                        assert(s[i as int].0 == x);
                    }
                    if exists|j: int| 0 <= j < i + 1 && s[j].0 == x {
                        let j = choose|j: int| 0 <= j < i + 1 && s[j].0 == x;
                        if j == i {
                            assert(x == k);
                        }
                    }
                }
                assert forall|x: Address|
                    #[trigger] store.stored().contains_key(x) implies store.stored()[x] == if account_store.stored().contains_key(x) {
                        account_store.stored()[x]
                    } else {
                        program_account_spec(x, programs[x])
                    } by {
                    if x == k && !old_store.stored().contains_key(k) {
                        assert(!account_store.stored().contains_key(k));
                    }
                }
            }
            i = i + 1;
        }
        proof {
            assert forall|x: Address|
                #[trigger] store.stored().contains_key(x) <==> (account_store.stored().contains_key(x)
                    || programs.contains_key(x)) by {
                if exists|j: int| 0 <= j < s.len() && s[j].0 == x {
                    let j = choose|j: int| 0 <= j < s.len() && s[j].0 == x;
                    assert(programs.contains_key(s[j].0));
                }
                if programs.contains_key(x) {
                    let j = choose|j: int| 0 <= j < s.len() && s[j].0 == x;
                }
            }
        }
        MolluskContextMt { mollusk: self, account_store: store, hydrate_store: true }
    }
}

} // verus!

verus! {

impl<AS: AccountStore> MolluskContextMt<AS> {
    /// The accounts that the instructions' account references name, each
    /// once in first-seen order, from the store or its default.
    pub fn load_accounts_for_instructions(&self, instructions: &Vec<Instruction>) -> (r: Vec<
        (Address, Account),
    >)
        ensures
            account_views(r@) == loaded_accounts(&self.account_store, views_of(instructions@)),
    {
        let mut key_map = KeyMap::new();
        let mut i: usize = 0;
        while i < instructions.len()
            invariant
                0 <= i <= instructions.len(),
                key_map.wf(),
                key_map@ == referenced_accounts(views_of(instructions@.subrange(0, i as int))),
            decreases instructions.len() - i,
        {
            key_map.add_accounts(&instructions[i]);
            proof {
                let next = views_of(instructions@.subrange(0, i + 1));
                assert(next.drop_last() =~= views_of(instructions@.subrange(0, i as int)));
                assert(next.last() == instructions@[i as int]@);
            }
            i = i + 1;
        }
        proof {
            assert(instructions@.subrange(0, instructions.len() as int) =~= instructions@);
        }
        let ghost km = key_map@;
        let ghost want = loaded_accounts(&self.account_store, views_of(instructions@));
        let mut out: Vec<(Address, Account)> = Vec::new();
        let mut j: usize = 0;
        while j < key_map.entries.len()
            invariant
                0 <= j <= km.len(),
                km == key_map@,
                km == referenced_accounts(views_of(instructions@)),
                want == loaded_accounts(&self.account_store, views_of(instructions@)),
                want.len() == km.len(),
                account_views(out@) =~= want.subrange(0, j as int),
            decreases km.len() - j,
        {
            let k = key_map.entries[j].pubkey;
            let a = match self.account_store.get_account(&k) {
                Some(a) => a,
                None => self.account_store.default_account(&k),
            };
            let ghost before = out@;
            out.push((k, a));
            proof {
                assert(account_views(out@) =~= account_views(before).push((k, a@)));
                assert(want.subrange(0, j + 1) =~= want.subrange(0, j as int).push(want[j as int]));
            }
            j = j + 1;
        }
        proof {
            assert(want.subrange(0, km.len() as int) =~= want);
        }
        out
    }

    /// The context after absorbing `result` (unless simulated): every
    /// resulting account is persisted; then each resulting upgradeable
    /// program whose program-data account the store holds is re-registered
    /// with the bytes that follow the metadata, and clock or rent account
    /// bytes replace the clock or the rent schedule.
    pub open spec fn absorbed(old_ctx: &Self, new_ctx: &Self, res: Seq<(Address, AccountView)>) -> bool {
        let stored = insert_all(old_ctx.account_store.stored(), res);
        &&& new_ctx.account_store.stored() == stored
        &&& forall|k: Address| #[trigger] new_ctx.account_store.default_for(k)
            == old_ctx.account_store.default_for(k)
        &&& new_ctx.mollusk.program_cache.programs() == cache_after(
            old_ctx.mollusk.program_cache.programs(),
            stored,
            res,
        )
        &&& new_ctx.mollusk.sysvars.clock == clock_after(old_ctx.mollusk.sysvars.clock, res)
        &&& new_ctx.mollusk.sysvars.rent == rent_after(old_ctx.mollusk.sysvars.rent, res)
        &&& new_ctx.mollusk.sysvars.slot_hashes@ == old_ctx.mollusk.sysvars.slot_hashes@
        &&& new_ctx.mollusk.sysvars.stake_history@ == old_ctx.mollusk.sysvars.stake_history@
        &&& new_ctx.mollusk.sysvars.epoch_schedule == old_ctx.mollusk.sysvars.epoch_schedule
        &&& new_ctx.mollusk.sysvars.epoch_rewards == old_ctx.mollusk.sysvars.epoch_rewards
        &&& new_ctx.mollusk.sysvars.last_restart_slot == old_ctx.mollusk.sysvars.last_restart_slot
        &&& new_ctx.hydrate_store == old_ctx.hydrate_store
    }

    /// Absorbs a result into the context; a simulated result changes nothing.
    pub fn consume_mollusk_result(&mut self, resulting_accounts: &Vec<(Address, Account)>, simulated: bool)
        ensures
            simulated ==> *final(self) == *old(self),
            !simulated ==> Self::absorbed(old(self), final(self), account_views(resulting_accounts@)),
    {
        if simulated {
            return;
        }
        let ghost res = account_views(resulting_accounts@);
        let mut i: usize = 0;
        while i < resulting_accounts.len()
            invariant
                0 <= i <= resulting_accounts.len(),
                res == account_views(resulting_accounts@),
                self.account_store.stored() == insert_all(
                    old(self).account_store.stored(),
                    res.subrange(0, i as int),
                ),
                forall|k: Address| #[trigger] self.account_store.default_for(k)
                    == old(self).account_store.default_for(k),
                self.mollusk == old(self).mollusk,
                self.hydrate_store == old(self).hydrate_store,
            decreases resulting_accounts.len() - i,
        {
            let k = resulting_accounts[i].0;
            let a = resulting_accounts[i].1.duplicate();
            self.account_store.store_account(k, a);
            proof {
                assert(res.subrange(0, i + 1).drop_last() =~= res.subrange(0, i as int));
            }
            i = i + 1;
        }
        proof {
            assert(res.subrange(0, res.len() as int) =~= res);
        }
        let ghost stored = self.account_store.stored();
        let ghost cache0 = self.mollusk.program_cache.programs();
        let ghost sys0 = self.mollusk.sysvars;
        let mut j: usize = 0;
        while j < resulting_accounts.len()
            invariant
                0 <= j <= resulting_accounts.len(),
                res == account_views(resulting_accounts@),
                stored == self.account_store.stored(),
                stored == insert_all(old(self).account_store.stored(), res),
                forall|k: Address| #[trigger] self.account_store.default_for(k)
                    == old(self).account_store.default_for(k),
                cache0 == old(self).mollusk.program_cache.programs(),
                sys0 == old(self).mollusk.sysvars,
                self.mollusk.program_cache.programs() == cache_after(cache0, stored, res.subrange(0, j as int)),
                self.mollusk.sysvars.clock == clock_after(sys0.clock, res.subrange(0, j as int)),
                self.mollusk.sysvars.rent == rent_after(sys0.rent, res.subrange(0, j as int)),
                self.mollusk.sysvars.slot_hashes@ == sys0.slot_hashes@,
                self.mollusk.sysvars.stake_history@ == sys0.stake_history@,
                self.mollusk.sysvars.epoch_schedule == sys0.epoch_schedule,
                self.mollusk.sysvars.epoch_rewards == sys0.epoch_rewards,
                self.mollusk.sysvars.last_restart_slot == sys0.last_restart_slot,
                self.hydrate_store == old(self).hydrate_store,
            decreases resulting_accounts.len() - j,
        {
            let k = &resulting_accounts[j].0;
            let a = &resulting_accounts[j].1;
            proof {
                assert(res.subrange(0, j + 1).drop_last() =~= res.subrange(0, j as int));
                assert(res.subrange(0, j + 1).last() == (*k, a@));
            }
            let zero = Address::zero();
            let native = Address { bytes: NATIVE_LOADER_BYTES };
            let v3 = Address { bytes: LOADER_V3_BYTES };
            if a.executable && !k.equals(&zero) && !a.owner.equals(&native) {
                if a.owner.equals(&v3) {
                    match decode_program_state(&a.data) {
                        Some(pd) => {
                            proof {
                                let b = a.data@.subrange(4, 36);
                                assert(pd.bytes@ == b);
                                let x = array_of(b);
                                assert(x@ == pd.bytes@);
                                assert forall|q: int| 0 <= q < 32 implies x[q] == pd.bytes[q] by {
                                    assert(x@[q] == pd.bytes@[q]);
                                }
                                assert(x =~= pd.bytes);
                                assert(address_of(b) == pd);
                            }
                            match self.account_store.get_account(&pd) {
                                Some(pda) => {
                                    if pda.data.len() > PROGRAMDATA_METADATA_SIZE {
                                        let elf = slice_from(&pda.data, PROGRAMDATA_METADATA_SIZE);
                                        self.mollusk.add_program_with_elf_and_loader(
                                            k,
                                            &elf,
                                            LoaderKey::V3,
                                        );
                                    }
                                },
                                None => {},
                            }
                        },
                        None => {},
                    }
                }
            } else {
                let clock_id = Address { bytes: CLOCK_ID_BYTES };
                let rent_id = Address { bytes: RENT_ID_BYTES };
                if k.equals(&clock_id) {
                    match decode_clock(&a.data) {
                        Some(c) => {
                            self.mollusk.sysvars.clock = c;
                        },
                        None => {},
                    }
                }
                if k.equals(&rent_id) {
                    match decode_rent(&a.data) {
                        Some(x) => {
                            self.mollusk.sysvars.rent = x;
                        },
                        None => {},
                    }
                }
            }
            j = j + 1;
        }
        proof {
            assert(res.subrange(0, res.len() as int) =~= res);
        }
    }
}

/// The bytes of `v` from `start` on.
fn slice_from(v: &Vec<u8>, start: usize) -> (r: Vec<u8>)
    requires
        start <= v@.len(),
    ensures
        r@ == v@.subrange(start as int, v@.len() as int),
{
    let mut r: Vec<u8> = Vec::new();
    let mut i: usize = start;
    while i < v.len()
        invariant
            start <= i <= v@.len(),
            r@ == v@.subrange(start as int, i as int),
        decreases v.len() - i,
    {
        r.push(v[i]);
        proof {
            assert(v@.subrange(start as int, i + 1) =~= v@.subrange(start as int, i as int).push(v@[i as int]));
        }
        i = i + 1;
    }
    r
}

} // verus!

verus! {

/// The aggregate of the results of a chain's executed instructions: units
/// and time add up, the rest is the last one's.
pub open spec fn chain_of_results(results: Seq<InstructionResultView>) -> InstructionResultView
    decreases results.len(),
{
    if results.len() == 0 {
        chain_start(Seq::empty())
    } else {
        let s = chain_of_results(results.drop_last());
        let x = results.last();
        InstructionResultView {
            compute_units_consumed: saturating_sum(s.compute_units_consumed, x.compute_units_consumed),
            execution_time: saturating_sum(s.execution_time, x.execution_time),
            ..x
        }
    }
}

/// The results stop at the first failure.
pub open spec fn results_stop_at_first_failure(n: nat, results: Seq<InstructionResultView>) -> bool {
    &&& results.len() <= n
    &&& forall|i: int| 0 <= i < results.len() - 1 ==> (#[trigger] results[i]).program_result is Ok
    &&& results.len() < n ==> results.len() > 0 && results.last().program_result is Err
}

/// Every instruction of `ixs` can be run by `cache`.
pub open spec fn all_runnable(cache: &ProgramCache, ixs: Seq<Instruction>) -> bool {
    forall|i: int| 0 <= i < ixs.len() ==> runnable(cache, #[trigger] ixs[i].program_id)
}

impl<AS: AccountStore> MolluskContextMt<AS> {
    /// One instruction run from context `before` to context `after` with
    /// result `r`: the engine ran it on the accounts it references, loaded
    /// from the store; a simulation or a failure leaves the context as it
    /// was, a real success is absorbed.
    pub open spec fn instruction_step(
        before: &Self,
        after: &Self,
        ix: InstructionView,
        r: InstructionResultView,
        simulated: bool,
    ) -> bool {
        &&& exists|o: EngineOutcomeView|
            r == #[trigger] result_of(loaded_accounts(&before.account_store, seq![ix]), o)
        &&& (simulated || r.program_result is Err) ==> *after == *before
        &&& (!simulated && r.program_result is Ok) ==> Self::absorbed(
            before,
            after,
            r.resulting_accounts,
        )
    }

    /// The runs of a chain: `states[j]` is the context before instruction
    /// `j` and `states[j + 1]` the one after it, for each executed
    /// instruction.
    pub open spec fn chain_trace(
        states: Seq<Self>,
        ixs: Seq<Instruction>,
        results: Seq<InstructionResultView>,
        simulated: bool,
    ) -> bool {
        &&& states.len() == results.len() + 1
        &&& results.len() <= ixs.len()
        &&& forall|j: int|
            0 <= j < results.len() ==> Self::instruction_step(
                &states[j],
                &states[j + 1],
                (#[trigger] ixs[j])@,
                results[j],
                simulated,
            )
    }

    /// Runs one instruction on the accounts it references, loaded from the
    /// store. The context absorbs the result only when the instruction
    /// succeeded and this is not a simulation; otherwise nothing changes.
    pub fn process_instruction_log<E: SVM>(
        &mut self,
        engine: &E,
        instruction: &Instruction,
        simulated: bool,
    ) -> (r: InstructionResult)
        requires
            runnable(&old(self).mollusk.program_cache, instruction.program_id),
        ensures
            Self::instruction_step(old(self), final(self), instruction@, r@, simulated),
    {
        let ixs = vec![instruction.duplicate()];
        proof {
            assert(views_of(ixs@) =~= seq![instruction@]);
        }
        let accounts = self.load_accounts_for_instructions(&ixs);
        let result = self.mollusk.process_instruction(engine, instruction, &accounts);
        if result.program_result.is_ok() {
            self.consume_mollusk_result(&result.resulting_accounts, simulated);
        }
        result
    }

    /// Runs a chain of instructions, each loaded from and absorbed into the
    /// context as by [`Self::process_instruction_log`], stopping after the
    /// first failure. Units and time add up; the rest is the last executed
    /// instruction's.
    pub fn process_instruction_chain_log<E: SVM>(
        &mut self,
        engine: &E,
        instructions: &Vec<Instruction>,
        simulated: bool,
    ) -> (r: InstructionResult)
        requires
            all_runnable(&old(self).mollusk.program_cache, instructions@),
        ensures
            simulated ==> *final(self) == *old(self),
            exists|states: Seq<Self>, results: Seq<InstructionResultView>|
                #[trigger] Self::chain_trace(states, instructions@, results, simulated)
                    && states[0] == *old(self) && states.last() == *final(self)
                    && results_stop_at_first_failure(instructions@.len() as nat, results) && r@
                    == chain_of_results(results),
    {
        let mut state = InstructionResult {
            compute_units_consumed: 0,
            execution_time: 0,
            program_result: Ok(()),
            return_data: Vec::new(),
            resulting_accounts: Vec::new(),
        };
        let ghost mut results: Seq<InstructionResultView> = Seq::empty();
        let ghost mut states: Seq<Self> = seq![*self];
        proof {
            assert(state@.return_data =~= Seq::<u8>::empty());
            assert(state@.resulting_accounts =~= Seq::<(Address, AccountView)>::empty());
        }
        let mut i: usize = 0;
        while i < instructions.len()
            invariant
                0 <= i <= instructions.len(),
                results.len() == i,
                forall|j: int| 0 <= j < i ==> (#[trigger] results[j]).program_result is Ok,
                state@ == chain_of_results(results),
                all_runnable(&self.mollusk.program_cache, instructions@),
                simulated ==> *self == *old(self),
                Self::chain_trace(states, instructions@, results, simulated),
                states[0] == *old(self),
                states.last() == *self,
            decreases instructions.len() - i,
        {
            let ghost before = *self;
            assert(runnable(&self.mollusk.program_cache, instructions@[i as int].program_id));
            let step = self.process_instruction_log(engine, &instructions[i], simulated);
            proof {
                if !simulated && step.program_result is Ok {
                    lemma_cache_after_grows(
                        before.mollusk.program_cache.programs(),
                        self.account_store.stored(),
                        step@.resulting_accounts,
                    );
                    assert forall|j: int| 0 <= j < instructions@.len() implies runnable(
                        &self.mollusk.program_cache,
                        #[trigger] instructions@[j].program_id,
                    ) by {
                        assert(runnable(&before.mollusk.program_cache, instructions@[j].program_id));
                    }
                }
            }
            let failed = step.program_result.is_err();
            let ghost sv = step@;
            let next = InstructionResult {
                compute_units_consumed: state.compute_units_consumed.saturating_add(
                    step.compute_units_consumed,
                ),
                execution_time: state.execution_time.saturating_add(step.execution_time),
                program_result: step.program_result,
                return_data: step.return_data,
                resulting_accounts: step.resulting_accounts,
            };
            proof {
                let prev = results;
                let prev_states = states;
                results = results.push(sv);
                states = states.push(*self);
                assert(results.drop_last() =~= prev);
                assert forall|j: int| 0 <= j < results.len() implies Self::instruction_step(
                    &states[j],
                    &states[j + 1],
                    (#[trigger] instructions@[j])@,
                    results[j],
                    simulated,
                ) by {
                    if j < prev.len() {
                        assert(states[j] == prev_states[j]);
                        assert(states[j + 1] == prev_states[j + 1]);
                        assert(results[j] == prev[j]);
                    } else {
                        assert(states[j] == before);
                        assert(instructions@[j] == instructions@[i as int]);
                    }
                }
                assert(states[0] == prev_states[0]);
                assert(Self::chain_trace(states, instructions@, results, simulated));
            }
            state = next;
            if failed {
                proof {
                    assert(results_stop_at_first_failure(instructions@.len() as nat, results));
                }
                return state;
            }
            i = i + 1;
        }
        proof {
            assert(results_stop_at_first_failure(instructions@.len() as nat, results));
        }
        state
    }
}

} // verus!

verus! {


/// `store` with the working-set image of each address that `metas`
/// references and the working set holds, in order.
pub open spec fn persist_referenced(
    store: Map<Address, AccountView>,
    metas: Seq<AccountMeta>,
    working: Seq<(Address, AccountView)>,
) -> Map<Address, AccountView>
    decreases metas.len(),
{
    if metas.len() == 0 {
        store
    } else {
        let s = persist_referenced(store, metas.drop_last(), working);
        match find_account(working, metas.last().pubkey) {
            Some(a) => s.insert(metas.last().pubkey, a),
            None => s,
        }
    }
}

/// A result of the transaction runner carries what the engine reported, and
/// no accounts.
pub open spec fn reports(r: InstructionResultView, o: EngineOutcomeView) -> bool {
    &&& r.program_result == o.result
    &&& r.compute_units_consumed == o.compute_units_consumed
    &&& r.execution_time == o.execution_time
    &&& r.return_data == o.return_data
    &&& r.resulting_accounts.len() == 0
}

/// The runs of a transaction: `working[j]` and `stores[j]` are the working
/// set and the stored accounts before instruction `j`, the engine reported
/// `outcomes[j]` for it; the working set follows each success, and after a
/// real success the accounts the instruction references are persisted.
pub open spec fn tx_trace(
    ixs: Seq<InstructionView>,
    outcomes: Seq<EngineOutcomeView>,
    working: Seq<Seq<(Address, AccountView)>>,
    stores: Seq<Map<Address, AccountView>>,
    simulated: bool,
) -> bool {
    &&& working.len() == outcomes.len() + 1
    &&& stores.len() == outcomes.len() + 1
    &&& outcomes.len() <= ixs.len()
    &&& forall|j: int|
        0 <= j < outcomes.len() ==> working[j + 1] == working_set_after(
            working[j],
            #[trigger] outcomes[j],
        ) && stores[j + 1] == if !simulated && outcomes[j].result is Ok {
            persist_referenced(stores[j], ixs[j].accounts, working[j + 1])
        } else {
            stores[j]
        }
}

impl<AS: AccountStore> MolluskContextMt<AS> {
    /// Runs a batch of instructions as one transaction over a shared working
    /// set compiled once for the whole batch, so that each instruction sees
    /// the effects of the ones before it. After each successful instruction
    /// (unless simulated) the accounts it references are persisted from the
    /// working set; the batch stops after the first failure.
    pub fn process_tx<E: SVM>(
        &mut self,
        engine: &E,
        instructions: &Vec<Instruction>,
        simulated: bool,
    ) -> (r: Vec<InstructionResult>)
        ensures
            simulated ==> *final(self) == *old(self),
            exists|
                outcomes: Seq<EngineOutcomeView>,
                working: Seq<Seq<(Address, AccountView)>>,
                stores: Seq<Map<Address, AccountView>>,
            |
                #[trigger] tx_trace(views_of(instructions@), outcomes, working, stores, simulated)
                    && working[0] == batch_accounts_spec(
                    views_of(instructions@),
                    loaded_accounts(&old(self).account_store, views_of(instructions@)),
                    Address { bytes: NATIVE_LOADER_BYTES },
                ) && stores[0] == old(self).account_store.stored() && final(self).account_store.stored()
                    == stores.last() && r@.len() == outcomes.len() && forall|j: int|
                    0 <= j < outcomes.len() ==> reports((#[trigger] r@[j])@, outcomes[j]),
            r@.len() <= instructions@.len(),
            forall|i: int| 0 <= i < r@.len() - 1 ==> (#[trigger] r@[i]).program_result is Ok,
            r@.len() < instructions@.len() ==> r@.len() > 0 && r@.last().program_result is Err,
            final(self).mollusk == old(self).mollusk,
            final(self).hydrate_store == old(self).hydrate_store,
            forall|k: Address| #[trigger] final(self).account_store.default_for(k)
                == old(self).account_store.default_for(k),
    {
        let loaded = self.load_accounts_for_instructions(instructions);
        let key_map = KeyMap::compile_from_instructions(instructions);
        let native = Address { bytes: NATIVE_LOADER_BYTES };
        let mut working = compile_transaction_accounts(instructions, &key_map, &loaded, native);
        let ghost views = views_of(instructions@);
        let ghost mut outcomes: Seq<EngineOutcomeView> = Seq::empty();
        let ghost mut sets: Seq<Seq<(Address, AccountView)>> = seq![account_views(working@)];
        let ghost mut stores: Seq<Map<Address, AccountView>> = seq![self.account_store.stored()];
        proof {
            lemma_batch_key_map_covers(views);
        }
        let mut results: Vec<InstructionResult> = Vec::new();
        let mut i: usize = 0;
        while i < instructions.len()
            invariant
                0 <= i <= instructions.len(),
                views == views_of(instructions@),
                key_map@ == key_map_of_instructions(views),
                key_map.wf(),
                forall|k: Address| #[trigger]
                    crate::keys::has_key(key_map_of_instructions(views), k) <==> batch_refs(views, k),
                results@.len() == i,
                outcomes.len() == i,
                forall|j: int| 0 <= j < i ==> (#[trigger] results@[j]).program_result is Ok,
                forall|j: int| 0 <= j < i ==> reports((#[trigger] results@[j])@, outcomes[j]),
                tx_trace(views, outcomes, sets, stores, simulated),
                sets[0] == batch_accounts_spec(
                    views,
                    loaded_accounts(&old(self).account_store, views),
                    Address { bytes: NATIVE_LOADER_BYTES },
                ),
                stores[0] == old(self).account_store.stored(),
                sets.last() == account_views(working@),
                stores.last() == self.account_store.stored(),
                simulated ==> *self == *old(self),
                self.mollusk == old(self).mollusk,
                self.hydrate_store == old(self).hydrate_store,
                forall|k: Address| #[trigger] self.account_store.default_for(k)
                    == old(self).account_store.default_for(k),
            decreases instructions.len() - i,
        {
            let ix = &instructions[i];
            proof {
                assert(views[i as int] == ix@);
                assert forall|q: int| 0 <= q < ix.accounts@.len() implies crate::keys::has_key(
                    key_map@,
                    ix.accounts@[q].pubkey,
                ) by {
                    assert(refs_key(views[i as int].accounts, ix.accounts@[q].pubkey));
                    assert(batch_refs(views, ix.accounts@[q].pubkey));
                }
                assert(batch_refs(views, ix.program_id));
            }
            let instruction_accounts = compile_instruction_accounts(&key_map, ix);
            let program_id_index = match key_map.position(&ix.program_id) {
                Some(p) => p,
                None => 0,  // unreachable: the program id has a slot
            };
            let ghost ws_before = account_views(working@);
            let result = self.mollusk.process_instruction_with_compiled_context(
                engine,
                ix,
                &mut working,
                instruction_accounts,
                program_id_index,
            );
            let ghost o = choose|o: EngineOutcomeView|
                #[trigger] working_set_after(ws_before, o) == account_views(working@)
                    && result.program_result == o.result && result.compute_units_consumed
                    == o.compute_units_consumed && result.execution_time == o.execution_time
                    && result.return_data@ == o.return_data;
            let ok = result.program_result.is_ok();
            let ghost store_before = self.account_store.stored();
            if ok && !simulated {
                let mut m: usize = 0;
                while m < ix.accounts.len()
                    invariant
                        0 <= m <= ix.accounts.len(),
                        self.account_store.stored() == persist_referenced(
                            store_before,
                            ix.accounts@.subrange(0, m as int),
                            account_views(working@),
                        ),
                        self.mollusk == old(self).mollusk,
                        self.hydrate_store == old(self).hydrate_store,
                        forall|k: Address| #[trigger] self.account_store.default_for(k)
                            == old(self).account_store.default_for(k),
                    decreases ix.accounts.len() - m,
                {
                    let k = ix.accounts[m].pubkey;
                    proof {
                        let next = ix.accounts@.subrange(0, m + 1);
                        assert(next.drop_last() =~= ix.accounts@.subrange(0, m as int));
                        assert(next.last().pubkey == k);
                    }
                    match find_account_in(&working, &k) {
                        Some(a) => {
                            self.account_store.store_account(k, a);
                        },
                        None => {},
                    }
                    m = m + 1;
                }
                proof {
                    assert(ix.accounts@.subrange(0, ix.accounts@.len() as int) =~= ix.accounts@);
                }
            }
            proof {
                let prev_outcomes = outcomes;
                let prev_sets = sets;
                let prev_stores = stores;
                outcomes = outcomes.push(o);
                sets = sets.push(account_views(working@));
                stores = stores.push(self.account_store.stored());
                assert forall|j: int| 0 <= j < outcomes.len() implies sets[j + 1] == working_set_after(
                    sets[j],
                    #[trigger] outcomes[j],
                ) && stores[j + 1] == if !simulated && outcomes[j].result is Ok {
                    persist_referenced(stores[j], views[j].accounts, sets[j + 1])
                } else {
                    stores[j]
                } by {
                    if j < i {
                        assert(outcomes[j] == prev_outcomes[j]);
                        assert(sets[j] == prev_sets[j] && sets[j + 1] == prev_sets[j + 1]);
                        assert(stores[j] == prev_stores[j] && stores[j + 1] == prev_stores[j + 1]);
                    } else {
                        assert(sets[j] == ws_before);
                        assert(stores[j] == store_before);
                        assert(views[j] == ix@);
                    }
                }
                assert(tx_trace(views, outcomes, sets, stores, simulated));
                assert(sets[0] == prev_sets[0] && stores[0] == prev_stores[0]);
            }
            results.push(result);
            proof {
                assert(reports(results@[i as int]@, o));
            }
            if !ok {
                return results;
            }
            i = i + 1;
        }
        results
    }
}

} // verus!

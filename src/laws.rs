//! Laws of the harness, proved over the specifications its functions state:
//! account compilation, rollback, chains, simulation and blockhash rotation.

use crate::account::{AccountMeta, AccountView, InstructionView};
use crate::address::Address;
use crate::compile_accounts::{
    compile_spec, lemma_key_map_covers, lemma_merge_meta_unique,
    lemma_merge_metas_keys, lemma_merge_metas_unique, refs_key, CompiledAccountsView,
};
use crate::account::Instruction;
use crate::context::{
    insert_all, loaded_accounts, results_stop_at_first_failure, MolluskContextMt,
};
use crate::mollusk::InstructionResultView;
use crate::mollusk::{result_of, run_chain, stops_at_first_failure, EngineOutcomeView};
use crate::store::AccountStore;
use crate::sysvar::{add_slot_hash, history_at_or_before, lemma_add_newer_slot_first};
use crate::keys::{
    has_key, index_of_key, key_map_of_instruction, keys_unique, merge_meta, merge_metas,
    program_meta,
};
use vstd::prelude::*;

verus! {

/// Some reference of `ms` to `k` is a signer.
pub open spec fn signs(ms: Seq<AccountMeta>, k: Address) -> bool {
    exists|j: int| 0 <= j < ms.len() && ms[j].pubkey == k && ms[j].is_signer
}

/// Some reference of `ms` to `k` is writable.
pub open spec fn writes(ms: Seq<AccountMeta>, k: Address) -> bool {
    exists|j: int| 0 <= j < ms.len() && ms[j].pubkey == k && ms[j].is_writable
}

proof fn lemma_privileges_last(ms: Seq<AccountMeta>, k: Address)
    requires
        ms.len() > 0,
    ensures
        signs(ms, k) <==> (signs(ms.drop_last(), k) || (ms.last().pubkey == k
            && ms.last().is_signer)),
        writes(ms, k) <==> (writes(ms.drop_last(), k) || (ms.last().pubkey == k
            && ms.last().is_writable)),
{
    let t = ms.drop_last();
    let n = ms.len() - 1;
    if signs(ms, k) {
        let j = choose|j: int| 0 <= j < ms.len() && ms[j].pubkey == k && ms[j].is_signer;
        if j < n {
            assert(t[j] == ms[j]);
        }
    }
    if signs(t, k) {
        let j = choose|j: int| 0 <= j < t.len() && t[j].pubkey == k && t[j].is_signer;
        assert(ms[j] == t[j]);
    }
    if ms.last().pubkey == k && ms.last().is_signer {
        assert(ms[n] == ms.last());
    }
    if writes(ms, k) {
        let j = choose|j: int| 0 <= j < ms.len() && ms[j].pubkey == k && ms[j].is_writable;
        if j < n {
            assert(t[j] == ms[j]);
        }
    }
    if writes(t, k) {
        let j = choose|j: int| 0 <= j < t.len() && t[j].pubkey == k && t[j].is_writable;
        assert(ms[j] == t[j]);
    }
    if ms.last().pubkey == k && ms.last().is_writable {
        assert(ms[n] == ms.last());
    }
}

/// Each slot of the key map built from references `ms` carries the union of
/// the privileges of every reference to its address.
proof fn lemma_merge_metas_privileges(ms: Seq<AccountMeta>)
    ensures
        keys_unique(merge_metas(Seq::empty(), ms)),
        forall|i: int|
            0 <= i < merge_metas(Seq::empty(), ms).len() ==> {
                let e = #[trigger] merge_metas(Seq::empty(), ms)[i];
                e.is_signer == signs(ms, e.pubkey) && e.is_writable == writes(ms, e.pubkey)
            },
    decreases ms.len(),
{
    let e0 = Seq::<AccountMeta>::empty();
    assert(keys_unique(e0));
    lemma_merge_metas_unique(e0, ms);
    if ms.len() > 0 {
        let t = ms.drop_last();
        let m = ms.last();
        let p = merge_metas(e0, t);
        let r = merge_metas(e0, ms);
        lemma_merge_metas_privileges(t);
        lemma_merge_metas_keys(e0, t);
        assert(!has_key(e0, m.pubkey));
        assert(r == merge_meta(p, m));
        assert forall|i: int| 0 <= i < r.len() implies {
            let e = #[trigger] r[i];
            e.is_signer == signs(ms, e.pubkey) && e.is_writable == writes(ms, e.pubkey)
        } by {
            lemma_privileges_last(ms, r[i].pubkey);
            if has_key(p, m.pubkey) {
                let idx = index_of_key(p, m.pubkey);
                if i != idx {
                    assert(r[i] == p[i]);
                    assert(p[i].pubkey != m.pubkey);
                }
            } else {
                if i < p.len() {
                    assert(r[i] == p[i]);
                    assert(p[i].pubkey != m.pubkey);
                } else {
                    assert(r[i] == m);
                    assert(!refs_key(t, m.pubkey));
                    if signs(t, m.pubkey) {
                        let j = choose|j: int|
                            0 <= j < t.len() && t[j].pubkey == m.pubkey && t[j].is_signer;
                        assert(refs_key(t, m.pubkey));
                    }
                    if writes(t, m.pubkey) {
                        let j = choose|j: int|
                            0 <= j < t.len() && t[j].pubkey == m.pubkey && t[j].is_writable;
                        assert(refs_key(t, m.pubkey));
                    }
                }
            }
        }
    }
}

/// Dedup and privilege union: in the key map of an instruction every address
/// occupies exactly one slot, the slots are exactly the referenced addresses
/// and the program id, and each slot is a signer (writable) exactly when some
/// reference to its address is a signer (writable).
pub proof fn lemma_dedup_privilege_union(ix: InstructionView)
    ensures
        keys_unique(key_map_of_instruction(ix)),
        forall|k: Address|
            #[trigger] has_key(key_map_of_instruction(ix), k) <==> (k == ix.program_id || refs_key(
                ix.accounts,
                k,
            )),
        forall|i: int|
            0 <= i < key_map_of_instruction(ix).len() ==> {
                let e = #[trigger] key_map_of_instruction(ix)[i];
                e.is_signer == signs(ix.accounts, e.pubkey) && e.is_writable == writes(
                    ix.accounts,
                    e.pubkey,
                )
            },
{
    let e0 = Seq::<AccountMeta>::empty();
    let p = merge_metas(e0, ix.accounts);
    let pm = program_meta(ix.program_id);
    let r = key_map_of_instruction(ix);
    lemma_key_map_covers(ix);
    lemma_merge_metas_privileges(ix.accounts);
    lemma_merge_metas_keys(e0, ix.accounts);
    assert(!has_key(e0, ix.program_id));
    lemma_merge_meta_unique(p, pm);
    assert(r == merge_meta(p, pm));
    assert forall|i: int| 0 <= i < r.len() implies {
        let e = #[trigger] r[i];
        e.is_signer == signs(ix.accounts, e.pubkey) && e.is_writable == writes(ix.accounts, e.pubkey)
    } by {
        if has_key(p, pm.pubkey) {
            let idx = index_of_key(p, pm.pubkey);
            assert(r[i].is_signer == p[i].is_signer && r[i].is_writable == p[i].is_writable
                && r[i].pubkey == p[i].pubkey);
        } else if i < p.len() {
            assert(r[i] == p[i]);
        } else {
            assert(r[i] == pm);
            assert(!refs_key(ix.accounts, pm.pubkey));
            if signs(ix.accounts, pm.pubkey) {
                let j = choose|j: int|
                    0 <= j < ix.accounts.len() && ix.accounts[j].pubkey == pm.pubkey && ix.accounts[j].is_signer;
                assert(refs_key(ix.accounts, pm.pubkey));
            }
            if writes(ix.accounts, pm.pubkey) {
                let j = choose|j: int|
                    0 <= j < ix.accounts.len() && ix.accounts[j].pubkey == pm.pubkey && ix.accounts[j].is_writable;
                assert(refs_key(ix.accounts, pm.pubkey));
            }
        }
    }
}

/// An address referenced twice by one instruction, once read-only and once
/// writable, has exactly one slot, and that slot is writable.
pub proof fn lemma_duplicate_reference_writable(ix: InstructionView, a: int, b: int)
    requires
        0 <= a < ix.accounts.len(),
        0 <= b < ix.accounts.len(),
        ix.accounts[a].pubkey == ix.accounts[b].pubkey,
        !ix.accounts[a].is_writable,
        ix.accounts[b].is_writable,
    ensures
        has_key(key_map_of_instruction(ix), ix.accounts[a].pubkey),
        forall|i: int, j: int|
            0 <= i < key_map_of_instruction(ix).len() && 0 <= j < key_map_of_instruction(ix).len()
                && key_map_of_instruction(ix)[i].pubkey == ix.accounts[a].pubkey
                && key_map_of_instruction(ix)[j].pubkey == ix.accounts[a].pubkey ==> i == j,
        key_map_of_instruction(ix)[index_of_key(
            key_map_of_instruction(ix),
            ix.accounts[a].pubkey,
        )].is_writable,
{
    let k = ix.accounts[a].pubkey;
    let km = key_map_of_instruction(ix);
    lemma_dedup_privilege_union(ix);
    assert(refs_key(ix.accounts, k));
    assert(has_key(km, k));
    let i = index_of_key(km, k);
    assert(km[i].pubkey == k);
    assert(writes(ix.accounts, k));
}

/// Program slot: in every compilation the program-id slot holds the
/// instruction's program id.
pub proof fn lemma_program_slot(
    ix: InstructionView,
    accounts: Seq<(Address, AccountView)>,
    loader_key: Address,
)
    ensures
        0 <= compile_spec(ix, accounts, loader_key).program_id_index < compile_spec(
            ix,
            accounts,
            loader_key,
        ).transaction_accounts.len(),
        compile_spec(ix, accounts, loader_key).transaction_accounts[compile_spec(
            ix,
            accounts,
            loader_key,
        ).program_id_index].0 == ix.program_id,
{
    lemma_key_map_covers(ix);
    let km = key_map_of_instruction(ix);
    assert(has_key(km, ix.program_id));
    let i = index_of_key(km, ix.program_id);
    assert(km[i].pubkey == ix.program_id);
}

/// Determinism: compiling one instruction against one account source twice
/// gives identical compiled accounts.
pub proof fn lemma_compile_deterministic(
    ix: InstructionView,
    accounts: Seq<(Address, AccountView)>,
    loader_key: Address,
    first: CompiledAccountsView,
    second: CompiledAccountsView,
)
    requires
        first == compile_spec(ix, accounts, loader_key),
        second == compile_spec(ix, accounts, loader_key),
    ensures
        first == second,
        first.transaction_accounts =~= second.transaction_accounts,
        first.instruction_accounts =~= second.instruction_accounts,
{
}

} // verus!

verus! {


/// Rollback on failure: when the engine reports failure, every supplied
/// account keeps its pre-execution image.
pub proof fn lemma_rollback_on_failure(
    accounts: Seq<(Address, AccountView)>,
    outcome: EngineOutcomeView,
)
    requires
        outcome.result is Err,
    ensures
        result_of(accounts, outcome).resulting_accounts == accounts,
{
}

/// Chain short-circuit: when instruction `k` of a chain fails, it is the last
/// one the engine ran, and the chain's accounts are those the instructions
/// before it left.
pub proof fn lemma_chain_short_circuit(
    accounts: Seq<(Address, AccountView)>,
    outcomes: Seq<EngineOutcomeView>,
    n: nat,
    k: int,
)
    requires
        stops_at_first_failure(n, outcomes),
        0 <= k < outcomes.len(),
        outcomes[k].result is Err,
    ensures
        outcomes.len() == k + 1,
        run_chain(accounts, outcomes).resulting_accounts == run_chain(
            accounts,
            outcomes.subrange(0, k),
        ).resulting_accounts,
        run_chain(accounts, outcomes).program_result == outcomes[k].result,
{
    if k < outcomes.len() - 1 {
        assert(outcomes[k].result is Ok);
    }
    assert(outcomes.drop_last() =~= outcomes.subrange(0, k));
}

/// A persisted account list leaves each address with the image of its last
/// occurrence.
pub proof fn lemma_insert_all_last_wins(
    m: Map<Address, AccountView>,
    res: Seq<(Address, AccountView)>,
    i: int,
)
    requires
        0 <= i < res.len(),
        forall|j: int| i < j < res.len() ==> res[j].0 != res[i].0,
    ensures
        insert_all(m, res).contains_key(res[i].0),
        insert_all(m, res)[res[i].0] == res[i].1,
    decreases res.len(),
{
    if i < res.len() - 1 {
        let t = res.drop_last();
        assert(res[res.len() - 1].0 != res[i].0);
        assert forall|j: int| i < j < t.len() implies t[j].0 != t[i].0 by {
            assert(t[j] == res[j]);
        }
        lemma_insert_all_last_wins(m, t, i);
    }
}

/// Blockhash monotonicity: rotating from a slot at or after every entry of
/// the history makes the new slot the newest entry.
pub proof fn lemma_blockhash_monotonic(s: Seq<(u64, [u8; 32])>, slot: u64, hash: [u8; 32])
    requires
        history_at_or_before(s, slot),
        slot < u64::MAX,
    ensures
        add_slot_hash(s, (slot + 1) as u64, hash).len() > 0,
        add_slot_hash(s, (slot + 1) as u64, hash)[0].0 == slot + 1,
{
    lemma_add_newer_slot_first(s, (slot + 1) as u64, hash);
}

/// Simulate isolation: a simulated run leaves the context as it was, so a
/// real run of the same instruction right after it loads the same accounts
/// and hands the engine the same inputs.
pub proof fn lemma_simulation_keeps_inputs<AS: AccountStore>(
    before: MolluskContextMt<AS>,
    after_simulation: MolluskContextMt<AS>,
    ix: InstructionView,
)
    requires
        after_simulation == before,
    ensures
        loaded_accounts(&after_simulation.account_store, seq![ix]) == loaded_accounts(
            &before.account_store,
            seq![ix],
        ),
        after_simulation.mollusk.program_cache.programs() == before.mollusk.program_cache.programs(),
        after_simulation.mollusk.sysvars == before.mollusk.sysvars,
{
}

/// Chain short-circuit in the stateful context: when instruction `k` of a
/// chain fails, no later instruction runs and the context is the one the
/// instructions before it left.
pub proof fn lemma_context_chain_short_circuit<AS: AccountStore>(
    states: Seq<MolluskContextMt<AS>>,
    ixs: Seq<Instruction>,
    results: Seq<InstructionResultView>,
    simulated: bool,
    k: int,
)
    requires
        MolluskContextMt::<AS>::chain_trace(states, ixs, results, simulated),
        results_stop_at_first_failure(ixs.len() as nat, results),
        0 <= k < results.len(),
        results[k].program_result is Err,
    ensures
        results.len() == k + 1,
        states.last() == states[k],
{
    if k < results.len() - 1 {
        assert(results[k].program_result is Ok);
    }
    assert(MolluskContextMt::<AS>::instruction_step(
        &states[k],
        &states[k + 1],
        ixs[k]@,
        results[k],
        simulated,
    ));
}

} // verus!

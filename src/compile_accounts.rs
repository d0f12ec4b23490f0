//! Compilation of an instruction and an account source into the ordered,
//! deduplicated, privilege-annotated account lists the engine runs on.

use crate::account::{
    default_account_view, Account, AccountMeta, AccountView, Instruction, InstructionAccount,
    InstructionView,
};
use crate::address::Address;
use crate::keys::{
    has_key, index_of_key, key_map_of_instruction, key_map_of_instructions, keys_unique,
    merge_meta, merge_metas, program_meta, views_of, KeyMap,
};
use crate::store::AccountStore;
use vstd::prelude::*;

verus! {

/// The engine-facing form of one instruction and its accounts.
pub struct CompiledAccounts {
    /// Slot of the instruction's program id in `transaction_accounts`.
    pub program_id_index: usize,
    /// One record per account reference of the instruction, in order.
    pub instruction_accounts: Vec<InstructionAccount>,
    /// One account per key-map slot, in key-map order.
    pub transaction_accounts: Vec<(Address, Account)>,
}

pub struct CompiledAccountsView {
    pub program_id_index: int,
    pub instruction_accounts: Seq<InstructionAccount>,
    pub transaction_accounts: Seq<(Address, AccountView)>,
}

impl View for CompiledAccounts {
    type V = CompiledAccountsView;

    open spec fn view(&self) -> CompiledAccountsView {
        CompiledAccountsView {
            program_id_index: self.program_id_index as int,
            instruction_accounts: self.instruction_accounts@,
            transaction_accounts: account_views(self.transaction_accounts@),
        }
    }
}

/// The values of a keyed account list.
pub open spec fn account_views(s: Seq<(Address, Account)>) -> Seq<(Address, AccountView)> {
    s.map_values(|p: (Address, Account)| (p.0, p.1@))
}

/// The first account stored under `k` in a keyed list.
pub open spec fn find_account(s: Seq<(Address, AccountView)>, k: Address) -> Option<AccountView>
    decreases s.len(),
{
    if s.len() == 0 {
        None
    } else if s[0].0 == k {
        Some(s[0].1)
    } else {
        find_account(s.drop_first(), k)
    }
}

/// The stand-in for a program account that the caller did not supply: an
/// empty executable account owned by the program's loader.
pub open spec fn program_stub(loader_key: Address) -> AccountView {
    AccountView {
        lamports: 0,
        data: Seq::empty(),
        owner: loader_key,
        executable: true,
        rent_epoch: 0,
    }
}

/// The account a flat list gives for `k`: the supplied one, else the stub
/// for a program id, else the zero account.
pub open spec fn resolve_from_list(
    s: Seq<(Address, AccountView)>,
    k: Address,
    is_program: bool,
    loader_key: Address,
) -> AccountView {
    match find_account(s, k) {
        Some(a) => a,
        None => if is_program {
            program_stub(loader_key)
        } else {
            default_account_view()
        },
    }
}

/// The account a store gives for `k`: the stored one, else the stub for a
/// program id, else the store's default.
pub open spec fn resolve_from_store<AS: AccountStore>(
    store: &AS,
    k: Address,
    is_program: bool,
    loader_key: Address,
) -> AccountView {
    if store.stored().contains_key(k) {
        store.stored()[k]
    } else if is_program {
        program_stub(loader_key)
    } else {
        store.default_for(k)
    }
}

/// `k` is the program id of one of `ixs`.
pub open spec fn is_program_of(ixs: Seq<InstructionView>, k: Address) -> bool {
    exists|i: int| 0 <= i < ixs.len() && ixs[i].program_id == k
}

/// The position of the first reference in `ms` to the address of `ms[j]`.
pub open spec fn callee_index(ms: Seq<AccountMeta>, j: int) -> int {
    choose|c: int|
        0 <= c <= j && ms[c].pubkey == ms[j].pubkey && forall|l: int|
            0 <= l < c ==> ms[l].pubkey != ms[j].pubkey
}

/// The instruction account records of the references `ms` against key map `km`.
pub open spec fn instruction_accounts_of(km: Seq<AccountMeta>, ms: Seq<AccountMeta>) -> Seq<
    InstructionAccount,
> {
    Seq::new(
        ms.len(),
        |j: int|
            {
                let t = index_of_key(km, ms[j].pubkey);
                InstructionAccount {
                    index_in_transaction: t as usize,
                    index_in_caller: t as usize,
                    index_in_callee: callee_index(ms, j) as usize,
                    is_signer: km[t].is_signer,
                    is_writable: km[t].is_writable,
                }
            },
    )
}

/// What compiling `ix` against the flat list `s` gives.
pub open spec fn compile_spec(
    ix: InstructionView,
    s: Seq<(Address, AccountView)>,
    loader_key: Address,
) -> CompiledAccountsView {
    let km = key_map_of_instruction(ix);
    CompiledAccountsView {
        program_id_index: index_of_key(km, ix.program_id),
        instruction_accounts: instruction_accounts_of(km, ix.accounts),
        transaction_accounts: Seq::new(
            km.len(),
            |i: int|
                (km[i].pubkey, resolve_from_list(s, km[i].pubkey, km[i].pubkey == ix.program_id, loader_key)),
        ),
    }
}

/// What compiling `ix` against `store` gives.
pub open spec fn compile_from_store_spec<AS: AccountStore>(
    ix: InstructionView,
    store: &AS,
    loader_key: Address,
) -> CompiledAccountsView {
    let km = key_map_of_instruction(ix);
    CompiledAccountsView {
        program_id_index: index_of_key(km, ix.program_id),
        instruction_accounts: instruction_accounts_of(km, ix.accounts),
        transaction_accounts: Seq::new(
            km.len(),
            |i: int|
                (km[i].pubkey, resolve_from_store(store, km[i].pubkey, km[i].pubkey == ix.program_id, loader_key)),
        ),
    }
}

/// The shared account list of a batch of instructions, compiled against `s`.
pub open spec fn batch_accounts_spec(
    ixs: Seq<InstructionView>,
    s: Seq<(Address, AccountView)>,
    loader_key: Address,
) -> Seq<(Address, AccountView)> {
    let km = key_map_of_instructions(ixs);
    Seq::new(
        km.len(),
        |i: int| (km[i].pubkey, resolve_from_list(s, km[i].pubkey, is_program_of(ixs, km[i].pubkey), loader_key)),
    )
}

pub proof fn lemma_merge_meta_keys(s: Seq<AccountMeta>, m: AccountMeta)
    ensures
        forall|k: Address| has_key(merge_meta(s, m), k) <==> (has_key(s, k) || k == m.pubkey),
{
    let r = merge_meta(s, m);
    if has_key(s, m.pubkey) {
        let i = index_of_key(s, m.pubkey);
        assert forall|k: Address| has_key(r, k) <==> (has_key(s, k) || k == m.pubkey) by {
            if has_key(s, k) {
                let j = choose|j: int| 0 <= j < s.len() && s[j].pubkey == k;
                assert(r[j].pubkey == k);
            }
            if has_key(r, k) {
                let j = choose|j: int| 0 <= j < r.len() && r[j].pubkey == k;
                assert(s[j].pubkey == k);
            }
        }
    } else {
        assert forall|k: Address| has_key(r, k) <==> (has_key(s, k) || k == m.pubkey) by {
            if has_key(s, k) {
                let j = choose|j: int| 0 <= j < s.len() && s[j].pubkey == k;
                assert(r[j].pubkey == k);
            }
            if has_key(r, k) {
                let j = choose|j: int| 0 <= j < r.len() && r[j].pubkey == k;
                if j < s.len() {
                    assert(s[j].pubkey == k);
                }
            }
            if k == m.pubkey {
                assert(r[s.len() as int].pubkey == k);
            }
        }
    }
}

/// Some reference of `ms` is to `k`.
pub open spec fn refs_key(ms: Seq<AccountMeta>, k: Address) -> bool {
    exists|j: int| 0 <= j < ms.len() && ms[j].pubkey == k
}

proof fn lemma_refs_key_last(ms: Seq<AccountMeta>, k: Address)
    requires
        ms.len() > 0,
    ensures
        refs_key(ms, k) <==> (refs_key(ms.drop_last(), k) || ms.last().pubkey == k),
{
    let t = ms.drop_last();
    if refs_key(ms, k) {
        let j = choose|j: int| 0 <= j < ms.len() && ms[j].pubkey == k;
        if j < t.len() {
            assert(t[j].pubkey == k);
        }
    }
    if refs_key(t, k) {
        let j = choose|j: int| 0 <= j < t.len() && t[j].pubkey == k;
        assert(ms[j].pubkey == k);
    }
    if ms.last().pubkey == k {
        assert(ms[ms.len() - 1].pubkey == k);
    }
}

pub proof fn lemma_merge_metas_keys(s: Seq<AccountMeta>, ms: Seq<AccountMeta>)
    ensures
        forall|k: Address| #[trigger]
            has_key(merge_metas(s, ms), k) <==> (has_key(s, k) || refs_key(ms, k)),
    decreases ms.len(),
{
    if ms.len() > 0 {
        let t = ms.drop_last();
        lemma_merge_metas_keys(s, t);
        lemma_merge_meta_keys(merge_metas(s, t), ms.last());
        assert forall|k: Address|
            has_key(merge_metas(s, ms), k) <==> (has_key(s, k) || refs_key(ms, k)) by {
            assert(merge_metas(s, ms) == merge_meta(merge_metas(s, t), ms.last()));
            assert(has_key(merge_metas(s, t), k) <==> (has_key(s, k) || refs_key(t, k)));
            lemma_refs_key_last(ms, k);
        }
    } else {
        assert forall|k: Address| !refs_key(ms, k) by {}
    }
}

/// Every reference of an instruction, and its program id, has a slot in its
/// key map.
pub proof fn lemma_key_map_covers(ix: InstructionView)
    ensures
        forall|k: Address|
            #[trigger] has_key(key_map_of_instruction(ix), k) <==> (k == ix.program_id || refs_key(
                ix.accounts,
                k,
            )),
{
    assert forall|k: Address| !has_key(Seq::<AccountMeta>::empty(), k) by {}
    lemma_merge_metas_keys(Seq::empty(), ix.accounts);
    lemma_merge_meta_keys(merge_metas(Seq::empty(), ix.accounts), program_meta(ix.program_id));
    assert forall|k: Address|
        #[trigger] has_key(key_map_of_instruction(ix), k) <==> (k == ix.program_id || refs_key(
            ix.accounts,
            k,
        )) by {
        assert(has_key(merge_metas(Seq::empty(), ix.accounts), k) <==> refs_key(ix.accounts, k));
    }
}

/// The first account stored under `k` in a keyed list.
fn find_in_list(accounts: &Vec<(Address, Account)>, k: &Address) -> (r: Option<Account>)
    ensures
        match r {
            Some(a) => find_account(account_views(accounts@), *k) == Some(a@),
            None => find_account(account_views(accounts@), *k) is None,
        },
{
    let ghost all = account_views(accounts@);
    assert(all.subrange(0, all.len() as int) =~= all);
    let mut i: usize = 0;
    while i < accounts.len()
        invariant
            0 <= i <= accounts.len(),
            all == account_views(accounts@),
            find_account(all, *k) == find_account(all.subrange(i as int, all.len() as int), *k),
        decreases accounts.len() - i,
    {
        let ghost rest = all.subrange(i as int, all.len() as int);
        assert(rest[0] == all[i as int]);
        if accounts[i].0.equals(k) {
            let a = accounts[i].1.duplicate();
            return Some(a);
        }
        assert(rest.drop_first() =~= all.subrange(i + 1, all.len() as int));
        i = i + 1;
    }
    assert(all.subrange(i as int, all.len() as int).len() == 0);
    None
}

/// The instruction account records of `ix` against its key map.
pub fn compile_instruction_accounts(key_map: &KeyMap, ix: &Instruction) -> (r: Vec<
    InstructionAccount,
>)
    requires
        key_map.wf(),
        forall|j: int| 0 <= j < ix.accounts@.len() ==> has_key(key_map@, ix.accounts@[j].pubkey),
    ensures
        r@ == instruction_accounts_of(key_map@, ix.accounts@),
{
    let ghost ms = ix.accounts@;
    let ghost km = key_map@;
    let mut out: Vec<InstructionAccount> = Vec::new();
    let mut j: usize = 0;
    while j < ix.accounts.len()
        invariant
            0 <= j <= ix.accounts.len(),
            ms == ix.accounts@,
            km == key_map@,
            key_map.wf(),
            forall|q: int| 0 <= q < ms.len() ==> has_key(km, ms[q].pubkey),
            out@ =~= instruction_accounts_of(km, ms).subrange(0, j as int),
        decreases ix.accounts.len() - j,
    {
        let pubkey = ix.accounts[j].pubkey;
        assert(has_key(km, ms[j as int].pubkey));
        let t = match key_map.position(&pubkey) {
            Some(t) => t,
            None => {
                return out;  // unreachable: every reference has a slot
            },
        };
        let mut c: usize = 0;
        let mut found = false;
        while !found && c < j
            invariant
                0 <= c <= j < ms.len(),
                ms == ix.accounts@,
                pubkey == ms[j as int].pubkey,
                forall|l: int| 0 <= l < c ==> ms[l].pubkey != pubkey,
                found ==> ms[c as int].pubkey == pubkey,
            decreases j - c + (if found { 0int } else { 1int }),
        {
            if ix.accounts[c].pubkey.equals(&pubkey) {
                found = true;
            } else {
                c = c + 1;
            }
        }
        proof {
            let cc = callee_index(ms, j as int);
            assert(0 <= c <= j && ms[c as int].pubkey == ms[j as int].pubkey && forall|l: int|
                0 <= l < c ==> ms[l].pubkey != ms[j as int].pubkey);
            assert(0 <= cc <= j && ms[cc].pubkey == ms[j as int].pubkey);
            assert(cc == c as int);
        }
        let entry = key_map.entries[t];
        out.push(
            InstructionAccount {
                index_in_transaction: t,
                index_in_caller: t,
                index_in_callee: c,
                is_signer: entry.is_signer,
                is_writable: entry.is_writable,
            },
        );
        j = j + 1;
    }
    out
}

/// Compiles `ix` against the flat account list `accounts`. A program id the
/// list lacks gets an empty executable stub owned by `loader_key`; any other
/// missing address gets the zero account.
pub fn compile_accounts(
    ix: &Instruction,
    accounts: &Vec<(Address, Account)>,
    loader_key: Address,
) -> (r: CompiledAccounts)
    ensures
        r@ == compile_spec(ix@, account_views(accounts@), loader_key),
        0 <= r@.program_id_index < r@.transaction_accounts.len(),
        r@.transaction_accounts[r@.program_id_index].0 == ix.program_id,
{
    let key_map = KeyMap::compile_from_instruction(ix);
    let ghost km = key_map@;
    proof {
        lemma_key_map_covers(ix@);
        assert forall|j: int| 0 <= j < ix.accounts@.len() implies has_key(km, ix.accounts@[j].pubkey) by {
            assert(refs_key(ix@.accounts, ix.accounts@[j].pubkey));
        }
    }
    let program_id_index = match key_map.position(&ix.program_id) {
        Some(p) => p,
        None => 0,  // unreachable: the program id always has a slot
    };
    let instruction_accounts = compile_instruction_accounts(&key_map, ix);
    let ghost s = account_views(accounts@);
    let ghost want = compile_spec(ix@, s, loader_key).transaction_accounts;
    let mut transaction_accounts: Vec<(Address, Account)> = Vec::new();
    let mut i: usize = 0;
    while i < key_map.entries.len()
        invariant
            0 <= i <= km.len(),
            km == key_map@,
            km == key_map_of_instruction(ix@),
            s == account_views(accounts@),
            want == compile_spec(ix@, s, loader_key).transaction_accounts,
            want.len() == km.len(),
            account_views(transaction_accounts@) =~= want.subrange(0, i as int),
        decreases km.len() - i,
    {
        let k = key_map.entries[i].pubkey;
        let acct = match find_in_list(accounts, &k) {
            Some(a) => a,
            None => if k.equals(&ix.program_id) {
                stub_program_account(loader_key)
            } else {
                Account::new_default()
            },
        };
        let ghost before = transaction_accounts@;
        transaction_accounts.push((k, acct));
        proof {
            assert(account_views(transaction_accounts@) =~= account_views(before).push((k, acct@)));
            assert(k == km[i as int].pubkey);
            assert(acct@ == resolve_from_list(s, k, k == ix.program_id, loader_key));
            assert(want[i as int] == (k, acct@));
            assert(want.subrange(0, i + 1) =~= want.subrange(0, i as int).push(want[i as int]));
        }
        i = i + 1;
    }
    proof {
        assert(want.subrange(0, km.len() as int) =~= want);
    }
    CompiledAccounts { program_id_index, instruction_accounts, transaction_accounts }
}

/// An empty executable account owned by `loader_key`.
pub fn stub_program_account(loader_key: Address) -> (r: Account)
    ensures
        r@ == program_stub(loader_key),
{
    let data: Vec<u8> = Vec::new();
    proof {
        assert(data@ =~= Seq::<u8>::empty());
    }
    Account { lamports: 0, data, owner: loader_key, executable: true, rent_epoch: 0 }
}

} // verus!

verus! {

/// Compiles `ix` against an account store. A program id the store lacks gets
/// an empty executable stub owned by `loader_key`; any other missing address
/// gets the store's default account.
pub fn compile_accounts_from_store<AS: AccountStore>(
    ix: &Instruction,
    account_store: &AS,
    loader_key: Address,
) -> (r: CompiledAccounts)
    ensures
        r@ == compile_from_store_spec(ix@, account_store, loader_key),
        0 <= r@.program_id_index < r@.transaction_accounts.len(),
        r@.transaction_accounts[r@.program_id_index].0 == ix.program_id,
{
    let key_map = KeyMap::compile_from_instruction(ix);
    let ghost km = key_map@;
    proof {
        lemma_key_map_covers(ix@);
        assert forall|j: int| 0 <= j < ix.accounts@.len() implies has_key(km, ix.accounts@[j].pubkey) by {
            assert(refs_key(ix@.accounts, ix.accounts@[j].pubkey));
        }
    }
    let program_id_index = match key_map.position(&ix.program_id) {
        Some(p) => p,
        None => 0,  // unreachable: the program id always has a slot
    };
    let instruction_accounts = compile_instruction_accounts(&key_map, ix);
    let ghost want = compile_from_store_spec(ix@, account_store, loader_key).transaction_accounts;
    let mut transaction_accounts: Vec<(Address, Account)> = Vec::new();
    let mut i: usize = 0;
    while i < key_map.entries.len()
        invariant
            0 <= i <= km.len(),
            km == key_map@,
            km == key_map_of_instruction(ix@),
            want == compile_from_store_spec(ix@, account_store, loader_key).transaction_accounts,
            want.len() == km.len(),
            account_views(transaction_accounts@) =~= want.subrange(0, i as int),
        decreases km.len() - i,
    {
        let k = key_map.entries[i].pubkey;
        let acct = match account_store.get_account(&k) {
            Some(a) => a,
            None => if k.equals(&ix.program_id) {
                stub_program_account(loader_key)
            } else {
                account_store.default_account(&k)
            },
        };
        let ghost before = transaction_accounts@;
        transaction_accounts.push((k, acct));
        proof {
            assert(account_views(transaction_accounts@) =~= account_views(before).push((k, acct@)));
            assert(k == km[i as int].pubkey);
            assert(want[i as int] == (k, acct@));
            assert(want.subrange(0, i + 1) =~= want.subrange(0, i as int).push(want[i as int]));
        }
        i = i + 1;
    }
    proof {
        assert(want.subrange(0, km.len() as int) =~= want);
    }
    CompiledAccounts { program_id_index, instruction_accounts, transaction_accounts }
}

/// Some instruction of `ixs` references `k`, as an account or as its program.
pub open spec fn batch_refs(ixs: Seq<InstructionView>, k: Address) -> bool {
    exists|i: int|
        0 <= i < ixs.len() && (ixs[i].program_id == k || refs_key(ixs[i].accounts, k))
}

/// The slots of a batch's key map are exactly the addresses the batch references.
pub proof fn lemma_batch_key_map_covers(ixs: Seq<InstructionView>)
    ensures
        keys_unique(key_map_of_instructions(ixs)),
        forall|k: Address| #[trigger]
            has_key(key_map_of_instructions(ixs), k) <==> batch_refs(ixs, k),
    decreases ixs.len(),
{
    if ixs.len() == 0 {
        assert forall|k: Address| !batch_refs(ixs, k) by {}
        assert forall|k: Address| !has_key(key_map_of_instructions(ixs), k) by {}
    } else {
        let t = ixs.drop_last();
        let ix = ixs.last();
        lemma_batch_key_map_covers(t);
        let prev = key_map_of_instructions(t);
        lemma_merge_metas_keys(prev, ix.accounts);
        lemma_merge_meta_keys(merge_metas(prev, ix.accounts), program_meta(ix.program_id));
        lemma_merge_metas_unique(prev, ix.accounts);
        lemma_merge_meta_unique(merge_metas(prev, ix.accounts), program_meta(ix.program_id));
        assert forall|k: Address| #[trigger]
            has_key(key_map_of_instructions(ixs), k) <==> batch_refs(ixs, k) by {
            assert(has_key(merge_metas(prev, ix.accounts), k) <==> (has_key(prev, k) || refs_key(ix.accounts, k)));
            if batch_refs(ixs, k) {
                let i = choose|i: int|
                    0 <= i < ixs.len() && (ixs[i].program_id == k || refs_key(ixs[i].accounts, k));
                if i < t.len() {
                    assert(t[i] == ixs[i]);
                    assert(batch_refs(t, k));
                }
            }
            if batch_refs(t, k) {
                let i = choose|i: int|
                    0 <= i < t.len() && (t[i].program_id == k || refs_key(t[i].accounts, k));
                assert(ixs[i] == t[i]);
            }
            if ix.program_id == k || refs_key(ix.accounts, k) {
                assert(ixs[ixs.len() - 1] == ix);
            }
        }
    }
}

pub proof fn lemma_merge_meta_unique(s: Seq<AccountMeta>, m: AccountMeta)
    requires
        keys_unique(s),
    ensures
        keys_unique(merge_meta(s, m)),
{
    let r = merge_meta(s, m);
    if has_key(s, m.pubkey) {
        let i = index_of_key(s, m.pubkey);
        assert forall|a: int, b: int|
            0 <= a < r.len() && 0 <= b < r.len() && r[a].pubkey == r[b].pubkey implies a == b by {
            assert(s[a].pubkey == r[a].pubkey);
            assert(s[b].pubkey == r[b].pubkey);
        }
    } else {
        assert forall|a: int, b: int|
            0 <= a < r.len() && 0 <= b < r.len() && r[a].pubkey == r[b].pubkey implies a == b by {
            if a < s.len() && b < s.len() {
                assert(s[a].pubkey == r[a].pubkey);
                assert(s[b].pubkey == r[b].pubkey);
            } else if a < s.len() {
                assert(s[a].pubkey == m.pubkey);
            } else if b < s.len() {
                assert(s[b].pubkey == m.pubkey);
            }
        }
    }
}

pub proof fn lemma_merge_metas_unique(s: Seq<AccountMeta>, ms: Seq<AccountMeta>)
    requires
        keys_unique(s),
    ensures
        keys_unique(merge_metas(s, ms)),
    decreases ms.len(),
{
    if ms.len() > 0 {
        lemma_merge_metas_unique(s, ms.drop_last());
        lemma_merge_meta_unique(merge_metas(s, ms.drop_last()), ms.last());
    }
}

/// `k` is the program id of one of `ixs`.
fn is_program_in(ixs: &Vec<Instruction>, k: &Address) -> (r: bool)
    ensures
        r == is_program_of(views_of(ixs@), *k),
{
    let ghost v = views_of(ixs@);
    let mut i: usize = 0;
    while i < ixs.len()
        invariant
            0 <= i <= ixs.len(),
            v == views_of(ixs@),
            forall|j: int| 0 <= j < i ==> v[j].program_id != *k,
        decreases ixs.len() - i,
    {
        if ixs[i].program_id.equals(k) {
            assert(v[i as int].program_id == *k);
            return true;
        }
        i = i + 1;
    }
    false
}

/// Compiles the shared account list of a batch of instructions against the
/// flat list `accounts`, in the order of the batch's key map. A program id
/// the list lacks gets an empty executable stub owned by `loader_key`; any
/// other missing address gets the zero account.
pub fn compile_transaction_accounts(
    ixs: &Vec<Instruction>,
    key_map: &KeyMap,
    accounts: &Vec<(Address, Account)>,
    loader_key: Address,
) -> (r: Vec<(Address, Account)>)
    requires
        key_map@ == key_map_of_instructions(views_of(ixs@)),
    ensures
        account_views(r@) == batch_accounts_spec(views_of(ixs@), account_views(accounts@), loader_key),
{
    let ghost km = key_map@;
    let ghost s = account_views(accounts@);
    let ghost want = batch_accounts_spec(views_of(ixs@), s, loader_key);
    let mut out: Vec<(Address, Account)> = Vec::new();
    let mut i: usize = 0;
    while i < key_map.entries.len()
        invariant
            0 <= i <= km.len(),
            km == key_map@,
            km == key_map_of_instructions(views_of(ixs@)),
            s == account_views(accounts@),
            want == batch_accounts_spec(views_of(ixs@), s, loader_key),
            want.len() == km.len(),
            account_views(out@) =~= want.subrange(0, i as int),
        decreases km.len() - i,
    {
        let k = key_map.entries[i].pubkey;
        let acct = match find_in_list(accounts, &k) {
            Some(a) => a,
            None => if is_program_in(ixs, &k) {
                stub_program_account(loader_key)
            } else {
                Account::new_default()
            },
        };
        let ghost before = out@;
        out.push((k, acct));
        proof {
            assert(account_views(out@) =~= account_views(before).push((k, acct@)));
            assert(k == km[i as int].pubkey);
            assert(want[i as int] == (k, acct@));
            assert(want.subrange(0, i + 1) =~= want.subrange(0, i as int).push(want[i as int]));
        }
        i = i + 1;
    }
    proof {
        assert(want.subrange(0, km.len() as int) =~= want);
    }
    out
}

} // verus!

//! The key map: the ordered, deduplicated set of addresses that one
//! instruction (or a batch of instructions) references, each with the union
//! of the privileges it is given.

use crate::account::{AccountMeta, Instruction, InstructionView};
use crate::address::Address;
use vstd::prelude::*;

verus! {

/// `k` occupies a slot of `s`.
pub open spec fn has_key(s: Seq<AccountMeta>, k: Address) -> bool {
    exists|i: int| 0 <= i < s.len() && s[i].pubkey == k
}

/// No address occupies two slots.
pub open spec fn keys_unique(s: Seq<AccountMeta>) -> bool {
    forall|i: int, j: int|
        0 <= i < s.len() && 0 <= j < s.len() && s[i].pubkey == s[j].pubkey ==> i == j
}

/// The slot of `k` in `s` (meaningful where `has_key(s, k)`).
pub open spec fn index_of_key(s: Seq<AccountMeta>, k: Address) -> int {
    choose|i: int| 0 <= i < s.len() && s[i].pubkey == k
}

/// Adds one reference: a new address takes the next slot, a known one keeps
/// its slot and gains the privileges of `m`.
pub open spec fn merge_meta(s: Seq<AccountMeta>, m: AccountMeta) -> Seq<AccountMeta> {
    if has_key(s, m.pubkey) {
        let i = index_of_key(s, m.pubkey);
        s.update(
            i,
            AccountMeta {
                pubkey: m.pubkey,
                is_signer: s[i].is_signer || m.is_signer,
                is_writable: s[i].is_writable || m.is_writable,
            },
        )
    } else {
        s.push(m)
    }
}

/// Adds the references `ms` in order.
pub open spec fn merge_metas(s: Seq<AccountMeta>, ms: Seq<AccountMeta>) -> Seq<AccountMeta>
    decreases ms.len(),
{
    if ms.len() == 0 {
        s
    } else {
        merge_meta(merge_metas(s, ms.drop_last()), ms.last())
    }
}

/// The reference a program id contributes: no privileges of its own.
pub open spec fn program_meta(program_id: Address) -> AccountMeta {
    AccountMeta { pubkey: program_id, is_signer: false, is_writable: false }
}

/// Adds an instruction: its account references, then its program id.
pub open spec fn merge_instruction(s: Seq<AccountMeta>, ix: InstructionView) -> Seq<AccountMeta> {
    merge_meta(merge_metas(s, ix.accounts), program_meta(ix.program_id))
}

/// The key map of one instruction.
pub open spec fn key_map_of_instruction(ix: InstructionView) -> Seq<AccountMeta> {
    merge_instruction(Seq::empty(), ix)
}

/// The key map of a batch of instructions, folded in order.
pub open spec fn key_map_of_instructions(ixs: Seq<InstructionView>) -> Seq<AccountMeta>
    decreases ixs.len(),
{
    if ixs.len() == 0 {
        Seq::empty()
    } else {
        merge_instruction(key_map_of_instructions(ixs.drop_last()), ixs.last())
    }
}

pub open spec fn views_of(ixs: Seq<Instruction>) -> Seq<InstructionView> {
    ixs.map_values(|ix: Instruction| ix@)
}

/// Ordered, deduplicated addresses with their merged privileges.
pub struct KeyMap {
    pub entries: Vec<AccountMeta>,
}

impl View for KeyMap {
    type V = Seq<AccountMeta>;

    open spec fn view(&self) -> Seq<AccountMeta> {
        self.entries@
    }
}

impl KeyMap {
    pub open spec fn wf(&self) -> bool {
        keys_unique(self@)
    }

    pub fn new() -> (r: KeyMap)
        ensures
            r@ == Seq::<AccountMeta>::empty(),
            r.wf(),
    {
        KeyMap { entries: Vec::new() }
    }

    /// The slot of `pubkey`, if it has one.
    pub fn position(&self, pubkey: &Address) -> (r: Option<usize>)
        requires
            self.wf(),
        ensures
            match r {
                Some(i) => i < self@.len() && self@[i as int].pubkey == *pubkey && i
                    == index_of_key(self@, *pubkey) && has_key(self@, *pubkey),
                None => !has_key(self@, *pubkey),
            },
    {
        let mut i: usize = 0;
        while i < self.entries.len()
            invariant
                0 <= i <= self.entries.len(),
                self.wf(),
                forall|j: int| 0 <= j < i ==> self.entries@[j].pubkey != *pubkey,
            decreases self.entries.len() - i,
        {
            if self.entries[i].pubkey.equals(pubkey) {
                proof {
                    assert(has_key(self@, *pubkey));
                    let c = index_of_key(self@, *pubkey);
                    assert(self@[c].pubkey == *pubkey);
                    assert(0 <= c < self@.len());
                    assert(keys_unique(self@));
                    assert(self@[i as int].pubkey == self@[c].pubkey);
                    assert(c == i);
                }
                return Some(i);
            }
            i = i + 1;
        }
        None
    }

    /// Adds one account reference, merging privileges with an earlier one.
    pub fn add_account(&mut self, meta: &AccountMeta)
        requires
            old(self).wf(),
        ensures
            final(self)@ == merge_meta(old(self)@, *meta),
            final(self).wf(),
    {
        match self.position(&meta.pubkey) {
            Some(i) => {
                let cur = self.entries[i];
                let merged = AccountMeta {
                    pubkey: meta.pubkey,
                    is_signer: cur.is_signer || meta.is_signer,
                    is_writable: cur.is_writable || meta.is_writable,
                };
                self.entries.set(i, merged);
                proof {
                    assert(self@ =~= merge_meta(old(self)@, *meta));
                }
            },
            None => {
                self.entries.push(*meta);
                proof {
                    assert(self@ =~= merge_meta(old(self)@, *meta));
                    assert forall|a: int, b: int|
                        0 <= a < self@.len() && 0 <= b < self@.len() && self@[a].pubkey
                            == self@[b].pubkey implies a == b by {
                        if a < old(self)@.len() && b == old(self)@.len() {
                            assert(has_key(old(self)@, meta.pubkey));
                        }
                        if b < old(self)@.len() && a == old(self)@.len() {
                            assert(has_key(old(self)@, meta.pubkey));
                        }
                    }
                }
            },
        }
    }

    /// Adds an instruction's account references in order.
    pub fn add_accounts(&mut self, ix: &Instruction)
        requires
            old(self).wf(),
        ensures
            final(self)@ == merge_metas(old(self)@, ix.accounts@),
            final(self).wf(),
    {
        let ghost start = self@;
        let mut i: usize = 0;
        while i < ix.accounts.len()
            invariant
                0 <= i <= ix.accounts.len(),
                self.wf(),
                self@ == merge_metas(start, ix.accounts@.subrange(0, i as int)),
            decreases ix.accounts.len() - i,
        {
            let m = ix.accounts[i];
            self.add_account(&m);
            proof {
                let next = ix.accounts@.subrange(0, i + 1);
                assert(next.drop_last() =~= ix.accounts@.subrange(0, i as int));
                assert(next.last() == m);
            }
            i = i + 1;
        }
        proof {
            assert(ix.accounts@.subrange(0, ix.accounts.len() as int) =~= ix.accounts@);
        }
    }

    /// Adds an instruction's account references in order, then its program id.
    pub fn add_instruction(&mut self, ix: &Instruction)
        requires
            old(self).wf(),
        ensures
            final(self)@ == merge_instruction(old(self)@, ix@),
            final(self).wf(),
    {
        self.add_accounts(ix);
        let pm = AccountMeta { pubkey: ix.program_id, is_signer: false, is_writable: false };
        self.add_account(&pm);
    }

    /// The key map of one instruction.
    pub fn compile_from_instruction(ix: &Instruction) -> (r: KeyMap)
        ensures
            r@ == key_map_of_instruction(ix@),
            r.wf(),
    {
        let mut km = KeyMap::new();
        km.add_instruction(ix);
        km
    }

    /// The key map of a batch of instructions that share one account list.
    pub fn compile_from_instructions(ixs: &Vec<Instruction>) -> (r: KeyMap)
        ensures
            r@ == key_map_of_instructions(views_of(ixs@)),
            r.wf(),
    {
        let mut km = KeyMap::new();
        let mut i: usize = 0;
        while i < ixs.len()
            invariant
                0 <= i <= ixs.len(),
                km.wf(),
                km@ == key_map_of_instructions(views_of(ixs@.subrange(0, i as int))),
            decreases ixs.len() - i,
        {
            km.add_instruction(&ixs[i]);
            proof {
                let next = views_of(ixs@.subrange(0, i + 1));
                assert(next.drop_last() =~= views_of(ixs@.subrange(0, i as int)));
                assert(next.last() == ixs@[i as int]@);
            }
            i = i + 1;
        }
        proof {
            assert(ixs@.subrange(0, ixs.len() as int) =~= ixs@);
        }
        km
    }
}

} // verus!

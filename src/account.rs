//! Accounts, instructions and the engine-facing instruction account records.

use crate::address::{Address, ZERO_BYTES};
use vstd::prelude::*;

verus! {

/// Balance, payload, owner and flags of one account.
#[derive(Clone, Debug)]
pub struct Account {
    pub lamports: u64,
    pub data: Vec<u8>,
    pub owner: Address,
    pub executable: bool,
    pub rent_epoch: u64,
}

/// The mathematical value of an [`Account`].
pub struct AccountView {
    pub lamports: u64,
    pub data: Seq<u8>,
    pub owner: Address,
    pub executable: bool,
    pub rent_epoch: u64,
}

impl View for Account {
    type V = AccountView;

    open spec fn view(&self) -> AccountView {
        AccountView {
            lamports: self.lamports,
            data: self.data@,
            owner: self.owner,
            executable: self.executable,
            rent_epoch: self.rent_epoch,
        }
    }
}

/// An account with zero lamports, no data, the all-zero owner and no flags.
pub open spec fn default_account_view() -> AccountView {
    AccountView {
        lamports: 0,
        data: Seq::empty(),
        owner: Address { bytes: ZERO_BYTES },
        executable: false,
        rent_epoch: 0,
    }
}

impl Account {
    /// The zero account.
    pub fn new_default() -> (r: Account)
        ensures
            r@ == default_account_view(),
    {
        let data: Vec<u8> = Vec::new();
        proof {
            assert(data@ =~= Seq::<u8>::empty());
        }
        Account {
            lamports: 0,
            data,
            owner: Address::zero(),
            executable: false,
            rent_epoch: 0,
        }
    }

    /// An account with the given balance, `space` zero bytes of data and the given owner.
    pub fn new(lamports: u64, space: usize, owner: &Address) -> (r: Account)
        ensures
            r@.lamports == lamports,
            r@.data == Seq::new(space as nat, |i: int| 0u8),
            r@.owner == *owner,
            !r@.executable,
            r@.rent_epoch == 0,
    {
        let data: Vec<u8> = vec![0u8; space];
        proof {
            assert(data@ =~= Seq::new(space as nat, |i: int| 0u8));
        }
        Account { lamports, data, owner: *owner, executable: false, rent_epoch: 0 }
    }

    /// A copy with the same value.
    pub fn duplicate(&self) -> (r: Account)
        ensures
            r@ == self@,
    {
        let data = self.data.clone();
        proof {
            assert(data@ =~= self.data@);
        }
        Account {
            lamports: self.lamports,
            data,
            owner: self.owner,
            executable: self.executable,
            rent_epoch: self.rent_epoch,
        }
    }
}

/// One account reference of an instruction, with its privileges.
#[derive(Clone, Copy, Debug)]
pub struct AccountMeta {
    pub pubkey: Address,
    pub is_signer: bool,
    pub is_writable: bool,
}

impl AccountMeta {
    pub fn new(pubkey: Address, is_signer: bool) -> (r: AccountMeta)
        ensures
            r == (AccountMeta { pubkey, is_signer, is_writable: true }),
    {
        AccountMeta { pubkey, is_signer, is_writable: true }
    }

    pub fn new_readonly(pubkey: Address, is_signer: bool) -> (r: AccountMeta)
        ensures
            r == (AccountMeta { pubkey, is_signer, is_writable: false }),
    {
        AccountMeta { pubkey, is_signer, is_writable: false }
    }
}

/// One request to a program.
#[derive(Clone, Debug)]
pub struct Instruction {
    pub program_id: Address,
    pub accounts: Vec<AccountMeta>,
    pub data: Vec<u8>,
}

/// The mathematical value of an [`Instruction`].
pub struct InstructionView {
    pub program_id: Address,
    pub accounts: Seq<AccountMeta>,
    pub data: Seq<u8>,
}

impl View for Instruction {
    type V = InstructionView;

    open spec fn view(&self) -> InstructionView {
        InstructionView { program_id: self.program_id, accounts: self.accounts@, data: self.data@ }
    }
}

impl Instruction {
    /// A copy with the same value.
    pub fn duplicate(&self) -> (r: Instruction)
        ensures
            r@ == self@,
    {
        let accounts = self.accounts.clone();
        let data = self.data.clone();
        proof {
            assert(accounts@ =~= self.accounts@);
            assert(data@ =~= self.data@);
        }
        Instruction { program_id: self.program_id, accounts, data }
    }
}

/// How an instruction account refers to the transaction-wide account list.
#[derive(Clone, Copy, Debug, PartialEq, Eq, Structural)]
pub struct InstructionAccount {
    /// Slot of the account in the transaction account list.
    pub index_in_transaction: usize,
    /// Slot of the account in the caller's account list (equal to the
    /// transaction slot for a top-level instruction).
    pub index_in_caller: usize,
    /// Position of the first occurrence of the same account in this
    /// instruction's account list.
    pub index_in_callee: usize,
    pub is_signer: bool,
    pub is_writable: bool,
}

/// A typed failure reported by the execution engine.
#[derive(Clone, Debug, PartialEq, Eq)]
pub enum ExecutionError {
    /// A program-specific error code.
    Custom(u32),
    InsufficientFunds,
    MissingRequiredSignature,
    InvalidAccountData,
    InvalidInstructionData,
    InvalidArgument,
    UnsupportedProgramId,
    ComputationalBudgetExceeded,
    /// Any other engine error, by its name.
    Other(String),
}

} // verus!

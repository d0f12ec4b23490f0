//! Loader keys, program stub accounts and the program cache.

use crate::account::{Account, AccountView};
use crate::address::{Address, NATIVE_LOADER_BYTES, ZERO_BYTES};
use crate::keyed::{addresses_unique, find_slot, holds_key, insert_entry, map_of, slot_of};
use crate::rent::{minimum_balance_spec, Rent, DEFAULT_LAMPORTS_PER_BYTE, UNIT_EXEMPTION_THRESHOLD, DEFAULT_BURN_PERCENT};
use vstd::prelude::*;

verus! {

pub const LOADER_V1_BYTES: [u8; 32] = [
    2, 168, 246, 145, 78, 136, 161, 107, 189, 35, 149, 133, 95, 100, 4, 217,
    180, 244, 86, 183, 130, 27, 176, 20, 87, 73, 66, 140, 0, 0, 0, 0,
];

pub const LOADER_V2_BYTES: [u8; 32] = [
    2, 168, 246, 145, 78, 136, 161, 110, 57, 90, 225, 40, 148, 143, 250, 105,
    86, 147, 55, 104, 24, 221, 71, 67, 82, 33, 243, 198, 0, 0, 0, 0,
];

pub const LOADER_V3_BYTES: [u8; 32] = [
    2, 168, 246, 145, 78, 136, 161, 176, 226, 16, 21, 62, 247, 99, 174, 43,
    0, 194, 185, 61, 22, 193, 36, 210, 192, 83, 122, 16, 4, 128, 0, 0,
];

pub const LOADER_V4_BYTES: [u8; 32] = [
    5, 18, 180, 17, 81, 81, 227, 122, 173, 10, 139, 197, 211, 136, 46, 123,
    127, 218, 76, 243, 210, 192, 40, 200, 207, 131, 54, 24, 0, 0, 0, 0,
];

pub const ED25519_PROGRAM_BYTES: [u8; 32] = [
    3, 125, 70, 214, 124, 147, 251, 190, 18, 249, 66, 143, 131, 141, 64, 255,
    5, 112, 116, 73, 39, 244, 138, 100, 252, 202, 112, 68, 128, 0, 0, 0,
];

pub const SECP256K1_PROGRAM_BYTES: [u8; 32] = [
    4, 198, 252, 32, 240, 80, 204, 240, 85, 132, 215, 33, 28, 159, 140, 245,
    158, 193, 71, 133, 187, 22, 106, 30, 40, 48, 232, 18, 32, 0, 0, 0,
];

pub const SECP256R1_PROGRAM_BYTES: [u8; 32] = [
    6, 146, 13, 236, 47, 234, 113, 181, 183, 35, 129, 77, 116, 45, 169, 3,
    28, 131, 231, 95, 219, 121, 93, 86, 142, 117, 71, 128, 32, 0, 0, 0,
];

/// Bytes of an upgradeable-loader program-data account before the program.
pub const PROGRAMDATA_METADATA_SIZE: usize = 45;

/// Bytes of a newer-loader program account before the program.
pub const LOADER_V4_HEADER_SIZE: usize = 48;

/// The owner convention that says how a program was loaded.
#[derive(Clone, Copy, Debug, PartialEq, Eq, Structural)]
pub enum LoaderKey {
    /// Builtin programs, owned by the native loader.
    Native,
    /// The first bytecode loader.
    V1,
    /// The second bytecode loader.
    V2,
    /// The upgradeable loader.
    V3,
    /// The newer loader.
    V4,
}

impl LoaderKey {
    pub open spec fn spec_address(self) -> Address {
        match self {
            LoaderKey::Native => Address { bytes: NATIVE_LOADER_BYTES },
            LoaderKey::V1 => Address { bytes: LOADER_V1_BYTES },
            LoaderKey::V2 => Address { bytes: LOADER_V2_BYTES },
            LoaderKey::V3 => Address { bytes: LOADER_V3_BYTES },
            LoaderKey::V4 => Address { bytes: LOADER_V4_BYTES },
        }
    }

    /// The loader's owner address.
    pub fn address(&self) -> (r: Address)
        ensures
            r == self.spec_address(),
    {
        match self {
            LoaderKey::Native => Address { bytes: NATIVE_LOADER_BYTES },
            LoaderKey::V1 => Address { bytes: LOADER_V1_BYTES },
            LoaderKey::V2 => Address { bytes: LOADER_V2_BYTES },
            LoaderKey::V3 => Address { bytes: LOADER_V3_BYTES },
            LoaderKey::V4 => Address { bytes: LOADER_V4_BYTES },
        }
    }

    /// The loader whose owner address is `a`, if any.
    pub fn from_address(a: &Address) -> (r: Option<LoaderKey>)
        ensures
            match r {
                Some(l) => l.spec_address() == *a,
                None => forall|l: LoaderKey| l.spec_address() != *a,
            },
    {
        let all = [LoaderKey::Native, LoaderKey::V1, LoaderKey::V2, LoaderKey::V3, LoaderKey::V4];
        let mut i: usize = 0;
        while i < 5
            invariant
                0 <= i <= 5,
                all@ == seq![LoaderKey::Native, LoaderKey::V1, LoaderKey::V2, LoaderKey::V3, LoaderKey::V4],
                forall|j: int| 0 <= j < i ==> all@[j].spec_address() != *a,
            decreases 5 - i,
        {
            let l = all[i];
            if l.address().equals(a) {
                return Some(l);
            }
            i = i + 1;
        }
        proof {
            assert forall|l: LoaderKey| l.spec_address() != *a by {
                match l {
                    LoaderKey::Native => assert(all@[0] == l),
                    LoaderKey::V1 => assert(all@[1] == l),
                    LoaderKey::V2 => assert(all@[2] == l),
                    LoaderKey::V3 => assert(all@[3] == l),
                    LoaderKey::V4 => assert(all@[4] == l),
                }
            }
        }
        None
    }
}

/// The precompiled signature-verification programs, which run under the
/// native loader without a cache entry.
pub open spec fn spec_is_precompile(id: Address) -> bool {
    id == Address { bytes: ED25519_PROGRAM_BYTES } || id == Address {
        bytes: SECP256K1_PROGRAM_BYTES,
    } || id == Address { bytes: SECP256R1_PROGRAM_BYTES }
}

pub fn is_precompile(id: &Address) -> (r: bool)
    ensures
        r == spec_is_precompile(*id),
{
    id.equals(&Address { bytes: ED25519_PROGRAM_BYTES }) || id.equals(
        &Address { bytes: SECP256K1_PROGRAM_BYTES },
    ) || id.equals(&Address { bytes: SECP256R1_PROGRAM_BYTES })
}

/// A builtin program: its id and its name.
#[derive(Clone, Debug)]
pub struct Builtin {
    pub program_id: Address,
    pub name: Vec<u8>,
}

/// What the cache holds for one program: its loader and its artifact (the
/// program bytes, or a builtin's name).
#[derive(Clone, Debug)]
pub struct ProgramCacheEntry {
    pub loader: LoaderKey,
    pub elf: Vec<u8>,
}

pub struct ProgramCacheEntryView {
    pub loader: LoaderKey,
    pub elf: Seq<u8>,
}

impl View for ProgramCacheEntry {
    type V = ProgramCacheEntryView;

    open spec fn view(&self) -> ProgramCacheEntryView {
        ProgramCacheEntryView { loader: self.loader, elf: self.elf@ }
    }
}

impl ProgramCacheEntry {
    pub fn duplicate(&self) -> (r: ProgramCacheEntry)
        ensures
            r@ == self@,
    {
        let elf = self.elf.clone();
        proof {
            assert(elf@ =~= self.elf@);
        }
        ProgramCacheEntry { loader: self.loader, elf }
    }
}

/// The address a program's program-data account lives at under the
/// upgradeable loader: the first viable program-derived address.
pub uninterp spec fn program_address_for(seed: Seq<u8>, program_id: Seq<u8>) -> Option<Seq<u8>>;

/// Relies on solana_pubkey::Pubkey::try_find_program_address: the derived
/// address for one seed under a program id, `None` when no bump seed gives
/// one; it depends on its two arguments alone.
#[verifier::external_body]
fn try_find_program_address(seed: &Address, program_id: &Address) -> (r: Option<Address>)
    ensures
        match r {
            Some(a) => program_address_for(seed.bytes@, program_id.bytes@) == Some(a.bytes@),
            None => program_address_for(seed.bytes@, program_id.bytes@) is None,
        },
{
    let owner = solana_pubkey::Pubkey::new_from_array(program_id.bytes);
    solana_pubkey::Pubkey::try_find_program_address(&[&seed.bytes], &owner).map(
        |(a, _)| Address { bytes: a.to_bytes() },
    )
}

/// The serialized upgradeable-loader state of a program account.
pub open spec fn program_state_bytes(programdata_address: Seq<u8>) -> Seq<u8> {
    seq![2u8, 0u8, 0u8, 0u8] + programdata_address
}

/// Relies on bincode::serialize of solana_loader_v3_interface's
/// UpgradeableLoaderState::Program: the variant index as a little-endian
/// u32, then the 32 address bytes.
#[verifier::external_body]
fn encode_program_state(programdata_address: &Address) -> (r: Vec<u8>)
    ensures
        r@ == program_state_bytes(programdata_address.bytes@),
{
    let state = solana_loader_v3_interface::state::UpgradeableLoaderState::Program {
        programdata_address: solana_pubkey::Pubkey::new_from_array(programdata_address.bytes),
    };
    bincode::serialize(&state).unwrap_or_default()
}

/// Relies on bincode::deserialize of solana_loader_v3_interface's
/// UpgradeableLoaderState (fixed-width little-endian, trailing bytes
/// allowed): a program account's state is the variant index 2 as a u32
/// followed by the 32 bytes of its program-data address.
#[verifier::external_body]
pub(crate) fn decode_program_state(data: &Vec<u8>) -> (r: Option<Address>)
    ensures
        match r {
            Some(a) => data@.len() >= 36 && data@.subrange(0, 4) == seq![2u8, 0u8, 0u8, 0u8]
                && a.bytes@ == data@.subrange(4, 36),
            None => !(data@.len() >= 36 && data@.subrange(0, 4) == seq![2u8, 0u8, 0u8, 0u8]),
        },
{
    match bincode::deserialize::<solana_loader_v3_interface::state::UpgradeableLoaderState>(data) {
        Ok(solana_loader_v3_interface::state::UpgradeableLoaderState::Program {
            programdata_address,
        }) => Some(Address { bytes: programdata_address.to_bytes() }),
        _ => None,
    }
}

/// The default schedule's minimum balance for `len` bytes, zero past the
/// largest permitted length.
pub open spec fn stub_lamports(len: nat) -> u64 {
    match minimum_balance_spec(
        Rent {
            lamports_per_byte: DEFAULT_LAMPORTS_PER_BYTE,
            exemption_threshold: UNIT_EXEMPTION_THRESHOLD,
            burn_percent: DEFAULT_BURN_PERCENT,
        },
        len,
    ) {
        Some(v) => v,
        None => 0,
    }
}

fn rent_exempt_lamports(len: usize) -> (r: u64)
    ensures
        r == stub_lamports(len as nat),
{
    let rent = Rent::new_default();
    match rent.try_minimum_balance(len) {
        Some(v) => v,
        None => 0,
    }
}

/// The header of a deployed newer-loader program: slot zero, the zero
/// authority, and the deployed status.
pub open spec fn loader_v4_header() -> Seq<u8> {
    Seq::new(48, |i: int| if i == 40 { 1u8 } else { 0u8 })
}

/// A rent-exempt executable account with the given owner and data.
pub open spec fn executable_account(owner: Address, data: Seq<u8>) -> AccountView {
    AccountView {
        lamports: stub_lamports(data.len()),
        data,
        owner,
        executable: true,
        rent_epoch: 0,
    }
}

/// The stub account of a cached program, shaped by its loader.
pub open spec fn program_account_spec(program_id: Address, entry: ProgramCacheEntryView) -> AccountView {
    match entry.loader {
        LoaderKey::Native => executable_account(entry.loader.spec_address(), entry.elf),
        LoaderKey::V1 | LoaderKey::V2 => executable_account(entry.loader.spec_address(), Seq::empty()),
        LoaderKey::V3 => match program_address_for(program_id.bytes@, LoaderKey::V3.spec_address().bytes@) {
            Some(a) => executable_account(entry.loader.spec_address(), program_state_bytes(a)),
            None => executable_account(entry.loader.spec_address(), Seq::empty()),
        },
        LoaderKey::V4 => executable_account(entry.loader.spec_address(), loader_v4_header()),
    }
}

fn make_executable_account(owner: Address, data: Vec<u8>) -> (r: Account)
    ensures
        r@ == executable_account(owner, data@),
{
    let lamports = rent_exempt_lamports(data.len());
    Account { lamports, data, owner, executable: true, rent_epoch: 0 }
}

/// The stub account of a cached program, shaped by its loader.
pub fn create_program_account(program_id: &Address, entry: &ProgramCacheEntry) -> (r: Account)
    ensures
        r@ == program_account_spec(*program_id, entry@),
{
    let owner = entry.loader.address();
    match entry.loader {
        LoaderKey::Native => {
            let data = entry.elf.clone();
            proof {
                assert(data@ =~= entry.elf@);
            }
            make_executable_account(owner, data)
        },
        LoaderKey::V1 | LoaderKey::V2 => {
            let data: Vec<u8> = Vec::new();
            proof {
                assert(data@ =~= Seq::<u8>::empty());
            }
            make_executable_account(owner, data)
        },
        LoaderKey::V3 => {
            let v3 = LoaderKey::V3.address();
            match try_find_program_address(program_id, &v3) {
                Some(a) => make_executable_account(owner, encode_program_state(&a)),
                None => {
                    let data: Vec<u8> = Vec::new();
                    proof {
                        assert(data@ =~= Seq::<u8>::empty());
                    }
                    make_executable_account(owner, data)
                },
            }
        },
        LoaderKey::V4 => {
            let mut data: Vec<u8> = vec![0u8; LOADER_V4_HEADER_SIZE];
            data.set(40, 1u8);
            proof {
                assert(data@ =~= loader_v4_header());
            }
            make_executable_account(owner, data)
        },
    }
}

/// The program cache under its harness name.
pub type ProgramCacheMt = ProgramCache;

/// The programs known to the harness: each program id with its loader and
/// artifact. Adding a program under a known id replaces it.
pub struct ProgramCache {
    entries: Vec<(Address, ProgramCacheEntry)>,
}

impl ProgramCache {
    #[verifier::type_invariant]
    spec fn inv(&self) -> bool {
        addresses_unique(self.entries@)
    }

    /// The cached programs, by id.
    pub closed spec fn programs(&self) -> Map<Address, ProgramCacheEntryView> {
        map_of(self.entries@)
    }

    /// An empty cache.
    pub fn empty() -> (r: ProgramCache)
        ensures
            r.programs() == Map::<Address, ProgramCacheEntryView>::empty(),
    {
        let r = ProgramCache { entries: Vec::new() };
        proof {
            assert(r.programs() =~= Map::<Address, ProgramCacheEntryView>::empty());
        }
        r
    }

    /// A cache holding the builtin programs under the native loader: the
    /// system (value-transfer) program and the second and upgradeable
    /// bytecode loaders.
    pub fn new() -> (r: ProgramCache)
        ensures
            r.programs().dom() == set![
                Address { bytes: ZERO_BYTES },
                Address { bytes: LOADER_V2_BYTES },
                Address { bytes: LOADER_V3_BYTES },
            ],
            r.programs()[Address { bytes: ZERO_BYTES }].loader == LoaderKey::Native,
            r.programs()[Address { bytes: LOADER_V2_BYTES }].loader == LoaderKey::Native,
            r.programs()[Address { bytes: LOADER_V3_BYTES }].loader == LoaderKey::Native,
    {
        let mut cache = ProgramCache::empty();
        cache.add_builtin(
            Builtin { program_id: Address::zero(), name: vstd::slice::slice_to_vec("system_program".as_bytes()) },
        );
        cache.add_builtin(
            Builtin {
                program_id: Address { bytes: LOADER_V2_BYTES },
                name: vstd::slice::slice_to_vec("solana_bpf_loader_program".as_bytes()),
            },
        );
        cache.add_builtin(
            Builtin {
                program_id: Address { bytes: LOADER_V3_BYTES },
                name: vstd::slice::slice_to_vec("solana_bpf_loader_upgradeable_program".as_bytes()),
            },
        );
        proof {
            assert(cache.programs().dom() =~= set![
                Address { bytes: ZERO_BYTES },
                Address { bytes: LOADER_V2_BYTES },
                Address { bytes: LOADER_V3_BYTES },
            ]);
        }
        cache
    }

    fn replenish(&mut self, program_id: Address, entry: ProgramCacheEntry)
        ensures
            final(self).programs() == old(self).programs().insert(program_id, entry@),
    {
        proof {
            use_type_invariant(&*self);
        }
        let mut entries: Vec<(Address, ProgramCacheEntry)> = Vec::new();
        std::mem::swap(&mut entries, &mut self.entries);
        insert_entry(&mut entries, program_id, entry);
        self.entries = entries;
    }

    /// Adds a builtin program under the native loader.
    pub fn add_builtin(&mut self, builtin: Builtin)
        ensures
            final(self).programs() == old(self).programs().insert(
                builtin.program_id,
                ProgramCacheEntryView { loader: LoaderKey::Native, elf: builtin.name@ },
            ),
    {
        let program_id = builtin.program_id;
        self.replenish(program_id, ProgramCacheEntry { loader: LoaderKey::Native, elf: builtin.name });
    }

    /// Adds (or replaces) a program with the given loader and bytes.
    pub fn add_program(&mut self, program_id: &Address, loader_key: LoaderKey, elf: &Vec<u8>)
        ensures
            final(self).programs() == old(self).programs().insert(
                *program_id,
                ProgramCacheEntryView { loader: loader_key, elf: elf@ },
            ),
    {
        let bytes = elf.clone();
        proof {
            assert(bytes@ =~= elf@);
        }
        self.replenish(*program_id, ProgramCacheEntry { loader: loader_key, elf: bytes });
    }

    /// The entry cached for `program_id`, if any.
    pub fn load_program(&self, program_id: &Address) -> (r: Option<ProgramCacheEntry>)
        ensures
            match r {
                Some(e) => self.programs().contains_key(*program_id) && e@ == self.programs()[*program_id],
                None => !self.programs().contains_key(*program_id),
            },
    {
        proof {
            use_type_invariant(&*self);
        }
        match find_slot(&self.entries, program_id) {
            Some(i) => Some(self.entries[i].1.duplicate()),
            None => None,
        }
    }

    /// The loader of the program cached for `program_id`, if any.
    pub fn loader_of(&self, program_id: &Address) -> (r: Option<LoaderKey>)
        ensures
            match r {
                Some(l) => self.programs().contains_key(*program_id) && l == self.programs()[*program_id].loader,
                None => !self.programs().contains_key(*program_id),
            },
    {
        proof {
            use_type_invariant(&*self);
        }
        match find_slot(&self.entries, program_id) {
            Some(i) => Some(self.entries[i].1.loader),
            None => None,
        }
    }

    /// The stub account of `pubkey` if it is a cached program.
    pub fn maybe_create_program_account(&self, pubkey: &Address) -> (r: Option<Account>)
        ensures
            match r {
                Some(a) => self.programs().contains_key(*pubkey) && a@ == program_account_spec(
                    *pubkey,
                    self.programs()[*pubkey],
                ),
                None => !self.programs().contains_key(*pubkey),
            },
    {
        proof {
            use_type_invariant(&*self);
        }
        match find_slot(&self.entries, pubkey) {
            Some(i) => Some(create_program_account(pubkey, &self.entries[i].1)),
            None => None,
        }
    }

    /// The id of every cached program, once each.
    pub fn program_ids(&self) -> (r: Vec<Address>)
        ensures
            forall|i: int, j: int| 0 <= i < r@.len() && 0 <= j < r@.len() && r@[i] == r@[j] ==> i == j,
            forall|i: int| 0 <= i < r@.len() ==> self.programs().contains_key(#[trigger] r@[i]),
            forall|k: Address| self.programs().contains_key(k) ==> exists|i: int| 0 <= i < r@.len() && r@[i] == k,
    {
        proof {
            use_type_invariant(&*self);
        }
        let ghost s = self.entries@;
        let mut out: Vec<Address> = Vec::new();
        let mut i: usize = 0;
        while i < self.entries.len()
            invariant
                0 <= i <= s.len(),
                s == self.entries@,
                addresses_unique(s),
                out@.len() == i,
                forall|j: int| 0 <= j < i ==> #[trigger] out@[j] == s[j].0,
            decreases s.len() - i,
        {
            out.push(self.entries[i].0);
            i = i + 1;
        }
        proof {
            assert forall|a: int, b: int| 0 <= a < out@.len() && 0 <= b < out@.len() && out@[a] == out@[b] implies a == b by {
                assert(s[a].0 == s[b].0);
            }
            assert forall|j: int| 0 <= j < out@.len() implies self.programs().contains_key(#[trigger] out@[j]) by {
                assert(holds_key(s, s[j].0));
            }
            assert forall|k: Address| self.programs().contains_key(k) implies exists|j: int| 0 <= j < out@.len() && out@[j] == k by {
                let c = slot_of(s, k);
                assert(out@[c] == k);
            }
        }
        out
    }

    /// The stub account of every cached program, one per program.
    pub fn get_all_keyed_program_accounts(&self) -> (r: Vec<(Address, Account)>)
        ensures
            addresses_unique(r@),
            forall|i: int|
                0 <= i < r@.len() ==> self.programs().contains_key(#[trigger] r@[i].0) && r@[i].1@
                    == program_account_spec(r@[i].0, self.programs()[r@[i].0]),
            forall|k: Address|
                self.programs().contains_key(k) ==> exists|i: int| 0 <= i < r@.len() && r@[i].0 == k,
    {
        proof {
            use_type_invariant(&*self);
        }
        let ghost s = self.entries@;
        let mut out: Vec<(Address, Account)> = Vec::new();
        let mut i: usize = 0;
        while i < self.entries.len()
            invariant
                0 <= i <= s.len(),
                s == self.entries@,
                addresses_unique(s),
                out@.len() == i,
                forall|j: int| 0 <= j < i ==> #[trigger] out@[j].0 == s[j].0 && out@[j].1@
                    == program_account_spec(s[j].0, s[j].1@),
            decreases s.len() - i,
        {
            let k = self.entries[i].0;
            let a = create_program_account(&k, &self.entries[i].1);
            out.push((k, a));
            i = i + 1;
        }
        proof {
            assert forall|a: int, b: int|
                0 <= a < out@.len() && 0 <= b < out@.len() && out@[a].0 == out@[b].0 implies a == b by {
                assert(s[a].0 == s[b].0);
            }
            assert forall|j: int| 0 <= j < out@.len() implies self.programs().contains_key(
                #[trigger] out@[j].0,
            ) && out@[j].1@ == program_account_spec(out@[j].0, self.programs()[out@[j].0]) by {
                assert(holds_key(s, s[j].0));
                let c = slot_of(s, s[j].0);
                assert(s[c].0 == s[j].0);
            }
            assert forall|k: Address| self.programs().contains_key(k) implies exists|j: int|
                0 <= j < out@.len() && out@[j].0 == k by {
                let c = slot_of(s, k);
                assert(out@[c].0 == k);
            }
        }
        out
    }
}

} // verus!

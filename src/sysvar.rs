//! The sysvar snapshot: the chain and cluster state the engine reads, with
//! typed access and the two deterministic mutators.

use crate::address::ZERO_BYTES;
use crate::rent::{Rent, DEFAULT_BURN_PERCENT, DEFAULT_LAMPORTS_PER_BYTE, UNIT_EXEMPTION_THRESHOLD};
use vstd::prelude::*;

verus! {

/// Entries the slot-hash history keeps.
pub const MAX_SLOT_HASHES: usize = 512;

/// The marker byte mixed into a synthesized blockhash.
pub const BLOCKHASH_MARKER: u8 = 255;

pub const DEFAULT_SLOTS_PER_EPOCH: u64 = 432000;

pub const DEFAULT_FIRST_NORMAL_EPOCH: u64 = 14;

pub const DEFAULT_FIRST_NORMAL_SLOT: u64 = 524256;

pub const CLOCK_ID_BYTES: [u8; 32] = [
    6, 167, 213, 23, 24, 199, 116, 201, 40, 86, 99, 152, 105, 29, 94, 182,
    139, 94, 184, 163, 155, 75, 109, 92, 115, 85, 91, 33, 0, 0, 0, 0,
];

pub const RENT_ID_BYTES: [u8; 32] = [
    6, 167, 213, 23, 25, 44, 92, 81, 33, 140, 201, 76, 61, 74, 241, 127,
    88, 218, 238, 8, 155, 161, 253, 68, 227, 219, 217, 138, 0, 0, 0, 0,
];

/// Slot, epoch and wall-clock time.
#[derive(Clone, Copy, Debug, PartialEq, Eq, Structural)]
pub struct Clock {
    pub slot: u64,
    pub epoch_start_timestamp: i64,
    pub epoch: u64,
    pub leader_schedule_epoch: u64,
    pub unix_timestamp: i64,
}

/// Epoch lengths and the warmup schedule.
#[derive(Clone, Copy, Debug, PartialEq, Eq, Structural)]
pub struct EpochSchedule {
    pub slots_per_epoch: u64,
    pub leader_schedule_slot_offset: u64,
    pub warmup: bool,
    pub first_normal_epoch: u64,
    pub first_normal_slot: u64,
}

/// The state of epoch-rewards distribution.
#[derive(Clone, Copy, Debug)]
pub struct EpochRewards {
    pub distribution_starting_block_height: u64,
    pub num_partitions: u64,
    pub parent_blockhash: [u8; 32],
    pub total_points: u128,
    pub total_rewards: u64,
    pub distributed_rewards: u64,
    pub active: bool,
}

/// The slot of the last cluster restart.
#[derive(Clone, Copy, Debug, PartialEq, Eq, Structural)]
pub struct LastRestartSlot {
    pub last_restart_slot: u64,
}

/// Stake totals of one epoch.
#[derive(Clone, Copy, Debug, PartialEq, Eq, Structural)]
pub struct StakeHistoryEntry {
    pub effective: u64,
    pub activating: u64,
    pub deactivating: u64,
}

/// The closed set of sysvars the snapshot holds.
#[derive(Clone, Copy, Debug, PartialEq, Eq, Structural)]
pub enum SysvarKind {
    Clock,
    EpochRewards,
    EpochSchedule,
    LastRestartSlot,
    Rent,
    SlotHashes,
    StakeHistory,
}

/// A value of one sysvar.
#[derive(Clone, Debug)]
pub enum SysvarValue {
    Clock(Clock),
    EpochRewards(EpochRewards),
    EpochSchedule(EpochSchedule),
    LastRestartSlot(LastRestartSlot),
    Rent(Rent),
    /// Slot and hash pairs, newest first.
    SlotHashes(Vec<(u64, [u8; 32])>),
    /// Epoch and totals pairs.
    StakeHistory(Vec<(u64, StakeHistoryEntry)>),
}

/// The in-memory values of every sysvar.
pub struct Sysvars {
    pub clock: Clock,
    pub epoch_rewards: EpochRewards,
    pub epoch_schedule: EpochSchedule,
    pub last_restart_slot: LastRestartSlot,
    pub rent: Rent,
    /// Slot and hash pairs, newest first, at most `MAX_SLOT_HASHES` of them.
    pub slot_hashes: Vec<(u64, [u8; 32])>,
    pub stake_history: Vec<(u64, StakeHistoryEntry)>,
}

/// Adds `(slot, hash)` to a slot-hash history kept newest first: it replaces
/// the entry of the same slot, or goes before the first older entry.
pub open spec fn insert_slot_hash(s: Seq<(u64, [u8; 32])>, slot: u64, hash: [u8; 32]) -> Seq<
    (u64, [u8; 32]),
>
    decreases s.len(),
{
    if s.len() == 0 {
        seq![(slot, hash)]
    } else if s[0].0 == slot {
        s.update(0, (slot, hash))
    } else if s[0].0 < slot {
        seq![(slot, hash)] + s
    } else {
        seq![s[0]] + insert_slot_hash(s.drop_first(), slot, hash)
    }
}

/// [`insert_slot_hash`], then the oldest entries past capacity dropped.
pub open spec fn add_slot_hash(s: Seq<(u64, [u8; 32])>, slot: u64, hash: [u8; 32]) -> Seq<
    (u64, [u8; 32]),
> {
    let t = insert_slot_hash(s, slot, hash);
    if t.len() > MAX_SLOT_HASHES {
        t.subrange(0, MAX_SLOT_HASHES as int)
    } else {
        t
    }
}

/// The little-endian bytes of the low `n` bytes of `x`.
pub open spec fn le_bytes(x: nat, n: nat) -> Seq<u8>
    decreases n,
{
    if n == 0 {
        Seq::empty()
    } else {
        seq![(x % 256) as u8] + le_bytes(x / 256, (n - 1) as nat)
    }
}

/// The number whose little-endian bytes are `b`.
pub open spec fn le_value(b: Seq<u8>) -> nat
    decreases b.len(),
{
    if b.len() == 0 {
        0
    } else {
        b[0] as nat + 256 * le_value(b.drop_first())
    }
}

/// The two's-complement reading of an eight-byte value.
pub open spec fn signed_of(v: nat) -> int {
    if v >= 0x8000_0000_0000_0000 {
        v - 0x1_0000_0000_0000_0000
    } else {
        v as int
    }
}

/// The hash synthesized for blockhash rotation: the slot's and the time's
/// little-endian bytes, the marker byte, then zeros.
pub open spec fn blockhash_bytes(slot: u64, unix_seconds: u64) -> Seq<u8> {
    le_bytes(slot as nat, 8) + le_bytes(unix_seconds as nat, 8) + seq![BLOCKHASH_MARKER] + Seq::new(
        15,
        |i: int| 0u8,
    )
}

/// The synthesized blockhash as an array.
pub open spec fn blockhash_of(slot: u64, unix_seconds: u64) -> [u8; 32] {
    choose|h: [u8; 32]| h@ == blockhash_bytes(slot, unix_seconds)
}

/// Every entry of the history is at or before `slot`.
pub open spec fn history_at_or_before(s: Seq<(u64, [u8; 32])>, slot: u64) -> bool {
    forall|i: int| 0 <= i < s.len() ==> #[trigger] s[i].0 <= slot
}

fn push_le_bytes(out: &mut Vec<u8>, x: u64)
    ensures
        final(out)@ == old(out)@ + le_bytes(x as nat, 8),
{
    let ghost start = out@;
    let mut v: u64 = x;
    let mut k: usize = 0;
    while k < 8
        invariant
            0 <= k <= 8,
            out@ + le_bytes(v as nat, (8 - k) as nat) == start + le_bytes(x as nat, 8),
        decreases 8 - k,
    {
        let ghost before = out@;
        out.push((v % 256) as u8);
        proof {
            let n = (8 - k) as nat;
            assert(le_bytes(v as nat, n) == seq![(v as nat % 256) as u8] + le_bytes(
                v as nat / 256,
                (n - 1) as nat,
            ));
            assert(out@ + le_bytes((v / 256) as nat, (n - 1) as nat) =~= before + le_bytes(
                v as nat,
                n,
            ));
        }
        v = v / 256;
        k = k + 1;
    }
    proof {
        assert(le_bytes(v as nat, 0) =~= Seq::<u8>::empty());
        assert(out@ =~= out@ + le_bytes(v as nat, 0));
    }
}

/// The blockhash for rotation at `slot` and `unix_seconds`.
pub fn make_blockhash(slot: u64, unix_seconds: u64) -> (r: [u8; 32])
    ensures
        r@ == blockhash_bytes(slot, unix_seconds),
        r == blockhash_of(slot, unix_seconds),
{
    let mut v: Vec<u8> = Vec::new();
    push_le_bytes(&mut v, slot);
    push_le_bytes(&mut v, unix_seconds);
    v.push(BLOCKHASH_MARKER);
    let mut k: usize = 0;
    while k < 15
        invariant
            0 <= k <= 15,
            v@ == le_bytes(slot as nat, 8) + le_bytes(unix_seconds as nat, 8) + seq![BLOCKHASH_MARKER]
                + Seq::new(k as nat, |i: int| 0u8),
        decreases 15 - k,
    {
        v.push(0u8);
        proof {
            assert(Seq::new((k + 1) as nat, |i: int| 0u8) =~= Seq::new(k as nat, |i: int| 0u8).push(0u8));
        }
        k = k + 1;
    }
    proof {
        lemma_le_bytes_len(slot as nat, 8);
        lemma_le_bytes_len(unix_seconds as nat, 8);
    }
    let mut r: [u8; 32] = [0u8; 32];
    let mut i: usize = 0;
    while i < 32
        invariant
            0 <= i <= 32,
            v@.len() == 32,
            v@ == blockhash_bytes(slot, unix_seconds),
            forall|j: int| 0 <= j < i ==> r@[j] == v@[j],
        decreases 32 - i,
    {
        r[i] = v[i];
        i = i + 1;
    }
    proof {
        assert(r@ =~= v@);
        let h = blockhash_of(slot, unix_seconds);
        assert(h@ == r@);
        assert(h =~= r);
    }
    r
}

pub proof fn lemma_le_bytes_len(x: nat, n: nat)
    ensures
        le_bytes(x, n).len() == n,
    decreases n,
{
    if n > 0 {
        lemma_le_bytes_len(x / 256, (n - 1) as nat);
    }
}

/// Adds `(slot, hash)` to a history kept newest first, replacing the entry of
/// the same slot, and drops the oldest entries past capacity.
pub fn add_slot_hash_entry(history: &mut Vec<(u64, [u8; 32])>, slot: u64, hash: [u8; 32])
    ensures
        final(history)@ == add_slot_hash(old(history)@, slot, hash),
{
    let ghost s = history@;
    proof {
        assert(s.subrange(0, s.len() as int) =~= s);
        assert(s.subrange(0, 0) + insert_slot_hash(s, slot, hash) =~= insert_slot_hash(s, slot, hash));
    }
    let mut i: usize = 0;
    while i < history.len() && history[i].0 > slot
        invariant
            0 <= i <= s.len(),
            history@ == s,
            insert_slot_hash(s, slot, hash) == s.subrange(0, i as int) + insert_slot_hash(
                s.subrange(i as int, s.len() as int),
                slot,
                hash,
            ),
        decreases s.len() - i,
    {
        proof {
            let rest = s.subrange(i as int, s.len() as int);
            assert(rest[0] == s[i as int]);
            assert(rest.drop_first() =~= s.subrange(i + 1, s.len() as int));
            assert(s.subrange(0, i + 1) =~= s.subrange(0, i as int) + seq![s[i as int]]);
            assert(insert_slot_hash(rest, slot, hash) == seq![rest[0]] + insert_slot_hash(
                rest.drop_first(),
                slot,
                hash,
            ));
            assert(s.subrange(0, i as int) + insert_slot_hash(rest, slot, hash) =~= s.subrange(
                0,
                i + 1,
            ) + insert_slot_hash(s.subrange(i + 1, s.len() as int), slot, hash));
        }
        i = i + 1;
    }
    let rest = Ghost(s.subrange(i as int, s.len() as int));
    if i < history.len() && history[i].0 == slot {
        history.set(i, (slot, hash));
        proof {
            assert(rest@[0] == s[i as int]);
            assert(insert_slot_hash(rest@, slot, hash) == rest@.update(0, (slot, hash)));
            assert(history@ =~= s.subrange(0, i as int) + rest@.update(0, (slot, hash)));
        }
    } else {
        history.insert(i, (slot, hash));
        proof {
            if rest@.len() > 0 {
                assert(rest@[0] == s[i as int]);
            }
            assert(insert_slot_hash(rest@, slot, hash) =~= seq![(slot, hash)] + rest@);
            assert(history@ =~= s.subrange(0, i as int) + (seq![(slot, hash)] + rest@));
        }
    }
    if history.len() > MAX_SLOT_HASHES {
        history.truncate(MAX_SLOT_HASHES);
    }
}

/// With every entry at or before `slot`, adding a later slot puts it first.
pub proof fn lemma_add_newer_slot_first(s: Seq<(u64, [u8; 32])>, slot: u64, hash: [u8; 32])
    requires
        forall|i: int| 0 <= i < s.len() ==> #[trigger] s[i].0 < slot,
    ensures
        add_slot_hash(s, slot, hash).len() > 0,
        add_slot_hash(s, slot, hash)[0] == (slot, hash),
{
    if s.len() > 0 {
        assert(s[0].0 < slot);
        assert(insert_slot_hash(s, slot, hash) == seq![(slot, hash)] + s);
    }
}

/// Relies on std::time::SystemTime::now and its duration since the Unix
/// epoch: the current wall-clock seconds, zero for a clock set before the
/// epoch.
#[verifier::external_body]
fn unix_seconds_now() -> (r: u64) {
    match std::time::SystemTime::now().duration_since(std::time::UNIX_EPOCH) {
        Ok(d) => d.as_secs(),
        Err(_) => 0,
    }
}

impl Sysvars {
    /// The canonical baseline: slot zero, the default epoch schedule and
    /// rent, no rewards, no stake history, and a full slot-hash history of
    /// slot zero with the zero hash.
    pub fn new() -> (r: Sysvars)
        ensures
            r.clock == (Clock {
                slot: 0,
                epoch_start_timestamp: 0,
                epoch: 0,
                leader_schedule_epoch: 0,
                unix_timestamp: 0,
            }),
            r.epoch_schedule == (EpochSchedule {
                slots_per_epoch: DEFAULT_SLOTS_PER_EPOCH,
                leader_schedule_slot_offset: DEFAULT_SLOTS_PER_EPOCH,
                warmup: true,
                first_normal_epoch: DEFAULT_FIRST_NORMAL_EPOCH,
                first_normal_slot: DEFAULT_FIRST_NORMAL_SLOT,
            }),
            r.last_restart_slot.last_restart_slot == 0,
            r.rent.lamports_per_byte == DEFAULT_LAMPORTS_PER_BYTE,
            r.rent.exemption_threshold == UNIT_EXEMPTION_THRESHOLD,
            r.rent.burn_percent == DEFAULT_BURN_PERCENT,
            r.slot_hashes@.len() == MAX_SLOT_HASHES,
            forall|i: int| 0 <= i < MAX_SLOT_HASHES ==> r.slot_hashes@[i] == (0u64, ZERO_BYTES),
            r.stake_history@.len() == 0,
            !r.epoch_rewards.active,
    {
        let mut slot_hashes: Vec<(u64, [u8; 32])> = Vec::new();
        let mut i: usize = 0;
        while i < MAX_SLOT_HASHES
            invariant
                0 <= i <= MAX_SLOT_HASHES,
                slot_hashes@.len() == i,
                forall|j: int| 0 <= j < i ==> slot_hashes@[j] == (0u64, ZERO_BYTES),
            decreases MAX_SLOT_HASHES - i,
        {
            slot_hashes.push((0u64, ZERO_BYTES));
            i = i + 1;
        }
        Sysvars {
            clock: Clock {
                slot: 0,
                epoch_start_timestamp: 0,
                epoch: 0,
                leader_schedule_epoch: 0,
                unix_timestamp: 0,
            },
            epoch_rewards: EpochRewards {
                distribution_starting_block_height: 0,
                num_partitions: 0,
                parent_blockhash: ZERO_BYTES,
                total_points: 0,
                total_rewards: 0,
                distributed_rewards: 0,
                active: false,
            },
            epoch_schedule: EpochSchedule {
                slots_per_epoch: DEFAULT_SLOTS_PER_EPOCH,
                leader_schedule_slot_offset: DEFAULT_SLOTS_PER_EPOCH,
                warmup: true,
                first_normal_epoch: DEFAULT_FIRST_NORMAL_EPOCH,
                first_normal_slot: DEFAULT_FIRST_NORMAL_SLOT,
            },
            last_restart_slot: LastRestartSlot { last_restart_slot: 0 },
            rent: Rent::new_default(),
            slot_hashes,
            stake_history: Vec::new(),
        }
    }

    /// Sets the clock's slot, and nothing else.
    pub fn warp_to_slot(&mut self, slot: u64)
        ensures
            final(self).clock == (Clock { slot, ..old(self).clock }),
            final(self).slot_hashes@ == old(self).slot_hashes@,
            final(self).stake_history@ == old(self).stake_history@,
            final(self).epoch_schedule == old(self).epoch_schedule,
            final(self).epoch_rewards == old(self).epoch_rewards,
            final(self).last_restart_slot == old(self).last_restart_slot,
            final(self).rent == old(self).rent,
    {
        self.clock.slot = slot;
    }

    /// Rotates the blockhash at wall-clock time `unix_seconds`: adds the
    /// synthesized hash for the next slot to the slot-hash history and moves
    /// the clock to that slot.
    pub fn expire_blockhash_at(&mut self, unix_seconds: u64)
        requires
            old(self).clock.slot < u64::MAX,
        ensures
            final(self).clock == (Clock { slot: (old(self).clock.slot + 1) as u64, ..old(self).clock }),
            final(self).slot_hashes@ == add_slot_hash(
                old(self).slot_hashes@,
                (old(self).clock.slot + 1) as u64,
                blockhash_of(old(self).clock.slot, unix_seconds),
            ),
            history_at_or_before(old(self).slot_hashes@, old(self).clock.slot) ==> (
                final(self).slot_hashes@.len() > 0
                && final(self).slot_hashes@[0].0 == final(self).clock.slot),
            final(self).stake_history@ == old(self).stake_history@,
            final(self).epoch_schedule == old(self).epoch_schedule,
            final(self).epoch_rewards == old(self).epoch_rewards,
            final(self).last_restart_slot == old(self).last_restart_slot,
            final(self).rent == old(self).rent,
    {
        let current_slot = self.clock.slot;
        let hash = make_blockhash(current_slot, unix_seconds);
        let next_slot = current_slot + 1;
        add_slot_hash_entry(&mut self.slot_hashes, next_slot, hash);
        proof {
            if history_at_or_before(old(self).slot_hashes@, current_slot) {
                lemma_add_newer_slot_first(old(self).slot_hashes@, next_slot, hash);
            }
        }
        self.clock.slot = next_slot;
    }

    /// Rotates the blockhash at the current wall-clock time.
    pub fn expire_blockhash(&mut self)
        requires
            old(self).clock.slot < u64::MAX,
        ensures
            final(self).clock == (Clock { slot: (old(self).clock.slot + 1) as u64, ..old(self).clock }),
            exists|now: u64|
                final(self).slot_hashes@ == add_slot_hash(
                    old(self).slot_hashes@,
                    (old(self).clock.slot + 1) as u64,
                    #[trigger] blockhash_of(old(self).clock.slot, now),
                ),
            history_at_or_before(old(self).slot_hashes@, old(self).clock.slot) ==> (
                final(self).slot_hashes@.len() > 0
                && final(self).slot_hashes@[0].0 == final(self).clock.slot),
            final(self).stake_history@ == old(self).stake_history@,
            final(self).epoch_schedule == old(self).epoch_schedule,
            final(self).epoch_rewards == old(self).epoch_rewards,
            final(self).last_restart_slot == old(self).last_restart_slot,
            final(self).rent == old(self).rent,
    {
        let now = unix_seconds_now();
        self.expire_blockhash_at(now);
    }
}

} // verus!

verus! {

/// The clock read from the bytes of a clock sysvar account.
pub open spec fn clock_from_bytes(b: Seq<u8>) -> Clock {
    Clock {
        slot: le_value(b.subrange(0, 8)) as u64,
        epoch_start_timestamp: signed_of(le_value(b.subrange(8, 16))) as i64,
        epoch: le_value(b.subrange(16, 24)) as u64,
        leader_schedule_epoch: le_value(b.subrange(24, 32)) as u64,
        unix_timestamp: signed_of(le_value(b.subrange(32, 40))) as i64,
    }
}

/// The rent schedule read from the bytes of a rent sysvar account.
pub open spec fn rent_from_bytes(b: Seq<u8>) -> Rent {
    Rent {
        lamports_per_byte: le_value(b.subrange(0, 8)) as u64,
        exemption_threshold: choose|t: [u8; 8]| t@ == b.subrange(8, 16),
        burn_percent: b[16],
    }
}

/// Relies on bincode::deserialize of solana_clock::Clock: five fixed-width
/// little-endian 8-byte fields, trailing bytes allowed.
#[verifier::external_body]
pub fn decode_clock(data: &Vec<u8>) -> (r: Option<Clock>)
    ensures
        match r {
            Some(c) => data@.len() >= 40 && c == clock_from_bytes(data@),
            None => data@.len() < 40,
        },
{
    match bincode::deserialize::<solana_clock::Clock>(data) {
        Ok(c) => Some(
            Clock {
                slot: c.slot,
                epoch_start_timestamp: c.epoch_start_timestamp,
                epoch: c.epoch,
                leader_schedule_epoch: c.leader_schedule_epoch,
                unix_timestamp: c.unix_timestamp,
            },
        ),
        Err(_) => None,
    }
}

/// Relies on bincode::deserialize of solana_rent::Rent: an 8-byte
/// little-endian rate, 8 threshold bytes and one burn byte, trailing bytes
/// allowed.
#[verifier::external_body]
#[allow(deprecated)]
pub fn decode_rent(data: &Vec<u8>) -> (r: Option<Rent>)
    ensures
        match r {
            Some(x) => data@.len() >= 17 && x == rent_from_bytes(data@),
            None => data@.len() < 17,
        },
{
    match bincode::deserialize::<solana_rent::Rent>(data) {
        Ok(x) => Some(
            Rent {
                lamports_per_byte: x.lamports_per_byte,
                exemption_threshold: x.exemption_threshold,
                burn_percent: x.burn_percent,
            },
        ),
        Err(_) => None,
    }
}

/// The kind of a sysvar value.
pub open spec fn kind_of(v: SysvarValue) -> SysvarKind {
    match v {
        SysvarValue::Clock(_) => SysvarKind::Clock,
        SysvarValue::EpochRewards(_) => SysvarKind::EpochRewards,
        SysvarValue::EpochSchedule(_) => SysvarKind::EpochSchedule,
        SysvarValue::LastRestartSlot(_) => SysvarKind::LastRestartSlot,
        SysvarValue::Rent(_) => SysvarKind::Rent,
        SysvarValue::SlotHashes(_) => SysvarKind::SlotHashes,
        SysvarValue::StakeHistory(_) => SysvarKind::StakeHistory,
    }
}

fn copy_slot_hashes(v: &Vec<(u64, [u8; 32])>) -> (r: Vec<(u64, [u8; 32])>)
    ensures
        r@ == v@,
{
    let mut r: Vec<(u64, [u8; 32])> = Vec::new();
    let mut i: usize = 0;
    while i < v.len()
        invariant
            0 <= i <= v.len(),
            r@ == v@.subrange(0, i as int),
        decreases v.len() - i,
    {
        r.push(v[i]);
        proof {
            assert(v@.subrange(0, i + 1) =~= v@.subrange(0, i as int).push(v@[i as int]));
        }
        i = i + 1;
    }
    proof {
        assert(v@.subrange(0, v.len() as int) =~= v@);
    }
    r
}

fn copy_stake_history(v: &Vec<(u64, StakeHistoryEntry)>) -> (r: Vec<(u64, StakeHistoryEntry)>)
    ensures
        r@ == v@,
{
    let mut r: Vec<(u64, StakeHistoryEntry)> = Vec::new();
    let mut i: usize = 0;
    while i < v.len()
        invariant
            0 <= i <= v.len(),
            r@ == v@.subrange(0, i as int),
        decreases v.len() - i,
    {
        r.push(v[i]);
        proof {
            assert(v@.subrange(0, i + 1) =~= v@.subrange(0, i as int).push(v@[i as int]));
        }
        i = i + 1;
    }
    proof {
        assert(v@.subrange(0, v.len() as int) =~= v@);
    }
    r
}

impl Sysvars {
    /// `v` is the snapshot's current value of its kind.
    pub open spec fn holds(&self, v: SysvarValue) -> bool {
        match v {
            SysvarValue::Clock(c) => self.clock == c,
            SysvarValue::EpochRewards(e) => self.epoch_rewards == e,
            SysvarValue::EpochSchedule(e) => self.epoch_schedule == e,
            SysvarValue::LastRestartSlot(l) => self.last_restart_slot == l,
            SysvarValue::Rent(x) => self.rent == x,
            SysvarValue::SlotHashes(s) => self.slot_hashes@ == s@,
            SysvarValue::StakeHistory(s) => self.stake_history@ == s@,
        }
    }

    /// `self` and `other` agree on every sysvar but the one of kind `kind`.
    pub open spec fn same_except(&self, other: &Sysvars, kind: SysvarKind) -> bool {
        &&& (kind != SysvarKind::Clock ==> self.clock == other.clock)
        &&& (kind != SysvarKind::EpochRewards ==> self.epoch_rewards == other.epoch_rewards)
        &&& (kind != SysvarKind::EpochSchedule ==> self.epoch_schedule == other.epoch_schedule)
        &&& (kind != SysvarKind::LastRestartSlot ==> self.last_restart_slot
            == other.last_restart_slot)
        &&& (kind != SysvarKind::Rent ==> self.rent == other.rent)
        &&& (kind != SysvarKind::SlotHashes ==> self.slot_hashes@ == other.slot_hashes@)
        &&& (kind != SysvarKind::StakeHistory ==> self.stake_history@ == other.stake_history@)
    }

    /// The current value of the sysvar of kind `kind`.
    pub fn get_sysvar(&self, kind: SysvarKind) -> (r: SysvarValue)
        ensures
            kind_of(r) == kind,
            self.holds(r),
    {
        match kind {
            SysvarKind::Clock => SysvarValue::Clock(self.clock),
            SysvarKind::EpochRewards => SysvarValue::EpochRewards(self.epoch_rewards),
            SysvarKind::EpochSchedule => SysvarValue::EpochSchedule(self.epoch_schedule),
            SysvarKind::LastRestartSlot => SysvarValue::LastRestartSlot(self.last_restart_slot),
            SysvarKind::Rent => SysvarValue::Rent(self.rent),
            SysvarKind::SlotHashes => SysvarValue::SlotHashes(copy_slot_hashes(&self.slot_hashes)),
            SysvarKind::StakeHistory => SysvarValue::StakeHistory(
                copy_stake_history(&self.stake_history),
            ),
        }
    }

    /// Replaces the sysvar of the value's kind, and nothing else.
    pub fn set_sysvar(&mut self, value: SysvarValue)
        ensures
            final(self).holds(value),
            final(self).same_except(old(self), kind_of(value)),
    {
        match value {
            SysvarValue::Clock(c) => self.clock = c,
            SysvarValue::EpochRewards(e) => self.epoch_rewards = e,
            SysvarValue::EpochSchedule(e) => self.epoch_schedule = e,
            SysvarValue::LastRestartSlot(l) => self.last_restart_slot = l,
            SysvarValue::Rent(x) => self.rent = x,
            SysvarValue::SlotHashes(s) => self.slot_hashes = s,
            SysvarValue::StakeHistory(s) => self.stake_history = s,
        }
    }
}

} // verus!

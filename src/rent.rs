//! The rent schedule and the minimum balance for rent exemption.

use vstd::prelude::*;

verus! {

/// Little-endian bytes of the exemption threshold `1.0`.
pub const UNIT_EXEMPTION_THRESHOLD: [u8; 8] = [0, 0, 0, 0, 0, 0, 240, 63];

/// Little-endian bytes of the exemption threshold `2.0`.
pub const DOUBLE_EXEMPTION_THRESHOLD: [u8; 8] = [0, 0, 0, 0, 0, 0, 0, 64];

/// Largest account data length that has a minimum balance.
pub const MAX_PERMITTED_DATA_LENGTH: u64 = 10485760;

/// Bytes charged for an account on top of its data.
pub const ACCOUNT_STORAGE_OVERHEAD: u64 = 128;

pub const DEFAULT_LAMPORTS_PER_BYTE: u64 = 6960;

pub const DEFAULT_BURN_PERCENT: u8 = 50;

/// Largest rate with a minimum balance under the threshold `1.0`.
pub const UNIT_MAX_LAMPORTS_PER_BYTE: u64 = 1759197129867;

/// Largest rate with a minimum balance under the threshold `2.0`.
pub const DOUBLE_MAX_LAMPORTS_PER_BYTE: u64 = 879598564933;

/// The rent schedule, as the rent sysvar holds it.
#[derive(Clone, Copy, Debug)]
pub struct Rent {
    /// Rental rate in lamports per byte.
    pub lamports_per_byte: u64,
    /// The exemption threshold: the little-endian bytes of a float factor.
    pub exemption_threshold: [u8; 8],
    pub burn_percent: u8,
}

impl Rent {
    /// The default schedule: 6960 lamports per byte, threshold `1.0`.
    pub fn new_default() -> (r: Rent)
        ensures
            r.lamports_per_byte == DEFAULT_LAMPORTS_PER_BYTE,
            r.exemption_threshold == UNIT_EXEMPTION_THRESHOLD,
            r.burn_percent == DEFAULT_BURN_PERCENT,
    {
        Rent {
            lamports_per_byte: DEFAULT_LAMPORTS_PER_BYTE,
            exemption_threshold: UNIT_EXEMPTION_THRESHOLD,
            burn_percent: DEFAULT_BURN_PERCENT,
        }
    }

    /// The minimum balance for rent exemption of `data_len` bytes of data;
    /// `None` past the largest permitted data length or rate.
    pub fn try_minimum_balance(&self, data_len: usize) -> (r: Option<u64>)
        requires
            minimum_balance_computable(*self, data_len as nat),
        ensures
            r == minimum_balance_spec(*self, data_len as nat),
    {
        rent_try_minimum_balance(self, data_len)
    }
}

impl Default for Rent {
    fn default() -> (r: Rent)
        ensures
            r.lamports_per_byte == DEFAULT_LAMPORTS_PER_BYTE,
            r.exemption_threshold == UNIT_EXEMPTION_THRESHOLD,
            r.burn_percent == DEFAULT_BURN_PERCENT,
    {
        Rent::new_default()
    }
}

/// `(base as f64 * f64::from_le_bytes(threshold)) as u64`: the balance for a
/// threshold other than `1.0` and `2.0`.
pub uninterp spec fn scaled_minimum_balance(base: u64, threshold: Seq<u8>) -> u64;

/// The storage charge base: overhead plus data, times the rate.
pub open spec fn rent_base(rent: Rent, data_len: nat) -> int {
    (ACCOUNT_STORAGE_OVERHEAD + data_len) * rent.lamports_per_byte
}

/// The minimum balance for rent exemption.
pub open spec fn minimum_balance_spec(rent: Rent, data_len: nat) -> Option<u64> {
    if data_len > MAX_PERMITTED_DATA_LENGTH {
        None
    } else if rent.exemption_threshold == UNIT_EXEMPTION_THRESHOLD {
        if rent.lamports_per_byte > UNIT_MAX_LAMPORTS_PER_BYTE {
            None
        } else {
            Some(rent_base(rent, data_len) as u64)
        }
    } else if rent.exemption_threshold == DOUBLE_EXEMPTION_THRESHOLD {
        if rent.lamports_per_byte > DOUBLE_MAX_LAMPORTS_PER_BYTE {
            None
        } else {
            Some((2 * rent_base(rent, data_len)) as u64)
        }
    } else {
        Some(scaled_minimum_balance(rent_base(rent, data_len) as u64, rent.exemption_threshold@))
    }
}

/// The computation does not overflow: a threshold of `1.0` or `2.0` is
/// bounds-checked, any other needs the base to fit in a `u64`.
pub open spec fn minimum_balance_computable(rent: Rent, data_len: nat) -> bool {
    rent.exemption_threshold == UNIT_EXEMPTION_THRESHOLD || rent.exemption_threshold
        == DOUBLE_EXEMPTION_THRESHOLD || data_len > MAX_PERMITTED_DATA_LENGTH || rent_base(
        rent,
        data_len,
    ) <= u64::MAX
}

/// Relies on solana_rent::Rent::try_minimum_balance: `None` past the largest
/// data length, or past the largest rate for the thresholds `1.0` and `2.0`;
/// otherwise the base, twice the base, or the base scaled by the float
/// threshold.
#[verifier::external_body]
#[allow(deprecated)]
fn rent_try_minimum_balance(rent: &Rent, data_len: usize) -> (r: Option<u64>)
    requires
        minimum_balance_computable(*rent, data_len as nat),
    ensures
        r == minimum_balance_spec(*rent, data_len as nat),
        data_len <= MAX_PERMITTED_DATA_LENGTH && rent.exemption_threshold != UNIT_EXEMPTION_THRESHOLD
            && rent.exemption_threshold != DOUBLE_EXEMPTION_THRESHOLD ==> r == Some(
            scaled_minimum_balance(rent_base(*rent, data_len as nat) as u64, rent.exemption_threshold@),
        ),
{
    let outside = solana_rent::Rent {
        lamports_per_byte: rent.lamports_per_byte,
        exemption_threshold: rent.exemption_threshold,
        burn_percent: rent.burn_percent,
    };
    outside.try_minimum_balance(data_len)
}

} // verus!

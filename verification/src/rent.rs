//! The rent oracle: the smallest balance that keeps a buffer of a given size
//! alive, as the runtime's rent configuration prices it.

use crate::wire::{le_value, lemma_le_value_bound, lemma_pow256_values, read_le, Pubkey};
use vstd::prelude::*;

verus! {

/// Bytes the runtime adds to every account's data length when it prices storage.
pub const ACCOUNT_STORAGE_OVERHEAD: u64 = 128;

/// Largest data length the runtime permits for one account (10 MiB).
pub const MAX_PERMITTED_DATA_LENGTH: u64 = 10485760;

/// Bits of the exemption threshold `1.0`.
pub const THRESHOLD_ONE: u64 = 0x3ff0_0000_0000_0000;

/// Bits of the exemption threshold `2.0`.
pub const THRESHOLD_TWO: u64 = 0x4000_0000_0000_0000;

/// Largest rate the oracle answers for under the threshold `1.0`.
pub const MAX_RATE_ONE: u64 = 1_759_197_129_867;

/// Largest rate the oracle answers for under the threshold `2.0`.
pub const MAX_RATE_TWO: u64 = 879_598_564_933;

/// Bytes of the rent configuration in the oracle account.
pub const RENT_CONFIG_LEN: usize = 17;

/// The address of the rent oracle account, `SysvarRent111111111111111111111111111111111`.
pub const RENT_SYSVAR_ID: Pubkey = [
    6, 167, 213, 23, 25, 44, 92, 81, 33, 140, 201, 76, 61, 74, 241, 127,
    88, 218, 238, 8, 155, 161, 253, 68, 227, 219, 217, 138, 0, 0, 0, 0,
];

/// The rent configuration as plain values, in the order the oracle account
/// stores them. The exemption threshold is kept as the bits that the account
/// holds.
#[derive(Clone, Copy, Debug, PartialEq, Eq, Structural)]
pub struct RentConfig {
    pub lamports_per_byte: u64,
    pub exemption_threshold: u64,
    pub burn_percent: u8,
}

/// The priced size of a buffer of `data_len` bytes at `lamports_per_byte`.
pub open spec fn base_rent(lamports_per_byte: u64, data_len: nat) -> int {
    (ACCOUNT_STORAGE_OVERHEAD + data_len) * lamports_per_byte
}

/// The smallest balance that exempts a buffer of `data_len` bytes from rent:
/// the priced size under the threshold `1.0`, twice the priced size under the
/// threshold `2.0`. There is none where the buffer is longer than the runtime
/// permits, where the rate is beyond the limit of its threshold, and under any
/// other threshold: to price by such a threshold takes floating point, which
/// a program on chain does not have.
pub open spec fn rent_exempt_minimum(config: RentConfig, data_len: nat) -> Option<u64> {
    let base = base_rent(config.lamports_per_byte, data_len);
    if data_len > MAX_PERMITTED_DATA_LENGTH {
        None
    } else if config.exemption_threshold == THRESHOLD_ONE {
        if config.lamports_per_byte > MAX_RATE_ONE {
            None
        } else {
            Some(base as u64)
        }
    } else if config.exemption_threshold == THRESHOLD_TWO {
        if config.lamports_per_byte > MAX_RATE_TWO {
            None
        } else {
            Some((2 * base) as u64)
        }
    } else {
        None
    }
}

/// The rent configuration that the oracle account's data spell: the rate in
/// eight little-endian bytes, the threshold in eight, the burn percentage in
/// one. Bytes behind these seventeen are not read.
pub open spec fn rent_config_at(data: Seq<u8>) -> Option<RentConfig> {
    if data.len() >= 17 {
        Some(
            RentConfig {
                lamports_per_byte: le_value(data.subrange(0, 8)) as u64,
                exemption_threshold: le_value(data.subrange(8, 16)) as u64,
                burn_percent: data[16],
            },
        )
    } else {
        None
    }
}

/// Under the thresholds `1.0` and `2.0` the minimum is the priced size, once or
/// twice, and it fits 64 bits for every rate the oracle answers for.
pub proof fn lemma_standard_minimum_fits(config: RentConfig, data_len: nat)
    requires
        data_len <= MAX_PERMITTED_DATA_LENGTH,
    ensures
        config.exemption_threshold == THRESHOLD_ONE && config.lamports_per_byte <= MAX_RATE_ONE
            ==> rent_exempt_minimum(config, data_len) == Some(
            base_rent(config.lamports_per_byte, data_len) as u64,
        ) && base_rent(config.lamports_per_byte, data_len) <= u64::MAX,
        config.exemption_threshold == THRESHOLD_TWO && config.lamports_per_byte <= MAX_RATE_TWO
            ==> rent_exempt_minimum(config, data_len) == Some(
            (2 * base_rent(config.lamports_per_byte, data_len)) as u64,
        ) && 2 * base_rent(config.lamports_per_byte, data_len) <= u64::MAX,
{
    let rate = config.lamports_per_byte as int;
    let size = (ACCOUNT_STORAGE_OVERHEAD + data_len) as int;
    assert(size <= 10485888);
    if rate <= MAX_RATE_ONE {
        assert(size * rate <= 10485888 * 1_759_197_129_867) by (nonlinear_arith)
            requires
                0 <= size <= 10485888,
                0 <= rate <= 1_759_197_129_867,
        ;
    }
    if rate <= MAX_RATE_TWO {
        assert(size * rate <= 10485888 * 879_598_564_933) by (nonlinear_arith)
            requires
                0 <= size <= 10485888,
                0 <= rate <= 879_598_564_933,
        ;
    }
}

/// Asks `solana_program::rent::Rent::try_minimum_balance` of the `Rent` with
/// these three fields, under the thresholds `1.0` and `2.0` or for a buffer
/// longer than the runtime permits. It answers nothing for such a buffer and
/// for a rate beyond the limit of the threshold; else the answer is the priced
/// size, once under `1.0` and twice under `2.0`.
#[verifier::external_body]
#[allow(deprecated)]
fn try_minimum_balance(config: &RentConfig, data_len: usize) -> (minimum: Option<u64>)
    requires
        config.exemption_threshold == THRESHOLD_ONE || config.exemption_threshold == THRESHOLD_TWO
            || data_len > MAX_PERMITTED_DATA_LENGTH,
    ensures
        data_len > MAX_PERMITTED_DATA_LENGTH ==> minimum is None,
        data_len <= MAX_PERMITTED_DATA_LENGTH && config.exemption_threshold == THRESHOLD_ONE
            ==> minimum == (if config.lamports_per_byte > MAX_RATE_ONE {
            None
        } else {
            Some(base_rent(config.lamports_per_byte, data_len as nat) as u64)
        }),
        data_len <= MAX_PERMITTED_DATA_LENGTH && config.exemption_threshold == THRESHOLD_TWO
            ==> minimum == (if config.lamports_per_byte > MAX_RATE_TWO {
            None
        } else {
            Some((2 * base_rent(config.lamports_per_byte, data_len as nat)) as u64)
        }),
{
    let rent = solana_program::rent::Rent {
        lamports_per_byte: config.lamports_per_byte,
        exemption_threshold: config.exemption_threshold.to_le_bytes(),
        burn_percent: config.burn_percent,
    };
    rent.try_minimum_balance(data_len)
}

/// The smallest balance that exempts a buffer of `data_len` bytes from rent.
/// Under a threshold other than `1.0` and `2.0` there is none, and the oracle
/// is not asked.
pub fn minimum_balance(config: &RentConfig, data_len: usize) -> (minimum: Option<u64>)
    ensures
        minimum == rent_exempt_minimum(*config, data_len as nat),
{
    if config.exemption_threshold != THRESHOLD_ONE && config.exemption_threshold != THRESHOLD_TWO {
        return None;
    }
    try_minimum_balance(config, data_len)
}

/// Reads the rent configuration from the oracle account's data.
pub fn read_rent_config(data: &[u8]) -> (config: Option<RentConfig>)
    ensures
        config == rent_config_at(data@),
{
    if data.len() < RENT_CONFIG_LEN {
        return None;
    }
    proof {
        lemma_pow256_values();
        lemma_le_value_bound(data@.subrange(0, 8));
        lemma_le_value_bound(data@.subrange(8, 16));
    }
    Some(
        RentConfig {
            lamports_per_byte: read_le(data, 0, 8),
            exemption_threshold: read_le(data, 8, 8),
            burn_percent: data[16],
        },
    )
}

} // verus!

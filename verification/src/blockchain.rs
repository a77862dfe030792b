//! The block record that derivation works from: a plain snapshot of one
//! chain block. Fetching blocks over the network lives outside the library;
//! callers hand finished `BlockInfo` values in.

use vstd::prelude::*;

use crate::text::{dec_of, u64_to_dec, usize_to_dec};

verus! {

/// Slot of the most recent block that is safely confirmed, given the
/// chain's current slot: the tip is backed off by the confirmation margin.
pub fn confirmed_slot(current_slot: u64) -> (r: u64)
    ensures
        current_slot >= crate::consts::CONFIRMATION_SLOTS ==> r == current_slot
            - crate::consts::CONFIRMATION_SLOTS,
        current_slot < crate::consts::CONFIRMATION_SLOTS ==> r == 0,
{
    if current_slot >= crate::consts::CONFIRMATION_SLOTS {
        current_slot - crate::consts::CONFIRMATION_SLOTS
    } else {
        0
    }
}

/// Stride in slots between the blocks sampled when walking back for
/// recent blocks.
pub const RECENT_BLOCK_STRIDE: u64 = 100;

/// Slot targeted for the `index`-th recent block: the confirmation margin
/// plus one stride per step back, clamped at zero.
pub fn recent_block_slot(current_slot: u64, index: u64) -> (r: u64)
    requires
        crate::consts::CONFIRMATION_SLOTS + index * RECENT_BLOCK_STRIDE <= u64::MAX,
    ensures
        ({
            let back = crate::consts::CONFIRMATION_SLOTS + index * RECENT_BLOCK_STRIDE;
            r == if current_slot >= back {
                current_slot - back
            } else {
                0
            }
        }),
{
    let back = crate::consts::CONFIRMATION_SLOTS + index * RECENT_BLOCK_STRIDE;
    if current_slot >= back {
        current_slot - back
    } else {
        0
    }
}

/// Rich block information: the entropy-bearing fields of one block.
#[derive(Debug, Clone)]
pub struct BlockInfo {
    pub slot: u64,
    pub blockhash: String,
    pub previous_blockhash: String,
    pub block_time: Option<i64>,
    pub block_height: Option<u64>,
    pub parent_slot: u64,
    pub transaction_count: usize,
    /// Sample transaction signatures for additional entropy.
    pub sample_signatures: Vec<String>,
}

/// The entropy strings a block offers, in order: its hash, the previous
/// hash, its slot and its transaction count in decimal, then every sample
/// signature.
pub open spec fn entropy_sources_of(b: BlockInfo) -> Seq<Seq<char>> {
    seq![
        b.blockhash@,
        b.previous_blockhash@,
        dec_of(b.slot as nat),
        dec_of(b.transaction_count as nat),
    ] + b.sample_signatures@.map_values(|s: String| s@)
}

impl BlockInfo {
    /// Multiple entropy sources extracted from the block.
    pub fn entropy_sources(&self) -> (r: Vec<String>)
        ensures
            r@.map_values(|s: String| s@) == entropy_sources_of(*self),
    {
        let mut sources: Vec<String> = Vec::new();
        sources.push(self.blockhash.clone());
        sources.push(self.previous_blockhash.clone());
        sources.push(u64_to_dec(self.slot));
        sources.push(usize_to_dec(self.transaction_count));
        let mut i: usize = 0;
        while i < self.sample_signatures.len()
            invariant
                i <= self.sample_signatures.len(),
                sources@.len() == 4 + i,
                sources@[0] == self.blockhash,
                sources@[1] == self.previous_blockhash,
                sources@[2]@ == dec_of(self.slot as nat),
                sources@[3]@ == dec_of(self.transaction_count as nat),
                forall|k: int| 0 <= k < i ==> sources@[4 + k] == self.sample_signatures@[k],
            decreases self.sample_signatures.len() - i,
        {
            sources.push(self.sample_signatures[i].clone());
            i = i + 1;
        }
        assert(sources@.map_values(|s: String| s@) =~= entropy_sources_of(*self));
        sources
    }

    /// Builds the record for a block whose full signature list is known:
    /// the transaction count is the number of signatures, and at most the
    /// first five signatures are kept as entropy samples.
    pub fn from_signatures(
        slot: u64,
        blockhash: String,
        previous_blockhash: String,
        block_time: Option<i64>,
        block_height: Option<u64>,
        parent_slot: u64,
        signatures: Vec<String>,
    ) -> (b: BlockInfo)
        ensures
            b.slot == slot,
            b.blockhash == blockhash,
            b.previous_blockhash == previous_blockhash,
            b.block_time == block_time,
            b.block_height == block_height,
            b.parent_slot == parent_slot,
            b.transaction_count == signatures@.len(),
            b.sample_signatures@ == if signatures@.len() <= 5 {
                signatures@
            } else {
                signatures@.take(5)
            },
    {
        let transaction_count = signatures.len();
        let keep = if signatures.len() <= 5 {
            signatures.len()
        } else {
            5
        };
        let mut sample_signatures: Vec<String> = Vec::new();
        let mut i: usize = 0;
        while i < keep
            invariant
                i <= keep,
                keep <= signatures.len(),
                sample_signatures@ == signatures@.take(i as int),
            decreases keep - i,
        {
            sample_signatures.push(signatures[i].clone());
            assert(sample_signatures@ =~= signatures@.take(i + 1));
            i = i + 1;
        }
        BlockInfo {
            slot,
            blockhash,
            previous_blockhash,
            block_time,
            block_height,
            parent_slot,
            transaction_count,
            sample_signatures,
        }
    }
}

} // verus!

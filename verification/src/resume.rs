//! Where the indexer starts reading the chain.

use vstd::prelude::*;

verus! {

/// The height of the first block to read. A height that was asked for is
/// taken as it is. Otherwise reading goes on behind the watermark, the
/// height of the latest block whose rows were stored; with nothing stored
/// it starts at the chain's first block.
pub open spec fn first_height(requested: Option<u64>, watermark: Option<u64>) -> Option<u64> {
    match (requested, watermark) {
        (Some(height), _) => Some(height),
        (None, Some(stored)) => if stored < u64::MAX {
            Some((stored + 1) as u64)
        } else {
            None
        },
        (None, None) => Some(0),
    }
}

/// The height of the first block to read, which is none only where the
/// watermark is the last height there is.
pub fn start_block_height(requested: Option<u64>, watermark: Option<u64>) -> (height: Option<u64>)
    ensures
        height == first_height(requested, watermark),
{
    match requested {
        Some(height) => Some(height),
        None => match watermark {
            Some(stored) => stored.checked_add(1),
            None => Some(0),
        },
    }
}

/// The greater of a watermark and a height.
pub open spec fn greatest_height(watermark: Option<u64>, height: u64) -> u64 {
    match watermark {
        Some(stored) => if stored > height {
            stored
        } else {
            height
        },
        None => height,
    }
}

/// The watermark after the rows of the block at `height` were stored: the
/// greatest height stored so far.
pub fn advance_watermark(watermark: Option<u64>, height: u64) -> (advanced: u64)
    ensures
        advanced == greatest_height(watermark, height),
{
    match watermark {
        Some(stored) => if stored > height {
            stored
        } else {
            height
        },
        None => height,
    }
}

} // verus!

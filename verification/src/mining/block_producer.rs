use vstd::prelude::*;
use crate::chain::block::Block;
use crate::chain::transaction::Transaction;
use crate::clock::utc_now;

verus! {

/// The seconds elapsed since the latest block, when they fit a 64-bit integer.
pub open spec fn seconds_since(latest_timestamp: i64, now: i64) -> int {
    now - latest_timestamp
}

/// Whether the difficulty can be adjusted without leaving the range of `u64`
/// (and the elapsed time computed without leaving that of `i64`).
pub open spec fn difficulty_adjustable(latest_difficulty: u64, latest_timestamp: i64, now: i64, target_block_time: i64) -> bool {
    let elapsed = seconds_since(latest_timestamp, now);
    &&& i64::MIN <= elapsed <= i64::MAX
    &&& elapsed < target_block_time ==> latest_difficulty < u64::MAX
    &&& elapsed > target_block_time ==> latest_difficulty > 0
}

/// The difficulty of the next block: one more when the latest block came
/// sooner than the target block time, one less when it came later, the same
/// when it came exactly on time.
pub open spec fn adjusted_difficulty(latest_difficulty: u64, latest_timestamp: i64, now: i64, target_block_time: i64) -> int {
    let elapsed = seconds_since(latest_timestamp, now);
    if elapsed < target_block_time {
        latest_difficulty + 1
    } else if elapsed > target_block_time {
        latest_difficulty - 1
    } else {
        latest_difficulty as int
    }
}

/// The difficulty of the next block, given the latest block's difficulty and
/// time and the current time (all times in seconds).
pub fn calculate_difficulty(latest_difficulty: u64, latest_timestamp: i64, now: i64, target_block_time: i64) -> (d: u64)
    requires
        difficulty_adjustable(latest_difficulty, latest_timestamp, now, target_block_time),
    ensures
        d == adjusted_difficulty(latest_difficulty, latest_timestamp, now, target_block_time),
        now - latest_timestamp < target_block_time ==> d == latest_difficulty + 1,
        now - latest_timestamp > target_block_time ==> d == latest_difficulty - 1,
        now - latest_timestamp == target_block_time ==> d == latest_difficulty,
{
    let time_since_last_block = now - latest_timestamp;
    if time_since_last_block < target_block_time {
        latest_difficulty + 1
    } else if time_since_last_block > target_block_time {
        latest_difficulty - 1
    } else {
        latest_difficulty
    }
}

/// The template of the block that follows `latest` (whose hash is
/// `latest_hash`), made at time `now`, with no nonce yet; none when its
/// difficulty cannot be computed within the integer ranges.
pub fn build_block_template(
    latest: &Block,
    latest_hash: String,
    transactions: Vec<Transaction>,
    block_reward: u64,
    target_block_time: i64,
    now: i64,
) -> (r: Option<Block>)
    requires
        latest.block_number < u64::MAX,
    ensures
        r is Some <==> difficulty_adjustable(latest.difficulty, latest.timestamp, now, target_block_time),
        r matches Some(b) ==> {
            &&& b.block_number == latest.block_number + 1
            &&& b.previous_block_hash == latest_hash
            &&& b.timestamp == now
            &&& b.transactions == transactions
            &&& b.nonce == 0
            &&& b.block_reward == block_reward
            &&& b.difficulty == adjusted_difficulty(latest.difficulty, latest.timestamp, now, target_block_time)
        },
{
    let ok_elapsed = if latest.timestamp >= 0 {
        now >= i64::MIN + latest.timestamp
    } else {
        now <= i64::MAX + latest.timestamp
    };
    if !ok_elapsed {
        return None;
    }
    let elapsed = now - latest.timestamp;
    if elapsed < target_block_time && latest.difficulty == u64::MAX {
        return None;
    }
    if elapsed > target_block_time && latest.difficulty == 0 {
        return None;
    }
    let difficulty = calculate_difficulty(latest.difficulty, latest.timestamp, now, target_block_time);
    Some(Block {
        block_number: latest.block_number + 1,
        previous_block_hash: latest_hash,
        timestamp: now,
        transactions,
        nonce: 0,
        block_reward,
        difficulty,
    })
}

/// The template of the block that follows `latest`, made now; none when its
/// difficulty cannot be computed within the integer ranges at this time. The
/// clock never reads before the epoch, so a latest block that is not from
/// before the epoch and whose difficulty can move either way always gets a
/// successor.
pub fn create_block_template(
    latest: &Block,
    latest_hash: String,
    transactions: Vec<Transaction>,
    block_reward: u64,
    target_block_time: i64,
) -> (r: Option<Block>)
    requires
        latest.block_number < u64::MAX,
    ensures
        r matches Some(b) ==> {
            &&& difficulty_adjustable(latest.difficulty, latest.timestamp, b.timestamp, target_block_time)
            &&& b.block_number == latest.block_number + 1
            &&& b.previous_block_hash == latest_hash
            &&& b.transactions == transactions
            &&& b.nonce == 0
            &&& b.block_reward == block_reward
            &&& b.difficulty == adjusted_difficulty(latest.difficulty, latest.timestamp, b.timestamp, target_block_time)
        },
        r matches Some(b) ==> b.timestamp >= 0,
        r is None ==> exists|now: i64|
            now >= 0 && !#[trigger] difficulty_adjustable(latest.difficulty, latest.timestamp, now, target_block_time),
        latest.timestamp >= 0 && 0 < latest.difficulty < u64::MAX ==> r is Some,
{
    let now = utc_now().seconds;
    let r = build_block_template(latest, latest_hash, transactions, block_reward, target_block_time, now);
    assert(r is None ==> !difficulty_adjustable(latest.difficulty, latest.timestamp, now, target_block_time));
    r
}

/// The difficulty follows the time since the latest block: a block that came
/// sooner than the target makes the next one harder by exactly one, a block
/// that came later (by any amount) makes it easier by exactly one, and a block
/// exactly on time keeps the difficulty.
pub proof fn lemma_difficulty_follows_block_time(
    latest_difficulty: u64,
    latest_timestamp: i64,
    now: i64,
    target_block_time: i64,
)
    ensures
        now - latest_timestamp < target_block_time ==> adjusted_difficulty(
            latest_difficulty,
            latest_timestamp,
            now,
            target_block_time,
        ) == latest_difficulty + 1,
        now - latest_timestamp > target_block_time ==> adjusted_difficulty(
            latest_difficulty,
            latest_timestamp,
            now,
            target_block_time,
        ) == latest_difficulty - 1,
        now - latest_timestamp == target_block_time ==> adjusted_difficulty(
            latest_difficulty,
            latest_timestamp,
            now,
            target_block_time,
        ) == latest_difficulty,
{
}

/// From one block to the next the difficulty moves by at most one.
pub proof fn lemma_difficulty_moves_by_at_most_one(
    latest_difficulty: u64,
    latest_timestamp: i64,
    now: i64,
    target_block_time: i64,
)
    ensures
        latest_difficulty - 1 <= adjusted_difficulty(latest_difficulty, latest_timestamp, now, target_block_time)
            <= latest_difficulty + 1,
{
}

/// A block made later never gets a higher difficulty than one made earlier
/// on the same latest block.
pub proof fn lemma_later_block_not_harder(
    latest_difficulty: u64,
    latest_timestamp: i64,
    earlier: i64,
    later: i64,
    target_block_time: i64,
)
    requires
        earlier <= later,
    ensures
        adjusted_difficulty(latest_difficulty, latest_timestamp, later, target_block_time)
            <= adjusted_difficulty(latest_difficulty, latest_timestamp, earlier, target_block_time),
{
}

} // verus!

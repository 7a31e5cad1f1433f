//! Blocks, their canonical hash, the difficulty rule, the target, mining and
//! validation.
use crate::bignum::{
    BigNat, big_add, big_decimal, big_div, big_eq, big_le, decimal_text, max_target,
};
use crate::hashing::{
    get_current_timestamp, keccak256, keccak_value, lemma_sorted_text_of_anagrams, sort_characters,
    sorted_text,
};
use vstd::arithmetic::div_mod::lemma_div_is_ordered_by_denominator;
use vstd::prelude::*;
use vstd::string::*;

verus! {

/// The difficulty of the genesis block.
pub const GENESIS_DIFFICULTY: u32 = 100000;

/// The timestamp of the genesis block.
pub const GENESIS_TIMESTAMP: u64 = 0;

/// The largest nonce that `mine_block` tries.
pub const MAX_NONCE: u64 = 500000;

#[derive(Debug, Clone)]
pub struct BlockHeaders {
    pub number: u32,
    pub difficulty: u32,
    pub timestamp: u64,
    pub parent_hash: BigNat,
    pub beneficiary: BigNat,
}

#[derive(Debug, Clone, Copy, PartialEq, Eq)]
pub enum ValidateBlockError {
    InvalidTargetHash,
    InvalidDifficulty,
    InvalidBlockNumber,
}

/// Why a search found no block.
#[derive(Debug, Clone, Copy, PartialEq, Eq)]
pub enum MiningError {
    /// Every nonce up to the cap failed at the time read for it.
    MiningExhausted,
    /// The clock could not be read.
    ClockUnavailable,
}

#[derive(Debug, Clone)]
pub struct Block {
    pub block_headers: BlockHeaders,
    pub nonce: BigNat,
}

/// The serialised header: its fields in a fixed order, numbers in decimal.
pub open spec fn header_text_of(
    number: nat,
    difficulty: nat,
    timestamp: nat,
    parent_hash: nat,
    beneficiary: nat,
) -> Seq<char> {
    "{\"number\":"@ + decimal_text(number) + ",\"difficulty\":"@ + decimal_text(difficulty)
        + ",\"timestamp\":"@ + decimal_text(timestamp) + ",\"parent_hash\":"@ + decimal_text(
        parent_hash,
    ) + ",\"beneficiary\":"@ + decimal_text(beneficiary) + "}"@
}

pub open spec fn header_text(h: BlockHeaders) -> Seq<char> {
    header_text_of(
        h.number as nat,
        h.difficulty as nat,
        h.timestamp as nat,
        h.parent_hash.value(),
        h.beneficiary.value(),
    )
}

/// The hash of a header: Keccak-256 of its serialised text with the
/// characters sorted.
pub open spec fn header_hash(h: BlockHeaders) -> nat {
    keccak_value(sorted_text(header_text(h)))
}

/// The hash of the genesis header.
pub open spec fn genesis_hash() -> nat {
    keccak_value(
        sorted_text(
            header_text_of(0, GENESIS_DIFFICULTY as nat, GENESIS_TIMESTAMP as nat, 1, 1),
        ),
    )
}

/// The `parent_hash` of a successor of a block whose header is `h`: the hash
/// of the sorted decimal text of `h.parent_hash`, not of `h` itself.
pub open spec fn parent_link(h: BlockHeaders) -> nat {
    keccak_value(sorted_text(decimal_text(h.parent_hash.value())))
}

/// The bound that the search hash of a successor must not exceed.
pub open spec fn target_for(difficulty: nat) -> nat
    recommends
        difficulty > 0,
{
    max_target() / difficulty
}

/// The difficulty that follows `difficulty` for a block made at `timestamp`
/// after one made at `prev_timestamp`.
pub open spec fn adjusted_difficulty(difficulty: nat, prev_timestamp: nat, timestamp: nat) -> nat {
    if timestamp - prev_timestamp > 2 {
        if difficulty <= 2 {
            1
        } else {
            (difficulty - 1) as nat
        }
    } else {
        difficulty + 1
    }
}

/// The hash that the proof of work bounds: Keccak-256 of the decimal text of
/// the header hash plus the nonce.
pub open spec fn search_hash(h: BlockHeaders, nonce: nat) -> nat {
    keccak_value(decimal_text(header_hash(h) + nonce))
}

/// The outcome of validating `new` as the successor of `last`.
pub open spec fn validation(last: Block, new: Block) -> Result<bool, ValidateBlockError> {
    let lh = last.block_headers;
    let nh = new.block_headers;
    if header_hash(nh) == genesis_hash() {
        Ok(true)
    } else if nh.number != lh.number + 1 {
        Err(ValidateBlockError::InvalidBlockNumber)
    } else if nh.difficulty != adjusted_difficulty(
        lh.difficulty as nat,
        lh.timestamp as nat,
        nh.timestamp as nat,
    ) {
        Err(ValidateBlockError::InvalidDifficulty)
    } else if search_hash(nh, new.nonce.value()) > target_for(lh.difficulty as nat) {
        Err(ValidateBlockError::InvalidTargetHash)
    } else {
        Ok(true)
    }
}

/// `b` is the candidate that mining on top of `last` builds for the given
/// beneficiary, timestamp and nonce.
pub open spec fn is_candidate(
    last: Block,
    beneficiary: nat,
    timestamp: nat,
    nonce: nat,
    b: Block,
) -> bool {
    let lh = last.block_headers;
    let h = b.block_headers;
    &&& h.number == lh.number + 1
    &&& h.difficulty == adjusted_difficulty(lh.difficulty as nat, lh.timestamp as nat, timestamp)
    &&& h.timestamp == timestamp
    &&& h.parent_hash.value() == parent_link(lh)
    &&& h.beneficiary.value() == beneficiary
    &&& b.nonce.value() == nonce
}

/// The search hash of the candidate that mining on top of a block with
/// header `lh` builds for the given beneficiary, timestamp and nonce.
pub open spec fn candidate_search_hash(
    lh: BlockHeaders,
    beneficiary: nat,
    timestamp: nat,
    nonce: nat,
) -> nat {
    let text = header_text_of(
        lh.number as nat + 1,
        adjusted_difficulty(lh.difficulty as nat, lh.timestamp as nat, timestamp),
        timestamp,
        parent_link(lh),
        beneficiary,
    );
    keccak_value(decimal_text(keccak_value(sorted_text(text)) + nonce))
}

/// Mining on top of `last` with `nonce` fails for some reading of the
/// clock: the candidate's search hash exceeds the target.
pub open spec fn nonce_failed(last: Block, beneficiary: nat, nonce: nat) -> bool {
    exists|timestamp: nat|
        #[trigger] candidate_search_hash(last.block_headers, beneficiary, timestamp, nonce)
            > target_for(last.block_headers.difficulty as nat)
}

/// The fields of the genesis block.
pub open spec fn is_genesis(b: Block) -> bool {
    let h = b.block_headers;
    &&& h.number == 0
    &&& h.difficulty == GENESIS_DIFFICULTY
    &&& h.timestamp == GENESIS_TIMESTAMP
    &&& h.parent_hash.value() == 1
    &&& h.beneficiary.value() == 1
    &&& b.nonce.value() == 1
}

/// The serialised text of a block.
pub open spec fn block_text(b: Block) -> Seq<char> {
    "{\"block_headers\":"@ + header_text(b.block_headers) + ",\"nonce\":"@ + decimal_text(
        b.nonce.value(),
    ) + "}"@
}

fn append_decimal(s: &mut String, n: &BigNat)
    ensures
        final(s)@ == old(s)@ + decimal_text(n.value()),
{
    let digits = big_decimal(n);
    s.append(digits.as_str());
}

/// The serialised text of a header, from its fields with the two big
/// numbers already in decimal.
fn header_text_from_parts(
    number: u32,
    difficulty: u32,
    timestamp: u64,
    parent_hash_text: &String,
    beneficiary_text: &String,
) -> (r: String)
    ensures
        r@ == "{\"number\":"@ + decimal_text(number as nat) + ",\"difficulty\":"@ + decimal_text(
            difficulty as nat,
        ) + ",\"timestamp\":"@ + decimal_text(timestamp as nat) + ",\"parent_hash\":"@
            + parent_hash_text@ + ",\"beneficiary\":"@ + beneficiary_text@ + "}"@,
{
    let mut s = String::new();
    s.append("{\"number\":");
    append_decimal(&mut s, &BigNat::from_u64(number as u64));
    s.append(",\"difficulty\":");
    append_decimal(&mut s, &BigNat::from_u64(difficulty as u64));
    s.append(",\"timestamp\":");
    append_decimal(&mut s, &BigNat::from_u64(timestamp));
    s.append(",\"parent_hash\":");
    s.append(parent_hash_text.as_str());
    s.append(",\"beneficiary\":");
    s.append(beneficiary_text.as_str());
    s.append("}");
    s
}

/// The serialised text of a header.
pub fn header_text_string(h: &BlockHeaders) -> (r: String)
    ensures
        r@ == header_text(*h),
{
    let parent_hash_text = big_decimal(&h.parent_hash);
    let beneficiary_text = big_decimal(&h.beneficiary);
    let s = header_text_from_parts(
        h.number,
        h.difficulty,
        h.timestamp,
        &parent_hash_text,
        &beneficiary_text,
    );
    assert(s@ =~= header_text(*h));
    s
}

/// The serialised text of a block.
pub fn block_text_string(b: &Block) -> (r: String)
    ensures
        r@ == block_text(*b),
{
    let mut s = String::new();
    s.append("{\"block_headers\":");
    let h = header_text_string(&b.block_headers);
    s.append(h.as_str());
    s.append(",\"nonce\":");
    append_decimal(&mut s, &b.nonce);
    s.append("}");
    proof {
        assert(s@ =~= block_text(*b));
    }
    s
}

/// Keccak-256 of the sorted characters of `text`.
fn sorted_hash(text: &String) -> (r: BigNat)
    ensures
        r.value() == keccak_value(sorted_text(text@)),
{
    let sorted = sort_characters(text.as_str()).unwrap();
    keccak256(sorted.as_str())
}

impl Block {
    pub fn new(
        number: u32,
        parent_hash: BigNat,
        beneficiary: BigNat,
        difficulty: u32,
        timestamp: u64,
        nonce: BigNat,
    ) -> (r: Self)
        ensures
            r.block_headers.number == number,
            r.block_headers.difficulty == difficulty,
            r.block_headers.timestamp == timestamp,
            r.block_headers.parent_hash == parent_hash,
            r.block_headers.beneficiary == beneficiary,
            r.nonce == nonce,
    {
        Block {
            block_headers: BlockHeaders { number, difficulty, timestamp, parent_hash, beneficiary },
            nonce,
        }
    }

    /// The bound for the search hash of a successor of `last_block`.
    pub fn calculate_block_target_hash(last_block: &Block) -> (r: BigNat)
        requires
            last_block.block_headers.difficulty >= 1,
        ensures
            r.value() == target_for(last_block.block_headers.difficulty as nat),
    {
        let max = BigNat::max_target();
        let d = BigNat::from_u64(last_block.block_headers.difficulty as u64);
        big_div(&max, &d)
    }

    /// The canonical hash of a header. It is always present.
    pub fn get_block_hash(block_headers: &BlockHeaders) -> (r: Option<BigNat>)
        ensures
            r matches Some(v) && v.value() == header_hash(*block_headers),
    {
        let text = header_text_string(block_headers);
        Some(sorted_hash(&text))
    }
}

/// The next difficulty, computed wide enough that it cannot overflow.
fn next_difficulty(difficulty: u32, prev_timestamp: u64, timestamp: u64) -> (r: u64)
    ensures
        r == adjusted_difficulty(difficulty as nat, prev_timestamp as nat, timestamp as nat),
{
    if timestamp > prev_timestamp && timestamp - prev_timestamp > 2 {
        if difficulty <= 2 {
            1
        } else {
            (difficulty - 1) as u64
        }
    } else {
        difficulty as u64 + 1
    }
}

/// The `parent_hash` that a successor of a block with header `h` carries.
fn parent_link_hash(h: &BlockHeaders) -> (r: BigNat)
    ensures
        r.value() == parent_link(*h),
{
    let text = big_decimal(&h.parent_hash);
    sorted_hash(&text)
}

/// Builds the candidate for one nonce and keeps it when its search hash is
/// within `target`. `link_text` and `beneficiary_text` are the decimal texts
/// of `link` and `beneficiary`, which stay the same for a whole search.
fn attempt(
    last_block: &Block,
    beneficiary: &BigNat,
    link: &BigNat,
    beneficiary_text: &String,
    link_text: &String,
    target: &BigNat,
    timestamp: u64,
    nonce: u64,
) -> (r: Option<Block>)
    requires
        last_block.block_headers.number < u32::MAX,
        last_block.block_headers.difficulty < u32::MAX,
        link.value() == parent_link(last_block.block_headers),
        link_text@ == decimal_text(link.value()),
        beneficiary_text@ == decimal_text(beneficiary.value()),
    ensures
        r is Some <==> candidate_search_hash(
            last_block.block_headers,
            beneficiary.value(),
            timestamp as nat,
            nonce as nat,
        ) <= target.value(),
        r matches Some(b) ==> is_candidate(
            *last_block,
            beneficiary.value(),
            timestamp as nat,
            nonce as nat,
            b,
        ) && search_hash(b.block_headers, nonce as nat) <= target.value(),
{
    let lh = &last_block.block_headers;
    let number = lh.number + 1;
    let difficulty = next_difficulty(lh.difficulty, lh.timestamp, timestamp) as u32;
    let text = header_text_from_parts(number, difficulty, timestamp, link_text, beneficiary_text);
    let hashed = sorted_hash(&text);
    let nonce_value = BigNat::from_u64(nonce);
    let combined = big_add(&hashed, &nonce_value);
    let combined_text = big_decimal(&combined);
    let under_target_hash = keccak256(combined_text.as_str());
    if big_le(&under_target_hash, target) {
        let headers = BlockHeaders {
            number,
            difficulty,
            timestamp,
            parent_hash: link.duplicate(),
            beneficiary: beneficiary.duplicate(),
        };
        assert(text@ =~= header_text(headers));
        Some(Block { block_headers: headers, nonce: nonce_value })
    } else {
        assert(text@ =~= header_text_of(
            lh.number as nat + 1,
            adjusted_difficulty(lh.difficulty as nat, lh.timestamp as nat, timestamp as nat),
            timestamp as nat,
            parent_link(*lh),
            beneficiary.value(),
        ));
        None
    }
}

impl Block {
    /// The difficulty of a block made at `timestamp` on top of `last_block`:
    /// one less (but at least 1) when more than two seconds have passed,
    /// else one more.
    pub fn adjust_difficulty(last_block: &Block, timestamp: u64) -> (r: u32)
        requires
            last_block.block_headers.difficulty < u32::MAX || timestamp
                - last_block.block_headers.timestamp > 2,
        ensures
            r == adjusted_difficulty(
                last_block.block_headers.difficulty as nat,
                last_block.block_headers.timestamp as nat,
                timestamp as nat,
            ),
            r >= 1,
    {
        let lh = &last_block.block_headers;
        next_difficulty(lh.difficulty, lh.timestamp, timestamp) as u32
    }

    /// Checks `new_block` as the successor of `last_block`: the genesis
    /// header is always accepted; otherwise the number, the difficulty and
    /// the proof of work are checked, in that order.
    pub fn validate_block(last_block: &Block, new_block: &Block) -> (r: Result<
        bool,
        ValidateBlockError,
    >)
        requires
            last_block.block_headers.difficulty >= 1,
        ensures
            r == validation(*last_block, *new_block),
    {
        let genesis = Block::genesis();
        let new_hash = Block::get_block_hash(&new_block.block_headers).unwrap();
        let genesis_hash = Block::get_block_hash(&genesis.block_headers).unwrap();
        proof {
            assert(header_text(genesis.block_headers) == header_text_of(
                0,
                GENESIS_DIFFICULTY as nat,
                GENESIS_TIMESTAMP as nat,
                1,
                1,
            ));
        }
        if big_eq(&new_hash, &genesis_hash) {
            return Ok(true);
        }
        let lh = &last_block.block_headers;
        let nh = &new_block.block_headers;
        if nh.number as u64 != lh.number as u64 + 1 {
            return Err(ValidateBlockError::InvalidBlockNumber);
        }
        if nh.difficulty as u64 != next_difficulty(lh.difficulty, lh.timestamp, nh.timestamp) {
            return Err(ValidateBlockError::InvalidDifficulty);
        }
        let target = Block::calculate_block_target_hash(last_block);
        let combined = big_add(&new_hash, &new_block.nonce);
        let stringified = big_decimal(&combined);
        let under_target_hash = keccak256(stringified.as_str());
        if !big_le(&under_target_hash, &target) {
            return Err(ValidateBlockError::InvalidTargetHash);
        }
        Ok(true)
    }

    /// The first block of every chain.
    pub fn genesis() -> (r: Block)
        ensures
            is_genesis(r),
    {
        Block {
            block_headers: BlockHeaders {
                number: 0,
                difficulty: GENESIS_DIFFICULTY,
                timestamp: GENESIS_TIMESTAMP,
                parent_hash: BigNat::from_u64(1),
                beneficiary: BigNat::from_u64(1),
            },
            nonce: BigNat::from_u64(1),
        }
    }

    /// The block that mining on top of `last_block` yields at `timestamp` with
    /// `nonce`, or `None` when its search hash exceeds the target.
    pub fn mine_at(last_block: &Block, beneficiary: &BigNat, timestamp: u64, nonce: u64) -> (r:
        Option<Block>)
        requires
            last_block.block_headers.number < u32::MAX,
            1 <= last_block.block_headers.difficulty < u32::MAX,
        ensures
            r is Some <==> candidate_search_hash(
                last_block.block_headers,
                beneficiary.value(),
                timestamp as nat,
                nonce as nat,
            ) <= target_for(last_block.block_headers.difficulty as nat),
            r matches Some(b) ==> is_candidate(
                *last_block,
                beneficiary.value(),
                timestamp as nat,
                nonce as nat,
                b,
            ) && validation(*last_block, b) == Ok::<bool, ValidateBlockError>(true),
    {
        let target = Block::calculate_block_target_hash(last_block);
        let link = parent_link_hash(&last_block.block_headers);
        let link_text = big_decimal(&link);
        let beneficiary_text = big_decimal(beneficiary);
        attempt(
            last_block,
            beneficiary,
            &link,
            &beneficiary_text,
            &link_text,
            &target,
            timestamp,
            nonce,
        )
    }

    /// Searches nonces 0, 1, ..., `max_nonce` in turn, reading the clock
    /// afresh for each, and returns the first candidate whose search hash is
    /// within the target.
    pub fn mine_block_capped(last_block: &Block, beneficiary: BigNat, max_nonce: u64) -> (r:
        Result<Block, MiningError>)
        requires
            last_block.block_headers.number < u32::MAX,
            1 <= last_block.block_headers.difficulty < u32::MAX,
        ensures
            r matches Ok(b) ==> exists|timestamp: nat|
                is_candidate(
                    *last_block,
                    beneficiary.value(),
                    timestamp,
                    b.nonce.value(),
                    b,
                ),
            r matches Ok(b) ==> b.nonce.value() <= max_nonce,
            r matches Ok(b) ==> forall|n: nat|
                n < b.nonce.value() ==> #[trigger] nonce_failed(*last_block, beneficiary.value(), n),
            r matches Ok(b) ==> search_hash(b.block_headers, b.nonce.value()) <= target_for(
                last_block.block_headers.difficulty as nat,
            ),
            r matches Ok(b) ==> validation(*last_block, b) == Ok::<bool, ValidateBlockError>(
                true,
            ),
            r == Err::<Block, MiningError>(MiningError::MiningExhausted) ==> forall|n: nat|
                n <= max_nonce ==> #[trigger] nonce_failed(*last_block, beneficiary.value(), n),
    {
        let target = Block::calculate_block_target_hash(last_block);
        let link = parent_link_hash(&last_block.block_headers);
        let link_text = big_decimal(&link);
        let beneficiary_text = big_decimal(&beneficiary);
        let mut nonce: u64 = 0;
        loop
            invariant
                nonce <= max_nonce,
                target.value() == target_for(last_block.block_headers.difficulty as nat),
                link.value() == parent_link(last_block.block_headers),
                link_text@ == decimal_text(link.value()),
                beneficiary_text@ == decimal_text(beneficiary.value()),
                last_block.block_headers.number < u32::MAX,
                1 <= last_block.block_headers.difficulty < u32::MAX,
                forall|n: nat|
                    n < nonce ==> #[trigger] nonce_failed(*last_block, beneficiary.value(), n),
            decreases max_nonce - nonce,
        {
            let timestamp = match get_current_timestamp() {
                Some(t) => t,
                None => return Err(MiningError::ClockUnavailable),
            };
            match attempt(
                last_block,
                &beneficiary,
                &link,
                &beneficiary_text,
                &link_text,
                &target,
                timestamp,
                nonce,
            ) {
                Some(b) => return Ok(b),
                None => {},
            }
            assert(nonce_failed(*last_block, beneficiary.value(), nonce as nat)) by {
                assert(candidate_search_hash(
                    last_block.block_headers,
                    beneficiary.value(),
                    timestamp as nat,
                    nonce as nat,
                ) > target_for(last_block.block_headers.difficulty as nat));
            }
            if nonce >= max_nonce {
                return Err(MiningError::MiningExhausted);
            }
            nonce = nonce + 1;
        }
    }

    /// `mine_block_capped` with nonces up to `MAX_NONCE`.
    pub fn mine_block(last_block: &Block, beneficiary: BigNat) -> (r: Result<Block, MiningError>)
        requires
            last_block.block_headers.number < u32::MAX,
            1 <= last_block.block_headers.difficulty < u32::MAX,
        ensures
            r matches Ok(b) ==> exists|timestamp: nat|
                is_candidate(
                    *last_block,
                    beneficiary.value(),
                    timestamp,
                    b.nonce.value(),
                    b,
                ),
            r matches Ok(b) ==> b.nonce.value() <= MAX_NONCE,
            r matches Ok(b) ==> forall|n: nat|
                n < b.nonce.value() ==> #[trigger] nonce_failed(*last_block, beneficiary.value(), n),
            r matches Ok(b) ==> search_hash(b.block_headers, b.nonce.value()) <= target_for(
                last_block.block_headers.difficulty as nat,
            ),
            r matches Ok(b) ==> validation(*last_block, b) == Ok::<bool, ValidateBlockError>(
                true,
            ),
            r == Err::<Block, MiningError>(MiningError::MiningExhausted) ==> forall|n: nat|
                n <= MAX_NONCE ==> #[trigger] nonce_failed(*last_block, beneficiary.value(), n),
    {
        Block::mine_block_capped(last_block, beneficiary, MAX_NONCE)
    }
}

/// A block built by mining on top of `last` whose search hash is within the
/// target of `last` passes validation against `last`.
pub proof fn lemma_mined_block_is_valid(last: Block, beneficiary: nat, timestamp: nat, b: Block)
    requires
        is_candidate(last, beneficiary, timestamp, b.nonce.value(), b),
        search_hash(b.block_headers, b.nonce.value()) <= target_for(
            last.block_headers.difficulty as nat,
        ),
    ensures
        validation(last, b) == Ok::<bool, ValidateBlockError>(true),
{
}

/// The target does not grow as the difficulty grows.
pub proof fn lemma_target_non_increasing(d1: nat, d2: nat)
    requires
        1 <= d1 <= d2,
    ensures
        target_for(d1) >= target_for(d2),
{
    lemma_div_is_ordered_by_denominator(max_target() as int, d1 as int, d2 as int);
}

/// The next difficulty is never below 1.
pub proof fn lemma_adjusted_difficulty_positive(difficulty: nat, prev_timestamp: nat, timestamp: nat)
    ensures
        adjusted_difficulty(difficulty, prev_timestamp, timestamp) >= 1,
{
}

/// Two headers whose serialised texts are anagrams of each other have the
/// same hash.
pub proof fn lemma_anagram_headers_collide(h1: BlockHeaders, h2: BlockHeaders)
    requires
        header_text(h1).to_multiset() == header_text(h2).to_multiset(),
    ensures
        header_hash(h1) == header_hash(h2),
{
    lemma_sorted_text_of_anagrams(header_text(h1), header_text(h2));
}

/// The genesis block passes validation whatever block it is checked against.
pub proof fn lemma_genesis_always_valid(last: Block, g: Block)
    requires
        is_genesis(g),
    ensures
        validation(last, g) == Ok::<bool, ValidateBlockError>(true),
{
    assert(header_text(g.block_headers) == header_text_of(
        0,
        GENESIS_DIFFICULTY as nat,
        GENESIS_TIMESTAMP as nat,
        1,
        1,
    ));
}

} // verus!

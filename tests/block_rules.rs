use powchain::bignum::BigNat;
use powchain::block::{Block, MiningError, ValidateBlockError, GENESIS_DIFFICULTY, MAX_NONCE};
use powchain::hashing::{keccak256, sort_characters};

fn block(number: u32, difficulty: u32, timestamp: u64, parent: u64, beneficiary: u64, nonce: u64) -> Block {
    Block::new(
        number,
        BigNat::from_u64(parent),
        BigNat::from_u64(beneficiary),
        difficulty,
        timestamp,
        BigNat::from_u64(nonce),
    )
}

fn decimal(n: &BigNat) -> String {
    n.to_decimal_string()
}

fn nonce_of(b: &Block) -> u64 {
    decimal(&b.nonce).parse().unwrap()
}

#[test]
fn sort_characters_orders_by_code_point() {
    assert_eq!(sort_characters("cba").unwrap(), "abc");
    assert_eq!(sort_characters("{\"b\":10}").unwrap(), "\"\"01:b{}");
    assert_eq!(sort_characters("").unwrap(), "");
}

#[test]
fn keccak256_known_digests() {
    assert_eq!(
        decimal(&keccak256("")),
        "89477152217924674838424037953991966239322087453347756267410168184682657981552"
    );
    assert_eq!(
        decimal(&keccak256("abc")),
        "35286403120855365962805127237049809881669876751651884979611909062921250761797"
    );
}

#[test]
fn from_u64_round_trips_through_decimal() {
    assert_eq!(decimal(&BigNat::from_u64(0)), "0");
    assert_eq!(decimal(&BigNat::from_u64(4294967296)), "4294967296");
    assert_eq!(decimal(&BigNat::from_u64(u64::MAX)), "18446744073709551615");
    assert_eq!(
        decimal(&BigNat::max_target()),
        "115792089237316195423570985008687907853269984665640564039457584007913129639934"
    );
}

#[test]
fn genesis_fields() {
    let g = Block::genesis();
    assert_eq!(g.block_headers.number, 0);
    assert_eq!(g.block_headers.difficulty, GENESIS_DIFFICULTY);
    assert_eq!(g.block_headers.difficulty, 100000);
    assert_eq!(decimal(&g.block_headers.parent_hash), "1");
    assert_eq!(decimal(&g.block_headers.beneficiary), "1");
    assert_eq!(decimal(&g.nonce), "1");
}

#[test]
fn target_is_max_over_difficulty() {
    let g = Block::genesis();
    assert_eq!(
        decimal(&Block::calculate_block_target_hash(&g)),
        "1157920892373161954235709850086879078532699846656405640394575840079131296"
    );
    let one = block(0, 1, 0, 1, 1, 1);
    assert_eq!(
        decimal(&Block::calculate_block_target_hash(&one)),
        "115792089237316195423570985008687907853269984665640564039457584007913129639934"
    );
}

#[test]
fn target_non_increasing_in_difficulty() {
    let mut previous: Option<u128> = None;
    for d in [1u32, 2, 3, 10, 1000, 100000, u32::MAX - 1] {
        let t = Block::calculate_block_target_hash(&block(0, d, 0, 1, 1, 1));
        let digits = decimal(&t);
        let len = digits.len() as u128;
        if let Some(p) = previous {
            assert!(len <= p);
        }
        previous = Some(len);
    }
    let t1 = decimal(&Block::calculate_block_target_hash(&block(0, 99999, 0, 1, 1, 1)));
    let t2 = decimal(&Block::calculate_block_target_hash(&block(0, 100000, 0, 1, 1, 1)));
    assert_eq!(t1.len(), t2.len());
    assert!(t1 > t2);
}

#[test]
fn adjust_difficulty_steps() {
    let p = block(5, 100000, 1000, 1, 1, 0);
    assert_eq!(Block::adjust_difficulty(&p, 1000), 100001);
    assert_eq!(Block::adjust_difficulty(&p, 1002), 100001);
    assert_eq!(Block::adjust_difficulty(&p, 1003), 99999);
    assert_eq!(Block::adjust_difficulty(&p, 10), 100001);
    assert_eq!(Block::adjust_difficulty(&p, 1003), Block::adjust_difficulty(&p, 1003));
}

#[test]
fn adjust_difficulty_decrements_from_top() {
    assert_eq!(Block::adjust_difficulty(&block(0, u32::MAX, 0, 1, 1, 0), 3), u32::MAX - 1);
}

#[test]
fn adjust_difficulty_floors_at_one() {
    assert_eq!(Block::adjust_difficulty(&block(0, 1, 0, 1, 1, 0), 100), 1);
    assert_eq!(Block::adjust_difficulty(&block(0, 2, 0, 1, 1, 0), 100), 1);
    assert_eq!(Block::adjust_difficulty(&block(0, 3, 0, 1, 1, 0), 100), 2);
    assert_eq!(Block::adjust_difficulty(&block(0, 0, 0, 1, 1, 0), 100), 1);
    assert_eq!(Block::adjust_difficulty(&block(0, 1, 0, 1, 1, 0), 1), 2);
}

#[test]
fn header_hash_identifies_anagrams() {
    let a = block(12, 7, 3, 1, 1, 0);
    let b = block(21, 7, 3, 1, 1, 0);
    let c = block(13, 7, 3, 1, 1, 0);
    let ha = Block::get_block_hash(&a.block_headers).unwrap();
    let hb = Block::get_block_hash(&b.block_headers).unwrap();
    let hc = Block::get_block_hash(&c.block_headers).unwrap();
    assert_eq!(decimal(&ha), decimal(&hb));
    assert_ne!(decimal(&ha), decimal(&hc));
}

#[test]
fn header_text_layout() {
    let b = block(1, 2, 3, 4, 5, 6);
    assert_eq!(
        powchain::block::header_text_string(&b.block_headers),
        "{\"number\":1,\"difficulty\":2,\"timestamp\":3,\"parent_hash\":4,\"beneficiary\":5}"
    );
    assert_eq!(
        powchain::block::block_text_string(&b),
        "{\"block_headers\":{\"number\":1,\"difficulty\":2,\"timestamp\":3,\"parent_hash\":4,\"beneficiary\":5},\"nonce\":6}"
    );
}

#[test]
fn genesis_validates_against_any_predecessor() {
    let preds = [block(0, 1, 0, 1, 1, 1), block(77, 5000, 123456, 9, 9, 9), Block::genesis()];
    for p in preds.iter() {
        assert_eq!(Block::validate_block(p, &Block::genesis()), Ok(true));
    }
}

#[test]
fn validate_rejects_wrong_number() {
    let p = block(4, 10, 100, 1, 1, 0);
    let c = block(6, 11, 100, 1, 1, 0);
    assert_eq!(Block::validate_block(&p, &c), Err(ValidateBlockError::InvalidBlockNumber));
    let c = block(4, 11, 100, 1, 1, 0);
    assert_eq!(Block::validate_block(&p, &c), Err(ValidateBlockError::InvalidBlockNumber));
}

#[test]
fn validate_rejects_wrong_difficulty() {
    let p = block(4, 10, 100, 1, 1, 0);
    let c = block(5, 9, 101, 1, 1, 0);
    assert_eq!(Block::validate_block(&p, &c), Err(ValidateBlockError::InvalidDifficulty));
    let c = block(5, 11, 200, 1, 1, 0);
    assert_eq!(Block::validate_block(&p, &c), Err(ValidateBlockError::InvalidDifficulty));
}

#[test]
fn validate_rejects_work_above_target() {
    let p = block(4, u32::MAX - 1, 100, 1, 1, 0);
    let c = block(5, u32::MAX, 101, 1, 1, 0);
    assert_eq!(Block::validate_block(&p, &c), Err(ValidateBlockError::InvalidTargetHash));
}

#[test]
fn mine_at_easy_target_succeeds_and_validates() {
    let p = block(4, 1, 100, 1, 1, 0);
    let b = Block::mine_at(&p, &BigNat::from_u64(7), 101, 0).unwrap();
    assert_eq!(b.block_headers.number, 5);
    assert_eq!(b.block_headers.difficulty, 2);
    assert_eq!(b.block_headers.timestamp, 101);
    assert_eq!(decimal(&b.block_headers.beneficiary), "7");
    assert_eq!(nonce_of(&b), 0);
    assert_eq!(Block::validate_block(&p, &b), Ok(true));
}

#[test]
fn mine_at_parent_link_hashes_predecessor_parent() {
    let p = block(4, 1, 100, 321, 1, 0);
    let b = Block::mine_at(&p, &BigNat::from_u64(7), 200, 0).unwrap();
    assert_eq!(decimal(&b.block_headers.parent_hash), decimal(&keccak256("123")));
    assert_eq!(b.block_headers.difficulty, 1);
}

#[test]
fn mine_at_hard_target_fails() {
    let p = block(4, u32::MAX - 1, 100, 1, 1, 0);
    assert!(Block::mine_at(&p, &BigNat::from_u64(0), 101, 0).is_none());
}

#[test]
fn flipped_nonce_bit_fails_validation() {
    let p = block(9, 5000, 100, 3, 3, 0);
    let beneficiary = BigNat::from_u64(2);
    let mut found = None;
    for n in 0..200000u64 {
        if let Some(b) = Block::mine_at(&p, &beneficiary, 101, n) {
            found = Some(b);
            break;
        }
    }
    let b = found.expect("a nonce within the search range");
    assert_eq!(Block::validate_block(&p, &b), Ok(true));
    let flipped = Block::new(
        b.block_headers.number,
        BigNat::from_u64(0),
        BigNat::from_u64(2),
        b.block_headers.difficulty,
        b.block_headers.timestamp,
        BigNat::from_u64(nonce_of(&b) ^ 1),
    );
    let flipped = Block::new(
        flipped.block_headers.number,
        b.block_headers.parent_hash.duplicate(),
        flipped.block_headers.beneficiary,
        flipped.block_headers.difficulty,
        flipped.block_headers.timestamp,
        flipped.nonce,
    );
    assert_eq!(Block::validate_block(&p, &flipped), Err(ValidateBlockError::InvalidTargetHash));
}

#[test]
fn mine_from_genesis_is_consistent() {
    let g = Block::genesis();
    let cap = MAX_NONCE / 10;
    match Block::mine_block_capped(&g, BigNat::from_u64(1), cap) {
        Ok(b) => {
            assert_eq!(b.block_headers.number, 1);
            let d = b.block_headers.difficulty;
            assert!(d == 99999 || d == 100001);
            assert!(nonce_of(&b) <= cap);
            assert_eq!(Block::validate_block(&g, &b), Ok(true));
        }
        Err(e) => assert_eq!(e, MiningError::MiningExhausted),
    }
}

#[test]
fn mine_with_small_cap_exhausts_at_extreme_difficulty() {
    let p = block(0, u32::MAX - 1, 0, 1, 1, 1);
    assert_eq!(
        Block::mine_block_capped(&p, BigNat::from_u64(1), 10).unwrap_err(),
        MiningError::MiningExhausted
    );
}

#[test]
fn mine_with_easy_target_succeeds_and_validates() {
    let p = block(3, 1, 0, 1, 1, 1);
    let b = Block::mine_block_capped(&p, BigNat::from_u64(1), 10).unwrap();
    assert_eq!(b.block_headers.number, 4);
    assert_eq!(Block::validate_block(&p, &b), Ok(true));
}

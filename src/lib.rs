pub mod bignum;
pub mod block;
pub mod blockchain;
pub mod hashing;
pub mod interpreter;

//! The chain: an append-only sequence of blocks that starts at genesis.
use crate::block::{Block, block_text, block_text_string, is_genesis};
use vstd::prelude::*;
use vstd::string::*;

verus! {

/// The serialised blocks, separated by commas.
pub open spec fn blocks_text(blocks: Seq<Block>) -> Seq<char>
    decreases blocks.len(),
{
    if blocks.len() == 0 {
        Seq::empty()
    } else if blocks.len() == 1 {
        block_text(blocks[0])
    } else {
        blocks_text(blocks.drop_last()) + ","@ + block_text(blocks.last())
    }
}

/// The serialised text of a whole chain.
pub open spec fn chain_text(blocks: Seq<Block>) -> Seq<char> {
    "{\"blocks\":["@ + blocks_text(blocks) + "]}"@
}

pub struct Blockchain {
    blocks: Vec<Block>,
}

impl View for Blockchain {
    type V = Seq<Block>;

    closed spec fn view(&self) -> Seq<Block> {
        self.blocks@
    }
}

impl Blockchain {
    /// A chain that holds the genesis block alone.
    pub fn new() -> (r: Self)
        ensures
            r@.len() == 1,
            is_genesis(r@[0]),
    {
        Blockchain { blocks: vec![Block::genesis()] }
    }

    /// Appends `new_block` as it is; the caller validates it first.
    pub fn add_block(&mut self, new_block: Block)
        ensures
            final(self)@ == old(self)@.push(new_block),
            final(self)@.len() == old(self)@.len() + 1,
            forall|i: int| 0 <= i < old(self)@.len() ==> final(self)@[i] == old(self)@[i],
    {
        self.blocks.push(new_block);
    }

    /// The newest block; present whenever the chain is not empty, as a chain
    /// made by `new` and grown by `add_block` never is.
    pub fn get_last_block(&self) -> (r: Option<&Block>)
        ensures
            r is Some <==> self@.len() > 0,
            r matches Some(b) ==> *b == self@.last(),
    {
        if self.blocks.len() == 0 {
            None
        } else {
            Some(&self.blocks[self.blocks.len() - 1])
        }
    }

    /// The number of blocks, genesis included.
    pub fn current_block_height(&self) -> (r: usize)
        ensures
            r == self@.len(),
    {
        self.blocks.len()
    }

    /// The serialised text of the chain.
    pub fn serialize_chain(&self) -> (r: String)
        ensures
            r@ == chain_text(self@),
    {
        let mut body = String::new();
        let mut i: usize = 0;
        while i < self.blocks.len()
            invariant
                i <= self.blocks@.len(),
                body@ == blocks_text(self.blocks@.subrange(0, i as int)),
            decreases self.blocks@.len() - i,
        {
            let ghost prefix = self.blocks@.subrange(0, i as int);
            let ghost next = self.blocks@.subrange(0, i as int + 1);
            assert(next.drop_last() =~= prefix);
            if i > 0 {
                body.append(",");
            }
            let t = block_text_string(&self.blocks[i]);
            body.append(t.as_str());
            assert(body@ =~= blocks_text(next));
            i = i + 1;
        }
        assert(self.blocks@.subrange(0, self.blocks@.len() as int) =~= self.blocks@);
        let mut s = String::new();
        s.append("{\"blocks\":[");
        s.append(body.as_str());
        s.append("]}");
        assert(s@ =~= chain_text(self@));
        s
    }
}

} // verus!

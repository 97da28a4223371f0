//! Data model of the ingestion pipeline: blocks, transactions, and the
//! message that a producer publishes for one block.
//!
//! Blocks and transactions are read-only snapshots: a producer creates them
//! once per fetched block, and the persister turns them into rows. All
//! chain-level quantities that fit a machine word are `u64`; the unbounded
//! ones (difficulty, value, gas price) travel as decimal strings.

use vstd::prelude::*;

verus! {

/// One transaction of a block, keyed within a chain by its hash.
pub struct Transaction {
    pub hash: String,
    pub block_number: u64,
    pub from_address: String,
    pub to_address: Option<String>,
    pub value: String,
    pub gas_price: String,
    pub gas: u64,
    pub input: String,
    pub nonce: u64,
}

/// Mathematical image of a `Transaction`.
#[verifier::ext_equal]
pub ghost struct TransactionV {
    pub hash: Seq<char>,
    pub block_number: u64,
    pub from_address: Seq<char>,
    pub to_address: Option<Seq<char>>,
    pub value: Seq<char>,
    pub gas_price: Seq<char>,
    pub gas: u64,
    pub input: Seq<char>,
    pub nonce: u64,
}

impl View for Transaction {
    type V = TransactionV;

    open spec fn view(&self) -> TransactionV {
        TransactionV {
            hash: self.hash@,
            block_number: self.block_number,
            from_address: self.from_address@,
            to_address: self.to_address.deep_view(),
            value: self.value@,
            gas_price: self.gas_price@,
            gas: self.gas,
            input: self.input@,
            nonce: self.nonce,
        }
    }
}

impl DeepView for Transaction {
    type V = TransactionV;

    open spec fn deep_view(&self) -> TransactionV {
        self.view()
    }
}

/// One block, keyed within a chain by its number, with its ordered
/// transactions. Immutable once produced by the source chain.
pub struct Block {
    pub number: u64,
    pub hash: String,
    pub parent_hash: String,
    pub timestamp: u64,
    pub miner: String,
    pub difficulty: String,
    pub gas_used: u64,
    pub gas_limit: u64,
    pub size: u64,
    pub receipts_root: String,
    pub transactions: Vec<Transaction>,
}

/// Mathematical image of a `Block`.
#[verifier::ext_equal]
pub ghost struct BlockV {
    pub number: u64,
    pub hash: Seq<char>,
    pub parent_hash: Seq<char>,
    pub timestamp: u64,
    pub miner: Seq<char>,
    pub difficulty: Seq<char>,
    pub gas_used: u64,
    pub gas_limit: u64,
    pub size: u64,
    pub receipts_root: Seq<char>,
    pub transactions: Seq<TransactionV>,
}

impl View for Block {
    type V = BlockV;

    open spec fn view(&self) -> BlockV {
        BlockV {
            number: self.number,
            hash: self.hash@,
            parent_hash: self.parent_hash@,
            timestamp: self.timestamp,
            miner: self.miner@,
            difficulty: self.difficulty@,
            gas_used: self.gas_used,
            gas_limit: self.gas_limit,
            size: self.size,
            receipts_root: self.receipts_root@,
            transactions: self.transactions.deep_view(),
        }
    }
}

impl DeepView for Block {
    type V = BlockV;

    open spec fn deep_view(&self) -> BlockV {
        self.view()
    }
}

/// What a producer hands to the message channel for one observed block:
/// the owning chain's name together with the block snapshot. The payload
/// actually published is the JSON rendering of this value.
pub struct BlockMessage {
    pub chain_name: String,
    pub block: Block,
}

/// Mathematical image of a `BlockMessage`.
#[verifier::ext_equal]
pub ghost struct MessageV {
    pub chain_name: Seq<char>,
    pub block: BlockV,
}

impl View for BlockMessage {
    type V = MessageV;

    open spec fn view(&self) -> MessageV {
        MessageV { chain_name: self.chain_name@, block: self.block@ }
    }
}

impl DeepView for BlockMessage {
    type V = MessageV;

    open spec fn deep_view(&self) -> MessageV {
        self.view()
    }
}

/// A character that may stand inside a JSON string of the wire format
/// without escaping: printable ASCII, no quote, no backslash. Chain names,
/// hex hashes, addresses and decimal strings all stay within this set.
pub open spec fn plain_char(c: char) -> bool {
    &&& 0x20 <= (c as u32) <= 0x7e
    &&& c != '"'
    &&& c != '\\'
}

/// Text that may stand inside a JSON string of the wire format as it is.
pub open spec fn plain_text(s: Seq<char>) -> bool {
    forall|i: int| 0 <= i < s.len() ==> plain_char(#[trigger] s[i])
}

/// A transaction is well formed for the block numbered `block_number` when
/// its textual fields are plain and it names that block.
pub open spec fn wf_transaction(t: TransactionV, block_number: u64) -> bool {
    &&& plain_text(t.hash)
    &&& t.block_number == block_number
    &&& plain_text(t.from_address)
    &&& match t.to_address {
        Option::Some(a) => plain_text(a),
        Option::None => true,
    }
    &&& plain_text(t.value)
    &&& plain_text(t.gas_price)
    &&& plain_text(t.input)
}

/// A block is well formed when its textual fields are plain and every
/// transaction belongs to it.
pub open spec fn wf_block(b: BlockV) -> bool {
    &&& plain_text(b.hash)
    &&& plain_text(b.parent_hash)
    &&& plain_text(b.miner)
    &&& plain_text(b.difficulty)
    &&& plain_text(b.receipts_root)
    &&& b.transactions.len() <= u64::MAX
    &&& forall|i: int|
        0 <= i < b.transactions.len() ==> wf_transaction(
            #[trigger] b.transactions[i],
            b.number,
        )
}

/// A message is well formed when its chain name is plain and its block is
/// well formed.
pub open spec fn wf_message(m: MessageV) -> bool {
    &&& plain_text(m.chain_name)
    &&& wf_block(m.block)
}

} // verus!

//! Persister: turns at-least-once channel delivery into exactly-once
//! stored rows.
//!
//! The row store is modelled as the two tables of the persisted schema,
//! keyed by `(chain_name, block_number)` and `(chain_name, tx_hash)`.
//! Every write is an idempotent upsert: insert when the key is absent,
//! leave the existing row untouched otherwise. A message that does not
//! parse is poison: it is acknowledged, skipped, and the store is left as
//! it was — it never stalls the subscription. The idempotence law at the
//! end proves that delivering the same payload twice leaves exactly the
//! store of one delivery.

use vstd::prelude::*;
use crate::block::{Block, MessageV, Transaction, TransactionV};
use crate::codec::{decode_block_message, encode_transactions_json, json_of_txs, sp_message};

verus! {

/// One row of the blocks table.
pub struct BlockRow {
    pub chain_name: String,
    pub block_number: u64,
    pub hash: String,
    pub parent_hash: String,
    pub timestamp: u64,
    pub miner: String,
    pub difficulty: String,
    pub gas_used: u64,
    pub gas_limit: u64,
    pub size: u64,
    pub receipts_root: String,
    pub tx_count: u64,
    pub transactions_json: String,
}

/// Mathematical image of a `BlockRow`.
#[verifier::ext_equal]
pub ghost struct BlockRowV {
    pub chain_name: Seq<char>,
    pub block_number: u64,
    pub hash: Seq<char>,
    pub parent_hash: Seq<char>,
    pub timestamp: u64,
    pub miner: Seq<char>,
    pub difficulty: Seq<char>,
    pub gas_used: u64,
    pub gas_limit: u64,
    pub size: u64,
    pub receipts_root: Seq<char>,
    pub tx_count: u64,
    pub transactions_json: Seq<char>,
}

impl View for BlockRow {
    type V = BlockRowV;

    open spec fn view(&self) -> BlockRowV {
        BlockRowV {
            chain_name: self.chain_name@,
            block_number: self.block_number,
            hash: self.hash@,
            parent_hash: self.parent_hash@,
            timestamp: self.timestamp,
            miner: self.miner@,
            difficulty: self.difficulty@,
            gas_used: self.gas_used,
            gas_limit: self.gas_limit,
            size: self.size,
            receipts_root: self.receipts_root@,
            tx_count: self.tx_count,
            transactions_json: self.transactions_json@,
        }
    }
}

impl DeepView for BlockRow {
    type V = BlockRowV;

    open spec fn deep_view(&self) -> BlockRowV {
        self.view()
    }
}

/// One row of the transactions table.
pub struct TransactionRow {
    pub chain_name: String,
    pub block_number: u64,
    pub tx_hash: String,
    pub from_address: String,
    pub to_address: Option<String>,
    pub value: String,
    pub gas_price: String,
    pub gas: u64,
    pub input: String,
    pub nonce: u64,
}

/// Mathematical image of a `TransactionRow`.
#[verifier::ext_equal]
pub ghost struct TransactionRowV {
    pub chain_name: Seq<char>,
    pub block_number: u64,
    pub tx_hash: Seq<char>,
    pub from_address: Seq<char>,
    pub to_address: Option<Seq<char>>,
    pub value: Seq<char>,
    pub gas_price: Seq<char>,
    pub gas: u64,
    pub input: Seq<char>,
    pub nonce: u64,
}

impl View for TransactionRow {
    type V = TransactionRowV;

    open spec fn view(&self) -> TransactionRowV {
        TransactionRowV {
            chain_name: self.chain_name@,
            block_number: self.block_number,
            tx_hash: self.tx_hash@,
            from_address: self.from_address@,
            to_address: self.to_address.deep_view(),
            value: self.value@,
            gas_price: self.gas_price@,
            gas: self.gas,
            input: self.input@,
            nonce: self.nonce,
        }
    }
}

impl DeepView for TransactionRow {
    type V = TransactionRowV;

    open spec fn deep_view(&self) -> TransactionRowV {
        self.view()
    }
}

/// The block row a message persists to.
pub open spec fn block_row_of(m: MessageV) -> BlockRowV {
    BlockRowV {
        chain_name: m.chain_name,
        block_number: m.block.number,
        hash: m.block.hash,
        parent_hash: m.block.parent_hash,
        timestamp: m.block.timestamp,
        miner: m.block.miner,
        difficulty: m.block.difficulty,
        gas_used: m.block.gas_used,
        gas_limit: m.block.gas_limit,
        size: m.block.size,
        receipts_root: m.block.receipts_root,
        tx_count: m.block.transactions.len() as u64,
        transactions_json: "["@ + json_of_txs(m.block.transactions) + "]"@,
    }
}

/// The transaction row one transaction of chain `chain` persists to.
pub open spec fn tx_row_of(chain: Seq<char>, t: TransactionV) -> TransactionRowV {
    TransactionRowV {
        chain_name: chain,
        block_number: t.block_number,
        tx_hash: t.hash,
        from_address: t.from_address,
        to_address: t.to_address,
        value: t.value,
        gas_price: t.gas_price,
        gas: t.gas,
        input: t.input,
        nonce: t.nonce,
    }
}

/// Whether a block row with this natural key is present.
pub open spec fn has_block_row(rows: Seq<BlockRowV>, chain: Seq<char>, number: u64) -> bool {
    exists|i: int|
        0 <= i < rows.len() && (#[trigger] rows[i]).chain_name == chain && rows[i].block_number
            == number
}

/// Whether a transaction row with this natural key is present.
pub open spec fn has_tx_row(rows: Seq<TransactionRowV>, chain: Seq<char>, hash: Seq<char>) -> bool {
    exists|i: int|
        0 <= i < rows.len() && (#[trigger] rows[i]).chain_name == chain && rows[i].tx_hash == hash
}

/// Idempotent insert: a new row only when its key is absent, never an
/// overwrite of what an earlier delivery stored.
pub open spec fn upsert_block_row(rows: Seq<BlockRowV>, row: BlockRowV) -> Seq<BlockRowV> {
    if has_block_row(rows, row.chain_name, row.block_number) {
        rows
    } else {
        rows.push(row)
    }
}

/// Idempotent insert of one transaction row.
pub open spec fn upsert_tx_row(rows: Seq<TransactionRowV>, row: TransactionRowV) -> Seq<
    TransactionRowV,
> {
    if has_tx_row(rows, row.chain_name, row.tx_hash) {
        rows
    } else {
        rows.push(row)
    }
}

/// Idempotent insert of every transaction of one message, in order.
pub open spec fn upsert_tx_rows(
    rows: Seq<TransactionRowV>,
    chain: Seq<char>,
    txs: Seq<TransactionV>,
) -> Seq<TransactionRowV>
    decreases txs.len(),
{
    if txs.len() == 0 {
        rows
    } else {
        upsert_tx_rows(upsert_tx_row(rows, tx_row_of(chain, txs[0])), chain, txs.skip(1))
    }
}

/// The relational store: the two tables of the persisted schema.
pub struct RowStore {
    pub blocks: Vec<BlockRow>,
    pub transactions: Vec<TransactionRow>,
}

/// Mathematical image of the store.
#[verifier::ext_equal]
pub ghost struct RowStoreV {
    pub blocks: Seq<BlockRowV>,
    pub transactions: Seq<TransactionRowV>,
}

impl View for RowStore {
    type V = RowStoreV;

    open spec fn view(&self) -> RowStoreV {
        RowStoreV {
            blocks: self.blocks.deep_view(),
            transactions: self.transactions.deep_view(),
        }
    }
}

/// Natural keys are unique: at most one row per `(chain_name,
/// block_number)` and per `(chain_name, tx_hash)`.
pub open spec fn wf_store(s: RowStoreV) -> bool {
    &&& forall|i: int, j: int|
        0 <= i < j < s.blocks.len() ==> !((#[trigger] s.blocks[i]).chain_name == (
        #[trigger] s.blocks[j]).chain_name && s.blocks[i].block_number == s.blocks[j].block_number)
    &&& forall|i: int, j: int|
        0 <= i < j < s.transactions.len() ==> !((#[trigger] s.transactions[i]).chain_name == (
        #[trigger] s.transactions[j]).chain_name && s.transactions[i].tx_hash
            == s.transactions[j].tx_hash)
}

/// The store after one delivered payload: unchanged for poison, upserted
/// rows for a message.
pub open spec fn store_after_message(s: RowStoreV, payload: Seq<char>) -> RowStoreV {
    match sp_message(payload) {
        Option::None => s,
        Option::Some(m) => RowStoreV {
            blocks: upsert_block_row(s.blocks, block_row_of(m)),
            transactions: upsert_tx_rows(s.transactions, m.chain_name, m.block.transactions),
        },
    }
}

/// The store after a whole run of deliveries, in order.
pub open spec fn drain_store(s: RowStoreV, payloads: Seq<Seq<char>>) -> RowStoreV
    decreases payloads.len(),
{
    if payloads.len() == 0 {
        s
    } else {
        drain_store(store_after_message(s, payloads[0]), payloads.skip(1))
    }
}

/// What one delivery is answered with. Every variant is acknowledged: a
/// poison message must never be retried, and a redelivery is already
/// stored. Only a failed store transaction — which the model store does
/// not have — withholds the acknowledgement, at the process edge.
#[derive(Clone, Copy, PartialEq, Eq, Structural, Debug)]
pub enum HandleOutcome {
    /// First delivery: the rows were inserted and committed.
    Inserted,
    /// Redelivery of an already persisted block: nothing written.
    Duplicate,
    /// The payload is not a canonical message: skipped, never retried.
    Poison,
}

/// The outcome one delivery gets against a given store.
pub open spec fn outcome_of(s: RowStoreV, payload: Seq<char>) -> HandleOutcome {
    match sp_message(payload) {
        Option::None => HandleOutcome::Poison,
        Option::Some(m) => if has_block_row(s.blocks, m.chain_name, m.block.number) {
            HandleOutcome::Duplicate
        } else {
            HandleOutcome::Inserted
        },
    }
}

impl RowStore {
    /// An empty store.
    pub fn new() -> (s: Self)
        ensures
            s@.blocks.len() == 0,
            s@.transactions.len() == 0,
            wf_store(s@),
    {
        let s = RowStore { blocks: Vec::new(), transactions: Vec::new() };
        proof {
            assert(s@.blocks =~= Seq::<BlockRowV>::empty());
            assert(s@.transactions =~= Seq::<TransactionRowV>::empty());
        }
        s
    }
}

/// Linear search for a block row by its natural key.
fn block_row_exists(rows: &Vec<BlockRow>, chain: &String, number: u64) -> (r: bool)
    ensures
        r == has_block_row(rows.deep_view(), chain@, number),
{
    let mut i: usize = 0;
    while i < rows.len()
        invariant
            0 <= i <= rows@.len(),
            forall|k: int|
                0 <= k < i ==> !((#[trigger] rows.deep_view()[k]).chain_name == chain@
                    && rows.deep_view()[k].block_number == number),
        decreases rows@.len() - i,
    {
        if rows[i].block_number == number && rows[i].chain_name == *chain {
            proof {
                assert((rows.deep_view()[i as int]).chain_name == chain@);
            }
            return true;
        }
        i = i + 1;
    }
    false
}

/// Linear search for a transaction row by its natural key.
fn tx_row_exists(rows: &Vec<TransactionRow>, chain: &String, hash: &String) -> (r: bool)
    ensures
        r == has_tx_row(rows.deep_view(), chain@, hash@),
{
    let mut i: usize = 0;
    while i < rows.len()
        invariant
            0 <= i <= rows@.len(),
            forall|k: int|
                0 <= k < i ==> !((#[trigger] rows.deep_view()[k]).chain_name == chain@
                    && rows.deep_view()[k].tx_hash == hash@),
        decreases rows@.len() - i,
    {
        if rows[i].tx_hash == *hash && rows[i].chain_name == *chain {
            proof {
                assert((rows.deep_view()[i as int]).chain_name == chain@);
            }
            return true;
        }
        i = i + 1;
    }
    false
}

/// The consumer of one topic: drains its subscription into the row store.
pub struct EVMConsumer {
    pub consumer_topic: String,
    pub consumer_subscription: String,
}

impl EVMConsumer {
    pub fn new(consumer_topic: String, consumer_subscription: String) -> (c: Self)
        ensures
            c.consumer_topic@ == consumer_topic@,
            c.consumer_subscription@ == consumer_subscription@,
    {
        EVMConsumer { consumer_topic, consumer_subscription }
    }

    /// Upserts one transaction row: inserts it when `(chain_name,
    /// tx_hash)` is new, leaves the stored row untouched otherwise.
    pub fn insert_transaction_data(
        &self,
        store: &mut RowStore,
        chain_name: &String,
        transaction: &Transaction,
    )
        requires
            wf_store(old(store)@),
        ensures
            wf_store(final(store)@),
            final(store)@.transactions == upsert_tx_row(
                old(store)@.transactions,
                tx_row_of(chain_name@, transaction@),
            ),
            final(store)@.blocks == old(store)@.blocks,
    {
        if !tx_row_exists(&store.transactions, chain_name, &transaction.hash) {
            let to_address = match &transaction.to_address {
                Some(a) => Some(a.clone()),
                None => None,
            };
            let row = TransactionRow {
                chain_name: chain_name.clone(),
                block_number: transaction.block_number,
                tx_hash: transaction.hash.clone(),
                from_address: transaction.from_address.clone(),
                to_address,
                value: transaction.value.clone(),
                gas_price: transaction.gas_price.clone(),
                gas: transaction.gas,
                input: transaction.input.clone(),
                nonce: transaction.nonce,
            };
            let ghost prev = store.transactions.deep_view();
            proof {
                assert(row@ =~= tx_row_of(chain_name@, transaction@));
            }
            store.transactions.push(row);
            proof {
                let rowv = tx_row_of(chain_name@, transaction@);
                assert(store.transactions.deep_view() =~= prev.push(rowv));
                assert(store@.blocks == old(store)@.blocks);
                assert forall|i: int, j: int|
                    0 <= i < j < store@.transactions.len() implies !((
                #[trigger] store@.transactions[i]).chain_name == (
                #[trigger] store@.transactions[j]).chain_name && store@.transactions[i].tx_hash
                    == store@.transactions[j].tx_hash) by {
                    assert(prev == old(store)@.transactions);
                    assert(store@.transactions == prev.push(rowv));
                    assert(store@.transactions[i] == prev[i]);
                    if j == store@.transactions.len() - 1 {
                        assert(store@.transactions[j] == rowv);
                        assert(!(prev[i].chain_name == chain_name@ && prev[i].tx_hash
                            == transaction.hash@));
                    } else {
                        assert(store@.transactions[j] == prev[j]);
                        assert(!(prev[i].chain_name == prev[j].chain_name && prev[i].tx_hash
                            == prev[j].tx_hash));
                    }
                }
            }
        }
    }

    /// Upserts the block row: inserts it when `(chain_name,
    /// block_number)` is new, leaves the stored row untouched otherwise.
    pub fn insert_block_data(&self, store: &mut RowStore, chain_name: &String, block: &Block)
        requires
            wf_store(old(store)@),
        ensures
            wf_store(final(store)@),
            final(store)@.blocks == upsert_block_row(
                old(store)@.blocks,
                block_row_of(MessageV { chain_name: chain_name@, block: block@ }),
            ),
            final(store)@.transactions == old(store)@.transactions,
    {
        if !block_row_exists(&store.blocks, chain_name, block.number) {
            let transactions_json = encode_transactions_json(&block.transactions);
            let row = BlockRow {
                chain_name: chain_name.clone(),
                block_number: block.number,
                hash: block.hash.clone(),
                parent_hash: block.parent_hash.clone(),
                timestamp: block.timestamp,
                miner: block.miner.clone(),
                difficulty: block.difficulty.clone(),
                gas_used: block.gas_used,
                gas_limit: block.gas_limit,
                size: block.size,
                receipts_root: block.receipts_root.clone(),
                tx_count: block.transactions.len() as u64,
                transactions_json,
            };
            let ghost m = MessageV { chain_name: chain_name@, block: block@ };
            let ghost prev = store.blocks.deep_view();
            proof {
                assert(row@ =~= block_row_of(m));
            }
            store.blocks.push(row);
            proof {
                let rowv = block_row_of(m);
                assert(store.blocks.deep_view() =~= prev.push(rowv));
                assert forall|i: int, j: int|
                    0 <= i < j < store@.blocks.len() implies !((
                #[trigger] store@.blocks[i]).chain_name == (#[trigger] store@.blocks[j]).chain_name
                    && store@.blocks[i].block_number == store@.blocks[j].block_number) by {
                    assert(prev == old(store)@.blocks);
                    assert(store@.blocks == prev.push(rowv));
                    assert(store@.blocks[i] == prev[i]);
                    if j == store@.blocks.len() - 1 {
                        assert(store@.blocks[j] == rowv);
                        assert(!(prev[i].chain_name == chain_name@ && prev[i].block_number
                            == block.number));
                    } else {
                        assert(store@.blocks[j] == prev[j]);
                        assert(!(prev[i].chain_name == prev[j].chain_name && prev[i].block_number
                            == prev[j].block_number));
                    }
                }
            }
        }
    }

    /// One delivered payload, start to finish: parse it — poison is acknowledged
    /// and skipped — then upsert every transaction row and the block row
    /// as one idempotent write, and report what happened.
    pub fn handle_message(&self, store: &mut RowStore, payload: &str) -> (o: HandleOutcome)
        requires
            wf_store(old(store)@),
        ensures
            wf_store(final(store)@),
            final(store)@ == store_after_message(old(store)@, payload@),
            o == outcome_of(old(store)@, payload@),
    {
        let m = match decode_block_message(payload) {
            Some(m) => m,
            None => {
                proof {
                    assert(final(store)@ =~= store_after_message(old(store)@, payload@));
                }
                return HandleOutcome::Poison;
            },
        };
        let duplicate = block_row_exists(&store.blocks, &m.chain_name, m.block.number);
        let ghost txs = m.block@.transactions;
        let mut i: usize = 0;
        proof {
            assert(txs.take(0) =~= Seq::<TransactionV>::empty());
        }
        while i < m.block.transactions.len()
            invariant
                wf_store(store@),
                0 <= i <= m.block.transactions@.len(),
                txs == m.block@.transactions,
                txs.len() == m.block.transactions@.len(),
                store@.blocks == old(store)@.blocks,
                store@.transactions == upsert_tx_rows(
                    old(store)@.transactions,
                    m.chain_name@,
                    txs.take(i as int),
                ),
            decreases m.block.transactions@.len() - i,
        {
            self.insert_transaction_data(store, &m.chain_name, &m.block.transactions[i]);
            proof {
                assert(txs.take(i as int + 1) =~= txs.take(i as int).push(txs[i as int]));
                lemma_upsert_tx_rows_snoc(
                    old(store)@.transactions,
                    m.chain_name@,
                    txs.take(i as int),
                    txs[i as int],
                );
                assert(m.block.transactions@[i as int].deep_view() == txs[i as int]);
            }
            i = i + 1;
        }
        proof {
            assert(txs.take(txs.len() as int) =~= txs);
        }
        self.insert_block_data(store, &m.chain_name, &m.block);
        proof {
            assert(MessageV { chain_name: m.chain_name@, block: m.block@ } =~= m@);
            assert(final(store)@ =~= store_after_message(old(store)@, payload@));
        }
        if duplicate {
            HandleOutcome::Duplicate
        } else {
            HandleOutcome::Inserted
        }
    }

    /// Drains one topic: every delivered payload is handled in order, and
    /// a poison message never blocks the ones behind it — there is one
    /// outcome for every payload.
    #[verifier::rlimit(100)]
    pub fn postgres_consume(&self, store: &mut RowStore, payloads: &Vec<String>) -> (outs: Vec<
        HandleOutcome,
    >)
        requires
            wf_store(old(store)@),
        ensures
            wf_store(final(store)@),
            final(store)@ == drain_store(old(store)@, payloads.deep_view()),
            outs@.len() == payloads@.len(),
            forall|k: int|
                0 <= k < outs@.len() ==> outs@[k] == outcome_of(
                    drain_store(old(store)@, payloads.deep_view().take(k)),
                    payloads.deep_view()[k],
                ),
    {
        let ghost dv = payloads.deep_view();
        let mut outs: Vec<HandleOutcome> = Vec::new();
        let mut i: usize = 0;
        proof {
            assert(dv.take(0) =~= Seq::<Seq<char>>::empty());
        }
        while i < payloads.len()
            invariant
                wf_store(store@),
                0 <= i <= payloads@.len(),
                dv == payloads.deep_view(),
                dv.len() == payloads@.len(),
                outs@.len() == i,
                store@ == drain_store(old(store)@, dv.take(i as int)),
                forall|k: int|
                    0 <= k < i ==> outs@[k] == outcome_of(
                        drain_store(old(store)@, dv.take(k)),
                        dv[k],
                    ),
        decreases payloads@.len() - i,
        {
            let ghost before = store@;
            let o = self.handle_message(store, payloads[i].as_str());
            outs.push(o);
            proof {
                assert(payloads@[i as int].deep_view() == dv[i as int]);
                assert(dv.take(i as int + 1) =~= dv.take(i as int).push(dv[i as int]));
                lemma_drain_store_snoc(old(store)@, dv.take(i as int), dv[i as int]);
            }
            i = i + 1;
        }
        proof {
            assert(dv.take(dv.len() as int) =~= dv);
        }
        outs
    }
}

proof fn lemma_upsert_tx_rows_snoc(
    rows: Seq<TransactionRowV>,
    chain: Seq<char>,
    txs: Seq<TransactionV>,
    t: TransactionV,
)
    ensures
        upsert_tx_rows(rows, chain, txs.push(t)) == upsert_tx_row(
            upsert_tx_rows(rows, chain, txs),
            tx_row_of(chain, t),
        ),
    decreases txs.len(),
{
    if txs.len() == 0 {
        assert(txs.push(t)[0] == t);
        assert(txs.push(t).skip(1) =~= Seq::<TransactionV>::empty());
        let rows1 = upsert_tx_row(rows, tx_row_of(chain, t));
        assert(upsert_tx_rows(rows, chain, txs.push(t)) == upsert_tx_rows(
            rows1,
            chain,
            Seq::<TransactionV>::empty(),
        ));
        assert(upsert_tx_rows(rows1, chain, Seq::<TransactionV>::empty()) == rows1);
        assert(upsert_tx_rows(rows, chain, txs) == rows);
    } else {
        assert(txs.push(t)[0] == txs[0]);
        assert(txs.push(t).skip(1) =~= txs.skip(1).push(t));
        let rows1 = upsert_tx_row(rows, tx_row_of(chain, txs[0]));
        assert(upsert_tx_rows(rows, chain, txs.push(t)) == upsert_tx_rows(
            rows1,
            chain,
            txs.skip(1).push(t),
        ));
        lemma_upsert_tx_rows_snoc(rows1, chain, txs.skip(1), t);
        assert(upsert_tx_rows(rows, chain, txs) == upsert_tx_rows(rows1, chain, txs.skip(1)));
    }
}

proof fn lemma_drain_store_snoc(s: RowStoreV, payloads: Seq<Seq<char>>, p: Seq<char>)
    ensures
        drain_store(s, payloads.push(p)) == store_after_message(drain_store(s, payloads), p),
    decreases payloads.len(),
{
    if payloads.len() == 0 {
        assert(payloads.push(p)[0] == p);
        assert(payloads.push(p).skip(1) =~= Seq::<Seq<char>>::empty());
        let s1 = store_after_message(s, p);
        assert(drain_store(s, payloads.push(p)) == drain_store(s1, Seq::<Seq<char>>::empty()));
        assert(drain_store(s1, Seq::<Seq<char>>::empty()) == s1);
        assert(drain_store(s, payloads) == s);
    } else {
        assert(payloads.push(p)[0] == payloads[0]);
        assert(payloads.push(p).skip(1) =~= payloads.skip(1).push(p));
        let s1 = store_after_message(s, payloads[0]);
        assert(drain_store(s, payloads.push(p)) == drain_store(s1, payloads.skip(1).push(p)));
        lemma_drain_store_snoc(s1, payloads.skip(1), p);
        assert(drain_store(s, payloads) == drain_store(s1, payloads.skip(1)));
    }
}

/// A key present in `rows` is still present after any upsert.
proof fn lemma_has_tx_row_upsert(
    rows: Seq<TransactionRowV>,
    row: TransactionRowV,
    chain: Seq<char>,
    hash: Seq<char>,
)
    requires
        has_tx_row(rows, chain, hash),
    ensures
        has_tx_row(upsert_tx_row(rows, row), chain, hash),
{
    let i = choose|i: int|
        0 <= i < rows.len() && (#[trigger] rows[i]).chain_name == chain && rows[i].tx_hash == hash;
    assert(upsert_tx_row(rows, row)[i] == rows[i]);
}

/// A key present in `rows` is still present after a whole message's
/// upserts.
proof fn lemma_has_tx_row_upserts(
    rows: Seq<TransactionRowV>,
    chain2: Seq<char>,
    txs: Seq<TransactionV>,
    chain: Seq<char>,
    hash: Seq<char>,
)
    requires
        has_tx_row(rows, chain, hash),
    ensures
        has_tx_row(upsert_tx_rows(rows, chain2, txs), chain, hash),
    decreases txs.len(),
{
    if txs.len() > 0 {
        lemma_has_tx_row_upsert(rows, tx_row_of(chain2, txs[0]), chain, hash);
        lemma_has_tx_row_upserts(
            upsert_tx_row(rows, tx_row_of(chain2, txs[0])),
            chain2,
            txs.skip(1),
            chain,
            hash,
        );
    }
}

/// After a message's upserts, every one of its transaction keys is
/// present.
proof fn lemma_upsert_tx_rows_present(
    rows: Seq<TransactionRowV>,
    chain: Seq<char>,
    txs: Seq<TransactionV>,
)
    ensures
        forall|j: int|
            0 <= j < txs.len() ==> has_tx_row(
                upsert_tx_rows(rows, chain, txs),
                chain,
                (#[trigger] txs[j]).hash,
            ),
    decreases txs.len(),
{
    if txs.len() > 0 {
        let rows1 = upsert_tx_row(rows, tx_row_of(chain, txs[0]));
        assert(has_tx_row(rows1, chain, txs[0].hash)) by {
            if !has_tx_row(rows, chain, txs[0].hash) {
                assert(rows1[rows.len() as int] == tx_row_of(chain, txs[0]));
            } else {
                lemma_has_tx_row_upsert(rows, tx_row_of(chain, txs[0]), chain, txs[0].hash);
            }
        }
        lemma_has_tx_row_upserts(rows1, chain, txs.skip(1), chain, txs[0].hash);
        lemma_upsert_tx_rows_present(rows1, chain, txs.skip(1));
        assert forall|j: int| 0 <= j < txs.len() implies has_tx_row(
            upsert_tx_rows(rows, chain, txs),
            chain,
            (#[trigger] txs[j]).hash,
        ) by {
            if j > 0 {
                assert(txs.skip(1)[j - 1] == txs[j]);
            }
        }
    }
}

/// Upserting transactions whose keys are all present changes nothing.
proof fn lemma_upsert_tx_rows_noop(
    rows: Seq<TransactionRowV>,
    chain: Seq<char>,
    txs: Seq<TransactionV>,
)
    requires
        forall|j: int|
            0 <= j < txs.len() ==> has_tx_row(rows, chain, (#[trigger] txs[j]).hash),
    ensures
        upsert_tx_rows(rows, chain, txs) == rows,
    decreases txs.len(),
{
    if txs.len() > 0 {
        assert(has_tx_row(rows, chain, txs[0].hash));
        assert(upsert_tx_row(rows, tx_row_of(chain, txs[0])) == rows);
        assert forall|j: int| 0 <= j < txs.skip(1).len() implies has_tx_row(
            rows,
            chain,
            (#[trigger] txs.skip(1)[j]).hash,
        ) by {
            assert(txs.skip(1)[j] == txs[j + 1]);
        }
        lemma_upsert_tx_rows_noop(rows, chain, txs.skip(1));
    }
}

/// Idempotence law of the persister: delivering the same payload twice
/// leaves exactly the store of one delivery — one row per
/// `(chain_name, block_number)` and per `(chain_name, tx_hash)`, however
/// often the channel redelivers.
pub proof fn lemma_persist_idempotent(s: RowStoreV, payload: Seq<char>)
    ensures
        store_after_message(store_after_message(s, payload), payload) == store_after_message(
            s,
            payload,
        ),
{
    match sp_message(payload) {
        Option::None => {},
        Option::Some(m) => {
            let s1 = store_after_message(s, payload);
            let row = block_row_of(m);
            assert(has_block_row(s1.blocks, row.chain_name, row.block_number)) by {
                if !has_block_row(s.blocks, row.chain_name, row.block_number) {
                    assert(s1.blocks[s.blocks.len() as int] == row);
                }
            }
            lemma_upsert_tx_rows_present(s.transactions, m.chain_name, m.block.transactions);
            lemma_upsert_tx_rows_noop(s1.transactions, m.chain_name, m.block.transactions);
            assert(store_after_message(s1, payload) =~= s1);
        },
    }
}

} // verus!

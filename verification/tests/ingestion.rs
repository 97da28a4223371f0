use blockchain_data_ingestion::backfill::{BackfillCoordinator, BackfillPhase};
use blockchain_data_ingestion::block::{Block, BlockMessage, Transaction};
use blockchain_data_ingestion::chain::ChainModel;
use blockchain_data_ingestion::codec::{decode_block_message, encode_block_message, encode_u64};
use blockchain_data_ingestion::persister::{EVMConsumer, HandleOutcome, RowStore};
use blockchain_data_ingestion::producer::{produce_historical, produce_realtime, StreamEvent};
use blockchain_data_ingestion::realtime::{catch_up, Subscriber};
use blockchain_data_ingestion::{plan_ingestion, topic_for, historical_topic_for, subscription_for};
use blockchain_data_ingestion::{BlockchainConfig, ChainEntry, ConfigToml};

fn tx(block_number: u64, hash: &str, to: Option<&str>) -> Transaction {
    Transaction {
        hash: hash.to_string(),
        block_number,
        from_address: "0xfeed".to_string(),
        to_address: to.map(|t| t.to_string()),
        value: "1000".to_string(),
        gas_price: "7".to_string(),
        gas: 21000,
        input: "0x".to_string(),
        nonce: 5,
    }
}

fn block(number: u64, txs: Vec<Transaction>) -> Block {
    Block {
        number,
        hash: format!("0xb{}", number),
        parent_hash: if number == 0 {
            "0x0".to_string()
        } else {
            format!("0xb{}", number - 1)
        },
        timestamp: 1600000000 + number,
        miner: "0xmine".to_string(),
        difficulty: "1000000".to_string(),
        gas_used: 10,
        gas_limit: 30000000,
        size: 512,
        receipts_root: "0xrcpt".to_string(),
        transactions: txs,
    }
}

fn chain_with_tip(tip: u64) -> ChainModel {
    let mut blocks = Vec::new();
    let mut n: u64 = 0;
    while n <= tip {
        blocks.push(block(n, vec![tx(n, &format!("0xt{}", n), Some("0xdead"))]));
        n += 1;
    }
    ChainModel { chain_name: "mainnet".to_string(), blocks }
}

#[test]
fn adapter_returns_the_numbered_block_or_none_past_tip() {
    let chain = chain_with_tip(2);
    for n in 0..3u64 {
        let b = chain.get_block_by_number(n).expect("block within tip");
        assert_eq!(b.number, n);
    }
    assert!(chain.get_block_by_number(3).is_none());
    assert!(chain.get_block_by_number(u64::MAX).is_none());
    assert_eq!(chain.get_latest_block_number(), 2);
}

#[test]
fn encode_u64_exact_numerals() {
    assert_eq!(encode_u64(0), "0");
    assert_eq!(encode_u64(7), "7");
    assert_eq!(encode_u64(12345), "12345");
    assert_eq!(encode_u64(u64::MAX), "18446744073709551615");
}

#[test]
fn wire_format_exact_rendering() {
    let b = Block {
        number: 1,
        hash: "0xb1".to_string(),
        parent_hash: "0xb0".to_string(),
        timestamp: 99,
        miner: "0xm".to_string(),
        difficulty: "12".to_string(),
        gas_used: 3,
        gas_limit: 4,
        size: 5,
        receipts_root: "0xr".to_string(),
        transactions: vec![Transaction {
            hash: "0xt1".to_string(),
            block_number: 1,
            from_address: "0xa".to_string(),
            to_address: None,
            value: "6".to_string(),
            gas_price: "7".to_string(),
            gas: 8,
            input: "0x".to_string(),
            nonce: 9,
        }],
    };
    let payload = encode_block_message("devnet", &b);
    let mut expected = String::new();
    expected.push_str("{\"chain_name\":\"devnet\",\"block_number\":1,\"hash\":\"0xb1\",");
    expected.push_str("\"parent_hash\":\"0xb0\",\"timestamp\":99,\"miner\":\"0xm\",");
    expected.push_str("\"difficulty\":\"12\",\"gas_used\":3,\"gas_limit\":4,\"size\":5,");
    expected.push_str("\"receipts_root\":\"0xr\",\"tx_count\":1,\"transactions\":[");
    expected.push_str("{\"hash\":\"0xt1\",\"from\":\"0xa\",\"to\":null,\"value\":\"6\",");
    expected.push_str("\"gas_price\":\"7\",\"gas\":8,\"input\":\"0x\",\"nonce\":9,");
    expected.push_str("\"block_number\":1}]}");
    assert_eq!(payload, expected);
}

#[test]
fn wire_round_trip_recovers_the_message() {
    let b = block(42, vec![tx(42, "0xt42", Some("0xdead")), tx(42, "0xt43", None)]);
    let payload = encode_block_message("mainnet", &b);
    let m: BlockMessage = decode_block_message(&payload).expect("canonical payload parses");
    assert_eq!(m.chain_name, "mainnet");
    assert_eq!(m.block.number, 42);
    assert_eq!(m.block.hash, "0xb42");
    assert_eq!(m.block.parent_hash, "0xb41");
    assert_eq!(m.block.timestamp, b.timestamp);
    assert_eq!(m.block.miner, b.miner);
    assert_eq!(m.block.difficulty, b.difficulty);
    assert_eq!(m.block.gas_used, b.gas_used);
    assert_eq!(m.block.gas_limit, b.gas_limit);
    assert_eq!(m.block.size, b.size);
    assert_eq!(m.block.receipts_root, b.receipts_root);
    assert_eq!(m.block.transactions.len(), 2);
    assert_eq!(m.block.transactions[0].hash, "0xt42");
    assert_eq!(m.block.transactions[0].to_address.as_deref(), Some("0xdead"));
    assert_eq!(m.block.transactions[1].hash, "0xt43");
    assert_eq!(m.block.transactions[1].to_address, None);
}

#[test]
fn decoder_rejects_malformed_payloads() {
    // not JSON at all
    assert!(decode_block_message("garbage").is_none());
    // truncated
    assert!(decode_block_message("{\"chain_name\":\"x\",\"block_number\":1").is_none());
    let b = block(1, vec![]);
    let good = encode_block_message("c", &b);
    assert!(decode_block_message(&good).is_some());
    // trailing garbage
    let mut trailing = good.clone();
    trailing.push(' ');
    assert!(decode_block_message(&trailing).is_none());
    // a non-canonical numeral (leading zero)
    let padded = good.replace("\"block_number\":1,", "\"block_number\":01,");
    assert!(decode_block_message(&padded).is_none());
    // a transaction count that does not match the array
    let wrong_count = good.replace("\"tx_count\":0,", "\"tx_count\":2,");
    assert!(decode_block_message(&wrong_count).is_none());
    // a transaction naming the wrong block
    let b2 = block(2, vec![tx(3, "0xt", None)]);
    let mismatched = encode_block_message("c", &b2);
    assert!(decode_block_message(&mismatched).is_none());
}

#[test]
fn historical_task_publishes_the_range_in_order_and_exhausts() {
    // chain tip is 101; the range asks up to 102
    let chain = chain_with_tip(101);
    let (payloads, coordinator) = produce_historical(&chain, 100, 102);
    assert_eq!(payloads.len(), 2);
    let numbers: Vec<u64> = payloads
        .iter()
        .map(|p| decode_block_message(p).expect("published payloads parse").block.number)
        .collect();
    assert_eq!(numbers, vec![100, 101]);
    assert_eq!(coordinator.phase, BackfillPhase::Exhausted);
    assert!(coordinator.phase != BackfillPhase::Aborted);
}

#[test]
fn historical_task_with_explicit_bound_stops_at_it() {
    let chain = chain_with_tip(10);
    let (payloads, coordinator) = produce_historical(&chain, 3, 6);
    let numbers: Vec<u64> = payloads
        .iter()
        .map(|p| decode_block_message(p).unwrap().block.number)
        .collect();
    assert_eq!(numbers, vec![3, 4, 5, 6]);
    assert_eq!(coordinator.phase, BackfillPhase::Exhausted);
    // strictly increasing, no gaps
    for w in numbers.windows(2) {
        assert_eq!(w[1], w[0] + 1);
    }
}

#[test]
fn historical_task_with_empty_range_publishes_nothing() {
    let chain = chain_with_tip(10);
    let (payloads, coordinator) = produce_historical(&chain, 7, 3);
    assert!(payloads.is_empty());
    assert_eq!(coordinator.phase, BackfillPhase::Exhausted);
}

#[test]
fn backfill_retry_budget_exhaustion_aborts() {
    let mut c = BackfillCoordinator::new(5, Some(9), 2);
    c.on_started();
    c.on_transient_error();
    assert_eq!(c.phase, BackfillPhase::Fetching);
    c.on_transient_error();
    assert_eq!(c.phase, BackfillPhase::Fetching);
    c.on_transient_error();
    assert_eq!(c.phase, BackfillPhase::Aborted);
    assert_eq!(c.next_block, 5);
}

#[test]
fn backfill_cancellation_between_publishes() {
    let mut c = BackfillCoordinator::new(0, None, 0);
    c.on_started();
    c.on_block_fetched();
    c.on_published();
    c.cancel();
    assert_eq!(c.phase, BackfillPhase::Cancelled);
    assert_eq!(c.next_block, 1);
}

#[test]
fn catch_up_publishes_the_gap_in_order() {
    // watermark N = 3, tip N + 5 = 8
    let chain = chain_with_tip(8);
    let mut sub = Subscriber::new(Some(3));
    let payloads = catch_up(&mut sub, &chain);
    assert_eq!(payloads.len(), 5);
    for (i, p) in payloads.iter().enumerate() {
        let m = decode_block_message(p).expect("catch-up payloads parse");
        assert_eq!(m.block.number, 4 + i as u64);
    }
    assert_eq!(sub.last_delivered, Some(8));
}

#[test]
fn catch_up_with_nothing_owed_publishes_nothing() {
    let chain = chain_with_tip(8);
    let mut ahead = Subscriber::new(Some(8));
    assert!(catch_up(&mut ahead, &chain).is_empty());
    assert_eq!(ahead.last_delivered, Some(8));
    let mut fresh = Subscriber::new(None);
    assert!(catch_up(&mut fresh, &chain).is_empty());
    assert_eq!(fresh.last_delivered, None);
}

#[test]
fn realtime_run_skips_stale_blocks_and_closes_gaps() {
    let chain = chain_with_tip(8);
    let events = vec![
        StreamEvent::Block(block(4, vec![])),
        // a redelivered lower block is not published again
        StreamEvent::Block(block(3, vec![])),
        // the stream drops; on reconnect the task catches up 5..=8
        StreamEvent::Dropped,
    ];
    let (payloads, sub) = produce_realtime(&chain, &events, Some(3));
    let numbers: Vec<u64> = payloads
        .iter()
        .map(|p| decode_block_message(p).unwrap().block.number)
        .collect();
    assert_eq!(numbers, vec![4, 5, 6, 7, 8]);
    for w in numbers.windows(2) {
        assert!(w[0] < w[1]);
    }
    assert_eq!(sub.last_delivered, Some(8));
}

#[test]
fn persisting_the_same_message_twice_keeps_one_row() {
    // a message for block 50, delivered twice
    let b = block(50, vec![tx(50, "0xt50", Some("0xdead"))]);
    let payload = encode_block_message("mainnet", &b);
    let consumer = EVMConsumer::new("t".to_string(), "t-subscription".to_string());
    let mut store = RowStore::new();
    let first = consumer.handle_message(&mut store, &payload);
    assert_eq!(first, HandleOutcome::Inserted);
    let second = consumer.handle_message(&mut store, &payload);
    assert_eq!(second, HandleOutcome::Duplicate);
    assert_eq!(store.blocks.len(), 1);
    assert_eq!(store.transactions.len(), 1);
    assert_eq!(store.blocks[0].chain_name, "mainnet");
    assert_eq!(store.blocks[0].block_number, 50);
    assert_eq!(store.transactions[0].tx_hash, "0xt50");
}

#[test]
fn poison_message_is_skipped_and_does_not_block_the_next() {
    let consumer = EVMConsumer::new("t".to_string(), "t-subscription".to_string());
    let mut store = RowStore::new();
    let good = encode_block_message("mainnet", &block(7, vec![tx(7, "0xt7", None)]));
    let payloads = vec!["not json at all".to_string(), good];
    let outcomes = consumer.postgres_consume(&mut store, &payloads);
    assert_eq!(outcomes.len(), 2);
    assert_eq!(outcomes[0], HandleOutcome::Poison);
    assert_eq!(outcomes[1], HandleOutcome::Inserted);
    assert_eq!(store.blocks.len(), 1);
    assert_eq!(store.blocks[0].block_number, 7);
}

#[test]
fn pipeline_end_to_end_is_exactly_once() {
    // backfill a range, deliver every payload twice, and expect one row
    // per block and per transaction
    let chain = chain_with_tip(5);
    let (payloads, _) = produce_historical(&chain, 2, 4);
    let mut redelivered = payloads.clone();
    redelivered.extend(payloads.clone());
    let consumer = EVMConsumer::new("t".to_string(), "t-subscription".to_string());
    let mut store = RowStore::new();
    let outcomes = consumer.postgres_consume(&mut store, &redelivered);
    assert_eq!(outcomes.len(), 6);
    assert_eq!(store.blocks.len(), 3);
    assert_eq!(store.transactions.len(), 3);
    for o in &outcomes[3..] {
        assert_eq!(*o, HandleOutcome::Duplicate);
    }
}

#[test]
fn topics_are_scoped_by_chain_schema_and_mode() {
    assert_eq!(
        topic_for("mainnet", "blocks"),
        "persistent://public/default/mainnet-blocks"
    );
    assert_eq!(
        historical_topic_for("mainnet", "blocks"),
        "persistent://public/default/mainnet-blocks-historical"
    );
    assert_eq!(
        subscription_for("persistent://public/default/mainnet-blocks"),
        "persistent://public/default/mainnet-blocks-subscription"
    );
}

#[test]
fn startup_plan_covers_every_schema_topic_and_mode() {
    let cfg = ConfigToml {
        blockchains: vec![
            ChainEntry {
                name: "mainnet".to_string(),
                config: BlockchainConfig {
                    adapter_type: "EVM".to_string(),
                    schemas: vec!["blocks".to_string(), "traces".to_string()],
                    http_url: "HTTP_MAINNET".to_string(),
                    ws_url: "WS_MAINNET".to_string(),
                    start_block: Some(100),
                    end_block: Some(200),
                },
            },
            ChainEntry {
                name: "unknown".to_string(),
                config: BlockchainConfig {
                    adapter_type: "UTXO".to_string(),
                    schemas: vec!["blocks".to_string()],
                    http_url: "H".to_string(),
                    ws_url: "W".to_string(),
                    start_block: None,
                    end_block: None,
                },
            },
        ],
    };
    let plan = plan_ingestion(&cfg);
    // the unknown adapter chain is skipped entirely
    assert_eq!(plan.realtime.len(), 2);
    assert_eq!(plan.historical.len(), 2);
    assert_eq!(plan.consumers.len(), 4);
    assert_eq!(plan.realtime[0].topic, "persistent://public/default/mainnet-blocks");
    assert_eq!(plan.realtime[1].topic, "persistent://public/default/mainnet-traces");
    assert_eq!(
        plan.historical[0].topic,
        "persistent://public/default/mainnet-blocks-historical"
    );
    assert_eq!(plan.historical[0].start_block, 100);
    assert_eq!(plan.historical[0].end_block, 200);
    assert_eq!(plan.consumers[0].topic, "persistent://public/default/mainnet-blocks");
    assert_eq!(
        plan.consumers[0].subscription,
        "persistent://public/default/mainnet-blocks-subscription"
    );
    assert_eq!(
        plan.consumers[1].topic,
        "persistent://public/default/mainnet-blocks-historical"
    );
}

#[test]
fn open_ended_backfill_plan_uses_the_open_bound() {
    let cfg = ConfigToml {
        blockchains: vec![ChainEntry {
            name: "devnet".to_string(),
            config: BlockchainConfig {
                adapter_type: "EVM".to_string(),
                schemas: vec!["blocks".to_string()],
                http_url: "H".to_string(),
                ws_url: "W".to_string(),
                start_block: Some(0),
                end_block: None,
            },
        }],
    };
    let plan = plan_ingestion(&cfg);
    assert_eq!(plan.historical.len(), 1);
    assert_eq!(plan.historical[0].end_block, u64::MAX);
}

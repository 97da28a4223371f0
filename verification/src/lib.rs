//! Verified core of a blockchain ingestion pipeline.
//!
//! The pipeline fetches append-only block data from independent chains,
//! publishes one message per observed block onto a channel topic scoped by
//! chain and schema, and persists each message as idempotent rows. This
//! crate holds the part worth proving: the data model, the JSON wire codec,
//! the backfill and realtime state machines, the persister that turns
//! at-least-once delivery into exactly-once storage, and the startup
//! planning that decides which tasks run against which topics. The
//! unverifiable edges (RPC transport, broker client, relational engine)
//! live outside and only hand plain values in and out.

use vstd::prelude::*;
use vstd::string::StrSliceExecFns;
use vstd::string::StringExecFns;

pub mod backfill;
pub mod block;
pub mod chain;
pub mod codec;
pub mod persister;
pub mod producer;
pub mod realtime;

verus! {

/// Configuration of one chain: which adapter speaks to it, which schemas it
/// feeds, where its node endpoints are found, and an optional historical
/// range.
pub struct BlockchainConfig {
    pub adapter_type: String,
    pub schemas: Vec<String>,
    pub http_url: String,
    pub ws_url: String,
    pub start_block: Option<u64>,
    pub end_block: Option<u64>,
}

/// Mathematical image of a `BlockchainConfig`.
#[verifier::ext_equal]
pub ghost struct BlockchainConfigV {
    pub adapter_type: Seq<char>,
    pub schemas: Seq<Seq<char>>,
    pub http_url: Seq<char>,
    pub ws_url: Seq<char>,
    pub start_block: Option<u64>,
    pub end_block: Option<u64>,
}

impl View for BlockchainConfig {
    type V = BlockchainConfigV;

    open spec fn view(&self) -> BlockchainConfigV {
        BlockchainConfigV {
            adapter_type: self.adapter_type@,
            schemas: self.schemas.deep_view(),
            http_url: self.http_url@,
            ws_url: self.ws_url@,
            start_block: self.start_block,
            end_block: self.end_block,
        }
    }
}

impl DeepView for BlockchainConfig {
    type V = BlockchainConfigV;

    open spec fn deep_view(&self) -> BlockchainConfigV {
        self.view()
    }
}

/// One named chain entry of the configuration file.
pub struct ChainEntry {
    pub name: String,
    pub config: BlockchainConfig,
}

/// Mathematical image of a `ChainEntry`.
#[verifier::ext_equal]
pub ghost struct ChainEntryV {
    pub name: Seq<char>,
    pub config: BlockchainConfigV,
}

impl View for ChainEntry {
    type V = ChainEntryV;

    open spec fn view(&self) -> ChainEntryV {
        ChainEntryV { name: self.name@, config: self.config@ }
    }
}

impl DeepView for ChainEntry {
    type V = ChainEntryV;

    open spec fn deep_view(&self) -> ChainEntryV {
        self.view()
    }
}

/// The whole configuration: every chain the process ingests.
pub struct ConfigToml {
    pub blockchains: Vec<ChainEntry>,
}

impl View for ConfigToml {
    type V = Seq<ChainEntryV>;

    open spec fn view(&self) -> Seq<ChainEntryV> {
        self.blockchains.deep_view()
    }
}

// ------------------------------------------------------------------
// Topic naming
// ------------------------------------------------------------------

/// The realtime topic of one `(chain, schema)` pair.
pub open spec fn topic_name(chain: Seq<char>, schema: Seq<char>) -> Seq<char> {
    "persistent://public/default/"@ + chain + "-"@ + schema
}

/// The backfill topic: a distinct lineage, so the two can be scaled,
/// paused or replayed independently.
pub open spec fn historical_topic_name(chain: Seq<char>, schema: Seq<char>) -> Seq<char> {
    topic_name(chain, schema) + "-historical"@
}

/// The subscription one consumer holds on a topic.
pub open spec fn subscription_name(topic: Seq<char>) -> Seq<char> {
    topic + "-subscription"@
}

pub fn topic_for(chain_name: &str, schema: &str) -> (t: String)
    ensures
        t@ == topic_name(chain_name@, schema@),
{
    let mut t = String::from_str("persistent://public/default/");
    t.append(chain_name);
    t.append("-");
    t.append(schema);
    t
}

pub fn historical_topic_for(chain_name: &str, schema: &str) -> (t: String)
    ensures
        t@ == historical_topic_name(chain_name@, schema@),
{
    let mut t = topic_for(chain_name, schema);
    t.append("-historical");
    t
}

pub fn subscription_for(topic: &str) -> (s: String)
    ensures
        s@ == subscription_name(topic@),
{
    let mut s = String::from_str(topic);
    s.append("-subscription");
    s
}

// ------------------------------------------------------------------
// Startup planning
// ------------------------------------------------------------------

/// One bounded backfill task of the plan.
pub struct HistoricalTask {
    pub chain_name: String,
    pub schema: String,
    pub topic: String,
    pub start_block: u64,
    pub end_block: u64,
}

/// Mathematical image of a `HistoricalTask`.
#[verifier::ext_equal]
pub ghost struct HistoricalTaskV {
    pub chain_name: Seq<char>,
    pub schema: Seq<char>,
    pub topic: Seq<char>,
    pub start_block: u64,
    pub end_block: u64,
}

impl View for HistoricalTask {
    type V = HistoricalTaskV;

    open spec fn view(&self) -> HistoricalTaskV {
        HistoricalTaskV {
            chain_name: self.chain_name@,
            schema: self.schema@,
            topic: self.topic@,
            start_block: self.start_block,
            end_block: self.end_block,
        }
    }
}

impl DeepView for HistoricalTask {
    type V = HistoricalTaskV;

    open spec fn deep_view(&self) -> HistoricalTaskV {
        self.view()
    }
}

/// One long-lived realtime task of the plan.
pub struct RealtimeTask {
    pub chain_name: String,
    pub schema: String,
    pub topic: String,
}

/// Mathematical image of a `RealtimeTask`.
#[verifier::ext_equal]
pub ghost struct RealtimeTaskV {
    pub chain_name: Seq<char>,
    pub schema: Seq<char>,
    pub topic: Seq<char>,
}

impl View for RealtimeTask {
    type V = RealtimeTaskV;

    open spec fn view(&self) -> RealtimeTaskV {
        RealtimeTaskV { chain_name: self.chain_name@, schema: self.schema@, topic: self.topic@ }
    }
}

impl DeepView for RealtimeTask {
    type V = RealtimeTaskV;

    open spec fn deep_view(&self) -> RealtimeTaskV {
        self.view()
    }
}

/// One consumer of the plan: a topic and its subscription.
pub struct ConsumerTask {
    pub chain_name: String,
    pub topic: String,
    pub subscription: String,
}

/// Mathematical image of a `ConsumerTask`.
#[verifier::ext_equal]
pub ghost struct ConsumerTaskV {
    pub chain_name: Seq<char>,
    pub topic: Seq<char>,
    pub subscription: Seq<char>,
}

impl View for ConsumerTask {
    type V = ConsumerTaskV;

    open spec fn view(&self) -> ConsumerTaskV {
        ConsumerTaskV {
            chain_name: self.chain_name@,
            topic: self.topic@,
            subscription: self.subscription@,
        }
    }
}

impl DeepView for ConsumerTask {
    type V = ConsumerTaskV;

    open spec fn deep_view(&self) -> ConsumerTaskV {
        self.view()
    }
}

/// Everything startup decides: which producers to run against which
/// topics, and one consumer per topic.
pub struct IngestionPlan {
    pub historical: Vec<HistoricalTask>,
    pub realtime: Vec<RealtimeTask>,
    pub consumers: Vec<ConsumerTask>,
}

/// Only chains with a known adapter type take part; the rest are skipped.
pub open spec fn is_evm(c: ChainEntryV) -> bool {
    c.config.adapter_type == "EVM"@
}

/// The backfill tasks one chain contributes: one per schema when a start
/// block is configured, bounded above by the configured end block or open.
pub open spec fn chain_historical(c: ChainEntryV) -> Seq<HistoricalTaskV> {
    if !is_evm(c) || c.config.start_block is None {
        Seq::empty()
    } else {
        Seq::new(
            c.config.schemas.len(),
            |i: int| HistoricalTaskV {
                chain_name: c.name,
                schema: c.config.schemas[i],
                topic: historical_topic_name(c.name, c.config.schemas[i]),
                start_block: c.config.start_block.unwrap(),
                end_block: match c.config.end_block {
                    Option::Some(e) => e,
                    Option::None => crate::backfill::END_BLOCK_OPEN,
                },
            },
        )
    }
}

/// The realtime tasks one chain contributes: one per schema.
pub open spec fn chain_realtime(c: ChainEntryV) -> Seq<RealtimeTaskV> {
    if !is_evm(c) {
        Seq::empty()
    } else {
        Seq::new(
            c.config.schemas.len(),
            |i: int| RealtimeTaskV {
                chain_name: c.name,
                schema: c.config.schemas[i],
                topic: topic_name(c.name, c.config.schemas[i]),
            },
        )
    }
}

/// One consumer for a topic.
pub open spec fn consumer_of(chain: Seq<char>, topic: Seq<char>) -> ConsumerTaskV {
    ConsumerTaskV { chain_name: chain, topic: topic, subscription: subscription_name(topic) }
}

/// The consumers one chain contributes, in schema order: the realtime
/// topic of each schema, then — for a chain with a backfill — its
/// historical topic.
pub open spec fn chain_consumers_of_schemas(
    name: Seq<char>,
    schemas: Seq<Seq<char>>,
    historical: bool,
) -> Seq<ConsumerTaskV>
    decreases schemas.len(),
{
    if schemas.len() == 0 {
        Seq::empty()
    } else {
        let head = if historical {
            seq![
                consumer_of(name, topic_name(name, schemas[0])),
                consumer_of(name, historical_topic_name(name, schemas[0])),
            ]
        } else {
            seq![consumer_of(name, topic_name(name, schemas[0]))]
        };
        head + chain_consumers_of_schemas(name, schemas.skip(1), historical)
    }
}

pub open spec fn chain_consumers(c: ChainEntryV) -> Seq<ConsumerTaskV> {
    if !is_evm(c) {
        Seq::empty()
    } else {
        chain_consumers_of_schemas(c.name, c.config.schemas, c.config.start_block is Some)
    }
}

/// The whole plan over all configured chains, in file order.
pub open spec fn plan_historical(chains: Seq<ChainEntryV>) -> Seq<HistoricalTaskV>
    decreases chains.len(),
{
    if chains.len() == 0 {
        Seq::empty()
    } else {
        chain_historical(chains[0]) + plan_historical(chains.skip(1))
    }
}

pub open spec fn plan_realtime(chains: Seq<ChainEntryV>) -> Seq<RealtimeTaskV>
    decreases chains.len(),
{
    if chains.len() == 0 {
        Seq::empty()
    } else {
        chain_realtime(chains[0]) + plan_realtime(chains.skip(1))
    }
}

pub open spec fn plan_consumers(chains: Seq<ChainEntryV>) -> Seq<ConsumerTaskV>
    decreases chains.len(),
{
    if chains.len() == 0 {
        Seq::empty()
    } else {
        chain_consumers(chains[0]) + plan_consumers(chains.skip(1))
    }
}

/// What a whole configuration plans.
pub open spec fn plan_of(chains: Seq<ChainEntryV>) -> (
    Seq<HistoricalTaskV>,
    Seq<RealtimeTaskV>,
    Seq<ConsumerTaskV>,
) {
    (plan_historical(chains), plan_realtime(chains), plan_consumers(chains))
}

/// Plans the tasks of one chain entry, appending to the plan so far. A
/// chain whose adapter type is unknown contributes nothing and is skipped,
/// as at startup.
fn plan_chain(entry: &ChainEntry, plan: &mut IngestionPlan)
    ensures
        final(plan).historical.deep_view() == old(plan).historical.deep_view() + chain_historical(
            entry@,
        ),
        final(plan).realtime.deep_view() == old(plan).realtime.deep_view() + chain_realtime(
            entry@,
        ),
        final(plan).consumers.deep_view() == old(plan).consumers.deep_view() + chain_consumers(
            entry@,
        ),
{
    let evm = entry.config.adapter_type == String::from_str("EVM");
    if !evm {
        proof {
            assert(plan.historical.deep_view() =~= plan.historical.deep_view() + chain_historical(
                entry@,
            ));
            assert(plan.realtime.deep_view() =~= plan.realtime.deep_view() + chain_realtime(
                entry@,
            ));
            assert(plan.consumers.deep_view() =~= plan.consumers.deep_view() + chain_consumers(
                entry@,
            ));
        }
        return ;
    }
    let historical = entry.config.start_block.is_some();
    let start_block = match entry.config.start_block {
        Some(s) => s,
        None => 0,
    };
    let end_block = match entry.config.end_block {
        Some(e) => e,
        None => crate::backfill::END_BLOCK_OPEN,
    };
    let ghost schemas = entry.config@.schemas;
    let ghost ch = chain_historical(entry@);
    let ghost cr = chain_realtime(entry@);
    let ghost cc = chain_consumers_of_schemas(entry@.name, schemas, historical);
    let mut i: usize = 0;
    proof {
        assert(schemas.skip(0) =~= schemas);
        assert(plan.historical.deep_view() + ch.take(0) =~= plan.historical.deep_view());
        assert(plan.realtime.deep_view() + cr.take(0) =~= plan.realtime.deep_view());
    }
    while i < entry.config.schemas.len()
        invariant
            0 <= i <= entry.config.schemas@.len(),
            schemas == entry.config@.schemas,
            schemas.len() == entry.config.schemas@.len(),
            is_evm(entry@),
            historical == (entry.config@.start_block is Some),
            historical ==> start_block == entry.config@.start_block.unwrap(),
            end_block == (match entry.config@.end_block {
                Option::Some(e) => e,
                Option::None => crate::backfill::END_BLOCK_OPEN,
            }),
            ch == chain_historical(entry@),
            cr == chain_realtime(entry@),
            cc == chain_consumers_of_schemas(entry@.name, schemas, historical),
            historical ==> ch.len() == schemas.len(),
            !historical ==> ch.len() == 0,
            cr.len() == schemas.len(),
            plan.historical.deep_view() == old(plan).historical.deep_view() + (if historical {
                ch.take(i as int)
            } else {
                Seq::<HistoricalTaskV>::empty()
            }),
            plan.realtime.deep_view() == old(plan).realtime.deep_view() + cr.take(i as int),
            old(plan).consumers.deep_view() + cc == plan.consumers.deep_view()
                + chain_consumers_of_schemas(entry@.name, schemas.skip(i as int), historical),
        decreases entry.config.schemas@.len() - i,
    {
        proof {
            assert(schemas.skip(i as int)[0] == schemas[i as int]);
            assert(schemas.skip(i as int).skip(1) =~= schemas.skip(i as int + 1));
            assert(entry.config.schemas@[i as int]@ == schemas[i as int]);
        }
        let schema = &entry.config.schemas[i];
        let topic = topic_for(entry.name.as_str(), schema.as_str());
        let subscription = subscription_for(topic.as_str());
        let ghost prev_rt = plan.realtime.deep_view();
        let ghost prev_co = plan.consumers.deep_view();
        plan.realtime.push(
            RealtimeTask {
                chain_name: entry.name.clone(),
                schema: schema.clone(),
                topic: topic.clone(),
            },
        );
        plan.consumers.push(
            ConsumerTask { chain_name: entry.name.clone(), topic, subscription },
        );
        proof {
            assert(plan.realtime.deep_view() =~= prev_rt.push(cr[i as int]));
            assert(cr.take(i as int + 1) =~= cr.take(i as int).push(cr[i as int]));
            assert(plan.consumers.deep_view() =~= prev_co.push(
                consumer_of(entry@.name, topic_name(entry@.name, schemas[i as int])),
            ));
        }
        if historical {
            let htopic = historical_topic_for(entry.name.as_str(), schema.as_str());
            let hsubscription = subscription_for(htopic.as_str());
            let ghost prev_h = plan.historical.deep_view();
            let ghost prev_co2 = plan.consumers.deep_view();
            plan.historical.push(
                HistoricalTask {
                    chain_name: entry.name.clone(),
                    schema: schema.clone(),
                    topic: htopic.clone(),
                    start_block,
                    end_block,
                },
            );
            plan.consumers.push(
                ConsumerTask {
                    chain_name: entry.name.clone(),
                    topic: htopic,
                    subscription: hsubscription,
                },
            );
            proof {
                assert(plan.historical.deep_view() =~= prev_h.push(ch[i as int]));
                assert(ch.take(i as int + 1) =~= ch.take(i as int).push(ch[i as int]));
                assert(plan.consumers.deep_view() =~= prev_co2.push(
                    consumer_of(entry@.name, historical_topic_name(entry@.name, schemas[i as int])),
                ));
                assert(prev_co + seq![
                    consumer_of(entry@.name, topic_name(entry@.name, schemas[i as int])),
                    consumer_of(entry@.name, historical_topic_name(entry@.name, schemas[i as int])),
                ] =~= plan.consumers.deep_view());
                assert((prev_co + seq![
                    consumer_of(entry@.name, topic_name(entry@.name, schemas[i as int])),
                    consumer_of(entry@.name, historical_topic_name(entry@.name, schemas[i as int])),
                ]) + chain_consumers_of_schemas(
                    entry@.name,
                    schemas.skip(i as int + 1),
                    historical,
                ) =~= prev_co + (seq![
                    consumer_of(entry@.name, topic_name(entry@.name, schemas[i as int])),
                    consumer_of(entry@.name, historical_topic_name(entry@.name, schemas[i as int])),
                ] + chain_consumers_of_schemas(
                    entry@.name,
                    schemas.skip(i as int + 1),
                    historical,
                )));
            }
        } else {
            proof {
                assert(prev_co + seq![
                    consumer_of(entry@.name, topic_name(entry@.name, schemas[i as int])),
                ] =~= plan.consumers.deep_view());
                assert((prev_co + seq![
                    consumer_of(entry@.name, topic_name(entry@.name, schemas[i as int])),
                ]) + chain_consumers_of_schemas(
                    entry@.name,
                    schemas.skip(i as int + 1),
                    historical,
                ) =~= prev_co + (seq![
                    consumer_of(entry@.name, topic_name(entry@.name, schemas[i as int])),
                ] + chain_consumers_of_schemas(
                    entry@.name,
                    schemas.skip(i as int + 1),
                    historical,
                )));
            }
        }
        i = i + 1;
    }
    proof {
        assert(schemas.skip(schemas.len() as int) =~= Seq::<Seq<char>>::empty());
        assert(plan.consumers.deep_view() + Seq::<ConsumerTaskV>::empty()
            =~= plan.consumers.deep_view());
        if historical {
            assert(ch.take(schemas.len() as int) =~= ch);
        } else {
            assert(plan.historical.deep_view() =~= old(plan).historical.deep_view()
                + chain_historical(entry@));
        }
        assert(cr.take(schemas.len() as int) =~= cr);
        assert(chain_consumers(entry@) == cc);
    }
}

/// Turns the configuration into the startup plan: for every chain with a
/// known adapter and every schema, one realtime task on its topic, one
/// backfill task on the `-historical` topic when a start block is given,
/// and one consumer with its own subscription per topic.
pub fn plan_ingestion(cfg: &ConfigToml) -> (plan: IngestionPlan)
    ensures
        plan.historical.deep_view() == plan_historical(cfg@),
        plan.realtime.deep_view() == plan_realtime(cfg@),
        plan.consumers.deep_view() == plan_consumers(cfg@),
{
    let mut plan = IngestionPlan {
        historical: Vec::new(),
        realtime: Vec::new(),
        consumers: Vec::new(),
    };
    let ghost chains = cfg@;
    let mut i: usize = 0;
    proof {
        assert(chains.skip(0) =~= chains);
        assert(plan.historical.deep_view() =~= Seq::<HistoricalTaskV>::empty());
        assert(plan.realtime.deep_view() =~= Seq::<RealtimeTaskV>::empty());
        assert(plan.consumers.deep_view() =~= Seq::<ConsumerTaskV>::empty());
    }
    while i < cfg.blockchains.len()
        invariant
            0 <= i <= cfg.blockchains@.len(),
            chains == cfg@,
            chains.len() == cfg.blockchains@.len(),
            plan_historical(chains) == plan.historical.deep_view() + plan_historical(
                chains.skip(i as int),
            ),
            plan_realtime(chains) == plan.realtime.deep_view() + plan_realtime(
                chains.skip(i as int),
            ),
            plan_consumers(chains) == plan.consumers.deep_view() + plan_consumers(
                chains.skip(i as int),
            ),
        decreases cfg.blockchains@.len() - i,
    {
        proof {
            assert(chains.skip(i as int)[0] == chains[i as int]);
            assert(chains.skip(i as int).skip(1) =~= chains.skip(i as int + 1));
            assert(cfg.blockchains@[i as int]@ == chains[i as int]);
        }
        let ghost ph = plan.historical.deep_view();
        let ghost pr = plan.realtime.deep_view();
        let ghost pc = plan.consumers.deep_view();
        plan_chain(&cfg.blockchains[i], &mut plan);
        proof {
            assert((ph + chain_historical(chains[i as int])) + plan_historical(
                chains.skip(i as int + 1),
            ) =~= ph + (chain_historical(chains[i as int]) + plan_historical(
                chains.skip(i as int + 1),
            )));
            assert((pr + chain_realtime(chains[i as int])) + plan_realtime(
                chains.skip(i as int + 1),
            ) =~= pr + (chain_realtime(chains[i as int]) + plan_realtime(
                chains.skip(i as int + 1),
            )));
            assert((pc + chain_consumers(chains[i as int])) + plan_consumers(
                chains.skip(i as int + 1),
            ) =~= pc + (chain_consumers(chains[i as int]) + plan_consumers(
                chains.skip(i as int + 1),
            )));
        }
        i = i + 1;
    }
    proof {
        assert(chains.skip(chains.len() as int) =~= Seq::<ChainEntryV>::empty());
        assert(plan.historical.deep_view() + Seq::<HistoricalTaskV>::empty()
            =~= plan.historical.deep_view());
        assert(plan.realtime.deep_view() + Seq::<RealtimeTaskV>::empty()
            =~= plan.realtime.deep_view());
        assert(plan.consumers.deep_view() + Seq::<ConsumerTaskV>::empty()
            =~= plan.consumers.deep_view());
    }
    plan
}

} // verus!

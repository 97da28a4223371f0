//! The two producer runs: historical range replay and realtime
//! forwarding. Both turn blocks of one chain into wire payloads, in the
//! order the channel must see them; the caller performs the actual sends
//! and hands outcomes back to the state machines.

use vstd::prelude::*;
use crate::backfill::BackfillCoordinator;
use crate::block::Block;
use crate::block::BlockV;
use crate::chain::ChainModel;
use crate::codec::encode_block_message;
use crate::codec::json_of_message;
use crate::realtime::RtEvent;
use crate::realtime::Subscriber;
use crate::realtime::catch_up;
use crate::realtime::catch_up_payloads;
use crate::realtime::publishes_live;
use crate::realtime::watermark_after;

verus! {

/// How many blocks the historical task for `[start, end]` publishes from a
/// chain that has produced `chain_len` blocks: the range is cut off at the
/// tip, where the task exhausts instead of waiting.
pub open spec fn hist_count(chain_len: nat, start: u64, end: u64) -> nat {
    if start > end || (start as nat) >= chain_len {
        0
    } else if (end as nat) <= chain_len - 1 {
        (end - start + 1) as nat
    } else {
        (chain_len - start as nat) as nat
    }
}

/// The payloads the historical task publishes, in publish order: one
/// message per block of the range, ascending, gap-free.
pub open spec fn historical_payloads(
    chain: Seq<BlockV>,
    name: Seq<char>,
    start: u64,
    end: u64,
) -> Seq<Seq<char>> {
    Seq::new(hist_count(chain.len(), start, end), |i: int| json_of_message(name, chain[start + i]))
}

/// Replays the block range `[start_block, end_block]` of `chain` into wire
/// payloads. Publishes exactly the blocks of the range the chain has
/// produced, in ascending order with no gaps, and ends exhausted — never
/// aborted — whether the range was completed or the tip was reached.
pub fn produce_historical(chain: &ChainModel, start_block: u64, end_block: u64) -> (r: (
    Vec<String>,
    BackfillCoordinator,
))
    requires
        chain.wf(),
    ensures
        r.0.deep_view() == historical_payloads(chain@, chain.chain_name@, start_block, end_block),
        r.1.phase is Exhausted,
        r.1.start_block == start_block,
        r.1.end_block == end_block,
{
    let mut c = BackfillCoordinator::new(start_block, Some(end_block), 0);
    let mut payloads: Vec<String> = Vec::new();
    let ghost target = historical_payloads(chain@, chain.chain_name@, start_block, end_block);
    if start_block > end_block {
        proof {
            assert(payloads.deep_view() =~= target);
        }
        return (payloads, c);
    }
    c.on_started();
    proof {
        assert(payloads.deep_view() =~= target.take(0));
    }
    while !c.is_done()
        invariant
            chain.wf(),
            c.wf(),
            c.start_block == start_block,
            c.end_block == end_block,
            start_block <= end_block,
            target == historical_payloads(chain@, chain.chain_name@, start_block, end_block),
            c.phase is Fetching || c.phase is Exhausted,
            c.phase is Fetching ==> {
                &&& start_block <= c.next_block <= end_block
                &&& (c.next_block == start_block || (c.next_block as nat) <= chain@.len())
                &&& ((c.next_block - start_block) as nat) <= target.len()
                &&& payloads.deep_view() == target.take((c.next_block - start_block) as int)
            },
            c.phase is Exhausted ==> payloads.deep_view() == target,
        decreases end_block - c.next_block + (if c.phase is Fetching {
            1int
        } else {
            0int
        }),
    {
        let n = c.fetch_target();
        match chain.get_block_by_number(n) {
            Some(b) => {
                c.on_block_fetched();
                let p = encode_block_message(chain.chain_name.as_str(), b);
                let ghost prev = payloads.deep_view();
                let ghost k = (n - start_block) as int;
                payloads.push(p);
                proof {
                    assert((n as nat) < chain@.len());
                    assert(k < target.len()) by {
                        assert(hist_count(chain@.len(), start_block, end_block) > k);
                    }
                    assert(target[k] == json_of_message(chain.chain_name@, chain@[n as int]));
                    assert(payloads.deep_view() =~= prev.push(p@));
                    assert(target.take(k + 1) =~= target.take(k).push(target[k]));
                    assert(payloads.deep_view() == target.take(k + 1));
                }
                c.on_published();
                proof {
                    if c.phase is Exhausted {
                        assert(n == end_block);
                        assert(target.len() == k + 1);
                        assert(target.take(k + 1) =~= target);
                    }
                }
            },
            None => {
                c.on_block_not_available();
                proof {
                    assert((n as nat) >= chain@.len());
                    assert(target.len() == (n - start_block) as nat);
                    assert(target.take((n - start_block) as int) =~= target);
                }
            },
        }
    }
    (payloads, c)
}

/// One element of a live subscription as the runner sees it: a pushed
/// block, or the stream breaking off.
pub enum StreamEvent {
    Block(Block),
    Dropped,
}

/// Mathematical image of a `StreamEvent`.
pub ghost enum StreamEventV {
    Block(BlockV),
    Dropped,
}

impl View for StreamEvent {
    type V = StreamEventV;

    open spec fn view(&self) -> StreamEventV {
        match self {
            StreamEvent::Block(b) => StreamEventV::Block(b@),
            StreamEvent::Dropped => StreamEventV::Dropped,
        }
    }
}

impl DeepView for StreamEvent {
    type V = StreamEventV;

    open spec fn deep_view(&self) -> StreamEventV {
        self.view()
    }
}

/// The watermark after a realtime run over `evs`.
pub open spec fn realtime_watermark(
    chain: Seq<BlockV>,
    w: Option<u64>,
    evs: Seq<StreamEventV>,
) -> Option<u64>
    decreases evs.len(),
{
    if evs.len() == 0 {
        w
    } else {
        let w1 = match evs[0] {
            StreamEventV::Block(b) => watermark_after(w, RtEvent::LiveBlock(b.number)),
            StreamEventV::Dropped => watermark_after(
                w,
                RtEvent::Reconnected((chain.len() - 1) as u64),
            ),
        };
        realtime_watermark(chain, w1, evs.skip(1))
    }
}

/// The payloads a realtime run publishes: each live block above the
/// watermark, and after every drop the whole catch-up range before the
/// stream resumes.
pub open spec fn realtime_payloads(
    chain: Seq<BlockV>,
    name: Seq<char>,
    w: Option<u64>,
    evs: Seq<StreamEventV>,
) -> Seq<Seq<char>>
    decreases evs.len(),
{
    if evs.len() == 0 {
        Seq::empty()
    } else {
        match evs[0] {
            StreamEventV::Block(b) => if publishes_live(w, b.number) {
                seq![json_of_message(name, b)] + realtime_payloads(
                    chain,
                    name,
                    watermark_after(w, RtEvent::LiveBlock(b.number)),
                    evs.skip(1),
                )
            } else {
                realtime_payloads(chain, name, w, evs.skip(1))
            },
            StreamEventV::Dropped => catch_up_payloads(chain, name, w) + realtime_payloads(
                chain,
                name,
                watermark_after(w, RtEvent::Reconnected((chain.len() - 1) as u64)),
                evs.skip(1),
            ),
        }
    }
}

/// Forwards a live subscription: publishes each pushed block that is news,
/// and on every drop catches up from the watermark to the tip before
/// resuming. Returns the payloads in publish order and the finished
/// subscriber state.
#[verifier::rlimit(100)]
pub fn produce_realtime(chain: &ChainModel, events: &Vec<StreamEvent>, watermark: Option<u64>) -> (r: (
    Vec<String>,
    Subscriber,
))
    requires
        chain.wf(),
    ensures
        r.0.deep_view() == realtime_payloads(
            chain@,
            chain.chain_name@,
            watermark,
            events.deep_view(),
        ),
        r.1.last_delivered == realtime_watermark(chain@, watermark, events.deep_view()),
{
    let mut sub = Subscriber::new(watermark);
    let mut payloads: Vec<String> = Vec::new();
    let ghost name = chain.chain_name@;
    let ghost dv = events.deep_view();
    let mut i: usize = 0;
    proof {
        assert(dv.skip(0) =~= dv);
        assert(payloads.deep_view() =~= Seq::<Seq<char>>::empty());
    }
    while i < events.len()
        invariant
            chain.wf(),
            0 <= i <= events@.len(),
            name == chain.chain_name@,
            dv == events.deep_view(),
            dv.len() == events@.len(),
            realtime_payloads(chain@, name, watermark, dv) == payloads.deep_view()
                + realtime_payloads(chain@, name, sub.last_delivered, dv.skip(i as int)),
            realtime_watermark(chain@, watermark, dv) == realtime_watermark(
                chain@,
                sub.last_delivered,
                dv.skip(i as int),
            ),
        decreases events@.len() - i,
    {
        proof {
            assert(dv.skip(i as int)[0] == dv[i as int]);
            assert(dv.skip(i as int).skip(1) =~= dv.skip(i as int + 1));
            assert(dv[i as int] == events@[i as int].deep_view());
        }
        let ghost w_before = sub.last_delivered;
        match &events[i] {
            StreamEvent::Block(b) => {
                let publish = sub.on_live_block(b.number);
                if publish {
                    let p = encode_block_message(chain.chain_name.as_str(), b);
                    let ghost prev = payloads.deep_view();
                    payloads.push(p);
                    proof {
                        assert(payloads.deep_view() =~= prev.push(p@));
                        assert(prev.push(p@) =~= prev + seq![p@]);
                        assert(realtime_payloads(chain@, name, w_before, dv.skip(i as int))
                            =~= seq![json_of_message(name, b@)] + realtime_payloads(
                            chain@,
                            name,
                            sub.last_delivered,
                            dv.skip(i as int + 1),
                        ));
                        assert((prev + seq![p@]) + realtime_payloads(
                            chain@,
                            name,
                            sub.last_delivered,
                            dv.skip(i as int + 1),
                        ) =~= prev + (seq![p@] + realtime_payloads(
                            chain@,
                            name,
                            sub.last_delivered,
                            dv.skip(i as int + 1),
                        )));
                    }
                } else {
                    proof {
                        assert(realtime_payloads(chain@, name, w_before, dv.skip(i as int))
                            == realtime_payloads(
                            chain@,
                            name,
                            sub.last_delivered,
                            dv.skip(i as int + 1),
                        ));
                    }
                }
            },
            StreamEvent::Dropped => {
                let ghost prev = payloads.deep_view();
                let mut more = catch_up(&mut sub, chain);
                let ghost morev = more.deep_view();
                payloads.append(&mut more);
                proof {
                    assert(morev == catch_up_payloads(chain@, name, w_before));
                    assert(payloads.deep_view() =~= prev + morev);
                    assert(realtime_payloads(chain@, name, w_before, dv.skip(i as int))
                        =~= morev + realtime_payloads(
                        chain@,
                        name,
                        sub.last_delivered,
                        dv.skip(i as int + 1),
                    ));
                    assert((prev + morev) + realtime_payloads(
                        chain@,
                        name,
                        sub.last_delivered,
                        dv.skip(i as int + 1),
                    ) =~= prev + (morev + realtime_payloads(
                        chain@,
                        name,
                        sub.last_delivered,
                        dv.skip(i as int + 1),
                    )));
                }
            },
        }
        i = i + 1;
    }
    proof {
        assert(dv.skip(dv.len() as int) =~= Seq::<StreamEventV>::empty());
        assert(payloads.deep_view() + Seq::<Seq<char>>::empty() =~= payloads.deep_view());
    }
    (payloads, sub)
}

} // verus!

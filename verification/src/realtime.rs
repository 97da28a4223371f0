//! Realtime subscriber: forwards new blocks as they are produced and
//! closes the gap a dropped connection leaves behind.
//!
//! The task keeps one watermark, `last_delivered`: the highest block number
//! it has published, or `None` before the first one. A live block is
//! published only when it lies above the watermark, and on every reconnect
//! the blocks between the watermark and the current tip are fetched and
//! published in order before the live stream resumes. The ordering law at
//! the end proves that, whatever the stream and the reconnects do, the
//! numbers the subscriber publishes are strictly increasing.

use vstd::prelude::*;
use vstd::pervasive::unreached;
use crate::block::BlockV;
use crate::chain::ChainModel;
use crate::codec::json_of_message;
use crate::codec::encode_block_message;

verus! {

/// What a realtime task observes: a block pushed by the live stream, or a
/// reconnect that found the chain at the given tip.
#[derive(Clone, Copy, PartialEq, Eq, Structural, Debug)]
pub enum RtEvent {
    LiveBlock(u64),
    Reconnected(u64),
}

/// Whether a live block numbered `n` is published under watermark `w`.
pub open spec fn publishes_live(w: Option<u64>, n: u64) -> bool {
    match w {
        Option::None => true,
        Option::Some(l) => n > l,
    }
}

/// The watermark after one event.
pub open spec fn watermark_after(w: Option<u64>, e: RtEvent) -> Option<u64> {
    match e {
        RtEvent::LiveBlock(n) => if publishes_live(w, n) {
            Option::Some(n)
        } else {
            w
        },
        RtEvent::Reconnected(tip) => match w {
            Option::None => w,
            Option::Some(l) => if tip > l {
                Option::Some(tip)
            } else {
                w
            },
        },
    }
}

/// The block numbers one event makes the subscriber publish, in order: the live
/// block if it is news, or the whole catch-up range after a reconnect.
pub open spec fn rt_emits(w: Option<u64>, e: RtEvent) -> Seq<u64> {
    match e {
        RtEvent::LiveBlock(n) => if publishes_live(w, n) {
            seq![n]
        } else {
            Seq::empty()
        },
        RtEvent::Reconnected(tip) => match w {
            Option::None => Seq::empty(),
            Option::Some(l) => if tip > l {
                Seq::new((tip - l) as nat, |i: int| (l + 1 + i) as u64)
            } else {
                Seq::empty()
            },
        },
    }
}

/// All numbers a run of events makes the subscriber publish, in order.
pub open spec fn rt_published(w: Option<u64>, evs: Seq<RtEvent>) -> Seq<u64>
    decreases evs.len(),
{
    if evs.len() == 0 {
        Seq::empty()
    } else {
        rt_emits(w, evs[0]) + rt_published(watermark_after(w, evs[0]), evs.skip(1))
    }
}

/// Watermark state of one realtime task.
#[derive(Clone, Copy, PartialEq, Eq, Structural, Debug)]
pub struct Subscriber {
    /// Highest block number published so far; `None` before the first.
    pub last_delivered: Option<u64>,
}

impl Subscriber {
    /// A fresh task, either with a caller-supplied watermark or about to
    /// take the first live block as its reference point.
    pub fn new(watermark: Option<u64>) -> (s: Self)
        ensures
            s.last_delivered == watermark,
    {
        Subscriber { last_delivered: watermark }
    }

    /// Decides about one element of the live stream: publish it and move
    /// the watermark when it is above the watermark, skip it otherwise.
    pub fn on_live_block(&mut self, number: u64) -> (publish: bool)
        ensures
            publish == publishes_live(old(self).last_delivered, number),
            final(self).last_delivered == watermark_after(
                old(self).last_delivered,
                RtEvent::LiveBlock(number),
            ),
    {
        let publish = match self.last_delivered {
            None => true,
            Some(l) => number > l,
        };
        if publish {
            self.last_delivered = Some(number);
        }
        publish
    }
}

/// The payloads a reconnect owes: one message per block from the watermark
/// (exclusive) to the tip (inclusive), in ascending order.
pub open spec fn catch_up_payloads(chain: Seq<BlockV>, name: Seq<char>, w: Option<u64>) -> Seq<
    Seq<char>,
> {
    let tip = (chain.len() - 1) as u64;
    match w {
        Option::None => Seq::empty(),
        Option::Some(l) => if l < tip {
            Seq::new((tip - l) as nat, |i: int| json_of_message(name, chain[l + 1 + i]))
        } else {
            Seq::empty()
        },
    }
}

/// After a reconnect: fetch and publish every block between the watermark
/// and the current tip, in order, and only then let the caller resubscribe.
/// The returned payloads are exactly the messages for blocks
/// `last_delivered + 1 ..= tip`.
pub fn catch_up(sub: &mut Subscriber, chain: &ChainModel) -> (payloads: Vec<String>)
    requires
        chain.wf(),
    ensures
        payloads.deep_view() == catch_up_payloads(
            chain@,
            chain.chain_name@,
            old(sub).last_delivered,
        ),
        final(sub).last_delivered == watermark_after(
            old(sub).last_delivered,
            RtEvent::Reconnected(chain.spec_tip()),
        ),
{
    let tip = chain.get_latest_block_number();
    let mut payloads: Vec<String> = Vec::new();
    let l = match sub.last_delivered {
        None => {
            proof {
                assert(payloads.deep_view() =~= Seq::<Seq<char>>::empty());
            }
            return payloads;
        },
        Some(l) => l,
    };
    if l >= tip {
        proof {
            assert(payloads.deep_view() =~= Seq::<Seq<char>>::empty());
        }
        return payloads;
    }
    let count = tip - l;
    let ghost target = catch_up_payloads(chain@, chain.chain_name@, Some(l));
    let mut i: u64 = 0;
    while i < count
        invariant
            0 <= i <= count,
            chain.wf(),
            count == chain.spec_tip() - l,
            l < chain.spec_tip(),
            target == catch_up_payloads(chain@, chain.chain_name@, Option::Some(l)),
            target.len() == count,
            payloads.deep_view() =~= target.take(i as int),
        decreases count - i,
    {
        let n = l + 1 + i;
        let b = match chain.get_block_by_number(n) {
            Some(b) => b,
            None => unreached(),
        };
        let p = encode_block_message(chain.chain_name.as_str(), b);
        let ghost prev = payloads.deep_view();
        payloads.push(p);
        proof {
            assert(target[i as int] == json_of_message(chain.chain_name@, chain@[n as int]));
            assert(p@ == target[i as int]);
            assert(payloads.deep_view() =~= prev.push(p@));
            assert(target.take(i as int + 1) =~= target.take(i as int).push(target[i as int]));
            assert(payloads.deep_view() =~= target.take(i as int + 1));
        }
        i = i + 1;
    }
    sub.last_delivered = Some(tip);
    proof {
        assert(payloads.deep_view() =~= target);
    }
    payloads
}

/// A catch-up emission is strictly increasing and stays above the
/// watermark; the watermark afterwards carries its last element.
proof fn lemma_rt_emits_shape(w: Option<u64>, e: RtEvent)
    ensures
        forall|i: int, j: int|
            0 <= i < j < rt_emits(w, e).len() ==> rt_emits(w, e)[i] < rt_emits(w, e)[j],
        w is Some ==> forall|i: int|
            0 <= i < rt_emits(w, e).len() ==> rt_emits(w, e)[i] > w.unwrap(),
        rt_emits(w, e).len() > 0 ==> watermark_after(w, e) == Option::Some(
            rt_emits(w, e).last(),
        ),
        rt_emits(w, e).len() == 0 ==> watermark_after(w, e) == w,
{
}

/// Ordering law of the realtime path: across live delivery, drops and
/// catch-ups alike, the block numbers a single task publishes are strictly
/// increasing, and all of them lie above the starting watermark.
pub proof fn lemma_realtime_order(w: Option<u64>, evs: Seq<RtEvent>)
    ensures
        forall|i: int, j: int|
            0 <= i < j < rt_published(w, evs).len() ==> #[trigger] rt_published(w, evs)[i]
                < #[trigger] rt_published(w, evs)[j],
        w is Some ==> forall|i: int|
            0 <= i < rt_published(w, evs).len() ==> #[trigger] rt_published(w, evs)[i]
                > w.unwrap(),
    decreases evs.len(),
{
    if evs.len() > 0 {
        let e = evs[0];
        let b = rt_emits(w, e);
        let w1 = watermark_after(w, e);
        let p1 = rt_published(w1, evs.skip(1));
        let p = rt_published(w, evs);
        lemma_rt_emits_shape(w, e);
        lemma_realtime_order(w1, evs.skip(1));
        assert(p =~= b + p1);
        if b.len() > 0 {
            assert(w1 == Option::Some(b.last()));
            assert forall|i: int, j: int| 0 <= i < j < p.len() implies p[i] < p[j] by {
                if j >= b.len() {
                    assert(p[j] == p1[j - b.len()]);
                    assert(p1[j - b.len()] > b.last());
                    if i < b.len() {
                        assert(p[i] == b[i]);
                        assert(b[i] <= b.last());
                    } else {
                        assert(p[i] == p1[i - b.len()]);
                    }
                } else {
                    assert(p[i] == b[i] && p[j] == b[j]);
                }
            }
            if w is Some {
                assert forall|i: int| 0 <= i < p.len() implies p[i] > w.unwrap() by {
                    if i < b.len() {
                        assert(p[i] == b[i]);
                    } else {
                        assert(p[i] == p1[i - b.len()]);
                        assert(p1[i - b.len()] > b.last());
                        assert(b.last() > w.unwrap());
                    }
                }
            }
        } else {
            assert(p =~= p1);
            assert(w1 == w);
        }
    }
}

} // verus!

//! The execution pipeline: the strategies ordered by priority, each
//! packet fed through every strategy in turn, with the packet list
//! expanding or contracting as strategies act.

use crate::context::Context;
use crate::error::Error;
use crate::packet::Packet;
use crate::strategy::{
    Strategy, StrategyAction, spec_expansion, spec_strategy_apply_post, spec_strategy_priority,
    spec_strategy_should_apply,
};
use vstd::prelude::*;

verus! {

/// The concatenation of a list of packet lists, in order.
pub open spec fn spec_concat_all(outs: Seq<Seq<Packet>>) -> Seq<Packet>
    decreases outs.len(),
{
    if outs.len() == 0 {
        Seq::empty()
    } else {
        spec_concat_all(outs.drop_last()) + outs.last()
    }
}

/// How one strategy treats one element of the packet list: an element
/// it declines is kept unchanged with the context untouched; one it
/// takes is replaced by the expansion of an action that the strategy's
/// own postcondition relates to the element and the two contexts.
pub open spec fn spec_element_step(
    s: Strategy,
    x: Packet,
    c_in: Context,
    out: Seq<Packet>,
    c_out: Context,
) -> bool {
    if spec_strategy_should_apply(s, x, c_in) {
        exists|a: StrategyAction|
            #[trigger] spec_strategy_apply_post(s, x, c_in, c_out, a) && out == spec_expansion(
                a,
            )
    } else {
        out == seq![x] && c_out == c_in
    }
}

/// A per-element trace of one stage: `ctxs` holds the context before
/// each element and after the last, `outs` each element's output.
pub open spec fn spec_stage_trace(
    s: Strategy,
    input: Seq<Packet>,
    ctxs: Seq<Context>,
    outs: Seq<Seq<Packet>>,
) -> bool {
    &&& ctxs.len() == input.len() + 1
    &&& outs.len() == input.len()
    &&& forall|i: int|
        0 <= i < input.len() ==> spec_element_step(
            s,
            input[i],
            ctxs[i],
            #[trigger] outs[i],
            ctxs[i + 1],
        )
}

/// How one strategy treats the whole packet list: some per-element
/// trace runs from `c_in` to `c_out`, and the output is the
/// concatenation of the element outputs, in order.
pub open spec fn spec_stage_rel(
    s: Strategy,
    input: Seq<Packet>,
    c_in: Context,
    out: Seq<Packet>,
    c_out: Context,
) -> bool {
    exists|ctxs: Seq<Context>, outs: Seq<Seq<Packet>>|
        {
            &&& #[trigger] spec_stage_trace(s, input, ctxs, outs)
            &&& ctxs[0] == c_in
            &&& ctxs[input.len() as int] == c_out
            &&& out == spec_concat_all(outs)
        }
}

/// A per-stage trace of the pipeline: `lists` holds the packet list
/// before each stage and after the last, `ctxs` the contexts.  A list
/// that goes empty stays empty through the remaining stages.
pub open spec fn spec_pipeline_trace(
    strategies: Seq<Strategy>,
    lists: Seq<Seq<Packet>>,
    ctxs: Seq<Context>,
) -> bool {
    &&& lists.len() == strategies.len() + 1
    &&& ctxs.len() == strategies.len() + 1
    &&& forall|i: int|
        0 <= i < strategies.len() ==> spec_stage_rel(
            #[trigger] strategies[i],
            lists[i],
            ctxs[i],
            lists[i + 1],
            ctxs[i + 1],
        )
}

/// How the pipeline takes one input list to the transmit list: some
/// per-stage trace, in strategy order, from `c_in` to `c_out`.
pub open spec fn spec_pipeline_rel(
    strategies: Seq<Strategy>,
    input: Seq<Packet>,
    c_in: Context,
    out: Seq<Packet>,
    c_out: Context,
) -> bool {
    exists|lists: Seq<Seq<Packet>>, ctxs: Seq<Context>|
        {
            &&& #[trigger] spec_pipeline_trace(strategies, lists, ctxs)
            &&& lists[0] == input
            &&& ctxs[0] == c_in
            &&& lists[strategies.len() as int] == out
            &&& ctxs[strategies.len() as int] == c_out
        }
}

/// Whether a strategy takes a packet never depends on the statistics
/// counters or the clock: two contexts that agree on the filter and
/// the legacy blacklist get the same answer.
proof fn lemma_should_apply_same(s: Strategy, p: Packet, c1: Context, c2: Context)
    requires
        c1.domain_filter == c2.domain_filter,
        c1.blacklist == c2.blacklist,
        c1.blacklist_enabled == c2.blacklist_enabled,
    ensures
        spec_strategy_should_apply(s, p, c1) == spec_strategy_should_apply(s, p, c2),
{
}

/// The packet-processing pipeline.
#[derive(Debug)]
pub struct Pipeline {
    /// The strategies, ascending by priority; insertion order breaks
    /// ties.
    pub strategies: Vec<Strategy>,
}

impl Pipeline {
    /// The strategies are sorted ascending by priority.
    pub open spec fn wf(self) -> bool {
        forall|i: int, j: int|
            0 <= i < j < self.strategies@.len() ==> spec_strategy_priority(
                #[trigger] self.strategies@[i],
            ) <= spec_strategy_priority(#[trigger] self.strategies@[j])
    }

    /// A new, empty pipeline.
    pub fn new() -> (r: Pipeline)
        ensures
            r.wf(),
            r.strategies@.len() == 0,
    {
        Pipeline { strategies: Vec::new() }
    }

    /// Add a strategy, keeping the list sorted by priority; an equal
    /// priority goes after the existing entries, so insertion order is
    /// stable.
    #[verifier::loop_isolation(false)]
    pub fn add_strategy(&mut self, strategy: Strategy)
        requires
            old(self).wf(),
        ensures
            final(self).wf(),
            final(self).strategies@.len() == old(self).strategies@.len() + 1,
            exists|i: int|
                0 <= i <= old(self).strategies@.len() && final(self).strategies@ == old(
                    self,
                ).strategies@.insert(i, strategy),
    {
        let n = self.strategies.len();
        let p = strategy.priority();
        let mut i: usize = 0;
        while i < n && self.strategies[i].priority() <= p
            invariant
                i <= n,
                forall|k: int|
                    0 <= k < i ==> spec_strategy_priority(#[trigger] self.strategies@[k]) <= p,
            decreases n - i,
        {
            i = i + 1;
        }
        proof {
            if i < n {
                assert(spec_strategy_priority(self.strategies@[i as int]) > p);
            }
        }
        let ghost before = self.strategies@;
        self.strategies.insert(i, strategy);
        proof {
            assert forall|a: int, b: int|
                0 <= a < b < self.strategies@.len() implies spec_strategy_priority(
                #[trigger] self.strategies@[a],
            ) <= spec_strategy_priority(#[trigger] self.strategies@[b]) by {
                if a < i && b < i {
                    assert(self.strategies@[a] == before[a] && self.strategies@[b] == before[b]);
                } else if a < i && b == i {
                    assert(self.strategies@[a] == before[a]);
                } else if a < i && b > i {
                    assert(self.strategies@[a] == before[a] && self.strategies@[b] == before[b
                        - 1]);
                    assert(spec_strategy_priority(before[i as int]) > p);
                    assert(spec_strategy_priority(before[b - 1]) >= spec_strategy_priority(
                        before[i as int],
                    ));
                } else if a == i && b > i {
                    assert(self.strategies@[b] == before[b - 1]);
                    assert(spec_strategy_priority(before[b - 1]) >= spec_strategy_priority(
                        before[i as int],
                    ));
                } else if a > i && b > i {
                    assert(self.strategies@[a] == before[a - 1] && self.strategies@[b]
                        == before[b - 1]);
                }
            }
        }
    }

    /// Add several strategies, each inserted by priority.
    #[verifier::loop_isolation(false)]
    pub fn add_strategies(&mut self, strategies: Vec<Strategy>)
        requires
            old(self).wf(),
        ensures
            final(self).wf(),
            final(self).strategies@.len() == old(self).strategies@.len()
                + strategies@.len(),
    {
        let mut rest = strategies;
        let ghost n0 = rest@.len();
        loop
            invariant
                self.wf(),
                self.strategies@.len() + rest@.len() == old(self).strategies@.len() + n0,
            decreases rest@.len(),
        {
            if rest.len() == 0 {
                return ;
            }
            let s = rest.remove(0);
            self.add_strategy(s);
        }
    }

    /// The number of strategies.
    pub fn len(&self) -> (r: usize)
        ensures
            r == self.strategies@.len(),
    {
        self.strategies.len()
    }

    /// Whether the pipeline has no strategies.
    pub fn is_empty(&self) -> (r: bool)
        ensures
            r == (self.strategies@.len() == 0),
    {
        self.strategies.is_empty()
    }

    /// The names of the strategies, in running order.
    pub fn strategy_names(&self) -> (r: Vec<&'static str>)
        ensures
            r@.len() == self.strategies@.len(),
            forall|i: int|
                0 <= i < r@.len() ==> (#[trigger] r@[i])@ == crate::strategy::spec_strategy_name(
                    self.strategies@[i],
                ),
    {
        let mut names: Vec<&'static str> = Vec::new();
        let n = self.strategies.len();
        let mut i: usize = 0;
        while i < n
            invariant
                i <= n,
                n == self.strategies@.len(),
                names@.len() == i,
                forall|k: int|
                    0 <= k < i ==> (#[trigger] names@[k])@
                        == crate::strategy::spec_strategy_name(self.strategies@[k]),
            decreases n - i,
        {
            names.push(self.strategies[i].name());
            i = i + 1;
        }
        names
    }

    /// Feed one packet through every strategy in order.
    ///
    /// Each strategy is offered every element of the current packet
    /// list once; an element it declines is kept unchanged, one it
    /// takes is replaced by the expansion of the strategy's action.
    /// The result is the transmit list, in on-wire order; the contract
    /// states this as `spec_pipeline_rel`, a stage-by-stage,
    /// element-by-element trace in which every applied action satisfies
    /// that strategy's own postcondition.  A packet that no strategy
    /// takes comes back alone and untouched, with only the
    /// processed-packets counter moved.
    #[verifier::loop_isolation(false)]
    #[verifier::rlimit(100)]
    pub fn process(&self, packet: Packet, ctx: &mut Context) -> (r: Result<Vec<Packet>, Error>)
        requires
            packet.wf(),
            old(ctx).wf(),
        ensures
            final(ctx).wf(),
            r is Ok,
            r matches Ok(out) ==> forall|i: int| 0 <= i < out@.len() ==> (#[trigger] out@[i]).wf(),
            r matches Ok(out) ==> spec_pipeline_rel(
                self.strategies@,
                seq![packet],
                (Context {
                    stats: crate::context::Stats {
                        packets_processed: crate::context::spec_bump(
                            old(ctx).stats.packets_processed,
                        ),
                        ..old(ctx).stats
                    },
                    ..*old(ctx)
                }),
                out@,
                *final(ctx),
            ),
            (forall|i: int|
                0 <= i < self.strategies@.len() ==> !spec_strategy_should_apply(
                    #[trigger] self.strategies@[i],
                    packet,
                    *old(ctx),
                )) ==> ((r matches Ok(out) && out@ == seq![packet]) && final(ctx).stats
                == (crate::context::Stats {
                packets_processed: crate::context::spec_bump(old(ctx).stats.packets_processed),
                ..old(ctx).stats
            }) && final(ctx).tcp_tracker == old(ctx).tcp_tracker && final(ctx).dns_tracker
                == old(ctx).dns_tracker && final(ctx).domain_filter == old(ctx).domain_filter
                && final(ctx).blacklist == old(ctx).blacklist && final(ctx).now_ms == old(
                ctx,
            ).now_ms),
    {
        if ctx.stats.packets_processed < u64::MAX {
            ctx.stats.packets_processed = ctx.stats.packets_processed + 1;
        }
        let ghost c0b = *ctx;
        proof {
            assert(c0b == (Context {
                stats: crate::context::Stats {
                    packets_processed: crate::context::spec_bump(
                        old(ctx).stats.packets_processed,
                    ),
                    ..old(ctx).stats
                },
                ..*old(ctx)
            }));
        }
        let mut packets: Vec<Packet> = Vec::new();
        packets.push(packet);
        proof {
            assert(packets@ =~= seq![packet]);
        }
        let n = self.strategies.len();
        let ghost mut lists_g: Seq<Seq<Packet>> = seq![packets@];
        let ghost mut sctxs_g: Seq<Context> = seq![*ctx];
        let mut s_idx: usize = 0;
        while s_idx < n
            invariant
                s_idx <= n,
                ctx.wf(),
                forall|i: int| 0 <= i < packets@.len() ==> (#[trigger] packets@[i]).wf(),
                lists_g.len() == s_idx + 1,
                sctxs_g.len() == s_idx + 1,
                lists_g[0] == seq![packet],
                sctxs_g[0] == c0b,
                lists_g.last() == packets@,
                sctxs_g.last() == *ctx,
                forall|i: int|
                    0 <= i < s_idx ==> spec_stage_rel(
                        #[trigger] self.strategies@[i],
                        lists_g[i],
                        sctxs_g[i],
                        lists_g[i + 1],
                        sctxs_g[i + 1],
                    ),
                (forall|i: int|
                    0 <= i < s_idx ==> !spec_strategy_should_apply(
                        #[trigger] self.strategies@[i],
                        packet,
                        *old(ctx),
                    )) ==> (packets@ == seq![packet] && *ctx == c0b),
            decreases n - s_idx,
        {
            let ghost skipped_so_far = forall|i: int|
                0 <= i < s_idx ==> !spec_strategy_should_apply(
                    #[trigger] self.strategies@[i],
                    packet,
                    *old(ctx),
                );
            let strategy = &self.strategies[s_idx];
            let ghost cstage = *ctx;
            let mut new_packets: Vec<Packet> = Vec::new();
            let mut rest = packets;
            let ghost rest0 = rest@;
            let ghost m = rest0.len();
            let ghost mut ctxs_g: Seq<Context> = seq![*ctx];
            let ghost mut outs_g: Seq<Seq<Packet>> = Seq::empty();
            let ghost mut j: int = 0;
            while rest.len() > 0
                invariant
                    0 <= j,
                    j + rest@.len() == m,
                    rest@ == rest0.skip(j),
                    ctx.wf(),
                    forall|i: int| 0 <= i < rest0.len() ==> (#[trigger] rest0[i]).wf(),
                    forall|i: int|
                        0 <= i < new_packets@.len() ==> (#[trigger] new_packets@[i]).wf(),
                    ctxs_g.len() == j + 1,
                    outs_g.len() == j,
                    ctxs_g[0] == cstage,
                    ctxs_g.last() == *ctx,
                    forall|i: int|
                        0 <= i < j ==> spec_element_step(
                            self.strategies@[s_idx as int],
                            rest0[i],
                            ctxs_g[i],
                            #[trigger] outs_g[i],
                            ctxs_g[i + 1],
                        ),
                    new_packets@ == spec_concat_all(outs_g),
                    (skipped_so_far && !spec_strategy_should_apply(
                        self.strategies@[s_idx as int],
                        packet,
                        *old(ctx),
                    )) ==> (rest0 == seq![packet] && *ctx == c0b && new_packets@
                        == rest0.take(j)),
                decreases rest@.len(),
            {
                let pkt = rest.remove(0);
                proof {
                    assert(pkt == rest0[j]);
                    assert(rest@ =~= rest0.skip(j + 1));
                    assert(pkt.wf());
                }
                let ghost cprev = *ctx;
                let ghost prev_new = new_packets@;
                let ghost mut o: Seq<Packet> = Seq::empty();
                if strategy.should_apply(&pkt, ctx) {
                    proof {
                        if skipped_so_far && !spec_strategy_should_apply(
                            self.strategies@[s_idx as int],
                            packet,
                            *old(ctx),
                        ) {
                            lemma_should_apply_same(
                                self.strategies@[s_idx as int],
                                packet,
                                *old(ctx),
                                c0b,
                            );
                            assert(false);
                        }
                    }
                    let action = strategy.apply(pkt, ctx);
                    let ghost gact = action->Ok_0;
                    proof {
                        o = spec_expansion(gact);
                        assert(spec_strategy_apply_post(
                            self.strategies@[s_idx as int],
                            rest0[j],
                            cprev,
                            *ctx,
                            gact,
                        ));
                        assert(spec_element_step(
                            self.strategies@[s_idx as int],
                            rest0[j],
                            cprev,
                            o,
                            *ctx,
                        ));
                    }
                    match action {
                        Ok(StrategyAction::Pass(p)) => {
                            new_packets.push(p);
                            proof {
                                assert(new_packets@ =~= prev_new + o);
                            }
                        },
                        Ok(StrategyAction::Replace(ps)) => {
                            proof {
                                assert(o == ps@);
                            }
                            append_all(&mut new_packets, ps);
                        },
                        Ok(StrategyAction::Drop) => {
                            proof {
                                assert(new_packets@ =~= prev_new + o);
                            }
                        },
                        Ok(StrategyAction::InjectBefore(inject, original)) => {
                            proof {
                                assert(o =~= inject@.push(original));
                            }
                            append_all(&mut new_packets, inject);
                            new_packets.push(original);
                            proof {
                                assert(new_packets@ =~= prev_new + o);
                            }
                        },
                        Ok(StrategyAction::InjectAfter(original, inject)) => {
                            proof {
                                assert(o =~= seq![original] + inject@);
                            }
                            new_packets.push(original);
                            append_all(&mut new_packets, inject);
                            proof {
                                assert(new_packets@ =~= prev_new + o);
                            }
                        },
                        Err(_) => {
                            proof {
                                assert(false);
                            }
                        },
                    }
                } else {
                    proof {
                        o = seq![pkt];
                        assert(spec_element_step(
                            self.strategies@[s_idx as int],
                            rest0[j],
                            cprev,
                            o,
                            *ctx,
                        ));
                    }
                    new_packets.push(pkt);
                    proof {
                        assert(new_packets@ =~= prev_new + o);
                        if skipped_so_far && !spec_strategy_should_apply(
                            self.strategies@[s_idx as int],
                            packet,
                            *old(ctx),
                        ) {
                            assert(new_packets@ =~= rest0.take(j + 1));
                        }
                    }
                }
                proof {
                    let ghost prev_outs = outs_g;
                    ctxs_g = ctxs_g.push(*ctx);
                    outs_g = outs_g.push(o);
                    assert(outs_g.drop_last() =~= prev_outs);
                    assert(outs_g.last() == o);
                    assert(spec_concat_all(outs_g) == spec_concat_all(prev_outs) + o);
                    assert(new_packets@ == spec_concat_all(outs_g));
                    j = j + 1;
                }
            }
            proof {
                assert(rest0.skip(m as int).len() == 0);
                assert(j == m);
                assert(spec_stage_trace(
                    self.strategies@[s_idx as int],
                    rest0,
                    ctxs_g,
                    outs_g,
                ));
                assert(spec_stage_rel(
                    self.strategies@[s_idx as int],
                    rest0,
                    cstage,
                    new_packets@,
                    *ctx,
                ));
            }
            packets = new_packets;
            proof {
                if skipped_so_far && !spec_strategy_should_apply(
                    self.strategies@[s_idx as int],
                    packet,
                    *old(ctx),
                ) {
                    assert(packets@ =~= seq![packet]);
                }
                let ghost prev_lists = lists_g;
                let ghost prev_sctxs = sctxs_g;
                lists_g = lists_g.push(packets@);
                sctxs_g = sctxs_g.push(*ctx);
                assert(lists_g[s_idx as int] == prev_lists.last());
                assert(prev_lists.last() == rest0);
                assert(sctxs_g[s_idx as int] == cstage);
                assert forall|i: int|
                    0 <= i < s_idx + 1 implies spec_stage_rel(
                    #[trigger] self.strategies@[i],
                    lists_g[i],
                    sctxs_g[i],
                    lists_g[i + 1],
                    sctxs_g[i + 1],
                ) by {
                    if i < s_idx {
                        assert(lists_g[i] == prev_lists[i] && lists_g[i + 1] == prev_lists[i
                            + 1]);
                        assert(sctxs_g[i] == prev_sctxs[i] && sctxs_g[i + 1] == prev_sctxs[i
                            + 1]);
                    }
                }
            }
            s_idx = s_idx + 1;
            if packets.is_empty() {
                break ;
            }
        }
        proof {
            let full_lists = Seq::new(
                (n + 1) as nat,
                |i: int|
                    if i < lists_g.len() {
                        lists_g[i]
                    } else {
                        Seq::<Packet>::empty()
                    },
            );
            let full_ctxs = Seq::new(
                (n + 1) as nat,
                |i: int|
                    if i < sctxs_g.len() {
                        sctxs_g[i]
                    } else {
                        sctxs_g.last()
                    },
            );
            assert(s_idx == n || packets@.len() == 0);
            assert forall|i: int|
                0 <= i < n implies spec_stage_rel(
                #[trigger] self.strategies@[i],
                full_lists[i],
                full_ctxs[i],
                full_lists[i + 1],
                full_ctxs[i + 1],
            ) by {
                if i < s_idx {
                    assert(full_lists[i] == lists_g[i] && full_lists[i + 1] == lists_g[i + 1]);
                    assert(full_ctxs[i] == sctxs_g[i] && full_ctxs[i + 1] == sctxs_g[i + 1]);
                } else {
                    assert(packets@.len() == 0);
                    assert(full_lists[i] =~= Seq::<Packet>::empty());
                    assert(full_lists[i + 1] =~= Seq::<Packet>::empty());
                    let c = full_ctxs[i];
                    assert(full_ctxs[i + 1] == c);
                    assert(spec_stage_trace(
                        self.strategies@[i],
                        Seq::<Packet>::empty(),
                        seq![c],
                        Seq::<Seq<Packet>>::empty(),
                    ));
                    assert(spec_concat_all(Seq::<Seq<Packet>>::empty())
                        =~= Seq::<Packet>::empty());
                    assert(spec_stage_rel(
                        self.strategies@[i],
                        Seq::<Packet>::empty(),
                        c,
                        Seq::<Packet>::empty(),
                        c,
                    ));
                }
            }
            assert(spec_pipeline_trace(self.strategies@, full_lists, full_ctxs));
            assert(full_lists[0] == seq![packet]);
            assert(full_ctxs[0] == c0b);
            assert(full_lists[n as int] == packets@) by {
                if (n as int) < lists_g.len() {
                } else {
                    assert(packets@.len() == 0);
                    assert(full_lists[n as int] =~= packets@);
                }
            }
            assert(full_ctxs[n as int] == *ctx);
            assert(spec_pipeline_rel(self.strategies@, seq![packet], c0b, packets@, *ctx));
        }
        Ok(packets)
    }
}

/// Move every packet of `src` onto the end of `dst`.
#[verifier::loop_isolation(false)]
fn append_all(dst: &mut Vec<Packet>, src: Vec<Packet>)
    ensures
        final(dst)@ == old(dst)@ + src@,
{
    let mut src = src;
    let ghost src0 = src@;
    loop
        invariant
            dst@ + src@ == old(dst)@ + src0,
        decreases src@.len(),
    {
        if src.len() == 0 {
            proof {
                assert(dst@ + src@ =~= dst@);
                assert(old(dst)@ + src0 =~= dst@);
            }
            return ;
        }
        let h = src.remove(0);
        let ghost dst_before = dst@;
        let ghost src_mid = src@;
        dst.push(h);
        proof {
            assert(dst_before + (seq![h] + src_mid) =~= (dst_before + seq![h]) + src_mid);
            assert(seq![h] + src_mid =~= src_mid.insert(0, h));
        }
    }
}

} // verus!

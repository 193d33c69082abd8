//! The general properties of the dispatch engine, stated over its
//! mathematical model and proved once and for all.

use vstd::prelude::*;

use crate::codec::spec_unmarshal;
use crate::frames::FrameView;
use crate::server::spec_classify_text;
use crate::server::spec_conversational_step;
use crate::server::spec_flush;
use crate::server::spec_incoming;
use crate::server::spec_tick;
use crate::server::spec_trigger_batch;
use crate::server::spec_trigger_sig;
use crate::server::spec_trigger_step;
use crate::server::ActionView;
use crate::server::CoreView;
use crate::server::FlushOut;
use crate::server::FrontClass;
use crate::server::IncomingView;
use crate::frames::BroadcastTrigger;
use crate::EMPTY_QUEUE_SENTINEL;

verus! {

/// Whether an incoming frame is a conversational request.
pub open spec fn is_conversational_request(f: IncomingView) -> bool {
    spec_incoming(f) matches Ok(b) && b.path is Conversation
}

/// Whether a queued frame is a text that a conversational request sends
/// verbatim: not a directive, and either conversational-marked or not
/// protocol-shaped at all.
pub open spec fn is_plain_reply_frame(fr: FrameView) -> bool {
    fr matches FrameView::Text(t) && spec_classify_text(t) == FrontClass::Verbatim
}

/// The text of a queued text frame.
pub open spec fn frame_text(fr: FrameView) -> Seq<char>
    recommends
        fr is Text,
{
    match fr {
        FrameView::Text(t) => t,
        _ => Seq::empty(),
    }
}

/// The run of the worker over a sequence of incoming frames, one tick each,
/// with no stop order: the final state and the actions of each tick.
pub open spec fn spec_run(core: CoreView, events: Seq<IncomingView>) -> Result<
    (CoreView, Seq<Seq<ActionView>>),
    crate::server::BroadcastError,
>
    decreases events.len(),
{
    if events.len() == 0 {
        Ok((core, Seq::empty()))
    } else {
        match spec_tick(core, Some(events[0]), None) {
            Err(e) => Err(e),
            Ok(tv) => match spec_run(tv.core, events.drop_first()) {
                Err(e) => Err(e),
                Ok(rest) => Ok((rest.0, seq![tv.actions] + rest.1)),
            },
        }
    }
}

/// Queued replies are consumed first-in, first-out: against a queue of N
/// plain text replies, N conversational requests each receive exactly the
/// reply at their position, the queue drains completely, and the log holds
/// the N requests in arrival order.
pub proof fn lemma_fifo_conversations(core: CoreView, events: Seq<IncomingView>)
    requires
        core.queue.len() == events.len(),
        forall|i: int| 0 <= i < core.queue.len() ==> is_plain_reply_frame(#[trigger] core.queue[i]),
        forall|i: int| 0 <= i < events.len() ==> is_conversational_request(#[trigger] events[i]),
    ensures
        spec_run(core, events) matches Ok(run) && {
            &&& run.0.queue.len() == 0
            &&& run.0.log == core.log + events.map_values(|f: IncomingView| spec_incoming(f))
            &&& run.0.signal_registered == core.signal_registered
            &&& run.1.len() == events.len()
            &&& forall|i: int|
                0 <= i < events.len() ==> #[trigger] run.1[i] == seq![
                    ActionView::SendText(frame_text(core.queue[i])),
                ]
        },
    decreases events.len(),
{
    let entries = events.map_values(|f: IncomingView| spec_incoming(f));
    if events.len() == 0 {
        assert(core.log + entries =~= core.log);
        assert(spec_run(core, events) matches Ok(run) && run.0.log == core.log + entries);
    } else {
        let f = events[0];
        let entry = spec_incoming(f);
        let b = entry->Ok_0;
        let ctx = b.path->Conversation_0;
        let t = frame_text(core.queue[0]);
        let step = spec_conversational_step(core.queue, b.opcode, ctx);
        assert(step.0 == core.queue.drop_first() && step.1 =~= seq![ActionView::SendText(t)]
            && step.2 == false);
        let tv = spec_tick(core, Some(f), None)->Ok_0;
        assert(tv.core.queue == core.queue.drop_first());
        assert(tv.core.log == core.log.push(entry));
        assert(tv.actions =~= seq![ActionView::SendText(t)]);
        let core1 = tv.core;
        let rest = events.drop_first();
        assert(core1.queue.len() == rest.len());
        assert(forall|i: int|
            0 <= i < core1.queue.len() ==> is_plain_reply_frame(#[trigger] core1.queue[i]));
        assert(forall|i: int|
            0 <= i < rest.len() ==> is_conversational_request(#[trigger] rest[i])) by {
            assert(forall|i: int| 0 <= i < rest.len() ==> rest[i] == events[i + 1]);
        }
        lemma_fifo_conversations(core1, rest);
        let run1 = spec_run(core1, rest)->Ok_0;
        assert(run1.0.log == core1.log + rest.map_values(|g: IncomingView| spec_incoming(g)));
        assert(core.log.push(entry) + rest.map_values(|g: IncomingView| spec_incoming(g))
            =~= core.log + entries) by {
            assert(entries.len() == 1 + rest.len());
            assert(entries[0] == entry);
            assert(forall|i: int|
                0 <= i < rest.len() ==> rest.map_values(|g: IncomingView| spec_incoming(g))[i]
                    == #[trigger] entries[i + 1]);
        }
        let run = spec_run(core, events)->Ok_0;
        assert(run.1 =~= seq![tv.actions] + run1.1);
        assert(forall|i: int|
            0 <= i < events.len() ==> #[trigger] run.1[i] == seq![
                ActionView::SendText(frame_text(core.queue[i])),
            ]) by {
            assert(run.1[0] == tv.actions);
            assert(tv.actions =~= seq![ActionView::SendText(frame_text(core.queue[0]))]);
            assert(forall|i: int| 1 <= i < events.len() ==> run.1[i] == run1.1[i - 1]);
            assert(forall|i: int|
                1 <= i < events.len() ==> #[trigger] core.queue[i] == core1.queue[i - 1]);
        }
    }
}

/// A conversational request against an empty queue is answered with exactly
/// the reserved one-byte sentinel frame, never a protocol-shaped text.
pub proof fn lemma_empty_queue_sentinel(core: CoreView, f: IncomingView)
    requires
        core.queue.len() == 0,
        is_conversational_request(f),
    ensures
        spec_tick(core, Some(f), None) matches Ok(tv) && {
            &&& tv.actions == seq![ActionView::SendBinary(seq![EMPTY_QUEUE_SENTINEL])]
            &&& tv.core.queue == core.queue
            &&& tv.terminate == false
        },
{
}

/// A fire-and-forget request is never answered and leaves the queue alone,
/// whatever its opcode, as long as it is not the broadcast trigger.
pub proof fn lemma_fire_and_forget_silent(core: CoreView, f: IncomingView)
    requires
        spec_incoming(f) matches Ok(b) && b.path is FireAndForget && b.opcode
            != "broadcastTrigger"@,
    ensures
        spec_tick(core, Some(f), None) matches Ok(tv) && {
            &&& tv.actions == Seq::<ActionView>::empty()
            &&& tv.core.queue == core.queue
            &&& tv.core.log == core.log.push(spec_incoming(f))
            &&& tv.terminate == false
        },
{
}

/// A frame queued as raw bytes is delivered to the peer bit for bit: a
/// conversational request that finds it at the front sends exactly those
/// bytes, untouched by the decode pipeline.
pub proof fn lemma_binary_roundtrip(core: CoreView, f: IncomingView, b: Seq<u8>)
    requires
        core.queue.len() > 0,
        core.queue[0] == FrameView::Binary(b),
        is_conversational_request(f),
    ensures
        spec_tick(core, Some(f), None) matches Ok(tv) && {
            &&& tv.actions == seq![ActionView::SendBinary(b)]
            &&& tv.core.queue == core.queue.drop_first()
            &&& tv.terminate == false
        },
{
}

/// A graceful stop order makes the worker send a Close frame and exit; a
/// kill order makes it exit without one. Stated for a quiet tick: no frame
/// arrived with the order.
pub proof fn lemma_stop_close_kill_none(core: CoreView, kill: bool)
    ensures
        spec_tick(core, None, Some(kill)) matches Ok(tv) && {
            &&& tv.terminate == true
            &&& tv.core == core
            &&& tv.actions == if kill {
                Seq::<ActionView>::empty()
            } else {
                seq![ActionView::SendClose]
            }
        },
{
    if !kill {
        assert(Seq::<ActionView>::empty().push(ActionView::SendClose) =~= seq![
            ActionView::SendClose,
        ]);
    }
}

/// Whether a queued frame is a text that decodes as a fire-and-forget
/// envelope: a broadcast a trigger may release.
pub open spec fn is_broadcast_frame(fr: FrameView) -> bool {
    fr matches FrameView::Text(t) && crate::server::is_fnf_text(t)
}

/// Whether a queued frame is a text that decodes conversationally: the
/// entry a broadcast walk never passes.
pub open spec fn is_conversational_entry(fr: FrameView) -> bool {
    fr matches FrameView::Text(t) && (spec_unmarshal(t) matches Some(b) && b.path is Conversation)
}

/// How many frames a walk with `sent` already sent may still release from a
/// broadcast prefix of length `k`: all of it, unless the batch bound cuts
/// it short (a batch of zero never does).
pub open spec fn releasable(k: nat, sent: nat, batch: nat) -> nat {
    if batch == 0 || batch - sent >= k {
        k
    } else {
        (batch - sent) as nat
    }
}

proof fn lemma_flush_leading(q: Seq<FrameView>, i: nat, n0: nat, sent: nat, batch: nat, k: nat)
    requires
        i <= n0,
        q.len() == n0 - i,
        k <= q.len(),
        forall|j: int| 0 <= j < k ==> is_broadcast_frame(#[trigger] q[j]),
        k < q.len() ==> is_conversational_entry(q[k as int]),
        batch == 0 || sent < batch,
    ensures
        ({
            let m = releasable(k, sent, batch);
            spec_flush(q, i, n0, i, sent, batch, None) == FlushOut {
                queue: q.subrange(m as int, q.len() as int),
                actions: Seq::new(m, |j: int| ActionView::SendText(frame_text(q[j]))),
            }
        }),
    decreases n0 - i,
{
    let m = releasable(k, sent, batch);
    let out = spec_flush(q, i, n0, i, sent, batch, None);
    if i >= n0 {
        assert(q.len() == 0 && k == 0 && m == 0);
        assert(out.queue =~= q.subrange(0, 0));
        assert(out.actions =~= Seq::new(0, |j: int| ActionView::SendText(frame_text(q[j]))));
    } else if k == 0 {
        assert(is_conversational_entry(q[0]));
        assert(out == FlushOut { queue: q, actions: Seq::<ActionView>::empty() });
        assert(out.queue =~= q.subrange(0, q.len() as int));
        assert(out.actions =~= Seq::new(0, |j: int| ActionView::SendText(frame_text(q[j]))));
    } else {
        assert(is_broadcast_frame(q[0]));
        let t = frame_text(q[0]);
        if batch != 0 && sent + 1 == batch {
            assert(m == 1);
            assert(out == FlushOut {
                queue: q.remove(0),
                actions: Seq::<ActionView>::empty() + seq![ActionView::SendText(t)],
            });
            assert(out.queue =~= q.subrange(1, q.len() as int));
            assert(out.actions =~= Seq::new(1, |j: int| ActionView::SendText(frame_text(q[j]))));
        } else {
            let q1 = q.remove(0);
            assert(q1 =~= q.drop_first());
            assert(forall|j: int| 0 <= j < k - 1 ==> #[trigger] q1[j] == q[j + 1]);
            assert(forall|j: int| 0 <= j < k - 1 ==> is_broadcast_frame(#[trigger] q1[j]));
            if k - 1 < q1.len() {
                assert(q1[k - 1] == q[k as int]);
            }
            lemma_flush_leading(q1, (i + 1) as nat, n0, (sent + 1) as nat, batch, (k - 1) as nat);
            let m1 = releasable((k - 1) as nat, (sent + 1) as nat, batch);
            assert(m1 == m - 1);
            let rec = spec_flush(q1, (i + 1) as nat, n0, (i + 1) as nat, (sent + 1) as nat, batch, None);
            assert(out == FlushOut {
                queue: rec.queue,
                actions: Seq::<ActionView>::empty() + seq![ActionView::SendText(t)] + rec.actions,
            });
            assert(rec.queue == q1.subrange(m1 as int, q1.len() as int));
            assert(out.queue =~= q.subrange(m as int, q.len() as int));
            assert(out.actions =~= Seq::new(m, |j: int| ActionView::SendText(frame_text(q[j]))))
                by {
                assert(rec.actions == Seq::new(m1, |j: int| ActionView::SendText(frame_text(q1[j]))));
                assert(forall|j: int| 0 <= j < m1 ==> #[trigger] rec.actions[j]
                    == ActionView::SendText(frame_text(q[j + 1])));
            }
        }
    }
}

/// A trigger with no signal releases exactly the leading broadcasts: with a
/// queue that opens with `k` fire-and-forget texts (followed, if anything,
/// by a conversational text), the walk sends the first `releasable` of them
/// in order, removes exactly those, and leaves everything else untouched —
/// it never jumps past a pending conversational entry.
pub proof fn lemma_trigger_releases_leading_broadcasts(
    core: CoreView,
    trig: BroadcastTrigger,
    k: nat,
)
    requires
        !core.signal_registered,
        trig.signal_position_opt is None,
        k <= core.queue.len(),
        forall|j: int| 0 <= j < k ==> is_broadcast_frame(#[trigger] core.queue[j]),
        k < core.queue.len() ==> is_conversational_entry(core.queue[k as int]),
    ensures
        spec_trigger_step(core, trig) matches Ok(tv) && {
            let m = releasable(k, 0, spec_trigger_batch(trig, core.queue.len()));
            &&& tv.core.queue == core.queue.subrange(m as int, core.queue.len() as int)
            &&& tv.actions == Seq::new(
                m,
                |j: int| ActionView::SendText(frame_text(core.queue[j])),
            )
            &&& tv.core.log == core.log
            &&& tv.terminate == false
        },
{
    let batch = spec_trigger_batch(trig, core.queue.len());
    if batch != 0 {
        assert(0 < batch);
    }
    lemma_flush_leading(core.queue, 0, core.queue.len(), 0, batch, k);
}

/// A graceful stop order always closes: whatever frame the tick also
/// handled, as long as the dispatch itself did not terminate the worker (a
/// queued disconnect directive exits at once and never reads the order),
/// the tick ends with a Close frame and terminates. A kill order terminates
/// with exactly the actions the dispatch alone would have emitted: the
/// termination path never adds a Close.
pub proof fn lemma_graceful_stop_closes(core: CoreView, incoming: Option<IncomingView>)
    requires
        spec_tick(core, incoming, None) matches Ok(tv0) && !tv0.terminate,
    ensures
        spec_tick(core, incoming, Some(false)) matches Ok(tv) && {
            &&& tv.terminate
            &&& tv.actions.len() > 0
            &&& tv.actions.last() == ActionView::SendClose
        },
        spec_tick(core, incoming, Some(true)) matches Ok(tvk) && {
            &&& tvk.terminate
            &&& (spec_tick(core, incoming, None) matches Ok(tv0) && tvk.actions == tv0.actions)
        },
{
}

/// How many fire-signal actions a sequence holds.
pub open spec fn count_signals(acts: Seq<ActionView>) -> nat
    decreases acts.len(),
{
    if acts.len() == 0 {
        0
    } else {
        count_signals(acts.drop_last()) + (if acts.last() is FireSignal {
            1nat
        } else {
            0nat
        })
    }
}

proof fn lemma_count_singleton(a: ActionView)
    ensures
        count_signals(seq![a]) == (if a is FireSignal {
            1nat
        } else {
            0nat
        }),
{
    assert(seq![a].drop_last() =~= Seq::<ActionView>::empty());
    assert(count_signals(Seq::<ActionView>::empty()) == 0);
}

proof fn lemma_count_signals_add(a: Seq<ActionView>, b: Seq<ActionView>)
    ensures
        count_signals(a + b) == count_signals(a) + count_signals(b),
    decreases b.len(),
{
    if b.len() == 0 {
        assert(a + b =~= a);
    } else {
        lemma_count_signals_add(a, b.drop_last());
        assert((a + b).drop_last() =~= a + b.drop_last());
        assert((a + b).last() == b.last());
    }
}

/// How far the broadcast walk runs: the original index just past the last
/// iteration it executes. The signal check happens at the top of each
/// iteration, so a signal position is reached exactly when it lies below
/// this bound.
pub open spec fn spec_flush_extent(
    q: Seq<FrameView>,
    i: nat,
    n0: nat,
    removed: nat,
    sent: nat,
    batch: nat,
) -> nat
    decreases n0 - i,
{
    if i >= n0 {
        i
    } else {
        let live = i - removed;
        if live < 0 || live >= q.len() {
            (i + 1) as nat
        } else {
            match q[live] {
                FrameView::Text(t) => {
                    if crate::server::is_fnf_text(t) {
                        if sent + 1 == batch {
                            (i + 1) as nat
                        } else {
                            spec_flush_extent(
                                q.remove(live),
                                (i + 1) as nat,
                                n0,
                                (removed + 1) as nat,
                                (sent + 1) as nat,
                                batch,
                            )
                        }
                    } else if spec_unmarshal(t) is Some {
                        (i + 1) as nat
                    } else {
                        spec_flush_extent(q, (i + 1) as nat, n0, removed, sent, batch)
                    }
                },
                _ => spec_flush_extent(q, (i + 1) as nat, n0, removed, sent, batch),
            }
        }
    }
}

/// The walk's extent always reaches past the current index while the
/// snapshot bound is not exhausted.
proof fn lemma_flush_extent_lb(
    q: Seq<FrameView>,
    i: nat,
    n0: nat,
    removed: nat,
    sent: nat,
    batch: nat,
)
    ensures
        i < n0 ==> spec_flush_extent(q, i, n0, removed, sent, batch) >= i + 1,
        i >= n0 ==> spec_flush_extent(q, i, n0, removed, sent, batch) == i,
    decreases n0 - i,
{
    if i < n0 {
        let live = i - removed;
        if live < 0 || live >= q.len() {
        } else {
            match q[live] {
                FrameView::Text(t) => {
                    if crate::server::is_fnf_text(t) {
                        if sent + 1 == batch {
                        } else {
                            lemma_flush_extent_lb(
                                q.remove(live),
                                (i + 1) as nat,
                                n0,
                                (removed + 1) as nat,
                                (sent + 1) as nat,
                                batch,
                            );
                        }
                    } else if spec_unmarshal(t) is Some {
                    } else {
                        lemma_flush_extent_lb(q, (i + 1) as nat, n0, removed, sent, batch);
                    }
                },
                _ => {
                    lemma_flush_extent_lb(q, (i + 1) as nat, n0, removed, sent, batch);
                },
            }
        }
    }
}

/// The walk fires a requested signal exactly once if its position lies
/// within the walk's extent, and never otherwise — in particular, never
/// twice, whatever the batch size.
pub proof fn lemma_flush_signal_count(
    q: Seq<FrameView>,
    i: nat,
    n0: nat,
    removed: nat,
    sent: nat,
    batch: nat,
    p: nat,
)
    ensures
        count_signals(spec_flush(q, i, n0, removed, sent, batch, Some(p)).actions) == (if i <= p
            < spec_flush_extent(q, i, n0, removed, sent, batch) {
            1nat
        } else {
            0nat
        }),
    decreases n0 - i,
{
    let out = spec_flush(q, i, n0, removed, sent, batch, Some(p));
    let ext = spec_flush_extent(q, i, n0, removed, sent, batch);
    let sig_acts: Seq<ActionView> = if p == i {
        seq![ActionView::FireSignal]
    } else {
        Seq::empty()
    };
    assert(count_signals(Seq::<ActionView>::empty()) == 0);
    lemma_count_singleton(ActionView::FireSignal);
    assert(count_signals(sig_acts) == if p == i {
        1nat
    } else {
        0nat
    });
    if i >= n0 {
    } else {
        lemma_flush_extent_lb(q, i, n0, removed, sent, batch);
        let live = i - removed;
        if live < 0 || live >= q.len() {
            assert(out.actions == sig_acts);
            assert(ext == i + 1);
        } else {
            match q[live as int] {
                FrameView::Text(t) => {
                    if crate::server::is_fnf_text(t) {
                        let send: Seq<ActionView> = seq![ActionView::SendText(t)];
                        lemma_count_singleton(ActionView::SendText(t));
                        if sent + 1 == batch {
                            lemma_count_signals_add(sig_acts, send);
                            assert(out.actions == sig_acts + send);
                        } else {
                            let rec = spec_flush(
                                q.remove(live as int),
                                (i + 1) as nat,
                                n0,
                                (removed + 1) as nat,
                                (sent + 1) as nat,
                                batch,
                                Some(p),
                            );
                            lemma_flush_signal_count(
                                q.remove(live as int),
                                (i + 1) as nat,
                                n0,
                                (removed + 1) as nat,
                                (sent + 1) as nat,
                                batch,
                                p,
                            );
                            lemma_count_signals_add(sig_acts, send);
                            lemma_count_signals_add(sig_acts + send, rec.actions);
                            assert(out.actions == sig_acts + send + rec.actions);
                            assert(count_signals(sig_acts + send) == count_signals(sig_acts));
                        }
                    } else if spec_unmarshal(t) is Some {
                        assert(out.actions == sig_acts);
                    } else {
                        let rec = spec_flush(q, (i + 1) as nat, n0, removed, sent, batch, Some(p));
                        lemma_flush_signal_count(q, (i + 1) as nat, n0, removed, sent, batch, p);
                        lemma_count_signals_add(sig_acts, rec.actions);
                        assert(out.actions == sig_acts + rec.actions);
                    }
                },
                _ => {
                    let rec = spec_flush(q, (i + 1) as nat, n0, removed, sent, batch, Some(p));
                    lemma_flush_signal_count(q, (i + 1) as nat, n0, removed, sent, batch, p);
                    lemma_count_signals_add(sig_acts, rec.actions);
                    assert(out.actions == sig_acts + rec.actions);
                },
            }
        }
    }
}

/// A trigger that requests a signal fires the registered channel exactly
/// once when the requested position lies within the walk's extent, and never
/// more than once in any case, whatever the batch size.
pub proof fn lemma_signal_fired_at_most_once(core: CoreView, trig: BroadcastTrigger)
    requires
        core.signal_registered,
        trig.signal_position_opt matches Some(p),
    ensures
        spec_trigger_step(core, trig) matches Ok(tv) && {
            let p = trig.signal_position_opt->Some_0;
            let batch = spec_trigger_batch(trig, core.queue.len());
            let ext = spec_flush_extent(core.queue, 0, core.queue.len(), 0, 0, batch);
            count_signals(tv.actions) == (if (p as nat) < ext {
                1nat
            } else {
                0nat
            })
        },
{
    let p = trig.signal_position_opt->Some_0;
    let batch = spec_trigger_batch(trig, core.queue.len());
    assert(spec_trigger_sig(trig) == Some(p as nat));
    lemma_flush_signal_count(core.queue, 0, core.queue.len(), 0, 0, batch, p as nat);
}

} // verus!

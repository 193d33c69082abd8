//! The server worker's dispatch engine: a pure state machine over the
//! response queue and the request log. The surrounding loop — the socket,
//! the channels and the thread — performs the actions this engine decides
//! and hands back the frames it receives.

use vstd::prelude::*;

use crate::codec::fnf_error_text;
use crate::codec::is_conversational_text;
use crate::codec::is_protocol_shaped;
use crate::codec::spec_conversational;
use crate::codec::spec_fnf_error_text;
use crate::codec::spec_protocol_shaped;
use crate::codec::marshal;
use crate::codec::parse_broadcast_trigger;
use crate::codec::spec_marshal;
use crate::codec::spec_parse_trigger;
use crate::codec::spec_unmarshal;
use crate::codec::spec_unmarshal_error_text;
use crate::codec::unmarshal_chars;
use crate::codec::unmarshal_error_text;
use crate::frames::BodyView;
use crate::frames::BroadcastTrigger;
use crate::frames::FrameView;
use crate::frames::MessageBody;
use crate::frames::MessagePath;
use crate::frames::QueuedFrame;
use crate::text::chars_of;
use crate::text::str_eq;
use crate::EMPTY_QUEUE_SENTINEL;

verus! {

/// One frame received from the peer: a text frame, or any other frame
/// reduced to a description of itself.
#[derive(Clone, Debug, PartialEq)]
pub enum IncomingFrame {
    Text(String),
    NonText(String),
}

/// The mathematical value of an incoming frame.
pub enum IncomingView {
    Text(Seq<char>),
    NonText(Seq<char>),
}

impl View for IncomingFrame {
    type V = IncomingView;

    open spec fn view(&self) -> IncomingView {
        match self {
            IncomingFrame::Text(s) => IncomingView::Text(s@),
            IncomingFrame::NonText(s) => IncomingView::NonText(s@),
        }
    }
}

/// One thing the worker loop must do on the engine's behalf.
#[derive(Clone, Debug, PartialEq)]
pub enum Action {
    SendText(String),
    SendBinary(Vec<u8>),
    SendClose,
    FireSignal,
}

/// The mathematical value of an action.
pub enum ActionView {
    SendText(Seq<char>),
    SendBinary(Seq<u8>),
    SendClose,
    FireSignal,
}

impl View for Action {
    type V = ActionView;

    open spec fn view(&self) -> ActionView {
        match self {
            Action::SendText(s) => ActionView::SendText(s@),
            Action::SendBinary(b) => ActionView::SendBinary(b@),
            Action::SendClose => ActionView::SendClose,
            Action::FireSignal => ActionView::FireSignal,
        }
    }
}

/// The views of a sequence of frames.
pub open spec fn frames_view(s: Seq<QueuedFrame>) -> Seq<FrameView> {
    s.map_values(|f: QueuedFrame| f@)
}

/// The views of a sequence of actions.
pub open spec fn acts_view(s: Seq<Action>) -> Seq<ActionView> {
    s.map_values(|a: Action| a@)
}

/// The view of one request-log entry.
pub open spec fn log_entry_view(e: Result<MessageBody, String>) -> Result<BodyView, Seq<char>> {
    match e {
        Ok(b) => Ok(b@),
        Err(s) => Err(s@),
    }
}

/// The views of the request log.
pub open spec fn log_view(s: Seq<Result<MessageBody, String>>) -> Seq<Result<BodyView, Seq<char>>> {
    s.map_values(|e: Result<MessageBody, String>| log_entry_view(e))
}

/// The classification of the text frame at the front of the queue, seen by a
/// conversational request.
#[derive(Clone, Copy, Debug, PartialEq, Eq, Structural)]
pub enum FrontClass {
    /// Not a text frame: sent verbatim.
    NotText,
    /// The literal directive that simulates an abrupt peer disconnect.
    Disconnect,
    /// The literal directive that sends a protocol Close frame.
    CloseDirective,
    /// Sent verbatim: a conversational text, or one that is not even
    /// protocol-shaped.
    Verbatim,
    /// Protocol-shaped but not conversational: left in the queue, answered
    /// with a synthesized error envelope.
    Reinsert,
}

/// How a conversational request classifies a queued text.
pub open spec fn spec_classify_text(t: Seq<char>) -> FrontClass {
    if t == "disconnect"@ {
        FrontClass::Disconnect
    } else if t == "close"@ {
        FrontClass::CloseDirective
    } else if spec_conversational(t) {
        FrontClass::Verbatim
    } else if spec_protocol_shaped(t) {
        FrontClass::Reinsert
    } else {
        FrontClass::Verbatim
    }
}

fn classify_queued_text(t: &str) -> (c: FrontClass)
    ensures
        c == spec_classify_text(t@),
{
    if str_eq(t, "disconnect") {
        FrontClass::Disconnect
    } else if str_eq(t, "close") {
        FrontClass::CloseDirective
    } else {
        let tc = chars_of(t);
        if is_conversational_text(&tc) {
            FrontClass::Verbatim
        } else if is_protocol_shaped(&tc) {
            FrontClass::Reinsert
        } else {
            FrontClass::Verbatim
        }
    }
}

/// What a conversational request does to the queue: the new queue, the
/// actions emitted, and whether the worker terminates.
pub open spec fn spec_conversational_step(
    queue: Seq<FrameView>,
    opcode: Seq<char>,
    context_id: u64,
) -> (Seq<FrameView>, Seq<ActionView>, bool) {
    if queue.len() == 0 {
        (queue, seq![ActionView::SendBinary(seq![EMPTY_QUEUE_SENTINEL])], false)
    } else {
        match queue[0] {
            FrameView::Text(t) => {
                match spec_classify_text(t) {
                    FrontClass::Disconnect => (queue.drop_first(), Seq::<ActionView>::empty(), true),
                    FrontClass::CloseDirective => (
                        queue.drop_first(),
                        seq![ActionView::SendClose],
                        false,
                    ),
                    FrontClass::Reinsert => (
                        queue,
                        seq![ActionView::SendText(spec_fnf_error_text(opcode, context_id))],
                        false,
                    ),
                    _ => (queue.drop_first(), seq![ActionView::SendText(t)], false),
                }
            },
            FrameView::Binary(b) => (queue.drop_first(), seq![ActionView::SendBinary(b)], false),
            FrameView::Close => (queue.drop_first(), seq![ActionView::SendClose], false),
        }
    }
}

/// Declares crossbeam_channel's `Sender`, so that the engine can carry the
/// registered synchronization channel through to the worker.
#[verifier::external_type_specification]
#[verifier::external_body]
#[verifier::reject_recursive_types(T)]
pub struct ExSender<T>(crossbeam_channel::Sender<T>);

/// Relies on crossbeam_channel::Sender::send: delivery fails only when every
/// receiver of the channel was dropped. Nothing is promised of the result,
/// since it depends on the receiving side.
#[verifier::external_body]
fn send_unit_signal(sender: &crossbeam_channel::Sender<()>) -> bool {
    sender.send(()).is_ok()
}

/// The shared state the worker owns while it runs: the response queue, the
/// request log, and the optional one-shot synchronization channel.
pub struct ServerCore {
    responses: Vec<QueuedFrame>,
    requests: Vec<Result<MessageBody, String>>,
    signal_sender: Option<crossbeam_channel::Sender<()>>,
}

/// The mathematical value of the worker state.
pub struct CoreView {
    pub queue: Seq<FrameView>,
    pub log: Seq<Result<BodyView, Seq<char>>>,
    pub signal_registered: bool,
}

impl View for ServerCore {
    type V = CoreView;

    closed spec fn view(&self) -> CoreView {
        CoreView {
            queue: frames_view(self.responses@),
            log: log_view(self.requests@),
            signal_registered: self.signal_sender is Some,
        }
    }
}

impl ServerCore {
    /// A worker state over the given queue and channel, with an empty log.
    pub fn new(
        responses: Vec<QueuedFrame>,
        signal_sender: Option<crossbeam_channel::Sender<()>>,
    ) -> (r: ServerCore)
        ensures
            r@.queue == frames_view(responses@),
            r@.log == Seq::<Result<BodyView, Seq<char>>>::empty(),
            r@.signal_registered == (signal_sender is Some),
    {
        let r = ServerCore { responses, requests: Vec::new(), signal_sender };
        proof {
            assert(log_view(r.requests@) =~= Seq::<Result<BodyView, Seq<char>>>::empty());
        }
        r
    }

    /// The recorded requests, surrendered once the worker has exited.
    pub fn into_requests(self) -> (r: Vec<Result<MessageBody, String>>)
        ensures
            log_view(r@) == self@.log,
    {
        self.requests
    }

    /// The frames still queued.
    pub fn responses(&self) -> (r: &Vec<QueuedFrame>)
        ensures
            frames_view(r@) == self@.queue,
    {
        &self.responses
    }

    /// Fires the registered synchronization channel, if one is registered;
    /// reports whether a signal was sent and arrived at a live receiver.
    pub fn fire_signal(&self) -> (r: bool)
        ensures
            !self@.signal_registered ==> r == false,
    {
        match &self.signal_sender {
            Some(sender) => send_unit_signal(sender),
            None => false,
        }
    }

    /// Answers a conversational request: pops the front of the queue and
    /// sends it, with the special directives and shapes recognized; an empty
    /// queue yields the reserved sentinel byte.
    pub fn handle_conversational_incoming_message(
        &mut self,
        body: &MessageBody,
        context_id: u64,
    ) -> (r: (Vec<Action>, bool))
        ensures
            ({
                let step = spec_conversational_step(old(self)@.queue, body.opcode@, context_id);
                &&& final(self)@.queue == step.0
                &&& acts_view(r.0@) == step.1
                &&& r.1 == step.2
                &&& final(self)@.log == old(self)@.log
                &&& final(self)@.signal_registered == old(self)@.signal_registered
            }),
    {
        let mut actions: Vec<Action> = Vec::new();
        if self.responses.len() == 0 {
            let mut sentinel: Vec<u8> = Vec::new();
            sentinel.push(EMPTY_QUEUE_SENTINEL);
            proof {
                assert(sentinel@ =~= seq![EMPTY_QUEUE_SENTINEL]);
            }
            actions.push(Action::SendBinary(sentinel));
            proof {
                assert(acts_view(actions@) =~= seq![
                    ActionView::SendBinary(seq![EMPTY_QUEUE_SENTINEL]),
                ]);
            }
            return (actions, false);
        }
        let class = match &self.responses[0] {
            QueuedFrame::Text(t) => classify_queued_text(t.as_str()),
            _ => FrontClass::NotText,
        };
        if class == FrontClass::Reinsert {
            actions.push(Action::SendText(fnf_error_text(body.opcode.as_str(), context_id)));
            proof {
                assert(acts_view(actions@) =~= seq![
                    ActionView::SendText(spec_fnf_error_text(body.opcode@, context_id)),
                ]);
            }
            return (actions, false);
        }
        let frame = self.responses.remove(0);
        proof {
            assert(frames_view(self.responses@) =~= frames_view(old(self).responses@).drop_first());
        }
        if class == FrontClass::Disconnect {
            proof {
                assert(acts_view(actions@) =~= Seq::<ActionView>::empty());
            }
            return (actions, true);
        }
        if class == FrontClass::CloseDirective {
            actions.push(Action::SendClose);
            proof {
                assert(acts_view(actions@) =~= seq![ActionView::SendClose]);
            }
            return (actions, false);
        }
        match frame {
            QueuedFrame::Text(t) => {
                actions.push(Action::SendText(t));
            },
            QueuedFrame::Binary(b) => {
                actions.push(Action::SendBinary(b));
            },
            QueuedFrame::Close => {
                actions.push(Action::SendClose);
            },
        }
        proof {
            assert(acts_view(actions@) =~= seq![
                spec_conversational_step(old(self)@.queue, body.opcode@, context_id).1[0],
            ]);
        }
        (actions, false)
    }

    /// Runs the broadcast-flush walk for a decoded trigger: checks the
    /// signal configuration, then removes and sends the eligible
    /// fire-and-forget frames, firing the registered channel when the walk
    /// passes the requested position. On success the registered channel (if
    /// any) is taken out of the state and handed back for delivery.
    pub fn handle_broadcast_trigger(&mut self, trigger: &BroadcastTrigger) -> (r: Result<
        (Vec<Action>, Option<crossbeam_channel::Sender<()>>),
        BroadcastError,
    >)
        ensures
            old(self)@.signal_registered && trigger.signal_position_opt is None <==> r == Err::<
                (Vec<Action>, Option<crossbeam_channel::Sender<()>>),
                BroadcastError,
            >(BroadcastError::SenderWithoutPosition),
            !old(self)@.signal_registered && trigger.signal_position_opt is Some <==> r == Err::<
                (Vec<Action>, Option<crossbeam_channel::Sender<()>>),
                BroadcastError,
            >(BroadcastError::SignalWithoutSender),
            r is Err ==> final(self)@ == old(self)@ && (r == Err::<
                (Vec<Action>, Option<crossbeam_channel::Sender<()>>),
                BroadcastError,
            >(BroadcastError::SenderWithoutPosition) || r == Err::<
                (Vec<Action>, Option<crossbeam_channel::Sender<()>>),
                BroadcastError,
            >(BroadcastError::SignalWithoutSender)),
            r matches Ok(ok) ==> {
                let f = spec_flush(
                    old(self)@.queue,
                    0,
                    old(self)@.queue.len(),
                    0,
                    0,
                    spec_trigger_batch(*trigger, old(self)@.queue.len()),
                    spec_trigger_sig(*trigger),
                );
                &&& final(self)@.queue == f.queue
                &&& acts_view(ok.0@) == f.actions
                &&& final(self)@.log == old(self)@.log
                &&& final(self)@.signal_registered == false
                &&& (ok.1 is Some <==> old(self)@.signal_registered)
            },
    {
        let registered = match &self.signal_sender {
            Some(_) => true,
            None => false,
        };
        if registered && trigger.signal_position_opt.is_none() {
            return Err(BroadcastError::SenderWithoutPosition);
        }
        if !registered && trigger.signal_position_opt.is_some() {
            return Err(BroadcastError::SignalWithoutSender);
        }
        let n0 = self.responses.len();
        let batch: u64 = match trigger.batch_size_opt {
            Some(b) => b,
            None => n0 as u64,
        };
        let ghost batch_s: nat = spec_trigger_batch(*trigger, old(self)@.queue.len());
        let ghost sig_s: Option<nat> = spec_trigger_sig(*trigger);
        proof {
            assert(old(self)@.queue.len() == n0);
            assert(batch as nat == batch_s);
        }
        let mut actions: Vec<Action> = Vec::new();
        let mut i: usize = 0;
        let mut removed: usize = 0;
        let mut sent: u64 = 0;
        let ghost total = spec_flush(old(self)@.queue, 0, n0 as nat, 0, 0, batch_s, sig_s);
        proof {
            assert(acts_view(actions@) =~= Seq::<ActionView>::empty());
            assert(acts_view(actions@) + spec_flush(
                frames_view(self.responses@),
                i as nat,
                n0 as nat,
                removed as nat,
                sent as nat,
                batch_s,
                sig_s,
            ).actions =~= total.actions);
        }
        loop
            invariant_except_break
                total.queue == spec_flush(
                    frames_view(self.responses@),
                    i as nat,
                    n0 as nat,
                    removed as nat,
                    sent as nat,
                    batch_s,
                    sig_s,
                ).queue,
                total.actions == acts_view(actions@) + spec_flush(
                    frames_view(self.responses@),
                    i as nat,
                    n0 as nat,
                    removed as nat,
                    sent as nat,
                    batch_s,
                    sig_s,
                ).actions,
            invariant
                removed <= i <= n0,
                sent == removed,
                n0 == old(self)@.queue.len(),
                self.responses@.len() == n0 - removed,
                batch as nat == batch_s,
                sig_s == spec_trigger_sig(*trigger),
                self.requests@ == old(self).requests@,
                self.signal_sender == old(self).signal_sender,
                total == spec_flush(old(self)@.queue, 0, n0 as nat, 0, 0, batch_s, sig_s),
            ensures
                total.queue == frames_view(self.responses@),
                total.actions == acts_view(actions@),
                self.requests@ == old(self).requests@,
                self.signal_sender == old(self).signal_sender,
            decreases n0 - i,
        {
            if i >= n0 {
                proof {
                    assert(spec_flush(
                        frames_view(self.responses@),
                        i as nat,
                        n0 as nat,
                        removed as nat,
                        sent as nat,
                        batch_s,
                        sig_s,
                    ) =~= FlushOut {
                        queue: frames_view(self.responses@),
                        actions: Seq::<ActionView>::empty(),
                    });
                    assert(total.actions =~= acts_view(actions@));
                }
                break;
            }
            let ghost q_pre = frames_view(self.responses@);
            let ghost rem_pre = spec_flush(
                q_pre,
                i as nat,
                n0 as nat,
                removed as nat,
                sent as nat,
                batch_s,
                sig_s,
            );
            let ghost acts_pre = actions@;
            let fire = match trigger.signal_position_opt {
                Some(p) => p == i as u64,
                None => false,
            };
            if fire {
                actions.push(Action::FireSignal);
            }
            let ghost sig_acts: Seq<ActionView> = if sig_s == Some(i as nat) {
                seq![ActionView::FireSignal]
            } else {
                Seq::empty()
            };
            proof {
                assert(acts_view(actions@) =~= acts_view(acts_pre) + sig_acts);
            }
            let live = i - removed;
            let wc = match &self.responses[live] {
                QueuedFrame::Text(t) => {
                    let tc = chars_of(t.as_str());
                    match unmarshal_chars(&tc) {
                        Some(b) => match b.path {
                            MessagePath::FireAndForget => WalkClass::Take,
                            MessagePath::Conversation(_) => WalkClass::Stop,
                        },
                        None => WalkClass::Skip,
                    }
                },
                _ => WalkClass::Skip,
            };
            if wc == WalkClass::Stop {
                proof {
                    assert(rem_pre =~= FlushOut { queue: q_pre, actions: sig_acts });
                    assert(total.queue == frames_view(self.responses@));
                    assert(total.actions =~= acts_view(actions@));
                }
                break;
            }
            if wc == WalkClass::Take {
                let frame = self.responses.remove(live);
                proof {
                    assert(frames_view(self.responses@) =~= q_pre.remove(live as int));
                }
                match frame {
                    QueuedFrame::Text(t) => {
                        proof {
                            assert(q_pre[live as int] == FrameView::Text(t@));
                        }
                        actions.push(Action::SendText(t));
                    },
                    QueuedFrame::Binary(b) => {
                        proof {
                            assert(false);
                        }
                        actions.push(Action::SendBinary(b));
                    },
                    QueuedFrame::Close => {
                        proof {
                            assert(false);
                        }
                        actions.push(Action::SendClose);
                    },
                }
                sent = sent + 1;
                removed = removed + 1;
                if sent == batch {
                    i = i + 1;
                    proof {
                        assert(q_pre[live as int] matches FrameView::Text(t) && rem_pre
                            =~= FlushOut {
                            queue: q_pre.remove(live as int),
                            actions: sig_acts + seq![ActionView::SendText(t)],
                        });
                        assert(total.queue == frames_view(self.responses@));
                        assert(total.actions =~= acts_view(actions@));
                    }
                    break;
                }
                proof {
                    let rem_post = spec_flush(
                        frames_view(self.responses@),
                        (i + 1) as nat,
                        n0 as nat,
                        (removed) as nat,
                        (sent) as nat,
                        batch_s,
                        sig_s,
                    );
                    assert(q_pre[live as int] matches FrameView::Text(t) && rem_pre.queue
                        == rem_post.queue && rem_pre.actions =~= sig_acts + seq![
                        ActionView::SendText(t),
                    ] + rem_post.actions);
                    assert(q_pre[live as int] matches FrameView::Text(t) ==> acts_view(actions@)
                        =~= acts_view(acts_pre) + sig_acts + seq![ActionView::SendText(t)]);
                    assert(total.actions =~= acts_view(actions@) + rem_post.actions);
                }
            } else {
                proof {
                    let rem_post = spec_flush(
                        frames_view(self.responses@),
                        (i + 1) as nat,
                        n0 as nat,
                        removed as nat,
                        sent as nat,
                        batch_s,
                        sig_s,
                    );
                    assert(rem_pre.queue == rem_post.queue && rem_pre.actions =~= sig_acts
                        + rem_post.actions);
                    assert(total.actions =~= acts_view(actions@) + rem_post.actions);
                }
            }
            i = i + 1;
        }
        let sender_taken = self.signal_sender.take();
        Ok((actions, sender_taken))
    }

    /// Runs one whole loop iteration: records and dispatches the incoming
    /// frame (if any), then obeys a pending stop order — in that order, so a
    /// message that arrives in the same tick as a stop order is still
    /// recorded and answered before the worker exits. An error reports a
    /// fatal misuse of the trigger surface; the frame is still recorded.
    pub fn handle_tick(&mut self, incoming_opt: Option<IncomingFrame>, stop_order: Option<bool>) -> (r:
        Result<TickOutcome, BroadcastError>)
        ensures
            ({
                let st = spec_tick(old(self)@, opt_incoming_view(incoming_opt), stop_order);
                match r {
                    Ok(out) => {
                        &&& st matches Ok(tv)
                        &&& tv.core == final(self)@
                        &&& tv.actions == acts_view(out.actions@)
                        &&& tv.terminate == out.terminate
                        &&& (out.taken_signal is Some ==> old(self)@.signal_registered)
                    },
                    Err(e) => {
                        &&& st == Err::<TickView, BroadcastError>(e)
                        &&& final(self)@.queue == old(self)@.queue
                        &&& final(self)@.signal_registered == old(self)@.signal_registered
                        &&& match incoming_opt {
                            Some(f) => final(self)@.log == old(self)@.log.push(spec_incoming(f@)),
                            None => false,
                        }
                    },
                }
            }),
    {
        let mut actions: Vec<Action> = Vec::new();
        let mut terminate: bool = false;
        let mut taken_signal: Option<crossbeam_channel::Sender<()>> = None;
        match incoming_opt {
            None => {
                proof {
                    assert(acts_view(actions@) =~= Seq::<ActionView>::empty());
                }
            },
            Some(incoming) => {
                let entry = handle_incoming_raw(&incoming);
                match entry {
                    Ok(body) => {
                        let dup = MessageBody { opcode: body.opcode.clone(), path: body.path };
                        self.requests.push(Ok(dup));
                        proof {
                            assert(log_view(self.requests@) =~= log_view(old(self).requests@).push(
                                spec_incoming(incoming@),
                            ));
                        }
                        match body.path {
                            MessagePath::Conversation(ctx) => {
                                let step = self.handle_conversational_incoming_message(&body, ctx);
                                actions = step.0;
                                terminate = step.1;
                            },
                            MessagePath::FireAndForget => {
                                if str_eq(body.opcode.as_str(), "broadcastTrigger") {
                                    match &incoming {
                                        IncomingFrame::Text(t) => {
                                            let tc = chars_of(t.as_str());
                                            match parse_broadcast_trigger(&tc) {
                                                Some(trig) => {
                                                    match self.handle_broadcast_trigger(&trig) {
                                                        Ok(step) => {
                                                            actions = step.0;
                                                            taken_signal = step.1;
                                                        },
                                                        Err(e) => {
                                                            return Err(e);
                                                        },
                                                    }
                                                },
                                                None => {
                                                    return Err(BroadcastError::MalformedTrigger);
                                                },
                                            }
                                        },
                                        IncomingFrame::NonText(_) => {
                                            proof {
                                                assert(false);
                                            }
                                            return Err(BroadcastError::MalformedTrigger);
                                        },
                                    }
                                } else {
                                    proof {
                                        assert(acts_view(actions@) =~= Seq::<ActionView>::empty());
                                    }
                                }
                            },
                        }
                    },
                    Err(raw) => {
                        let reply = self.handle_unrecognized_owned_message(raw.as_str());
                        self.requests.push(Err(raw));
                        proof {
                            assert(log_view(self.requests@) =~= log_view(old(self).requests@).push(
                                spec_incoming(incoming@),
                            ));
                        }
                        actions.push(reply);
                        proof {
                            assert(acts_view(actions@) =~= seq![reply@]);
                        }
                    },
                }
            },
        }
        if !terminate {
            match stop_order {
                Some(kill) => {
                    if !kill {
                        actions.push(Action::SendClose);
                    }
                    terminate = true;
                },
                None => {},
            }
        }
        Ok(TickOutcome { actions, terminate, taken_signal })
    }

    /// Answers an inbound text that could not be decoded with a synthesized
    /// unmarshal-error envelope embedding the offending text.
    pub fn handle_unrecognized_owned_message(&self, raw: &str) -> (r: Action)
        ensures
            r@ == ActionView::SendText(spec_unmarshal_error_text(raw@)),
    {
        Action::SendText(unmarshal_error_text(raw))
    }
}

/// A misuse of the broadcast-trigger surface; each is fatal to the test
/// harness, never recovered from.
#[derive(Clone, Copy, Debug, PartialEq, Eq, Structural)]
pub enum BroadcastError {
    /// The trigger asked for a signal, but no channel was ever registered.
    SignalWithoutSender,
    /// A channel was registered, but the trigger named no position to fire
    /// it at.
    SenderWithoutPosition,
    /// The trigger envelope's own fields could not be read.
    MalformedTrigger,
}

/// Whether a text decodes as a fire-and-forget envelope.
pub open spec fn is_fnf_text(t: Seq<char>) -> bool {
    match spec_unmarshal(t) {
        Some(b) => b.path is FireAndForget,
        None => false,
    }
}

/// The outcome of the broadcast walk: the queue it leaves behind and the
/// actions it emits.
#[verifier::ext_equal]
pub struct FlushOut {
    pub queue: Seq<FrameView>,
    pub actions: Seq<ActionView>,
}

/// The broadcast walk from original index `i`: the walk visits original
/// indices up to the snapshot bound `n0`, firing the signal when it passes
/// index `sig`, removing and sending each queued text that decodes as
/// fire-and-forget (up to `batch` of them, counted in `sent`), stopping at
/// the first text that decodes conversationally, and walking past — without
/// consuming — any frame that is not a decodable envelope. `removed` counts
/// the frames taken out so far, so the live position is `i - removed`.
pub open spec fn spec_flush(
    q: Seq<FrameView>,
    i: nat,
    n0: nat,
    removed: nat,
    sent: nat,
    batch: nat,
    sig: Option<nat>,
) -> FlushOut
    decreases n0 - i,
{
    if i >= n0 {
        FlushOut { queue: q, actions: Seq::empty() }
    } else {
        let sig_acts: Seq<ActionView> = if sig == Some(i) {
            seq![ActionView::FireSignal]
        } else {
            Seq::empty()
        };
        let live = i - removed;
        if live < 0 || live >= q.len() {
            FlushOut { queue: q, actions: sig_acts }
        } else {
            match q[live] {
                FrameView::Text(t) => {
                    if is_fnf_text(t) {
                        if sent + 1 == batch {
                            FlushOut {
                                queue: q.remove(live),
                                actions: sig_acts + seq![ActionView::SendText(t)],
                            }
                        } else {
                            let rec = spec_flush(
                                q.remove(live),
                                (i + 1) as nat,
                                n0,
                                (removed + 1) as nat,
                                (sent + 1) as nat,
                                batch,
                                sig,
                            );
                            FlushOut {
                                queue: rec.queue,
                                actions: sig_acts + seq![ActionView::SendText(t)] + rec.actions,
                            }
                        }
                    } else if spec_unmarshal(t) is Some {
                        FlushOut { queue: q, actions: sig_acts }
                    } else {
                        let rec = spec_flush(q, (i + 1) as nat, n0, removed, sent, batch, sig);
                        FlushOut { queue: rec.queue, actions: sig_acts + rec.actions }
                    }
                },
                _ => {
                    let rec = spec_flush(q, (i + 1) as nat, n0, removed, sent, batch, sig);
                    FlushOut { queue: rec.queue, actions: sig_acts + rec.actions }
                },
            }
        }
    }
}

/// The batch bound a trigger resolves to: its explicit batch size, or the
/// queue length at the moment it arrived.
pub open spec fn spec_trigger_batch(trig: BroadcastTrigger, qlen: nat) -> nat {
    match trig.batch_size_opt {
        Some(b) => b as nat,
        None => qlen,
    }
}

/// The signal position a trigger resolves to.
pub open spec fn spec_trigger_sig(trig: BroadcastTrigger) -> Option<nat> {
    match trig.signal_position_opt {
        Some(p) => Some(p as nat),
        None => None,
    }
}

/// How the walk's classification of one live frame is decided.
#[derive(Clone, Copy, Debug, PartialEq, Eq, Structural)]
enum WalkClass {
    Take,
    Stop,
    Skip,
}

/// Everything one loop iteration decides: the actions to perform in order,
/// whether the worker exits afterwards, and the synchronization channel, if
/// this tick's trigger took it out of the state (it is delivered when the
/// fire-signal action is performed).
#[derive(Debug)]
pub struct TickOutcome {
    pub actions: Vec<Action>,
    pub terminate: bool,
    pub taken_signal: Option<crossbeam_channel::Sender<()>>,
}

/// The view of an optional incoming frame.
pub open spec fn opt_incoming_view(o: Option<IncomingFrame>) -> Option<IncomingView> {
    match o {
        Some(f) => Some(f@),
        None => None,
    }
}

/// The model of one tick: the state afterwards, the actions, and whether the
/// worker terminates.
#[verifier::ext_equal]
pub struct TickView {
    pub core: CoreView,
    pub actions: Seq<ActionView>,
    pub terminate: bool,
}

/// What a broadcast trigger does, once decoded: checks the signal
/// configuration, resolves the batch bound and signal position, and runs the
/// walk; the registered channel is consumed.
pub open spec fn spec_trigger_step(core: CoreView, trig: BroadcastTrigger) -> Result<
    TickView,
    BroadcastError,
> {
    if core.signal_registered && trig.signal_position_opt is None {
        Err(BroadcastError::SenderWithoutPosition)
    } else if !core.signal_registered && trig.signal_position_opt is Some {
        Err(BroadcastError::SignalWithoutSender)
    } else {
        let f = spec_flush(
            core.queue,
            0,
            core.queue.len(),
            0,
            0,
            spec_trigger_batch(trig, core.queue.len()),
            spec_trigger_sig(trig),
        );
        Ok(
            TickView {
                core: CoreView { queue: f.queue, log: core.log, signal_registered: false },
                actions: f.actions,
                terminate: false,
            },
        )
    }
}

/// The model of one whole loop iteration: the incoming frame (if any) is
/// recorded and dispatched first; only then is a pending stop order obeyed,
/// sending a Close frame exactly when the order is a graceful stop. A
/// disconnect directive pulled from the queue terminates at once, before the
/// stop order is even looked at.
pub open spec fn spec_tick(
    core: CoreView,
    incoming: Option<IncomingView>,
    stop_order: Option<bool>,
) -> Result<TickView, BroadcastError> {
    let msg_step: Result<TickView, BroadcastError> = match incoming {
        None => Ok(TickView { core, actions: Seq::empty(), terminate: false }),
        Some(f) => {
            let entry = spec_incoming(f);
            let core1 = CoreView {
                queue: core.queue,
                log: core.log.push(entry),
                signal_registered: core.signal_registered,
            };
            match entry {
                Ok(b) => match b.path {
                    MessagePath::Conversation(ctx) => {
                        let st = spec_conversational_step(core1.queue, b.opcode, ctx);
                        Ok(
                            TickView {
                                core: CoreView {
                                    queue: st.0,
                                    log: core1.log,
                                    signal_registered: core1.signal_registered,
                                },
                                actions: st.1,
                                terminate: st.2,
                            },
                        )
                    },
                    MessagePath::FireAndForget => {
                        if b.opcode == "broadcastTrigger"@ {
                            match f {
                                IncomingView::Text(t) => match spec_parse_trigger(t) {
                                    None => Err(BroadcastError::MalformedTrigger),
                                    Some(trig) => spec_trigger_step(core1, trig),
                                },
                                IncomingView::NonText(_) => Err(BroadcastError::MalformedTrigger),
                            }
                        } else {
                            Ok(TickView { core: core1, actions: Seq::empty(), terminate: false })
                        }
                    },
                },
                Err(raw) => Ok(
                    TickView {
                        core: core1,
                        actions: seq![ActionView::SendText(spec_unmarshal_error_text(raw))],
                        terminate: false,
                    },
                ),
            }
        },
    };
    match msg_step {
        Err(e) => Err(e),
        Ok(tv) => {
            if tv.terminate {
                Ok(tv)
            } else {
                match stop_order {
                    None => Ok(tv),
                    Some(kill) => Ok(
                        TickView {
                            core: tv.core,
                            actions: if kill {
                                tv.actions
                            } else {
                                tv.actions.push(ActionView::SendClose)
                            },
                            terminate: true,
                        },
                    ),
                }
            }
        },
    }
}

/// The builder and configuration surface of the mock server: everything it
/// accumulates is pure state, observable only once the worker starts.
pub struct MockWebSocketsServer {
    pub log: bool,
    pub port: u16,
    pub protocol: String,
    pub responses: Vec<QueuedFrame>,
    pub signal_sender: Option<crossbeam_channel::Sender<()>>,
}

impl MockWebSocketsServer {
    /// A server on the given port, speaking the default sub-protocol, with
    /// an empty queue, no signal channel, and logging off.
    pub fn new(port: u16) -> (r: Self)
        ensures
            r.log == false,
            r.port == port,
            r.protocol@ == "MASQNode-UIv2"@,
            r.responses@.len() == 0,
            r.signal_sender is None,
    {
        MockWebSocketsServer {
            log: false,
            port,
            protocol: String::from_str("MASQNode-UIv2"),
            responses: Vec::new(),
            signal_sender: None,
        }
    }

    /// The configured port.
    pub fn port(&self) -> (r: u16)
        ensures
            r == self.port,
    {
        self.port
    }

    /// Appends a response envelope, marshaled to its text form.
    pub fn queue_response(self, message: MessageBody) -> (r: Self)
        ensures
            frames_view(r.responses@) == frames_view(self.responses@).push(
                FrameView::Text(spec_marshal(message.opcode@, message.path)),
            ),
            r.log == self.log && r.port == self.port && r.protocol@ == self.protocol@ && (
            r.signal_sender is Some) == (self.signal_sender is Some),
    {
        let text = marshal(&message);
        self.queue_string(text.as_str())
    }

    /// Appends a pre-encoded text response.
    pub fn queue_string(self, string: &str) -> (r: Self)
        ensures
            frames_view(r.responses@) == frames_view(self.responses@).push(
                FrameView::Text(string@),
            ),
            r.log == self.log && r.port == self.port && r.protocol@ == self.protocol@ && (
            r.signal_sender is Some) == (self.signal_sender is Some),
    {
        self.queue_owned_message(QueuedFrame::Text(string.to_owned()))
    }

    /// Appends a raw response frame.
    pub fn queue_owned_message(self, msg: QueuedFrame) -> (r: Self)
        ensures
            frames_view(r.responses@) == frames_view(self.responses@).push(msg@),
            r.log == self.log && r.port == self.port && r.protocol@ == self.protocol@ && (
            r.signal_sender is Some) == (self.signal_sender is Some),
    {
        let ghost orig = self.responses@;
        let ghost msg_view = msg@;
        let mut s = self;
        s.responses.push(msg);
        proof {
            assert(frames_view(s.responses@) =~= frames_view(orig).push(msg_view));
        }
        s
    }

    /// Registers the one-shot synchronization channel a later broadcast
    /// trigger may fire.
    pub fn inject_signal_sender(self, sender: crossbeam_channel::Sender<()>) -> (r: Self)
        ensures
            r.signal_sender is Some,
            frames_view(r.responses@) == frames_view(self.responses@),
            r.log == self.log && r.port == self.port && r.protocol@ == self.protocol@,
    {
        let mut s = self;
        s.signal_sender = Some(sender);
        s
    }

    /// Turns diagnostic logging on.
    pub fn write_logs(self) -> (r: Self)
        ensures
            r.log == true,
            frames_view(r.responses@) == frames_view(self.responses@),
            r.port == self.port && r.protocol@ == self.protocol@ && (r.signal_sender is Some) == (
            self.signal_sender is Some),
    {
        let mut s = self;
        s.log = true;
        s
    }

    /// Consumes the builder into the worker's initial state and the
    /// configuration the surrounding loop needs: the port, the protocol
    /// name, and the logging flag.
    pub fn into_worker(self) -> (r: (ServerCore, u16, String, bool))
        ensures
            r.0@.queue == frames_view(self.responses@),
            r.0@.log.len() == 0,
            r.0@.signal_registered == (self.signal_sender is Some),
            r.1 == self.port,
            r.2@ == self.protocol@,
            r.3 == self.log,
    {
        let core = ServerCore::new(self.responses, self.signal_sender);
        (core, self.port, self.protocol, self.log)
    }
}

/// What the control handle does with a stop or kill order, decided from
/// whether the worker ever signalled that it entered its loop.
#[derive(Clone, Copy, Debug, PartialEq, Eq, Structural)]
pub struct TerminationPlan {
    /// Forward the order and block until the worker thread exits; the
    /// recorded log is then recovered, even from a poisoned guard.
    pub join_worker: bool,
    /// A Close frame is owed to the peer before the worker exits.
    pub expect_close: bool,
    /// The worker never reached its loop: abandon it and hand back an empty
    /// log rather than wait forever.
    pub abandon_with_empty_log: bool,
}

/// Decides the termination path: a worker that entered its loop is ordered
/// to stop and joined (gracefully — with a Close frame — unless killed); one
/// that never did is abandoned, and the caller gets an empty log at once.
pub fn resolve_termination(looping_started: bool, kill: bool) -> (r: TerminationPlan)
    ensures
        r.join_worker == looping_started,
        r.expect_close == (looping_started && !kill),
        r.abandon_with_empty_log == !looping_started,
{
    TerminationPlan {
        join_worker: looping_started,
        expect_close: looping_started && !kill,
        abandon_with_empty_log: !looping_started,
    }
}

/// What decoding an incoming frame records in the log: the envelope when the
/// text decodes, otherwise the raw text (or the description of a non-text
/// frame).
pub open spec fn spec_incoming(f: IncomingView) -> Result<BodyView, Seq<char>> {
    match f {
        IncomingView::Text(t) => match spec_unmarshal(t) {
            Some(b) => Ok(b),
            None => Err(t),
        },
        IncomingView::NonText(d) => Err(d),
    }
}

/// Decodes one incoming frame into a request-log entry.
pub fn handle_incoming_raw(incoming: &IncomingFrame) -> (r: Result<MessageBody, String>)
    ensures
        log_entry_view(r) == spec_incoming(incoming@),
{
    match incoming {
        IncomingFrame::Text(t) => {
            let tc = chars_of(t.as_str());
            match unmarshal_chars(&tc) {
                Some(b) => Ok(b),
                None => Err(t.clone()),
            }
        },
        IncomingFrame::NonText(d) => Err(d.clone()),
    }
}

} // verus!

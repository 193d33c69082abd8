//! The data model of the protocol: queued outbound frames, decoded inbound
//! envelopes, and the entries of the request log.

use vstd::prelude::*;

verus! {

/// An outbound frame pre-loaded into the response queue.
#[derive(Clone, Debug, PartialEq)]
pub enum QueuedFrame {
    Text(String),
    Binary(Vec<u8>),
    Close,
}

/// The routing of a decoded envelope: a conversational exchange correlated by
/// a context id, or a one-way fire-and-forget message.
#[derive(Clone, Copy, Debug, PartialEq, Eq, Structural)]
pub enum MessagePath {
    Conversation(u64),
    FireAndForget,
}

/// A decoded protocol envelope.
#[derive(Clone, Debug, PartialEq)]
pub struct MessageBody {
    pub opcode: String,
    pub path: MessagePath,
}

/// The mathematical value of a queued frame.
pub enum FrameView {
    Text(Seq<char>),
    Binary(Seq<u8>),
    Close,
}

impl View for QueuedFrame {
    type V = FrameView;

    open spec fn view(&self) -> FrameView {
        match self {
            QueuedFrame::Text(s) => FrameView::Text(s@),
            QueuedFrame::Binary(b) => FrameView::Binary(b@),
            QueuedFrame::Close => FrameView::Close,
        }
    }
}

/// The mathematical value of a decoded envelope.
pub struct BodyView {
    pub opcode: Seq<char>,
    pub path: MessagePath,
}

impl View for MessageBody {
    type V = BodyView;

    open spec fn view(&self) -> BodyView {
        BodyView { opcode: self.opcode@, path: self.path }
    }
}

/// A control message from the peer asking that queued fire-and-forget frames
/// be flushed to the wire.
#[derive(Clone, Copy, Debug, PartialEq)]
pub struct BroadcastTrigger {
    pub batch_size_opt: Option<u64>,
    pub signal_position_opt: Option<u64>,
}

/// The outcome of scanning an envelope for one numeric field.
#[derive(Clone, Copy, Debug, PartialEq, Eq, Structural)]
pub enum NumField {
    Absent,
    Present(u64),
    Malformed,
}

} // verus!

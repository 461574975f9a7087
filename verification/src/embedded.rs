//! The embedded variant of the relay: the same capability as a session, but
//! exposed to a local embedding host through direct request/response calls
//! plus asynchronously published events, instead of a framed channel.
//!
//! The host performs the I/O (the dial, the socket reads and writes, the
//! queue) and calls these functions for every decision: what to store, what
//! to answer, which event to publish, which tasks to start. The connection
//! bookkeeping holds only the presence of the two handles; a disconnect
//! clears them without cancelling an in-flight reader task — the superseded
//! task keeps running until its read ends, exactly as this variant's
//! interface promises (and no more).

use vstd::prelude::*;

use crate::text;

verus! {

/// The shared connection bookkeeping of the embedded relay.
#[derive(Debug, Clone, PartialEq, Eq)]
pub struct ConnectionState {
    /// An upstream link handle is stored.
    pub stream: bool,
    /// A send-queue sender accepting outbound payloads is stored.
    pub tx: bool,
}

impl ConnectionState {
    /// The bookkeeping invariant: the link handle and the queue sender are
    /// present together — one is never stored without the other.
    pub open spec fn wf(&self) -> bool {
        self.stream == self.tx
    }

    /// A fresh state: nothing stored.
    pub fn new() -> (s: ConnectionState)
        ensures
            s == (ConnectionState { stream: false, tx: false }),
            s.wf(),
    {
        ConnectionState { stream: false, tx: false }
    }
}

/// An event published to the embedding host.
#[derive(Debug, Clone, PartialEq, Eq)]
pub enum HostEvent {
    /// The link came up or went down, with the error text on a failure.
    Connection { connected: bool, error: Option<Vec<u8>> },
    /// A payload chunk arrived from upstream.
    PacketReceived { data: Vec<u8> },
}

/// The mathematical model of a [`HostEvent`].
#[verifier::ext_equal]
pub enum HostEventModel {
    Connection { connected: bool, error: Option<Seq<u8>> },
    PacketReceived { data: Seq<u8> },
}

impl View for HostEvent {
    type V = HostEventModel;

    open spec fn view(&self) -> HostEventModel {
        match self {
            HostEvent::Connection { connected, error } => HostEventModel::Connection {
                connected: *connected,
                error: crate::codec::opt_view(*error),
            },
            HostEvent::PacketReceived { data } => HostEventModel::PacketReceived { data: data@ },
        }
    }
}

/// What the host's dial returned.
#[derive(Debug, Clone, PartialEq, Eq)]
pub enum DialOutcome {
    Succeeded,
    Failed { error: Vec<u8> },
}

/// Everything a connect request decides: the reply to the caller, the event
/// to publish, and whether to start the reader and writer tasks.
#[derive(Debug, PartialEq, Eq)]
pub struct ConnectOutcome {
    /// The request's reply: the success text, or the failure text.
    pub response: Result<Vec<u8>, Vec<u8>>,
    /// The event to publish to the host, if any.
    pub event: Option<HostEvent>,
    /// Start a reader task on the new link's read half.
    pub spawn_reader: bool,
    /// Start a writer task draining the send queue into the write half.
    pub spawn_writer: bool,
}

/// The model of a reply: the view of whichever text it carries.
pub open spec fn res_view(r: Result<Vec<u8>, Vec<u8>>) -> Result<Seq<u8>, Seq<u8>> {
    match r {
        Ok(v) => Ok(v@),
        Err(v) => Err(v@),
    }
}

/// The model of an optional host event.
pub open spec fn opt_event_view(o: Option<HostEvent>) -> Option<HostEventModel> {
    match o {
        Some(e) => Some(e@),
        None => None,
    }
}

impl ConnectionState {
    /// Decides a connect request from the outcome of the host's dial. On
    /// success both handles are stored (silently replacing any previous
    /// ones), a connected event is published and both tasks are started; on
    /// failure nothing changes and the reply carries the prefixed, never
    /// empty, failure text.
    pub fn tcp_connect(&mut self, dial: DialOutcome) -> (r: ConnectOutcome)
        requires
            old(self).wf(),
        ensures
            final(self).wf(),
            match dial {
                DialOutcome::Succeeded => *final(self) == (ConnectionState { stream: true, tx: true })
                    && res_view(r.response) == Ok::<_, Seq<u8>>(text::resp_connected())
                    && opt_event_view(r.event) == Some(
                    HostEventModel::Connection { connected: true, error: None },
                ) && r.spawn_reader && r.spawn_writer,
                DialOutcome::Failed { error } => *final(self) == *old(self) && res_view(r.response)
                    == Err::<Seq<u8>, _>(text::dial_fail_pre() + error@) && (text::dial_fail_pre()
                    + error@).len() > 0 && opt_event_view(r.event) == None::<HostEventModel>
                    && !r.spawn_reader && !r.spawn_writer,
            },
    {
        match dial {
            DialOutcome::Succeeded => {
                self.stream = true;
                self.tx = true;
                let mut response: Vec<u8> = Vec::new();
                text::push_resp_connected(&mut response);
                proof {
                    assert(Seq::<u8>::empty() + text::resp_connected() =~= text::resp_connected());
                }
                ConnectOutcome {
                    response: Ok(response),
                    event: Some(HostEvent::Connection { connected: true, error: None }),
                    spawn_reader: true,
                    spawn_writer: true,
                }
            },
            DialOutcome::Failed { error } => {
                let mut message: Vec<u8> = Vec::new();
                text::push_dial_fail_pre(&mut message);
                text::push_bytes(&mut message, error.as_slice());
                proof {
                    assert((Seq::<u8>::empty() + text::dial_fail_pre()) + error@
                        =~= text::dial_fail_pre() + error@);
                }
                ConnectOutcome {
                    response: Err(message),
                    event: None,
                    spawn_reader: false,
                    spawn_writer: false,
                }
            },
        }
    }
}

/// The decision on a send request.
#[derive(Debug, Clone, PartialEq, Eq)]
pub enum SendDecision {
    /// Enqueue the payload on the send queue and reply with the success text.
    Enqueue { data: Vec<u8>, response: Vec<u8> },
    /// No queue exists: reply with the not-connected error.
    Rejected { error: Vec<u8> },
}

impl ConnectionState {
    /// Decides a send request: the payload is enqueued, unchanged, exactly
    /// when a send-queue sender is stored; it never touches the network
    /// directly and never changes the stored handles.
    pub fn tcp_send(&self, data: Vec<u8>) -> (r: SendDecision)
        ensures
            match r {
                SendDecision::Enqueue { data: queued, response } => self.tx && queued@ == data@
                    && response@ == text::resp_sent(),
                SendDecision::Rejected { error } => !self.tx && error@
                    == text::msg_not_connected(),
            },
    {
        if self.tx {
            let mut response: Vec<u8> = Vec::new();
            text::push_resp_sent(&mut response);
            proof {
                assert(Seq::<u8>::empty() + text::resp_sent() =~= text::resp_sent());
            }
            SendDecision::Enqueue { data, response }
        } else {
            let mut error: Vec<u8> = Vec::new();
            text::push_msg_not_connected(&mut error);
            proof {
                assert(Seq::<u8>::empty() + text::msg_not_connected()
                    =~= text::msg_not_connected());
            }
            SendDecision::Rejected { error }
        }
    }

    /// Decides a disconnect request: both handles are cleared together and
    /// the reply carries the success text. An in-flight reader task is not
    /// cancelled; its later reports stand for themselves.
    pub fn tcp_disconnect(&mut self) -> (r: Vec<u8>)
        ensures
            *final(self) == (ConnectionState { stream: false, tx: false }),
            final(self).wf(),
            r@ == text::resp_disconnected(),
    {
        self.stream = false;
        self.tx = false;
        let mut response: Vec<u8> = Vec::new();
        text::push_resp_disconnected(&mut response);
        proof {
            assert(Seq::<u8>::empty() + text::resp_disconnected() =~= text::resp_disconnected());
        }
        response
    }

    /// Reports whether an upstream link handle is stored: a pure read.
    pub fn tcp_is_connected(&self) -> (r: bool)
        ensures
            r == self.stream,
    {
        self.stream
    }
}

/// What one upstream read returned, as the reader task observed it.
#[derive(Debug, Clone, PartialEq, Eq)]
pub enum ReadOutcome {
    /// Zero bytes: end-of-stream.
    Eof,
    /// A non-empty chunk.
    Data { data: Vec<u8> },
    /// A read error, with its text.
    Failed { error: Vec<u8> },
}

/// The mathematical model of a [`ReadOutcome`].
#[verifier::ext_equal]
pub enum ReadOutcomeModel {
    Eof,
    Data { data: Seq<u8> },
    Failed { error: Seq<u8> },
}

impl View for ReadOutcome {
    type V = ReadOutcomeModel;

    open spec fn view(&self) -> ReadOutcomeModel {
        match self {
            ReadOutcome::Eof => ReadOutcomeModel::Eof,
            ReadOutcome::Data { data } => ReadOutcomeModel::Data { data: data@ },
            ReadOutcome::Failed { error } => ReadOutcomeModel::Failed { error: error@ },
        }
    }
}

/// The reader task's decision after one read.
#[derive(Debug, Clone, PartialEq, Eq)]
pub enum ReaderDecision {
    /// Publish the event and keep reading.
    Deliver { event: HostEvent },
    /// Publish the event and stop: the link is gone.
    Stop { event: HostEvent },
}

/// The mathematical model of a [`ReaderDecision`].
#[verifier::ext_equal]
pub enum ReaderDecisionModel {
    Deliver { event: HostEventModel },
    Stop { event: HostEventModel },
}

impl View for ReaderDecision {
    type V = ReaderDecisionModel;

    open spec fn view(&self) -> ReaderDecisionModel {
        match self {
            ReaderDecision::Deliver { event } => ReaderDecisionModel::Deliver { event: event@ },
            ReaderDecision::Stop { event } => ReaderDecisionModel::Stop { event: event@ },
        }
    }
}

/// The decision the reader task takes after one read: a chunk is published
/// as a packet event and reading goes on; end-of-stream and a read error
/// each publish exactly one disconnected event and stop the task.
pub open spec fn reader_step_spec(o: ReadOutcomeModel) -> ReaderDecisionModel {
    match o {
        ReadOutcomeModel::Eof => ReaderDecisionModel::Stop {
            event: HostEventModel::Connection {
                connected: false,
                error: Some(text::reason_closed()),
            },
        },
        ReadOutcomeModel::Data { data } => ReaderDecisionModel::Deliver {
            event: HostEventModel::PacketReceived { data },
        },
        ReadOutcomeModel::Failed { error } => ReaderDecisionModel::Stop {
            event: HostEventModel::Connection { connected: false, error: Some(error) },
        },
    }
}

/// Performs the reader task's decision after one upstream read.
pub fn reader_step(outcome: ReadOutcome) -> (r: ReaderDecision)
    ensures
        r@ == reader_step_spec(outcome@),
{
    match outcome {
        ReadOutcome::Eof => {
            let mut reason: Vec<u8> = Vec::new();
            text::push_reason_closed(&mut reason);
            proof {
                assert(Seq::<u8>::empty() + text::reason_closed() =~= text::reason_closed());
            }
            ReaderDecision::Stop {
                event: HostEvent::Connection { connected: false, error: Some(reason) },
            }
        },
        ReadOutcome::Data { data } => ReaderDecision::Deliver {
            event: HostEvent::PacketReceived { data },
        },
        ReadOutcome::Failed { error } => ReaderDecision::Stop {
            event: HostEvent::Connection { connected: false, error: Some(error) },
        },
    }
}

} // verus!

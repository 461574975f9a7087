//! The per-session state machine of the relay: one framed channel against at
//! most one upstream link. The machine is a pure transition function from the
//! current state and one observed input (a frame from the channel, the
//! outcome of a dial or a write, a report from the reader task) to the next
//! state and the ordered actions the surrounding tasks must perform. The
//! loop that owns the sockets performs each action and feeds the outcome
//! back in as the next input.
//!
//! Reader tasks are identified by a number the session issues; a reader that
//! has been superseded keeps its old number, so anything it still reports is
//! recognized as stale and dropped.

use vstd::prelude::*;

use crate::codec;
use crate::codec::{CmdModel, Command, Event, EventModel};
use crate::text;

verus! {

/// The lifecycle of a session's upstream link.
#[derive(Debug, Clone, Copy, PartialEq, Eq)]
pub enum SessionState {
    /// No upstream link.
    Idle,
    /// An upstream dial is outstanding; the previous link is already torn down.
    Connecting,
    /// An upstream link is live and the reader task with this id runs on it.
    Connected { reader: u64 },
}

/// The per-client session: the state of its upstream link and the source of
/// fresh reader-task ids.
#[derive(Debug, Clone, PartialEq, Eq)]
pub struct Session {
    pub state: SessionState,
    pub next_reader: u64,
}

/// What the relay loop observed.
#[derive(Debug, Clone, PartialEq, Eq)]
pub enum Input {
    /// A text frame from the framed channel: control input.
    Text { data: Vec<u8> },
    /// A binary frame from the framed channel: opaque payload for upstream.
    Binary { data: Vec<u8> },
    /// The framed channel ended (a close frame or a channel error).
    ChannelClosed,
    /// The outstanding dial succeeded.
    DialOk,
    /// The outstanding dial failed, with the error text.
    DialFailed { error: Vec<u8> },
    /// An upstream write or flush failed, with the error text.
    WriteFailed { error: Vec<u8> },
    /// The reader task with this id read a chunk of payload.
    ReaderData { reader: u64, data: Vec<u8> },
    /// The reader task with this id saw end-of-stream.
    ReaderEof { reader: u64 },
    /// The reader task with this id saw a read error, with the error text.
    ReaderFailed { reader: u64, error: Vec<u8> },
}

/// The mathematical model of an [`Input`].
#[verifier::ext_equal]
pub enum InputModel {
    Text { data: Seq<u8> },
    Binary { data: Seq<u8> },
    ChannelClosed,
    DialOk,
    DialFailed { error: Seq<u8> },
    WriteFailed { error: Seq<u8> },
    ReaderData { reader: u64, data: Seq<u8> },
    ReaderEof { reader: u64 },
    ReaderFailed { reader: u64, error: Seq<u8> },
}

impl View for Input {
    type V = InputModel;

    open spec fn view(&self) -> InputModel {
        match self {
            Input::Text { data } => InputModel::Text { data: data@ },
            Input::Binary { data } => InputModel::Binary { data: data@ },
            Input::ChannelClosed => InputModel::ChannelClosed,
            Input::DialOk => InputModel::DialOk,
            Input::DialFailed { error } => InputModel::DialFailed { error: error@ },
            Input::WriteFailed { error } => InputModel::WriteFailed { error: error@ },
            Input::ReaderData { reader, data } => InputModel::ReaderData {
                reader: *reader,
                data: data@,
            },
            Input::ReaderEof { reader } => InputModel::ReaderEof { reader: *reader },
            Input::ReaderFailed { reader, error } => InputModel::ReaderFailed {
                reader: *reader,
                error: error@,
            },
        }
    }
}

/// What the relay loop must perform, in the order given.
#[derive(Debug, Clone, PartialEq, Eq)]
pub enum Action {
    /// Cancel the reader task with this id and close its read half.
    CancelReader { reader: u64 },
    /// Dial `host:port` upstream; report back `DialOk` or `DialFailed`.
    Dial { host: Vec<u8>, port: u16 },
    /// Spawn a reader task with this id on the just-dialed link's read half.
    SpawnReader { reader: u64 },
    /// Write this payload to the upstream write half and flush it.
    WriteUpstream { data: Vec<u8> },
    /// Queue this event for the framed channel, as an encoded text frame.
    Emit { event: Event },
    /// Queue this payload for the framed channel, as a binary frame.
    Forward { data: Vec<u8> },
}

/// The mathematical model of an [`Action`].
#[verifier::ext_equal]
pub enum ActionModel {
    CancelReader { reader: u64 },
    Dial { host: Seq<u8>, port: u16 },
    SpawnReader { reader: u64 },
    WriteUpstream { data: Seq<u8> },
    Emit { event: EventModel },
    Forward { data: Seq<u8> },
}

impl View for Action {
    type V = ActionModel;

    open spec fn view(&self) -> ActionModel {
        match self {
            Action::CancelReader { reader } => ActionModel::CancelReader { reader: *reader },
            Action::Dial { host, port } => ActionModel::Dial { host: host@, port: *port },
            Action::SpawnReader { reader } => ActionModel::SpawnReader { reader: *reader },
            Action::WriteUpstream { data } => ActionModel::WriteUpstream { data: data@ },
            Action::Emit { event } => ActionModel::Emit { event: event@ },
            Action::Forward { data } => ActionModel::Forward { data: data@ },
        }
    }
}

/// The model of an error event with the given message.
pub open spec fn ev_error(message: Seq<u8>) -> ActionModel {
    ActionModel::Emit { event: EventModel::Error { message } }
}

/// The model of a disconnect notice with the given reason.
pub open spec fn ev_disconnect(reason: Seq<u8>) -> ActionModel {
    ActionModel::Emit { event: EventModel::Disconnect { reason: Some(reason) } }
}

/// The model of a connect ack.
pub open spec fn ev_connect(ok: bool, error: Option<Seq<u8>>) -> ActionModel {
    ActionModel::Emit { event: EventModel::Connect { ok, error } }
}

impl Session {
    /// A fresh session: no upstream link, no reader ever issued.
    pub fn new() -> (s: Session)
        ensures
            s == (Session { state: SessionState::Idle, next_reader: 0 }),
    {
        Session { state: SessionState::Idle, next_reader: 0 }
    }

    /// The id of the live reader task, if one runs.
    pub open spec fn live_reader(&self) -> Option<u64> {
        match self.state {
            SessionState::Connected { reader } => Some(reader),
            _ => None,
        }
    }

    /// Well-formedness: a live reader carries an id issued before the next
    /// fresh one, so a newly issued id can never collide with it.
    pub open spec fn wf(&self) -> bool {
        match self.state {
            SessionState::Connected { reader } => reader < self.next_reader,
            _ => true,
        }
    }
}

/// The teardown of the current link: cancel the live reader task, if any.
pub open spec fn cancel_actions(s: Session) -> Seq<ActionModel> {
    match s.state {
        SessionState::Connected { reader } => seq![ActionModel::CancelReader { reader }],
        _ => Seq::empty(),
    }
}

/// A control frame arrived: a connect tears the old link down and dials, a
/// disconnect tears down and notifies, and malformed input is answered with
/// one error event and no state change.
pub open spec fn step_text(s: Session, data: Seq<u8>) -> (Session, Seq<ActionModel>) {
    match codec::parse_cmd(data) {
        Some(CmdModel::Connect { host, port }) => (
            Session { state: SessionState::Connecting, ..s },
            cancel_actions(s) + seq![ActionModel::Dial { host, port }],
        ),
        Some(CmdModel::Disconnect) => (
            Session { state: SessionState::Idle, ..s },
            cancel_actions(s) + seq![ev_disconnect(text::reason_client())],
        ),
        None => (s, seq![ev_error(text::msg_invalid())]),
    }
}

/// A payload frame arrived: forwarded upstream when a link is live, answered
/// with one error event and no upstream write otherwise.
pub open spec fn step_binary(s: Session, data: Seq<u8>) -> (Session, Seq<ActionModel>) {
    match s.state {
        SessionState::Connected { .. } => (s, seq![ActionModel::WriteUpstream { data }]),
        _ => (s, seq![ev_error(text::msg_not_connected())]),
    }
}

/// The dial succeeded: install the link, spawn a fresh reader, ack.
pub open spec fn step_dial_ok(s: Session) -> (Session, Seq<ActionModel>) {
    match s.state {
        SessionState::Connecting => (
            Session {
                state: SessionState::Connected { reader: s.next_reader },
                next_reader: (s.next_reader + 1) as u64,
            },
            seq![ActionModel::SpawnReader { reader: s.next_reader }, ev_connect(true, None)],
        ),
        _ => (s, Seq::empty()),
    }
}

/// The dial failed: report it and return to idle; the failure text carries
/// a fixed prefix, so it is never empty.
pub open spec fn step_dial_failed(s: Session, error: Seq<u8>) -> (Session, Seq<ActionModel>) {
    match s.state {
        SessionState::Connecting => (
            Session { state: SessionState::Idle, ..s },
            seq![ev_connect(false, Some(text::dial_fail_pre() + error))],
        ),
        _ => (s, Seq::empty()),
    }
}

/// An upstream write or flush failed: the link is torn down as a whole (the
/// reader task is cancelled with it) and one disconnect notice is emitted.
pub open spec fn step_write_failed(s: Session, error: Seq<u8>) -> (Session, Seq<ActionModel>) {
    match s.state {
        SessionState::Connected { reader } => (
            Session { state: SessionState::Idle, ..s },
            seq![ActionModel::CancelReader { reader }, ev_disconnect(error)],
        ),
        _ => (s, Seq::empty()),
    }
}

/// A reader reported a payload chunk: forwarded to the channel only when the
/// report comes from the live reader; a stale reader's bytes are dropped.
pub open spec fn step_reader_data(s: Session, reader: u64, data: Seq<u8>) -> (
    Session,
    Seq<ActionModel>,
) {
    if s.live_reader() == Some(reader) {
        (s, seq![ActionModel::Forward { data }])
    } else {
        (s, Seq::empty())
    }
}

/// The live reader ended (end-of-stream or read error): the link is cleared
/// and exactly one disconnect notice with the given reason is emitted. A
/// stale reader's termination is ignored.
pub open spec fn step_reader_end(s: Session, reader: u64, reason: Seq<u8>) -> (
    Session,
    Seq<ActionModel>,
) {
    if s.live_reader() == Some(reader) {
        (Session { state: SessionState::Idle, ..s }, seq![ev_disconnect(reason)])
    } else {
        (s, Seq::empty())
    }
}

/// The framed channel ended: tear the link down without emitting anything.
pub open spec fn step_closed(s: Session) -> (Session, Seq<ActionModel>) {
    (Session { state: SessionState::Idle, ..s }, cancel_actions(s))
}

/// The transition function of the session state machine.
pub open spec fn step(s: Session, inp: InputModel) -> (Session, Seq<ActionModel>) {
    match inp {
        InputModel::Text { data } => step_text(s, data),
        InputModel::Binary { data } => step_binary(s, data),
        InputModel::ChannelClosed => step_closed(s),
        InputModel::DialOk => step_dial_ok(s),
        InputModel::DialFailed { error } => step_dial_failed(s, error),
        InputModel::WriteFailed { error } => step_write_failed(s, error),
        InputModel::ReaderData { reader, data } => step_reader_data(s, reader, data),
        InputModel::ReaderEof { reader } => step_reader_end(s, reader, text::reason_closed()),
        InputModel::ReaderFailed { reader, error } => step_reader_end(s, reader, error),
    }
}

/// A fresh byte vector holding the client-requested disconnect reason.
fn vec_reason_client() -> (v: Vec<u8>)
    ensures
        v@ == text::reason_client(),
{
    let mut v: Vec<u8> = Vec::new();
    text::push_reason_client(&mut v);
    proof {
        assert(Seq::<u8>::empty() + text::reason_client() =~= text::reason_client());
    }
    v
}

/// A fresh byte vector holding the end-of-stream disconnect reason.
fn vec_reason_closed() -> (v: Vec<u8>)
    ensures
        v@ == text::reason_closed(),
{
    let mut v: Vec<u8> = Vec::new();
    text::push_reason_closed(&mut v);
    proof {
        assert(Seq::<u8>::empty() + text::reason_closed() =~= text::reason_closed());
    }
    v
}

/// A fresh byte vector holding the malformed-input error message.
fn vec_msg_invalid() -> (v: Vec<u8>)
    ensures
        v@ == text::msg_invalid(),
{
    let mut v: Vec<u8> = Vec::new();
    text::push_msg_invalid(&mut v);
    proof {
        assert(Seq::<u8>::empty() + text::msg_invalid() =~= text::msg_invalid());
    }
    v
}

/// A fresh byte vector holding the no-link error message.
fn vec_msg_not_connected() -> (v: Vec<u8>)
    ensures
        v@ == text::msg_not_connected(),
{
    let mut v: Vec<u8> = Vec::new();
    text::push_msg_not_connected(&mut v);
    proof {
        assert(Seq::<u8>::empty() + text::msg_not_connected() =~= text::msg_not_connected());
    }
    v
}

/// A fresh byte vector holding the dial-failure text: the fixed prefix
/// followed by the dial error.
fn vec_dial_failure(error: &Vec<u8>) -> (v: Vec<u8>)
    ensures
        v@ == text::dial_fail_pre() + error@,
{
    let mut v: Vec<u8> = Vec::new();
    text::push_dial_fail_pre(&mut v);
    text::push_bytes(&mut v, error.as_slice());
    proof {
        assert((Seq::<u8>::empty() + text::dial_fail_pre()) + error@ =~= text::dial_fail_pre()
            + error@);
    }
    v
}

impl Session {
    /// Performs one transition of the state machine: hands back the actions
    /// the relay loop must perform, in order, and moves to the next state.
    pub fn handle(&mut self, input: Input) -> (actions: Vec<Action>)
        requires
            old(self).wf(),
            old(self).next_reader < u64::MAX,
        ensures
            *final(self) == step(*old(self), input@).0,
            actions@.map_values(|a: Action| a@) == step(*old(self), input@).1,
            final(self).wf(),
    {
        let ghost pre = *old(self);
        let ghost goal = step(*old(self), input@).1;
        let mut actions: Vec<Action> = Vec::new();
        match input {
            Input::Text { data } => {
                match codec::parse_command(data.as_slice()) {
                    Some(Command::Connect { host, port }) => {
                        if let SessionState::Connected { reader } = self.state {
                            actions.push(Action::CancelReader { reader });
                        }
                        actions.push(Action::Dial { host, port });
                        self.state = SessionState::Connecting;
                    },
                    Some(Command::Disconnect) => {
                        if let SessionState::Connected { reader } = self.state {
                            actions.push(Action::CancelReader { reader });
                        }
                        actions.push(
                            Action::Emit {
                                event: Event::Disconnect { reason: Some(vec_reason_client()) },
                            },
                        );
                        self.state = SessionState::Idle;
                    },
                    None => {
                        actions.push(Action::Emit { event: Event::Error { message: vec_msg_invalid() } });
                    },
                }
            },
            Input::Binary { data } => {
                match self.state {
                    SessionState::Connected { .. } => {
                        actions.push(Action::WriteUpstream { data });
                    },
                    _ => {
                        actions.push(
                            Action::Emit { event: Event::Error { message: vec_msg_not_connected() } },
                        );
                    },
                }
            },
            Input::ChannelClosed => {
                if let SessionState::Connected { reader } = self.state {
                    actions.push(Action::CancelReader { reader });
                }
                self.state = SessionState::Idle;
            },
            Input::DialOk => {
                if let SessionState::Connecting = self.state {
                    let reader: u64 = self.next_reader;
                    actions.push(Action::SpawnReader { reader });
                    actions.push(
                        Action::Emit { event: Event::Connect { ok: true, error: None } },
                    );
                    self.state = SessionState::Connected { reader };
                    self.next_reader = reader + 1;
                }
            },
            Input::DialFailed { error } => {
                if let SessionState::Connecting = self.state {
                    actions.push(
                        Action::Emit {
                            event: Event::Connect {
                                ok: false,
                                error: Some(vec_dial_failure(&error)),
                            },
                        },
                    );
                    self.state = SessionState::Idle;
                }
            },
            Input::WriteFailed { error } => {
                if let SessionState::Connected { reader } = self.state {
                    actions.push(Action::CancelReader { reader });
                    actions.push(
                        Action::Emit { event: Event::Disconnect { reason: Some(error) } },
                    );
                    self.state = SessionState::Idle;
                }
            },
            Input::ReaderData { reader, data } => {
                if let SessionState::Connected { reader: live } = self.state {
                    if live == reader {
                        actions.push(Action::Forward { data });
                    }
                }
            },
            Input::ReaderEof { reader } => {
                if let SessionState::Connected { reader: live } = self.state {
                    if live == reader {
                        actions.push(
                            Action::Emit {
                                event: Event::Disconnect { reason: Some(vec_reason_closed()) },
                            },
                        );
                        self.state = SessionState::Idle;
                    }
                }
            },
            Input::ReaderFailed { reader, error } => {
                if let SessionState::Connected { reader: live } = self.state {
                    if live == reader {
                        actions.push(
                            Action::Emit { event: Event::Disconnect { reason: Some(error) } },
                        );
                        self.state = SessionState::Idle;
                    }
                }
            },
        }
        proof {
            assert(actions@.map_values(|a: Action| a@) =~~= goal);
        }
        actions
    }
}

/// The reader left alive after one action: a spawn brings its reader to
/// life, a cancel removes the live one, everything else changes nothing.
pub open spec fn apply_action(live: Option<u64>, a: ActionModel) -> Option<u64> {
    match a {
        ActionModel::SpawnReader { reader } => Some(reader),
        ActionModel::CancelReader { reader } => if live == Some(reader) {
            None
        } else {
            live
        },
        _ => live,
    }
}

/// The reader left alive after a list of actions, performed in order.
pub open spec fn live_after(live: Option<u64>, acts: Seq<ActionModel>) -> Option<u64>
    decreases acts.len(),
{
    if acts.len() == 0 {
        live
    } else {
        live_after(apply_action(live, acts[0]), acts.drop_first())
    }
}

/// Whether every spawn in the list happens at an instant with no live
/// reader: the teardown of the old reader always precedes the new spawn.
pub open spec fn spawns_from_none(live: Option<u64>, acts: Seq<ActionModel>) -> bool
    decreases acts.len(),
{
    if acts.len() == 0 {
        true
    } else {
        (acts[0] is SpawnReader ==> live is None) && spawns_from_none(
            apply_action(live, acts[0]),
            acts.drop_first(),
        )
    }
}

proof fn lemma_live_after_one(live: Option<u64>, a: ActionModel)
    ensures
        live_after(live, seq![a]) == apply_action(live, a),
        spawns_from_none(live, seq![a]) == (a is SpawnReader ==> live is None),
{
    reveal_with_fuel(live_after, 2);
    reveal_with_fuel(spawns_from_none, 2);
    assert(seq![a].drop_first() =~= Seq::<ActionModel>::empty());
    assert(seq![a][0] == a);
}

proof fn lemma_live_after_two(live: Option<u64>, a: ActionModel, b: ActionModel)
    ensures
        live_after(live, seq![a, b]) == apply_action(apply_action(live, a), b),
        spawns_from_none(live, seq![a, b]) == ((a is SpawnReader ==> live is None) && (
        b is SpawnReader ==> apply_action(live, a) is None)),
{
    assert(seq![a, b].drop_first() =~= seq![b]);
    lemma_live_after_one(apply_action(live, a), b);
}

/// The reader left alive after the observed input itself: a reader that
/// reports its own end-of-stream or read error has terminated on its own.
pub open spec fn live_after_input(live: Option<u64>, inp: InputModel) -> Option<u64> {
    match inp {
        InputModel::ReaderEof { reader } => if live == Some(reader) {
            None
        } else {
            live
        },
        InputModel::ReaderFailed { reader, .. } => if live == Some(reader) {
            None
        } else {
            live
        },
        _ => live,
    }
}

/// At most one upstream reader task is alive at any instant, under every
/// interleaving of inputs: within each step, every spawn happens only after
/// the previously live reader was cancelled or terminated on its own, and
/// the reader recorded in the next state is exactly the one left alive by
/// the observed input and the step's actions.
pub proof fn lemma_single_reader(s: Session, inp: InputModel)
    requires
        s.wf(),
        s.next_reader < u64::MAX,
    ensures
        spawns_from_none(live_after_input(s.live_reader(), inp), step(s, inp).1),
        live_after(live_after_input(s.live_reader(), inp), step(s, inp).1) == step(
            s,
            inp,
        ).0.live_reader(),
{
    let live = live_after_input(s.live_reader(), inp);
    let acts = step(s, inp).1;
    if acts.len() == 0 {
    } else if acts.len() == 1 {
        lemma_live_after_one(live, acts[0]);
        assert(acts =~= seq![acts[0]]);
    } else {
        assert(acts.len() == 2);
        lemma_live_after_two(live, acts[0], acts[1]);
        assert(acts =~= seq![acts[0], acts[1]]);
    }
}

/// A payload sent while no link is live yields exactly one error event,
/// performs no upstream write, and changes nothing.
pub proof fn lemma_payload_without_link(s: Session, data: Seq<u8>)
    requires
        !(s.state is Connected),
    ensures
        step(s, InputModel::Binary { data }).0 == s,
        step(s, InputModel::Binary { data }).1 =~= seq![ev_error(text::msg_not_connected())],
        forall|k: int|
            0 <= k < step(s, InputModel::Binary { data }).1.len() ==> !(step(
                s,
                InputModel::Binary { data },
            ).1[k] is WriteUpstream),
{
    assert(Session { state: s.state, next_reader: s.next_reader } == s);
}

/// An upstream end-of-stream yields exactly one disconnect notice, and a
/// payload sent afterwards is answered with the not-connected error.
pub proof fn lemma_eof_then_payload(s: Session, reader: u64, data: Seq<u8>)
    requires
        s.state == (SessionState::Connected { reader }),
    ensures
        step(s, InputModel::ReaderEof { reader }).1 =~= seq![
            ev_disconnect(text::reason_closed()),
        ],
        step(s, InputModel::ReaderEof { reader }).0.state is Idle,
        step(step(s, InputModel::ReaderEof { reader }).0, InputModel::Binary { data }).1 =~= seq![
            ev_error(text::msg_not_connected()),
        ],
{
}

/// Reconnecting while connected cancels the stale reader before anything
/// else; once the new link is up, the stale reader's id differs from the
/// live one, so a byte it read is dropped, not delivered.
pub proof fn lemma_reconnect_supersedes(
    s: Session,
    reader: u64,
    cmd: Seq<u8>,
    host: Seq<u8>,
    port: u16,
    data: Seq<u8>,
)
    requires
        s.wf(),
        s.next_reader < u64::MAX,
        s.state == (SessionState::Connected { reader }),
        codec::parse_cmd(cmd) == Some(CmdModel::Connect { host, port }),
    ensures
        step(s, InputModel::Text { data: cmd }).1 =~= seq![
            ActionModel::CancelReader { reader },
            ActionModel::Dial { host, port },
        ],
        ({
            let dialing = step(s, InputModel::Text { data: cmd }).0;
            let up = step(dialing, InputModel::DialOk).0;
            up.live_reader() == Some(s.next_reader) && reader != s.next_reader && step(
                up,
                InputModel::ReaderData { reader, data },
            ).1 =~= Seq::<ActionModel>::empty() && step(
                up,
                InputModel::ReaderData { reader, data },
            ).0 == up
        }),
{
}

/// Malformed control text yields exactly one error event carrying the
/// invalid-command message and leaves the session exactly as it was.
pub proof fn lemma_malformed_control(s: Session, data: Seq<u8>)
    requires
        codec::parse_cmd(data) is None,
    ensures
        step(s, InputModel::Text { data }).0 == s,
        step(s, InputModel::Text { data }).1 =~= seq![ev_error(text::msg_invalid())],
{
    assert(Session { state: s.state, next_reader: s.next_reader } == s);
}

/// A dial failure yields exactly one connect ack with `ok` false and a
/// non-empty error text, returns the session to idle, and a subsequent
/// connect command is accepted and dialed again.
pub proof fn lemma_dial_failure_recovers(
    s: Session,
    error: Seq<u8>,
    cmd: Seq<u8>,
    host: Seq<u8>,
    port: u16,
)
    requires
        s.state is Connecting,
        codec::parse_cmd(cmd) == Some(CmdModel::Connect { host, port }),
    ensures
        step(s, InputModel::DialFailed { error }).1 =~= seq![
            ev_connect(false, Some(text::dial_fail_pre() + error)),
        ],
        (text::dial_fail_pre() + error).len() > 0,
        step(s, InputModel::DialFailed { error }).0.state is Idle,
        ({
            let idle = step(s, InputModel::DialFailed { error }).0;
            step(idle, InputModel::Text { data: cmd }).1 =~= seq![
                ActionModel::Dial { host, port },
            ] && step(idle, InputModel::Text { data: cmd }).0.state is Connecting
        }),
{
    assert(Seq::<ActionModel>::empty() + seq![ActionModel::Dial { host, port }] =~= seq![
        ActionModel::Dial { host, port },
    ]);
}

} // verus!

//! The shared terminal: its recent output, its size and the sockets that watch it.

use std::collections::VecDeque;
use tokio::sync::broadcast::{Receiver, Sender};
use vstd::prelude::*;

verus! {

/// How many bytes of output are kept for those who connect later.
pub const HISTORY_LIMIT: usize = 256 * 1024;

/// How many chunks of output a slow viewer may fall behind.
pub const RELAY_CAPACITY: usize = 256;

/// The most bytes that one read of the terminal takes.
pub const READ_SIZE: usize = 8192;

/// The last `limit` bytes of `bytes`; all of them where there are no more.
pub open spec fn last_bytes(bytes: Seq<u8>, limit: nat) -> Seq<u8> {
    if bytes.len() <= limit {
        bytes
    } else {
        bytes.skip(bytes.len() - limit)
    }
}

/// The most recent output of the terminal.
#[derive(Debug)]
pub struct History {
    pub bytes: VecDeque<u8>,
}

impl View for History {
    type V = Seq<u8>;

    open spec fn view(&self) -> Seq<u8> {
        self.bytes@
    }
}

impl History {
    /// No more bytes are kept than the limit allows.
    pub open spec fn well_formed(&self) -> bool {
        self@.len() <= HISTORY_LIMIT
    }

    /// No output yet.
    pub fn new() -> (history: History)
        ensures
            history@ == Seq::<u8>::empty(),
            history.well_formed(),
    {
        History { bytes: VecDeque::with_capacity(HISTORY_LIMIT) }
    }

    /// Adds a chunk of output, and forgets the oldest bytes over the limit.
    pub fn record(&mut self, chunk: &Vec<u8>)
        ensures
            final(self)@ == last_bytes(old(self)@ + chunk@, HISTORY_LIMIT as nat),
            final(self).well_formed(),
    {
        for i in 0..chunk.len()
            invariant
                self@ == old(self)@ + chunk@.take(i as int),
        {
            self.bytes.push_back(chunk[i]);
            assert(self@ =~= old(self)@ + chunk@.take(i + 1));
        }
        assert(chunk@.take(chunk@.len() as int) =~= chunk@);
        let ghost all = self@;
        assert(all.skip(0) =~= all);
        while self.bytes.len() > HISTORY_LIMIT
            invariant
                self@.len() <= all.len(),
                self@ == all.skip(all.len() - self@.len()),
                self@.len() >= HISTORY_LIMIT || self@ == all,
            decreases self@.len(),
        {
            let ghost before = self@;
            self.bytes.pop_front();
            assert(self@ =~= all.skip(all.len() - before.len() + 1));
        }
    }

    /// The kept bytes, oldest first.
    pub fn replay(&self) -> (bytes: Vec<u8>)
        ensures
            bytes@ == self@,
    {
        let mut bytes: Vec<u8> = Vec::new();
        for i in 0..self.bytes.len()
            invariant
                bytes@ == self@.take(i as int),
        {
            bytes.push(self.bytes[i]);
            assert(bytes@ =~= self@.take(i + 1));
        }
        assert(self@.take(self@.len() as int) =~= self@);
        bytes
    }
}

/// The sending half of a channel of `tokio::sync::broadcast`.
#[verifier::external_type_specification]
#[verifier::external_body]
#[verifier::reject_recursive_types(T)]
pub struct ExSender<T>(Sender<T>);

/// The receiving half of a channel of `tokio::sync::broadcast`.
#[verifier::external_type_specification]
#[verifier::external_body]
#[verifier::reject_recursive_types(T)]
pub struct ExReceiver<T>(Receiver<T>);

/// The chunks that were offered to a channel, in order: all that `Sender::send` was called with,
/// whether or not anyone listened.
pub uninterp spec fn offered_chunks(sender: Sender<Vec<u8>>) -> Seq<Seq<u8>>;

/// How many chunks a receiver of a channel may be behind and still read them all. One that falls
/// behind by more loses the oldest of those that it has not read.
pub uninterp spec fn held_chunks(sender: Sender<Vec<u8>>) -> nat;

/// How many chunks were offered to the channel of a receiver before the one that the receiver reads
/// next. From there on it reads every chunk that is offered, in order: a channel refuses a chunk
/// only while it has no receiver.
pub uninterp spec fn next_chunk(receiver: Receiver<Vec<u8>>) -> nat;

/// `tokio::sync::broadcast::channel`, whose first receiver is dropped: a channel to which nothing
/// was offered, and that holds as many chunks as were asked for, or more, since the number is
/// rounded up. The call panics at zero and at numbers that no memory could hold.
#[verifier::external_body]
fn open_channel(capacity: usize) -> (sender: Sender<Vec<u8>>)
    requires
        0 < capacity <= RELAY_CAPACITY,
    ensures
        offered_chunks(sender) == Seq::<Seq<u8>>::empty(),
        held_chunks(sender) >= capacity,
{
    tokio::sync::broadcast::channel(capacity).0
}

/// `Sender::send`: the chunk is offered, behind all that was offered before. Every receiver that
/// there is will read it; where there is none it is dropped, and none that comes later reads it.
/// Whether there is a receiver is not stated: receivers are dropped elsewhere, at any time.
#[verifier::external_body]
fn send_chunk(sender: &mut Sender<Vec<u8>>, chunk: Vec<u8>)
    ensures
        offered_chunks(*final(sender)) == offered_chunks(*old(sender)).push(chunk@),
        held_chunks(*final(sender)) == held_chunks(*old(sender)),
{
    let _ = sender.send(chunk);
}

/// `Sender::subscribe`: a receiver that reads what is offered after this call, and nothing that was
/// offered before. The call panics only at more receivers than memory has room for.
#[verifier::external_body]
fn subscribe(sender: &Sender<Vec<u8>>) -> (receiver: Receiver<Vec<u8>>)
    ensures
        next_chunk(receiver) == offered_chunks(*sender).len(),
{
    sender.subscribe()
}

/// What a relay holds.
pub struct RelayView {
    /// The bytes that are kept for those who connect later.
    pub kept: Seq<u8>,
    /// The chunks that were offered to the viewers, in order.
    pub offered: Seq<Seq<u8>>,
    /// How many of these a slow viewer may fall behind.
    pub room: nat,
}

impl RelayView {
    /// A chunk is kept, and is offered to the viewers.
    pub open spec fn relayed(self, chunk: Seq<u8>) -> RelayView {
        RelayView {
            kept: last_bytes(self.kept + chunk, HISTORY_LIMIT as nat),
            offered: self.offered.push(chunk),
            room: self.room,
        }
    }
}

/// The output of the terminal on its way to the viewers: what is kept of it, and the channel that
/// hands it on. To record a chunk and to send it is one operation, and so is to take the replay and
/// to subscribe, so that no chunk comes between.
pub struct OutputRelay {
    history: History,
    sender: Sender<Vec<u8>>,
}

impl View for OutputRelay {
    type V = RelayView;

    closed spec fn view(&self) -> RelayView {
        RelayView {
            kept: self.history@,
            offered: offered_chunks(self.sender),
            room: held_chunks(self.sender),
        }
    }
}

impl OutputRelay {
    /// No more bytes are kept than the limit allows, and a viewer has the room that is promised.
    pub open spec fn well_formed(&self) -> bool {
        self@.kept.len() <= HISTORY_LIMIT && self@.room >= RELAY_CAPACITY
    }

    /// No output and no viewer yet.
    pub fn new() -> (relay: OutputRelay)
        ensures
            relay@.kept == Seq::<u8>::empty(),
            relay@.offered == Seq::<Seq<u8>>::empty(),
            relay.well_formed(),
    {
        OutputRelay { history: History::new(), sender: open_channel(RELAY_CAPACITY) }
    }

    /// Records a chunk and offers it to the viewers.
    pub fn relay(&mut self, chunk: Vec<u8>)
        ensures
            final(self)@ == old(self)@.relayed(chunk@),
            old(self).well_formed() ==> final(self).well_formed(),
    {
        self.history.record(&chunk);
        send_chunk(&mut self.sender, chunk);
    }

    /// What a viewer starts with: the bytes that are kept, and a receiver of every chunk that
    /// follows them.
    pub fn replay_and_subscribe(&self) -> (start: (Vec<u8>, Receiver<Vec<u8>>))
        ensures
            start.0@ == self@.kept,
            next_chunk(start.1) == self@.offered.len(),
    {
        (self.history.replay(), subscribe(&self.sender))
    }
}

/// What a read of the terminal gave.
#[derive(Clone, Copy, Debug, PartialEq, Eq, Structural)]
pub enum PtyRead {
    /// So many bytes, at the front of the buffer; none at the end of the output.
    Bytes(usize),
    /// The read failed.
    Failed,
}

/// Takes one read of the terminal: what was read is recorded and offered to the viewers. The result
/// says whether there is more to read: not where the output has ended or cannot be read.
pub fn read_pty(relay: &mut OutputRelay, buffer: &Vec<u8>, read: PtyRead) -> (more: bool)
    requires
        read matches PtyRead::Bytes(count) ==> count <= buffer.len(),
    ensures
        match read {
            PtyRead::Bytes(count) if count > 0 => {
                &&& more
                &&& final(relay)@ == old(relay)@.relayed(buffer@.take(count as int))
            },
            _ => !more && final(relay)@ == old(relay)@,
        },
        old(relay).well_formed() ==> final(relay).well_formed(),
{
    match read {
        PtyRead::Bytes(count) => {
            if count == 0 {
                return false;
            }
            let mut chunk: Vec<u8> = Vec::new();
            for i in 0..count
                invariant
                    count <= buffer.len(),
                    chunk@ == buffer@.take(i as int),
            {
                chunk.push(buffer[i]);
                assert(chunk@ =~= buffer@.take(i + 1));
            }
            relay.relay(chunk);
            true
        },
        PtyRead::Failed => false,
    }
}

/// The size of the terminal in characters.
#[derive(Clone, Copy, Debug, PartialEq, Eq, Structural)]
pub struct TerminalSize {
    pub cols: u16,
    pub rows: u16,
}

/// `value`, brought between `low` and `high`.
pub open spec fn clamped(value: u16, low: u16, high: u16) -> u16 {
    if value < low {
        low
    } else if value > high {
        high
    } else {
        value
    }
}

fn clamp(value: u16, low: u16, high: u16) -> (inside: u16)
    ensures
        inside == clamped(value, low, high),
{
    if value < low {
        low
    } else if value > high {
        high
    } else {
        value
    }
}

impl TerminalSize {
    /// The size that a terminal starts with.
    pub fn initial() -> (size: TerminalSize)
        ensures
            size == (TerminalSize { cols: 120, rows: 30 }),
    {
        TerminalSize { cols: 120, rows: 30 }
    }

    /// The size that a request for `cols` by `rows` is granted.
    pub open spec fn granted(cols: u16, rows: u16) -> TerminalSize {
        TerminalSize { cols: clamped(cols, 20, 500), rows: clamped(rows, 5, 300) }
    }

    /// Grants a request for a size: 20 to 500 columns and 5 to 300 rows.
    pub fn resize(cols: u16, rows: u16) -> (size: TerminalSize)
        ensures
            size == TerminalSize::granted(cols, rows),
    {
        TerminalSize { cols: clamp(cols, 20, 500), rows: clamp(rows, 5, 300) }
    }
}

/// A control message of a viewer.
#[derive(Clone, Copy, Debug, PartialEq, Eq, Structural)]
pub enum ClientControl {
    Resize { cols: u16, rows: u16 },
}

/// What happens on the socket of a terminal viewer.
#[derive(Debug)]
pub enum TerminalEvent {
    /// The terminal wrote something.
    Output(Vec<u8>),
    /// The viewer was too slow, and this many chunks were dropped.
    Lagged(u64),
    /// The terminal is gone.
    OutputClosed,
    /// The viewer typed something.
    Input(Vec<u8>),
    /// The viewer sent a control message; `None` where it was malformed.
    Control(Option<ClientControl>),
    /// The viewer left.
    Closed,
    /// A message without meaning here.
    Other,
    /// The socket broke.
    SocketFailed,
    /// Output could not be sent to the viewer.
    SendFailed,
    /// Input could not be written to the terminal.
    WriteFailed,
    /// The terminal could not be resized.
    ResizeFailed,
}

/// What is to be done for a terminal viewer.
#[derive(Debug)]
pub enum TerminalAction {
    /// Send these bytes to the viewer.
    Send(Vec<u8>),
    /// Write these bytes to the terminal.
    Write(Vec<u8>),
    /// Resize the terminal.
    Resize(TerminalSize),
    /// Wait for what happens next.
    Wait,
    /// Close the socket. The terminal lives on.
    Stop,
}

/// The action that an event calls for.
pub open spec fn terminal_action(event: TerminalEvent) -> TerminalAction {
    match event {
        TerminalEvent::Output(chunk) => TerminalAction::Send(chunk),
        TerminalEvent::Input(bytes) => TerminalAction::Write(bytes),
        TerminalEvent::Control(Some(ClientControl::Resize { cols, rows })) => TerminalAction::Resize(
            TerminalSize::granted(cols, rows),
        ),
        TerminalEvent::Control(None) | TerminalEvent::Lagged(_) | TerminalEvent::Other
        | TerminalEvent::ResizeFailed => TerminalAction::Wait,
        TerminalEvent::OutputClosed | TerminalEvent::Closed | TerminalEvent::SocketFailed
        | TerminalEvent::SendFailed | TerminalEvent::WriteFailed => TerminalAction::Stop,
    }
}

/// The action for a viewer who connects while `replay` is kept of the output.
pub open spec fn opening_action(replay: Vec<u8>) -> TerminalAction {
    if replay@.len() == 0 {
        TerminalAction::Wait
    } else {
        TerminalAction::Send(replay)
    }
}

/// What to do when a viewer connects: send what is kept of the output, if anything is.
pub fn open_terminal(replay: Vec<u8>) -> (action: TerminalAction)
    ensures
        action == opening_action(replay),
{
    if replay.len() == 0 {
        TerminalAction::Wait
    } else {
        TerminalAction::Send(replay)
    }
}

/// Decides what to do about an event on the socket of a terminal viewer.
pub fn terminal_socket(event: TerminalEvent) -> (action: TerminalAction)
    ensures
        action == terminal_action(event),
{
    match event {
        TerminalEvent::Output(chunk) => TerminalAction::Send(chunk),
        TerminalEvent::Input(bytes) => TerminalAction::Write(bytes),
        TerminalEvent::Control(Some(ClientControl::Resize { cols, rows })) => TerminalAction::Resize(
            TerminalSize::resize(cols, rows),
        ),
        TerminalEvent::Control(None) => TerminalAction::Wait,
        TerminalEvent::Lagged(_) => TerminalAction::Wait,
        TerminalEvent::Other => TerminalAction::Wait,
        TerminalEvent::ResizeFailed => TerminalAction::Wait,
        TerminalEvent::OutputClosed => TerminalAction::Stop,
        TerminalEvent::Closed => TerminalAction::Stop,
        TerminalEvent::SocketFailed => TerminalAction::Stop,
        TerminalEvent::SendFailed => TerminalAction::Stop,
        TerminalEvent::WriteFailed => TerminalAction::Stop,
    }
}

/// All the bytes of some chunks, in order.
pub open spec fn concatenated(chunks: Seq<Seq<u8>>) -> Seq<u8>
    decreases chunks.len(),
{
    if chunks.len() == 0 {
        seq![]
    } else {
        concatenated(chunks.drop_last()) + chunks.last()
    }
}

/// What is kept after some chunks have been recorded, one after the other.
pub open spec fn recorded(history: Seq<u8>, chunks: Seq<Seq<u8>>) -> Seq<u8>
    decreases chunks.len(),
{
    if chunks.len() == 0 {
        history
    } else {
        last_bytes(recorded(history, chunks.drop_last()) + chunks.last(), HISTORY_LIMIT as nat)
    }
}

proof fn lemma_last_bytes(a: Seq<u8>, b: Seq<u8>, limit: nat)
    ensures
        last_bytes(last_bytes(a, limit) + b, limit) == last_bytes(a + b, limit),
{
    assert(last_bytes(last_bytes(a, limit) + b, limit) =~= last_bytes(a + b, limit));
}

/// However the output comes in chunks, the most recent bytes of all of it are kept, up to the
/// limit.
pub proof fn law_history_is_the_recent_output(chunks: Seq<Seq<u8>>)
    ensures
        recorded(seq![], chunks) == last_bytes(concatenated(chunks), HISTORY_LIMIT as nat),
        recorded(seq![], chunks).len() <= HISTORY_LIMIT,
    decreases chunks.len(),
{
    if chunks.len() > 0 {
        law_history_is_the_recent_output(chunks.drop_last());
        lemma_last_bytes(
            concatenated(chunks.drop_last()),
            chunks.last(),
            HISTORY_LIMIT as nat,
        );
    }
}

/// What an action sends to the viewer.
pub open spec fn sent(action: TerminalAction) -> Seq<u8> {
    match action {
        TerminalAction::Send(bytes) => bytes@,
        _ => seq![],
    }
}

proof fn lemma_concatenated(a: Seq<Seq<u8>>, b: Seq<Seq<u8>>)
    ensures
        concatenated(a + b) == concatenated(a) + concatenated(b),
    decreases b.len(),
{
    if b.len() == 0 {
        assert(a + b =~= a);
        assert(concatenated(a) + concatenated(b) =~= concatenated(a));
    } else {
        assert((a + b).drop_last() =~= a + b.drop_last());
        assert((a + b).last() == b.last());
        lemma_concatenated(a, b.drop_last());
        assert(concatenated(a + b) =~= concatenated(a) + concatenated(b));
    }
}

/// The chunks of output among some events.
pub open spec fn outputs(events: Seq<TerminalEvent>) -> Seq<Seq<u8>>
    decreases events.len(),
{
    if events.len() == 0 {
        seq![]
    } else {
        let before = outputs(events.drop_last());
        match events.last() {
            TerminalEvent::Output(chunk) => before.push(chunk@),
            _ => before,
        }
    }
}

/// All that a viewer is sent on connecting and for the events that follow.
pub open spec fn stream(replay: Vec<u8>, events: Seq<TerminalEvent>) -> Seq<u8>
    decreases events.len(),
{
    if events.len() == 0 {
        sent(opening_action(replay))
    } else {
        stream(replay, events.drop_last()) + sent(terminal_action(events.last()))
    }
}

proof fn lemma_stream(replay: Vec<u8>, events: Seq<TerminalEvent>)
    ensures
        stream(replay, events) == replay@ + concatenated(outputs(events)),
    decreases events.len(),
{
    if events.len() > 0 {
        lemma_stream(replay, events.drop_last());
        if let TerminalEvent::Output(chunk) = events.last() {
            let before = outputs(events.drop_last());
            assert(before.push(chunk@).drop_last() =~= before);
        }
    }
    assert(stream(replay, events) =~= replay@ + concatenated(outputs(events)));
}

/// A viewer who connects after the chunks `before` is sent what is kept of them and then every
/// chunk that is handed on: together the end of that output, without a gap and with nothing
/// twice, and the whole of it as long as the output before did not pass the limit.
pub proof fn law_viewer_sees_output_without_gaps(
    before: Seq<Seq<u8>>,
    replay: Vec<u8>,
    events: Seq<TerminalEvent>,
)
    requires
        replay@ == recorded(seq![], before),
    ensures
        ({
            let seen = stream(replay, events);
            let all = concatenated(before + outputs(events));
            &&& concatenated(outputs(events)).len() <= seen.len() <= all.len()
            &&& seen == all.skip(all.len() - seen.len())
            &&& concatenated(before).len() <= HISTORY_LIMIT ==> seen == all
        }),
{
    lemma_stream(replay, events);
    law_history_is_the_recent_output(before);
    lemma_concatenated(before, outputs(events));
    let seen = stream(replay, events);
    let all = concatenated(before + outputs(events));
    assert(seen =~= all.skip(all.len() - seen.len()));
}

/// What a relay holds after some chunks, one after the other.
pub open spec fn relayed_all(relay: RelayView, chunks: Seq<Seq<u8>>) -> RelayView
    decreases chunks.len(),
{
    if chunks.len() == 0 {
        relay
    } else {
        relayed_all(relay, chunks.drop_last()).relayed(chunks.last())
    }
}

proof fn lemma_relayed_all(relay: RelayView, chunks: Seq<Seq<u8>>)
    ensures
        ({
            let end = relayed_all(relay, chunks);
            &&& end.kept == recorded(relay.kept, chunks)
            &&& end.offered == relay.offered + chunks
            &&& end.room == relay.room
        }),
    decreases chunks.len(),
{
    if chunks.len() > 0 {
        lemma_relayed_all(relay, chunks.drop_last());
        assert(relay.offered + chunks =~= (relay.offered + chunks.drop_last()).push(chunks.last()));
    } else {
        assert(relay.offered + chunks =~= relay.offered);
    }
}

/// A viewer who starts after the chunks `before` is replayed the end of their bytes, up to the
/// limit, and its receiver reads just the chunks that come `after`: none is both in the replay and
/// in the channel, and none is in neither. As long as they are no more than the room that is
/// promised the channel holds them all, even if none has been read yet.
pub proof fn law_subscription_meets_the_replay(
    relay: RelayView,
    before: Seq<Seq<u8>>,
    viewer: (Vec<u8>, Receiver<Vec<u8>>),
    after: Seq<Seq<u8>>,
)
    requires
        relay.kept == Seq::<u8>::empty(),
        relay.room >= RELAY_CAPACITY,
        viewer.0@ == relayed_all(relay, before).kept,
        next_chunk(viewer.1) == relayed_all(relay, before).offered.len(),
    ensures
        ({
            let end = relayed_all(relayed_all(relay, before), after);
            let received = end.offered.skip(next_chunk(viewer.1) as int);
            let all = concatenated(before + after);
            let seen = viewer.0@ + concatenated(received);
            &&& viewer.0@ == last_bytes(concatenated(before), HISTORY_LIMIT as nat)
            &&& viewer.0@ == recorded(seq![], before)
            &&& received == after
            &&& after.len() <= RELAY_CAPACITY ==> received.len() <= end.room
            &&& seen == all.skip(all.len() - seen.len())
            &&& concatenated(before).len() <= HISTORY_LIMIT ==> seen == all
        }),
{
    let start = relayed_all(relay, before);
    let end = relayed_all(start, after);
    lemma_relayed_all(relay, before);
    lemma_relayed_all(start, after);
    law_history_is_the_recent_output(before);
    lemma_concatenated(before, after);
    assert(end.offered.skip(start.offered.len() as int) =~= after);
    let all = concatenated(before + after);
    let seen = start.kept + concatenated(after);
    assert(seen =~= all.skip(all.len() - seen.len()));
}

/// Whatever size is asked for, the granted size lies within the limits, and asking for it again
/// changes nothing.
pub proof fn law_granted_size(cols: u16, rows: u16)
    ensures
        ({
            let size = TerminalSize::granted(cols, rows);
            &&& 20 <= size.cols <= 500
            &&& 5 <= size.rows <= 300
            &&& TerminalSize::granted(size.cols, size.rows) == size
        }),
{
}

/// Input goes through unchanged: bytes are written to the terminal exactly if the viewer typed
/// something, and then exactly those bytes, however many they are.
pub proof fn law_input_is_written_unchanged(event: TerminalEvent)
    ensures
        terminal_action(event) is Write <==> event is Input,
        event matches TerminalEvent::Input(typed) ==> terminal_action(event)
            == TerminalAction::Write(typed),
        terminal_action(event) matches TerminalAction::Write(written) ==> event
            == TerminalEvent::Input(written),
{
}

/// Output goes through unchanged: bytes are sent to the viewer exactly if the terminal wrote
/// something, and then exactly those bytes. A viewer who connects is sent the replay, whole, unless
/// there is none.
pub proof fn law_output_is_sent_unchanged(event: TerminalEvent, replay: Vec<u8>)
    ensures
        terminal_action(event) is Send <==> event is Output,
        event matches TerminalEvent::Output(chunk) ==> terminal_action(event)
            == TerminalAction::Send(chunk),
        replay@.len() > 0 ==> opening_action(replay) == TerminalAction::Send(replay),
        replay@.len() == 0 ==> opening_action(replay) is Wait,
{
}

/// The terminal is resized exactly if the viewer asks for a size.
pub proof fn law_resize_follows_the_request(event: TerminalEvent, cols: u16, rows: u16)
    ensures
        terminal_action(event) is Resize <==> event matches TerminalEvent::Control(Some(_)),
        event == TerminalEvent::Control(Some(ClientControl::Resize { cols, rows }))
            ==> terminal_action(event) == TerminalAction::Resize(TerminalSize::granted(cols, rows)),
{
}

/// Of all sizes within the limits the one that comes nearest to what was asked for is granted, in
/// columns and in rows alike.
pub proof fn law_nearest_size_is_granted(asked: TerminalSize, other: TerminalSize)
    requires
        20 <= other.cols <= 500,
        5 <= other.rows <= 300,
    ensures
        ({
            let size = TerminalSize::granted(asked.cols, asked.rows);
            &&& 20 <= size.cols <= 500
            &&& 5 <= size.rows <= 300
            &&& asked.cols <= other.cols ==> size.cols <= other.cols
            &&& asked.cols >= other.cols ==> size.cols >= other.cols
            &&& asked.rows <= other.rows ==> size.rows <= other.rows
            &&& asked.rows >= other.rows ==> size.rows >= other.rows
            &&& asked == other ==> size == asked
        }),
{
}

/// The socket of a viewer is closed exactly if the terminal is gone, the viewer left, or one of the
/// two cannot be reached any more. A viewer who lags, sends what has no meaning or asks in vain for
/// a size stays connected.
pub proof fn law_socket_closes_only_at_the_end(event: TerminalEvent)
    ensures
        terminal_action(event) is Stop <==> {
            ||| event is OutputClosed
            ||| event is Closed
            ||| event is SocketFailed
            ||| event is SendFailed
            ||| event is WriteFailed
        },
        terminal_action(event) is Wait <==> {
            ||| event is Lagged
            ||| event is Other
            ||| event is ResizeFailed
            ||| event == TerminalEvent::Control(None)
        },
{
}

/// A chunk of output is kept behind what was kept before, and only what then exceeds 262144 bytes
/// is forgotten, oldest first; the chunk is offered to the viewers, whole, behind all others.
pub proof fn law_chunk_is_kept_and_offered(relay: RelayView, chunk: Seq<u8>)
    ensures
        ({
            let after = relay.relayed(chunk);
            let all = relay.kept + chunk;
            &&& after.kept.len() == if all.len() <= 262144 {
                all.len()
            } else {
                262144
            }
            &&& forall|i: int|
                0 <= i < after.kept.len() ==> #[trigger] after.kept[i] == all[all.len()
                    - after.kept.len() + i]
            &&& after.offered.len() == relay.offered.len() + 1
            &&& after.offered.last() == chunk
            &&& after.offered.drop_last() == relay.offered
            &&& after.room == relay.room
        }),
{
    assert(relay.relayed(chunk).offered.drop_last() =~= relay.offered);
}

/// The most recent bytes are the last ones, in their order: all of them where there are no more
/// than the limit, and otherwise as many as the limit.
pub proof fn law_recent_bytes_are_the_last(bytes: Seq<u8>, limit: nat)
    ensures
        ({
            let kept = last_bytes(bytes, limit);
            &&& kept.len() == if bytes.len() <= limit {
                bytes.len()
            } else {
                limit
            }
            &&& forall|i: int|
                0 <= i < kept.len() ==> #[trigger] kept[i] == bytes[bytes.len() - kept.len() + i]
        }),
{
}

} // verus!

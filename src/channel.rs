//! Single-use channel: one value from one producer to one consumer.
use vstd::prelude::*;

verus! {

/// Tag of the channel's state, stored in one atomic byte by a shared channel.
///
/// The states run `Empty -> Writing -> Ready -> Reading`; `Reading` is terminal.
#[derive(Clone, Copy, PartialEq, Eq, Debug, Structural)]
pub enum ChannelState {
    Empty,
    Writing,
    Ready,
    Reading,
}

/// Why a send or a receive was refused.
#[derive(Clone, Copy, PartialEq, Eq, Debug, Structural)]
pub enum ChannelError {
    /// A value was already sent: the channel takes one value in its life.
    AlreadySent,
    /// No value has been published yet; the caller may poll again.
    NotReady,
    /// The value was already taken out.
    AlreadyReceived,
}

/// Byte tag of `ChannelState::Empty`.
pub const EMPTY: u8 = 0;

/// Byte tag of `ChannelState::Ready`.
pub const READY: u8 = 1;

/// Byte tag of `ChannelState::Reading`.
pub const READING: u8 = 2;

/// Byte tag of `ChannelState::Writing`.
pub const WRITING: u8 = 3;

impl ChannelState {
    /// The byte that stands for this state.
    pub open spec fn spec_tag(self) -> u8 {
        match self {
            ChannelState::Empty => EMPTY,
            ChannelState::Ready => READY,
            ChannelState::Reading => READING,
            ChannelState::Writing => WRITING,
        }
    }

    /// The byte that stands for this state.
    pub fn tag(self) -> (t: u8)
        ensures
            t == self.spec_tag(),
    {
        match self {
            ChannelState::Empty => EMPTY,
            ChannelState::Ready => READY,
            ChannelState::Reading => READING,
            ChannelState::Writing => WRITING,
        }
    }

    /// The state that a byte stands for, if any.
    pub fn from_tag(t: u8) -> (r: Option<ChannelState>)
        ensures
            r is None <==> t > 3,
            r matches Some(s) ==> s.spec_tag() == t,
    {
        if t == EMPTY {
            Some(ChannelState::Empty)
        } else if t == READY {
            Some(ChannelState::Ready)
        } else if t == READING {
            Some(ChannelState::Reading)
        } else if t == WRITING {
            Some(ChannelState::Writing)
        } else {
            None
        }
    }
}

/// Outcome of claiming the slot for a send: only an empty channel may be written.
pub open spec fn send_outcome(s: ChannelState) -> Result<ChannelState, ChannelError> {
    match s {
        ChannelState::Empty => Ok(ChannelState::Writing),
        _ => Err(ChannelError::AlreadySent),
    }
}

/// Outcome of claiming the slot for a receive: only a published value may be read.
pub open spec fn receive_outcome(s: ChannelState) -> Result<ChannelState, ChannelError> {
    match s {
        ChannelState::Ready => Ok(ChannelState::Reading),
        ChannelState::Reading => Err(ChannelError::AlreadyReceived),
        _ => Err(ChannelError::NotReady),
    }
}

/// First step of a send: from `Empty` the slot is claimed for writing.
pub fn begin_send(s: ChannelState) -> (r: Result<ChannelState, ChannelError>)
    ensures
        r == send_outcome(s),
{
    match s {
        ChannelState::Empty => Ok(ChannelState::Writing),
        _ => Err(ChannelError::AlreadySent),
    }
}

/// First step of a receive: from `Ready` the slot is claimed for reading.
pub fn begin_receive(s: ChannelState) -> (r: Result<ChannelState, ChannelError>)
    ensures
        r == receive_outcome(s),
{
    match s {
        ChannelState::Ready => Ok(ChannelState::Reading),
        ChannelState::Reading => Err(ChannelError::AlreadyReceived),
        _ => Err(ChannelError::NotReady),
    }
}

/// Whether the slot holds a value that nobody has taken: the state in which
/// a channel that goes away must drop its value.
pub fn holds_unread(s: ChannelState) -> (r: bool)
    ensures
        r == (s == ChannelState::Ready),
{
    match s {
        ChannelState::Ready => true,
        _ => false,
    }
}

/// What a channel holds, as contracts see it.
pub struct ChannelView<T> {
    pub state: ChannelState,
    pub message: Option<T>,
}

impl<T> ChannelView<T> {
    /// A channel that nothing has been sent on.
    pub open spec fn empty() -> Self {
        ChannelView { state: ChannelState::Empty, message: None }
    }

    /// Outside a send in progress, the slot holds a value exactly when it is published.
    pub open spec fn wf(self) -> bool {
        &&& self.state != ChannelState::Writing
        &&& (self.message is Some <==> self.state == ChannelState::Ready)
    }

    /// The channel after `send(v)`, and what the send returns.
    pub open spec fn sent(self, v: T) -> (Self, Result<(), ChannelError>) {
        match send_outcome(self.state) {
            Ok(_) => (ChannelView { state: ChannelState::Ready, message: Some(v) }, Ok(())),
            Err(e) => (self, Err(e)),
        }
    }

    /// The channel after `receive()`, and what the receive returns.
    pub open spec fn received(self) -> (Self, Result<T, ChannelError>) {
        match receive_outcome(self.state) {
            Ok(next) => (ChannelView { state: next, message: None }, Ok(self.message->Some_0)),
            Err(e) => (self, Err(e)),
        }
    }
}

/// Exactly-once delivery: on a new channel, `send(v)` then `receive()` yields
/// `v` and leaves no value behind. A second send, before or after the receive,
/// fails with `AlreadySent`; a second receive fails with `AlreadyReceived`;
/// neither changes the channel, so every later attempt fails the same way.
pub proof fn lemma_exactly_once<T>(v: T, w: T)
    ensures
        ({
            let (sent, r1) = ChannelView::<T>::empty().sent(v);
            let (taken, r2) = sent.received();
            &&& r1 == Ok::<(), ChannelError>(())
            &&& sent.wf()
            &&& r2 == Ok::<T, ChannelError>(v)
            &&& taken.wf()
            &&& taken.message is None
            &&& sent.sent(w) == (sent, Err::<(), ChannelError>(ChannelError::AlreadySent))
            &&& taken.sent(w) == (taken, Err::<(), ChannelError>(ChannelError::AlreadySent))
            &&& taken.received() == (taken, Err::<T, ChannelError>(ChannelError::AlreadyReceived))
        }),
{
}

/// An attempt made on a channel.
pub enum ChannelOp<T> {
    Send(T),
    Receive,
}

/// The channel after one attempt.
pub open spec fn apply_op<T>(c: ChannelView<T>, op: ChannelOp<T>) -> ChannelView<T> {
    match op {
        ChannelOp::Send(v) => c.sent(v).0,
        ChannelOp::Receive => c.received().0,
    }
}

/// The channel after the attempts of `ops`, in their order.
pub open spec fn run_ops<T>(c: ChannelView<T>, ops: Seq<ChannelOp<T>>) -> ChannelView<T>
    decreases ops.len(),
{
    if ops.len() == 0 {
        c
    } else {
        apply_op(run_ops(c, ops.drop_last()), ops.last())
    }
}

/// The values that the receives among `ops` returned, in their order.
pub open spec fn receipts<T>(c: ChannelView<T>, ops: Seq<ChannelOp<T>>) -> Seq<T>
    decreases ops.len(),
{
    if ops.len() == 0 {
        Seq::empty()
    } else {
        let before = receipts(c, ops.drop_last());
        match ops.last() {
            ChannelOp::Receive => match run_ops(c, ops.drop_last()).received().1 {
                Ok(v) => before.push(v),
                Err(_) => before,
            },
            ChannelOp::Send(_) => before,
        }
    }
}

/// The value of the first send among `ops`, if there is one.
pub open spec fn first_sent<T>(ops: Seq<ChannelOp<T>>) -> Option<T>
    decreases ops.len(),
{
    if ops.len() == 0 {
        None
    } else {
        match first_sent(ops.drop_last()) {
            Some(v) => Some(v),
            None => match ops.last() {
                ChannelOp::Send(v) => Some(v),
                ChannelOp::Receive => None,
            },
        }
    }
}

proof fn lemma_run_ops<T>(ops: Seq<ChannelOp<T>>)
    ensures
        ({
            let c = run_ops(ChannelView::<T>::empty(), ops);
            let got = receipts(ChannelView::<T>::empty(), ops);
            &&& c.wf()
            &&& first_sent(ops) is None ==> c == ChannelView::<T>::empty() && got.len() == 0
            &&& first_sent(ops) matches Some(v) ==> {
                ||| c == (ChannelView { state: ChannelState::Ready, message: Some(v) }) && got.len() == 0
                ||| c == (ChannelView::<T> { state: ChannelState::Reading, message: None }) && got
                    == seq![v]
            }
        }),
    decreases ops.len(),
{
    if ops.len() > 0 {
        lemma_run_ops(ops.drop_last());
    }
}

/// Exactly once, over any run: whatever sends and receives are attempted on a
/// new channel, in whatever order, at most one receive succeeds, and what it
/// returns is the value of the first send.
pub proof fn lemma_delivered_at_most_once<T>(ops: Seq<ChannelOp<T>>)
    ensures
        receipts(ChannelView::<T>::empty(), ops).len() <= 1,
        receipts(ChannelView::<T>::empty(), ops).len() == 1 ==> first_sent(ops) == Some(
            receipts(ChannelView::<T>::empty(), ops)[0],
        ),
{
    lemma_run_ops(ops);
}

/// A receive before any send is refused as not ready, and changes nothing.
pub proof fn lemma_receive_before_send<T>()
    ensures
        ChannelView::<T>::empty().received() == (ChannelView::<T>::empty(), Err::<T, ChannelError>(
            ChannelError::NotReady,
        )),
{
}

/// A single-use channel owned by one party at a time.
///
/// It carries at most one value over its whole life: one send, one receive.
/// A value that is never received is dropped with the channel, once.
pub struct Channcel<T> {
    state: ChannelState,
    message: Option<T>,
}

impl<T> View for Channcel<T> {
    type V = ChannelView<T>;

    closed spec fn view(&self) -> ChannelView<T> {
        ChannelView { state: self.state, message: self.message }
    }
}

impl<T> Channcel<T> {
    #[verifier::type_invariant]
    spec fn inv(self) -> bool {
        self@.wf()
    }

    /// An empty channel.
    pub fn new() -> (c: Self)
        ensures
            c@ == ChannelView::<T>::empty(),
    {
        Channcel { state: ChannelState::Empty, message: None }
    }

    /// Publishes `message`; refused with `AlreadySent` unless the channel is empty.
    pub fn send(&mut self, message: T) -> (r: Result<(), ChannelError>)
        ensures
            (final(self)@, r) == old(self)@.sent(message),
            final(self)@.wf(),
    {
        proof {
            use_type_invariant(&*self);
        }
        match begin_send(self.state) {
            Ok(_writing) => {
                *self = Channcel { state: ChannelState::Ready, message: Some(message) };
                Ok(())
            },
            Err(e) => Err(e),
        }
    }

    /// Whether a published value waits to be received.
    pub fn is_ready(&self) -> (r: bool)
        ensures
            r == (self@.state == ChannelState::Ready),
    {
        holds_unread(self.state)
    }

    /// Takes the published value out; refused with `NotReady` before a send and
    /// with `AlreadyReceived` after the value was taken.
    pub fn receive(&mut self) -> (r: Result<T, ChannelError>)
        ensures
            (final(self)@, r) == old(self)@.received(),
            final(self)@.wf(),
    {
        proof {
            use_type_invariant(&*self);
        }
        match begin_receive(self.state) {
            Ok(reading) => {
                let mut taken = Channcel { state: reading, message: None };
                core::mem::swap(self, &mut taken);
                match taken.message {
                    Some(v) => Ok(v),
                    None => Err(ChannelError::NotReady),
                }
            },
            Err(e) => Err(e),
        }
    }

    /// The state the channel is in.
    pub fn state(&self) -> (s: ChannelState)
        ensures
            s == self@.state,
    {
        self.state
    }
}

} // verus!

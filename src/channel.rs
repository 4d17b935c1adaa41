use std::collections::VecDeque;
use vstd::prelude::*;

verus! {

/// The abstract state of a channel: the messages in flight, in send order,
/// the number of live senders, and whether the receiver is still alive.
pub struct ChannelModel<T> {
    pub queue: Seq<T>,
    pub senders: nat,
    pub receiver: bool,
}

/// A send failed because no receiver remains; the message is handed back.
#[derive(Debug)]
pub struct SendError<T>(pub T);

/// Why a receive produced no message.
#[derive(Debug, PartialEq, Eq, Structural)]
pub enum RecvError {
    /// Nothing is buffered yet, but a sender is alive: the caller must wait.
    WouldBlock,
    /// Nothing is buffered and every sender is gone: no message will come.
    RecvClosed,
}

impl<T> ChannelModel<T> {
    /// The state of a freshly created channel: one sender, one receiver.
    pub open spec fn fresh() -> ChannelModel<T> {
        ChannelModel { queue: Seq::empty(), senders: 1, receiver: true }
    }

    /// A send appends the message when the receiver is alive and changes
    /// nothing otherwise.
    pub open spec fn after_send(self, msg: T) -> ChannelModel<T> {
        if self.receiver {
            ChannelModel { queue: self.queue.push(msg), ..self }
        } else {
            self
        }
    }

    /// What a receive returns: the oldest message, or why there is none.
    pub open spec fn recv_result(self) -> Result<T, RecvError> {
        if self.queue.len() > 0 {
            Ok(self.queue[0])
        } else if self.senders == 0 {
            Err(RecvError::RecvClosed)
        } else {
            Err(RecvError::WouldBlock)
        }
    }

    /// A receive takes the oldest message, if there is one.
    pub open spec fn after_recv(self) -> ChannelModel<T> {
        if self.queue.len() > 0 {
            ChannelModel { queue: self.queue.drop_first(), ..self }
        } else {
            self
        }
    }

    pub open spec fn after_clone_sender(self) -> ChannelModel<T> {
        ChannelModel { senders: self.senders + 1, ..self }
    }

    pub open spec fn after_drop_sender(self) -> ChannelModel<T> {
        ChannelModel { senders: (self.senders - 1) as nat, ..self }
    }

    /// Once the receiver is gone, the buffered messages are discarded.
    pub open spec fn after_drop_receiver(self) -> ChannelModel<T> {
        ChannelModel { queue: Seq::empty(), receiver: false, ..self }
    }

    /// The state after sending each message of `msgs`, in order.
    pub open spec fn send_all(self, msgs: Seq<T>) -> ChannelModel<T>
        decreases msgs.len(),
    {
        if msgs.len() == 0 {
            self
        } else {
            self.send_all(msgs.drop_last()).after_send(msgs.last())
        }
    }

    /// The results of `k` receives in a row.
    pub open spec fn recv_many(self, k: nat) -> Seq<Result<T, RecvError>>
        decreases k,
    {
        if k == 0 {
            Seq::empty()
        } else {
            seq![self.recv_result()] + self.after_recv().recv_many((k - 1) as nat)
        }
    }

    /// The state after `k` senders were dropped.
    pub open spec fn drop_senders(self, k: nat) -> ChannelModel<T>
        decreases k,
    {
        if k == 0 {
            self
        } else {
            self.after_drop_sender().drop_senders((k - 1) as nat)
        }
    }
}

/// The shared state behind a channel's endpoints: an unbounded FIFO buffer,
/// the count of live senders and whether the receiver is alive.
pub struct Channel<T> {
    buffer: VecDeque<T>,
    senders: usize,
    receiver: bool,
}

impl<T> View for Channel<T> {
    type V = ChannelModel<T>;

    closed spec fn view(&self) -> ChannelModel<T> {
        ChannelModel { queue: self.buffer@, senders: self.senders as nat, receiver: self.receiver }
    }
}

impl<T> Channel<T> {
    /// Creates a channel with one sender and one receiver and nothing in it.
    pub fn create_channel() -> (r: Channel<T>)
        ensures
            r@ == ChannelModel::<T>::fresh(),
    {
        Channel { buffer: VecDeque::new(), senders: 1, receiver: true }
    }

    pub fn sender_count(&self) -> (r: usize)
        ensures
            r == self@.senders,
    {
        self.senders
    }

    pub fn receiver_alive(&self) -> (r: bool)
        ensures
            r == self@.receiver,
    {
        self.receiver
    }

    pub fn pending(&self) -> (r: usize)
        ensures
            r == self@.queue.len(),
    {
        self.buffer.len()
    }

    /// Registers one more sender (a clone of an existing one).
    pub fn clone_sender(&mut self)
        requires
            old(self)@.senders >= 1,
            old(self)@.senders < usize::MAX,
        ensures
            final(self)@ == old(self)@.after_clone_sender(),
    {
        self.senders = self.senders + 1;
    }

    /// Unregisters a sender. When the last one goes, receives on an empty
    /// buffer report the channel closed.
    pub fn drop_sender(&mut self)
        requires
            old(self)@.senders >= 1,
        ensures
            final(self)@ == old(self)@.after_drop_sender(),
    {
        self.senders = self.senders - 1;
    }

    /// Unregisters the receiver; later sends fail.
    pub fn drop_receiver(&mut self)
        ensures
            final(self)@ == old(self)@.after_drop_receiver(),
    {
        self.buffer.clear();
        self.receiver = false;
    }

    /// Enqueues `msg` when the receiver is alive; otherwise hands it back
    /// in a `SendError` and leaves the channel as it was.
    pub fn send(&mut self, msg: T) -> (r: Result<(), SendError<T>>)
        ensures
            final(self)@ == old(self)@.after_send(msg),
            old(self)@.receiver ==> r is Ok,
            !old(self)@.receiver ==> r == Err::<(), SendError<T>>(SendError(msg)),
    {
        if self.receiver {
            self.buffer.push_back(msg);
            Ok(())
        } else {
            Err(SendError(msg))
        }
    }

    /// Takes the oldest buffered message. With nothing buffered, reports
    /// `RecvClosed` once every sender is gone and `WouldBlock` before that.
    pub fn try_recv(&mut self) -> (r: Result<T, RecvError>)
        ensures
            r == old(self)@.recv_result(),
            final(self)@ == old(self)@.after_recv(),
    {
        match self.buffer.pop_front() {
            Some(msg) => Ok(msg),
            None => {
                if self.senders == 0 {
                    Err(RecvError::RecvClosed)
                } else {
                    Err(RecvError::WouldBlock)
                }
            },
        }
    }
}

/// Sending on a channel whose receiver is alive appends the messages, in
/// order, behind what was buffered.
pub proof fn lemma_send_all_appends<T>(m: ChannelModel<T>, msgs: Seq<T>)
    requires
        m.receiver,
    ensures
        m.send_all(msgs) == (ChannelModel { queue: m.queue + msgs, ..m }),
    decreases msgs.len(),
{
    if msgs.len() > 0 {
        lemma_send_all_appends(m, msgs.drop_last());
        assert((m.queue + msgs.drop_last()).push(msgs.last()) =~= m.queue + msgs);
    } else {
        assert(m.queue + msgs =~= m.queue);
    }
}

/// Receiving `k` times from a channel holding at least `k` messages yields
/// its first `k` messages, oldest first.
pub proof fn lemma_recv_many_takes<T>(m: ChannelModel<T>, k: nat)
    requires
        k <= m.queue.len(),
    ensures
        m.recv_many(k) == m.queue.take(k as int).map_values(|x: T| Ok::<T, RecvError>(x)),
    decreases k,
{
    if k > 0 {
        lemma_recv_many_takes(m.after_recv(), (k - 1) as nat);
        assert(m.recv_many(k) =~= m.queue.take(k as int).map_values(|x: T| Ok::<T, RecvError>(x)));
    } else {
        assert(m.recv_many(k) =~= m.queue.take(k as int).map_values(|x: T| Ok::<T, RecvError>(x)));
    }
}

/// FIFO: on a channel with a live receiver and nothing buffered, sending
/// m1, ..., mk and then receiving k times yields exactly m1, ..., mk in
/// that order.
pub proof fn lemma_fifo<T>(m: ChannelModel<T>, msgs: Seq<T>)
    requires
        m.receiver,
        m.queue.len() == 0,
    ensures
        m.send_all(msgs).recv_many(msgs.len()) == msgs.map_values(|x: T| Ok::<T, RecvError>(x)),
{
    lemma_send_all_appends(m, msgs);
    let after = m.send_all(msgs);
    assert(after.queue =~= msgs);
    lemma_recv_many_takes(after, msgs.len());
    assert(after.queue.take(msgs.len() as int) =~= msgs);
}

/// Dropping senders leaves the buffer and the receiver as they were.
pub proof fn lemma_drop_senders<T>(m: ChannelModel<T>, k: nat)
    requires
        k <= m.senders,
    ensures
        m.drop_senders(k) == (ChannelModel { senders: (m.senders - k) as nat, ..m }),
    decreases k,
{
    if k > 0 {
        lemma_drop_senders(m.after_drop_sender(), (k - 1) as nat);
    }
}

/// Once every sender has been dropped and nothing is buffered, the next
/// receive reports the channel closed instead of waiting.
pub proof fn lemma_closed_after_senders_dropped<T>(m: ChannelModel<T>)
    requires
        m.queue.len() == 0,
    ensures
        m.drop_senders(m.senders).recv_result() == Err::<T, RecvError>(RecvError::RecvClosed),
{
    lemma_drop_senders(m, m.senders);
}

/// After the receiver has been dropped, every send fails and the channel
/// stays as it is: no message is accepted.
pub proof fn lemma_send_after_receiver_dropped<T>(m: ChannelModel<T>, msgs: Seq<T>)
    ensures
        !m.after_drop_receiver().receiver,
        m.after_drop_receiver().send_all(msgs) == m.after_drop_receiver(),
    decreases msgs.len(),
{
    if msgs.len() > 0 {
        lemma_send_after_receiver_dropped(m, msgs.drop_last());
    }
}

} // verus!

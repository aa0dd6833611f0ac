//! Small building blocks: a channel that keeps the newest messages, a signal
//! that keeps the last state, and taking a fixed number of items.

use vstd::prelude::*;
use heapless::Deque;
use crate::tcp::ConnectionMessage;

verus! {

#[verifier::external_type_specification]
#[verifier::external_body]
#[verifier::reject_recursive_types(T)]
pub struct ExDeque<T, const N: usize>(Deque<T, N>);

/// The capacity of a connection's event channel.
pub const EVENT_CAPACITY: usize = 8;

/// The messages a deque of connection events holds, front first.
pub uninterp spec fn event_deque_items(d: Deque<ConnectionMessage, 8>) -> Seq<ConnectionMessage>;

/// `heapless::Deque::new`: an empty deque.
#[verifier::external_body]
fn event_deque_new() -> (d: Deque<ConnectionMessage, 8>)
    ensures
        event_deque_items(d) == Seq::<ConnectionMessage>::empty(),
{
    Deque::new()
}

/// `heapless::Deque::push_back`: appends the message at the back; where the
/// deque is full (holds its capacity) it hands the message back and stays as
/// it was.
#[verifier::external_body]
fn event_deque_push_back(
    d: &mut Deque<ConnectionMessage, 8>,
    m: ConnectionMessage,
) -> (r: Result<(), ConnectionMessage>)
    requires
        event_deque_items(*old(d)).len() <= 8,
    ensures
        event_deque_items(*old(d)).len() == 8 ==> r is Err && r->Err_0 == m && event_deque_items(
            *final(d),
        ) == event_deque_items(*old(d)),
        event_deque_items(*old(d)).len() < 8 ==> r is Ok && event_deque_items(*final(d))
            == event_deque_items(*old(d)).push(m),
{
    d.push_back(m)
}

/// `heapless::Deque::pop_front`: removes and returns the front message;
/// `None` where the deque is empty.
#[verifier::external_body]
fn event_deque_pop_front(d: &mut Deque<ConnectionMessage, 8>) -> (r: Option<ConnectionMessage>)
    ensures
        event_deque_items(*old(d)).len() == 0 ==> r is None && event_deque_items(*final(d))
            == event_deque_items(*old(d)),
        event_deque_items(*old(d)).len() > 0 ==> r == Some(event_deque_items(*old(d))[0])
            && event_deque_items(*final(d)) == event_deque_items(*old(d)).drop_first(),
{
    d.pop_front()
}

/// `heapless::Deque::clear`: removes all messages.
#[verifier::external_body]
fn event_deque_clear(d: &mut Deque<ConnectionMessage, 8>)
    ensures
        event_deque_items(*final(d)) == Seq::<ConnectionMessage>::empty(),
{
    d.clear()
}

/// The [`RingChannel`] overflowed since the last call to [`RingChannel::recv`].
#[derive(Debug, Clone, Copy, PartialEq, Eq, Structural)]
pub struct Lagged;

/// A channel of connection events with room for [`EVENT_CAPACITY`]
/// messages; sending to a full channel drops the oldest message.
pub struct RingChannel {
    buf: Deque<ConnectionMessage, 8>,
    overflowed: bool,
}

/// The messages after sending `m` to a channel holding `items`.
pub open spec fn sent_items(items: Seq<ConnectionMessage>, m: ConnectionMessage) -> Seq<
    ConnectionMessage,
> {
    if items.len() < EVENT_CAPACITY {
        items.push(m)
    } else {
        items.drop_first().push(m)
    }
}

/// The messages a channel holding `items` holds after `ms` were sent to it, in order.
pub open spec fn sent_all(items: Seq<ConnectionMessage>, ms: Seq<ConnectionMessage>) -> Seq<
    ConnectionMessage,
>
    decreases ms.len(),
{
    if ms.len() == 0 {
        items
    } else {
        sent_items(sent_all(items, ms.drop_last()), ms.last())
    }
}

/// A channel that started empty holds the newest [`EVENT_CAPACITY`] of the
/// messages sent to it (all of them where fewer were sent), oldest first.
pub proof fn lemma_channel_keeps_newest(ms: Seq<ConnectionMessage>)
    ensures
        sent_all(Seq::empty(), ms) == if ms.len() <= EVENT_CAPACITY {
            ms
        } else {
            ms.skip(ms.len() - EVENT_CAPACITY)
        },
    decreases ms.len(),
{
    if ms.len() > 0 {
        let p = ms.drop_last();
        lemma_channel_keeps_newest(p);
        if p.len() < EVENT_CAPACITY {
            assert(p.push(ms.last()) =~= ms);
        } else {
            let kept = p.skip(p.len() - EVENT_CAPACITY);
            assert(kept.drop_first().push(ms.last()) =~= ms.skip(ms.len() - EVENT_CAPACITY));
        }
    }
}

/// What the receives from a channel that holds `items` and has `lagged`
/// give, one after the other, until nothing is left: `Err(Lagged)` first
/// where messages were dropped, then the messages, oldest first.
pub open spec fn pending_receives(lagged: bool, items: Seq<ConnectionMessage>) -> Seq<
    Result<ConnectionMessage, Lagged>,
> {
    let msgs = items.map_values(|m: ConnectionMessage| Ok::<ConnectionMessage, Lagged>(m));
    if lagged {
        seq![Err::<ConnectionMessage, Lagged>(Lagged)] + msgs
    } else {
        msgs
    }
}

/// Whether a channel that held `items` and had `lagged` has lagged once
/// `ms` were sent to it, in order.
pub open spec fn lagged_after(lagged: bool, items: Seq<ConnectionMessage>, ms: Seq<ConnectionMessage>) -> bool
    decreases ms.len(),
{
    if ms.len() == 0 {
        lagged
    } else {
        lagged_after(lagged, items, ms.drop_last()) || sent_all(items, ms.drop_last()).len()
            == EVENT_CAPACITY
    }
}

/// Messages sent to a new channel with no receive between them are received
/// in order: all of them where there were at most [`EVENT_CAPACITY`];
/// else first `Err(Lagged)`, then the newest [`EVENT_CAPACITY`] of them.
pub proof fn lemma_receives_after_sends(ms: Seq<ConnectionMessage>)
    ensures
        lagged_after(false, Seq::empty(), ms) == (ms.len() > EVENT_CAPACITY),
        pending_receives(lagged_after(false, Seq::empty(), ms), sent_all(Seq::empty(), ms)) == if ms.len()
            <= EVENT_CAPACITY {
            ms.map_values(|m: ConnectionMessage| Ok::<ConnectionMessage, Lagged>(m))
        } else {
            seq![Err::<ConnectionMessage, Lagged>(Lagged)] + ms.skip(ms.len() - EVENT_CAPACITY).map_values(
                |m: ConnectionMessage| Ok::<ConnectionMessage, Lagged>(m),
            )
        },
    decreases ms.len(),
{
    lemma_channel_keeps_newest(ms);
    if ms.len() > 0 {
        let p = ms.drop_last();
        lemma_receives_after_sends(p);
        lemma_channel_keeps_newest(p);
    }
}

impl RingChannel {
    /// The messages waiting, oldest first.
    pub closed spec fn items(&self) -> Seq<ConnectionMessage> {
        event_deque_items(self.buf)
    }

    /// Messages were dropped since the last receive.
    pub closed spec fn lagged(&self) -> bool {
        self.overflowed
    }

    /// The channel never holds more than its capacity.
    pub open spec fn wf(&self) -> bool {
        self.items().len() <= EVENT_CAPACITY
    }

    /// An empty channel.
    pub fn new() -> (c: RingChannel)
        ensures
            c.wf(),
            c.items() == Seq::<ConnectionMessage>::empty(),
            !c.lagged(),
    {
        RingChannel { buf: event_deque_new(), overflowed: false }
    }

    /// Sends a message at once; if the channel is full, the oldest message
    /// is dropped and the channel marks that it lagged.
    pub fn send(&mut self, message: ConnectionMessage)
        requires
            old(self).wf(),
        ensures
            final(self).wf(),
            final(self).items() == sent_items(old(self).items(), message),
            final(self).lagged() == (old(self).lagged() || old(self).items().len()
                == EVENT_CAPACITY),
    {
        match event_deque_push_back(&mut self.buf, message) {
            Ok(()) => {},
            Err(message) => {
                let _ = event_deque_pop_front(&mut self.buf);
                let _ = event_deque_push_back(&mut self.buf, message);
                self.overflowed = true;
            },
        }
    }

    /// Receives: `Err(Lagged)` once after messages were dropped (and the mark
    /// is cleared), else the oldest message, else `None` (nothing to receive yet).
    pub fn recv(&mut self) -> (r: Option<Result<ConnectionMessage, Lagged>>)
        requires
            old(self).wf(),
        ensures
            final(self).wf(),
            old(self).lagged() ==> r == Some(Err::<ConnectionMessage, Lagged>(Lagged))
                && !final(self).lagged() && final(self).items() == old(self).items(),
            !old(self).lagged() && old(self).items().len() == 0 ==> r is None && final(self).items()
                == old(self).items() && !final(self).lagged(),
            !old(self).lagged() && old(self).items().len() > 0 ==> r == Some(
                Ok::<ConnectionMessage, Lagged>(old(self).items()[0]),
            ) && final(self).items() == old(self).items().drop_first() && !final(self).lagged(),
            r is None <==> pending_receives(old(self).lagged(), old(self).items()).len() == 0,
            r matches Some(x) ==> pending_receives(old(self).lagged(), old(self).items()) == seq![x]
                + pending_receives(final(self).lagged(), final(self).items()),
    {
        if self.overflowed {
            self.overflowed = false;
            Some(Err(Lagged))
        } else {
            match event_deque_pop_front(&mut self.buf) {
                Some(message) => Some(Ok(message)),
                None => None,
            }
        }
    }

    /// Removes all messages that have not been received yet.
    pub fn clear(&mut self)
        ensures
            final(self).wf(),
            final(self).items() == Seq::<ConnectionMessage>::empty(),
            !final(self).lagged(),
    {
        event_deque_clear(&mut self.buf);
        self.overflowed = false;
    }
}

/// Takes the first `N` items; `None` where there are fewer.
pub fn collect_array<T: Copy, const N: usize>(items: &[T]) -> (r: Option<Vec<T>>)
    ensures
        items@.len() < N ==> r is None,
        items@.len() >= N ==> r is Some && r->Some_0@ == items@.take(N as int),
{
    if items.len() < N {
        return None;
    }
    let mut out: Vec<T> = Vec::new();
    let mut i: usize = 0;
    while i < N
        invariant
            i <= N <= items@.len(),
            out@ == items@.take(i as int),
        decreases N - i,
    {
        out.push(items[i]);
        i = i + 1;
        assert(out@ =~= items@.take(i as int));
    }
    Some(out)
}

/// A signal that keeps the last state signalled.
pub struct StateSignal<T> {
    item: T,
}

impl<T: Copy> StateSignal<T> {
    /// The state last signalled.
    pub closed spec fn state(&self) -> T {
        self.item
    }

    pub fn new(item: T) -> (s: StateSignal<T>)
        ensures
            s.state() == item,
    {
        StateSignal { item }
    }

    /// Sets the state.
    pub fn signal(&mut self, item: T)
        ensures
            final(self).state() == item,
    {
        self.item = item;
    }

    /// The current state.
    pub fn current(&self) -> (r: T)
        ensures
            r == self.state(),
    {
        self.item
    }

    /// One check of a wait for a state that `f` accepts: the current state
    /// where `f` accepts it; `None` (wait for the next signal) where it does not.
    pub fn compare_wait<F: Fn(&T) -> bool>(&self, f: F) -> (r: Option<T>)
        requires
            f.requires((&self.state(),)),
        ensures
            r matches Some(v) ==> v == self.state() && f.ensures((&self.state(),), true),
            r is None ==> f.ensures((&self.state(),), false),
    {
        if f(&self.item) {
            Some(self.item)
        } else {
            None
        }
    }
}

} // verus!

//! The TCP connection slots shared between the modem driver and its users.

use vstd::prelude::*;
use std::collections::VecDeque;
use crate::slot::Slot;
use crate::tcp::{ConnectError, ConnectionMessage, TCP_RX_BUF_LEN};
use crate::util::{sent_items, Lagged, RingChannel};

verus! {

/// The bytes a connection received and nobody read yet, oldest first; it
/// holds at most [`TCP_RX_BUF_LEN`] bytes.
pub struct RxPipe {
    bytes: VecDeque<u8>,
}

impl RxPipe {
    pub closed spec fn contents(&self) -> Seq<u8> {
        self.bytes@
    }

    pub open spec fn wf(&self) -> bool {
        self.contents().len() <= TCP_RX_BUF_LEN
    }

    /// An empty pipe.
    pub fn new() -> (p: RxPipe)
        ensures
            p.wf(),
            p.contents() == Seq::<u8>::empty(),
    {
        RxPipe { bytes: VecDeque::new() }
    }

    /// How many bytes wait to be read.
    pub fn len(&self) -> (r: usize)
        ensures
            r == self.contents().len(),
    {
        self.bytes.len()
    }

    /// Appends as many bytes of `data` as there is room for, in order;
    /// gives how many.
    pub fn try_write(&mut self, data: &[u8]) -> (n: usize)
        requires
            old(self).wf(),
        ensures
            final(self).wf(),
            n == if data@.len() <= TCP_RX_BUF_LEN - old(self).contents().len() {
                data@.len()
            } else {
                (TCP_RX_BUF_LEN - old(self).contents().len()) as nat
            },
            final(self).contents() == old(self).contents() + data@.take(n as int),
    {
        let room = TCP_RX_BUF_LEN - self.bytes.len();
        let n = if data.len() <= room {
            data.len()
        } else {
            room
        };
        let mut i: usize = 0;
        while i < n
            invariant
                i <= n <= data@.len(),
                n <= TCP_RX_BUF_LEN - old(self).contents().len(),
                self.bytes@ == old(self).contents() + data@.take(i as int),
            decreases n - i,
        {
            self.bytes.push_back(data[i]);
            i = i + 1;
            assert(self.bytes@ =~= old(self).contents() + data@.take(i as int));
        }
        n
    }

    /// Moves as many waiting bytes as `buf` holds (all of them where fewer
    /// wait) to the front of `buf`, oldest first; gives how many.
    pub fn try_read(&mut self, buf: &mut [u8]) -> (n: usize)
        requires
            old(self).wf(),
        ensures
            final(self).wf(),
            n == if old(buf)@.len() <= old(self).contents().len() {
                old(buf)@.len()
            } else {
                old(self).contents().len()
            },
            final(buf)@.len() == old(buf)@.len(),
            final(buf)@.take(n as int) == old(self).contents().take(n as int),
            final(buf)@.skip(n as int) == old(buf)@.skip(n as int),
            final(self).contents() == old(self).contents().skip(n as int),
    {
        let n = if buf.len() <= self.bytes.len() {
            buf.len()
        } else {
            self.bytes.len()
        };
        let mut i: usize = 0;
        while i < n
            invariant
                i <= n <= old(buf)@.len(),
                n <= old(self).contents().len(),
                buf@.len() == old(buf)@.len(),
                self.bytes@ == old(self).contents().skip(i as int),
                forall|k: int| 0 <= k < i ==> buf@[k] == old(self).contents()[k],
                forall|k: int| n <= k < buf@.len() ==> buf@[k] == old(buf)@[k],
            decreases n - i,
        {
            let b = match self.bytes.pop_front() {
                Some(b) => b,
                None => vstd::pervasive::unreached(),
            };
            buf[i] = b;
            i = i + 1;
            assert(self.bytes@ =~= old(self).contents().skip(i as int));
        }
        assert(buf@.take(n as int) =~= old(self).contents().take(n as int));
        assert(buf@.skip(n as int) =~= old(buf)@.skip(n as int));
        n
    }

    /// Drops every waiting byte.
    pub fn clear(&mut self)
        ensures
            final(self).wf(),
            final(self).contents() == Seq::<u8>::empty(),
    {
        self.bytes.clear();
    }
}

/// What one TCP connection owns: the bytes it received and the channel of
/// its events.
pub struct TcpSlot {
    pub rx: RxPipe,
    pub events: RingChannel,
}

impl TcpSlot {
    /// A slot with an empty pipe and an empty event channel.
    pub fn new() -> (s: TcpSlot)
        ensures
            s.rx.wf(),
            s.rx.contents() == Seq::<u8>::empty(),
            s.events.wf(),
            s.events.items() == Seq::<ConnectionMessage>::empty(),
            !s.events.lagged(),
    {
        TcpSlot { rx: RxPipe::new(), events: RingChannel::new() }
    }
}

/// The claim on one TCP slot, by its number.
pub struct TcpToken {
    ordinal: usize,
}

impl TcpToken {
    pub closed spec fn spec_ordinal(&self) -> nat {
        self.ordinal as nat
    }

    /// The number of the slot, which is also the modem's connection number.
    pub fn ordinal(&self) -> (r: usize)
        ensures
            r == self.spec_ordinal(),
    {
        self.ordinal
    }

    /// Receives the next event of the connection (see [`RingChannel::recv`]).
    pub fn next_message(&self, context: &mut TcpContext) -> (r: Option<
        Result<ConnectionMessage, Lagged>,
    >)
        requires
            old(context).wf(),
            self.spec_ordinal() < old(context).slots().len(),
        ensures
            final(context).wf(),
            ({
                let i = self.spec_ordinal() as int;
                let before = old(context).slots()[i].content().events;
                let after = final(context).slots()[i].content().events;
                &&& final(context).slots().len() == old(context).slots().len()
                &&& final(context).slots()[i].claimed() == old(context).slots()[i].claimed()
                &&& forall|j: int|
                    0 <= j < old(context).slots().len() && j != i ==> final(context).slots()[j]
                        == old(context).slots()[j]
                &&& before.lagged() ==> r == Some(Err::<ConnectionMessage, Lagged>(Lagged))
                    && !after.lagged() && after.items() == before.items()
                &&& !before.lagged() && before.items().len() == 0 ==> r is None && after.items()
                    == before.items() && !after.lagged()
                &&& !before.lagged() && before.items().len() > 0 ==> r == Some(
                    Ok::<ConnectionMessage, Lagged>(before.items()[0]),
                ) && after.items() == before.items().drop_first() && !after.lagged()
            }),
    {
        let i = self.ordinal;
        let ghost old_slots = context.slots@;
        let slot = &mut context.slots[i];
        let content = slot.peek_mut();
        let r = content.events.recv();
        proof {
            assert(context.slots@ =~= old_slots.update(i as int, context.slots@[i as int]));
        }
        r
    }
}

impl TcpToken {
    /// Reads received bytes of the connection into the front of `buf` (see
    /// [`RxPipe::try_read`]); gives how many, 0 where none wait.
    pub fn read(&self, context: &mut TcpContext, buf: &mut [u8]) -> (n: usize)
        requires
            old(context).wf(),
            self.spec_ordinal() < old(context).slots().len(),
        ensures
            final(context).wf(),
            final(context).slots().len() == old(context).slots().len(),
            ({
                let i = self.spec_ordinal() as int;
                let before = old(context).slots()[i].content().rx.contents();
                let after = final(context).slots()[i];
                &&& n == if old(buf)@.len() <= before.len() { old(buf)@.len() } else { before.len() }
                &&& final(buf)@.len() == old(buf)@.len()
                &&& final(buf)@.take(n as int) == before.take(n as int)
                &&& final(buf)@.skip(n as int) == old(buf)@.skip(n as int)
                &&& after.content().rx.contents() == before.skip(n as int)
                &&& after.content().events == old(context).slots()[i].content().events
                &&& after.claimed() == old(context).slots()[i].claimed()
            }),
            forall|j: int|
                0 <= j < old(context).slots().len() && j != self.spec_ordinal() ==> final(context).slots()[j]
                    == old(context).slots()[j],
    {
        let i = self.ordinal;
        let ghost old_slots = context.slots@;
        assert(context.slots()[i as int].content().rx.wf());
        let slot = &mut context.slots[i];
        let content = slot.peek_mut();
        let n = content.rx.try_read(buf);
        proof {
            assert(context.slots@ =~= old_slots.update(i as int, context.slots@[i as int]));
            assert forall|j: int| 0 <= j < context.slots().len() implies (
                #[trigger] context.slots()[j]).content().events.wf() && context.slots()[j].content().rx.wf() by {
                assert(old(context).slots()[j].content().events.wf());
                if j != i {
                    assert(old_slots[j] == context.slots@[j]);
                }
            }
        }
        n
    }
}

/// The TCP slots of a modem; each may be claimed by one connection at a time.
pub struct TcpContext {
    slots: Vec<Slot<TcpSlot>>,
}

impl TcpContext {
    pub closed spec fn slots(&self) -> Seq<Slot<TcpSlot>> {
        self.slots@
    }

    /// Every slot's pipe and event channel are within their capacities.
    pub open spec fn wf(&self) -> bool {
        forall|i: int|
            0 <= i < self.slots().len() ==> (#[trigger] self.slots()[i]).content().events.wf()
                && self.slots()[i].content().rx.wf()
    }

    /// A context with these slots.
    pub fn new(slots: Vec<Slot<TcpSlot>>) -> (c: TcpContext)
        ensures
            c.slots() == slots@,
    {
        TcpContext { slots }
    }

    /// Claims the first slot that nobody holds; `None` where all are held.
    pub fn claim(&mut self) -> (r: Option<TcpToken>)
        requires
            old(self).wf(),
        ensures
            final(self).wf(),
            final(self).slots().len() == old(self).slots().len(),
            r is None ==> (forall|j: int|
                0 <= j < old(self).slots().len() ==> (#[trigger] old(self).slots()[j]).claimed())
                && final(self).slots() == old(self).slots(),
            r matches Some(t) ==> {
                let k = t.spec_ordinal() as int;
                &&& k < old(self).slots().len()
                &&& !old(self).slots()[k].claimed()
                &&& forall|j: int| 0 <= j < k ==> (#[trigger] old(self).slots()[j]).claimed()
                &&& final(self).slots()[k].claimed()
                &&& final(self).slots()[k].content() == old(self).slots()[k].content()
                &&& forall|j: int|
                    0 <= j < old(self).slots().len() && j != k ==> final(self).slots()[j]
                        == old(self).slots()[j]
            },
    {
        let mut i: usize = 0;
        while i < self.slots.len()
            invariant
                i <= self.slots@.len(),
                self.slots@ == old(self).slots@,
                old(self).wf(),
                forall|j: int| 0 <= j < i ==> (#[trigger] self.slots@[j]).claimed(),
            decreases self.slots@.len() - i,
        {
            if !self.slots[i].is_claimed() {
                let ghost old_slots = self.slots@;
                let slot = &mut self.slots[i];
                let _ = slot.claim();
                proof {
                    assert(self.slots@ =~= old_slots.update(i as int, self.slots@[i as int]));
                    assert forall|j: int| 0 <= j < self.slots().len() implies (
                        #[trigger] self.slots()[j]).content().events.wf() by {
                        assert(old(self).slots()[j].content().events.wf());
                    }
                }
                return Some(TcpToken { ordinal: i });
            }
            i = i + 1;
        }
        None
    }

    /// Claims a slot for a new connection: the first free one, or
    /// `ConnectError::NoFreeSlots` where every slot is held.
    pub fn claim_connection(&mut self) -> (r: Result<TcpToken, ConnectError>)
        requires
            old(self).wf(),
        ensures
            final(self).wf(),
            final(self).slots().len() == old(self).slots().len(),
            r is Err ==> r == Err::<TcpToken, ConnectError>(ConnectError::NoFreeSlots) && (forall|j: int|
                0 <= j < old(self).slots().len() ==> (#[trigger] old(self).slots()[j]).claimed())
                && final(self).slots() == old(self).slots(),
            r matches Ok(t) ==> {
                let k = t.spec_ordinal() as int;
                &&& k < old(self).slots().len()
                &&& !old(self).slots()[k].claimed()
                &&& forall|j: int| 0 <= j < k ==> (#[trigger] old(self).slots()[j]).claimed()
                &&& final(self).slots()[k].claimed()
                &&& final(self).slots()[k].content() == old(self).slots()[k].content()
                &&& forall|j: int|
                    0 <= j < old(self).slots().len() && j != k ==> final(self).slots()[j]
                        == old(self).slots()[j]
            },
    {
        match self.claim() {
            Some(t) => Ok(t),
            None => Err(ConnectError::NoFreeSlots),
        }
    }

    /// Gives the token's slot up, so that it may be claimed again; the bytes
    /// it received and nobody read are dropped.
    pub fn release(&mut self, token: TcpToken)
        requires
            old(self).wf(),
            token.spec_ordinal() < old(self).slots().len(),
        ensures
            final(self).wf(),
            final(self).slots().len() == old(self).slots().len(),
            !final(self).slots()[token.spec_ordinal() as int].claimed(),
            final(self).slots()[token.spec_ordinal() as int].content().events == old(self).slots()[token.spec_ordinal() as int].content().events,
            final(self).slots()[token.spec_ordinal() as int].content().rx.contents() == Seq::<u8>::empty(),
            forall|j: int|
                0 <= j < old(self).slots().len() && j != token.spec_ordinal() ==> final(self).slots()[j]
                    == old(self).slots()[j],
    {
        let i = token.ordinal;
        let ghost old_slots = self.slots@;
        let slot = &mut self.slots[i];
        slot.release();
        let content = slot.peek_mut();
        content.rx.clear();
        proof {
            assert(self.slots@ =~= old_slots.update(i as int, self.slots@[i as int]));
            assert forall|j: int| 0 <= j < self.slots().len() implies (
                #[trigger] self.slots()[j]).content().events.wf() && self.slots()[j].content().rx.wf() by {
                if j != i {
                    assert(old_slots[j] == self.slots@[j]);
                    assert(old(self).slots()[j].content().events.wf());
                }
                else {
                    assert(old(self).slots()[j].content().events.wf());
                }
            }
        }
    }

    /// Hands bytes received on connection `ordinal` to its slot: as many as
    /// there is room for; gives how many.
    pub fn deliver(&mut self, ordinal: usize, data: &[u8]) -> (n: usize)
        requires
            old(self).wf(),
            ordinal < old(self).slots().len(),
        ensures
            final(self).wf(),
            final(self).slots().len() == old(self).slots().len(),
            ({
                let before = old(self).slots()[ordinal as int];
                let after = final(self).slots()[ordinal as int];
                let room = TCP_RX_BUF_LEN - before.content().rx.contents().len();
                &&& n == if data@.len() <= room { data@.len() } else { room as nat }
                &&& after.content().rx.contents() == before.content().rx.contents() + data@.take(n as int)
                &&& after.content().events == before.content().events
                &&& after.claimed() == before.claimed()
            }),
            forall|j: int|
                0 <= j < old(self).slots().len() && j != ordinal ==> final(self).slots()[j]
                    == old(self).slots()[j],
    {
        let ghost old_slots = self.slots@;
        assert(self.slots()[ordinal as int].content().rx.wf());
        let slot = &mut self.slots[ordinal];
        let content = slot.peek_mut();
        let n = content.rx.try_write(data);
        proof {
            assert(self.slots@ =~= old_slots.update(ordinal as int, self.slots@[ordinal as int]));
            assert forall|j: int| 0 <= j < self.slots().len() implies (
                #[trigger] self.slots()[j]).content().events.wf() && self.slots()[j].content().rx.wf() by {
                assert(old(self).slots()[j].content().events.wf());
                if j != ordinal {
                    assert(old_slots[j] == self.slots@[j]);
                }
            }
        }
        n
    }

    /// Tells every claimed slot that its connection is closed; slots that
    /// nobody holds get nothing.
    pub fn disconnect_all(&mut self)
        requires
            old(self).wf(),
        ensures
            final(self).wf(),
            final(self).slots().len() == old(self).slots().len(),
            forall|j: int|
                0 <= j < old(self).slots().len() ==> {
                    let before = #[trigger] old(self).slots()[j];
                    let after = final(self).slots()[j];
                    &&& after.claimed() == before.claimed()
                    &&& before.claimed() ==> after.content().events.items() == sent_items(
                        before.content().events.items(),
                        ConnectionMessage::Closed,
                    ) && after.content().events.lagged() == (before.content().events.lagged()
                        || before.content().events.items().len() == 8)
                    &&& !before.claimed() ==> after == before
                },
    {
        let mut i: usize = 0;
        while i < self.slots.len()
            invariant
                i <= self.slots@.len(),
                self.slots@.len() == old(self).slots@.len(),
                self.wf(),
                forall|j: int|
                    i <= j < self.slots@.len() ==> #[trigger] self.slots@[j] == old(self).slots@[j],
                forall|j: int|
                    0 <= j < i ==> {
                        let before = #[trigger] old(self).slots@[j];
                        let after = self.slots@[j];
                        &&& after.claimed() == before.claimed()
                        &&& before.claimed() ==> after.content().events.items() == sent_items(
                            before.content().events.items(),
                            ConnectionMessage::Closed,
                        ) && after.content().events.lagged() == (
                        before.content().events.lagged() || before.content().events.items().len()
                            == 8)
                        &&& !before.claimed() ==> after == before
                    },
            decreases self.slots@.len() - i,
        {
            if self.slots[i].is_claimed() {
                let ghost old_slots = self.slots@;
                assert(self.slots()[i as int].content().events.wf());
                let slot = &mut self.slots[i];
                let content = slot.peek_mut();
                content.events.send(ConnectionMessage::Closed);
                proof {
                    assert(self.slots@ =~= old_slots.update(i as int, self.slots@[i as int]));
                    assert forall|j: int| 0 <= j < self.slots().len() implies (
                        #[trigger] self.slots()[j]).content().events.wf() by {
                        if j != i {
                            assert(old_slots[j] == self.slots@[j]);
                            assert(old_slots[j].content().events.wf());
                        }
                    }
                }
            }
            i = i + 1;
        }
    }
}

} // verus!

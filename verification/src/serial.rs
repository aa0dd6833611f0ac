//! The serial link to the modem, as the host platform provides it.

use vstd::prelude::*;

verus! {

/// One call made on a serial port, with what it gave.
pub enum PortEvent {
    /// `read_line` with this timeout: a line, `None` where none came in
    /// time, `Err` where the port failed.
    ReadLine { timeout_ms: u32, got: Result<Option<Seq<u8>>, ()> },
    /// `read_exact` of `len` bytes with this timeout, with what it gave.
    ReadExact { len: nat, timeout_ms: u32, got: Result<Option<Seq<u8>>, ()> },
    /// `write` of these bytes, and whether it succeeded.
    Write { bytes: Seq<u8>, ok: bool },
}

/// What a read gave, as a plain value.
pub open spec fn read_result<E>(r: Result<Option<Vec<u8>>, E>) -> Result<Option<Seq<u8>>, ()> {
    match r {
        Ok(Some(b)) => Ok(Some(b@)),
        Ok(None) => Ok(None),
        Err(_) => Err(()),
    }
}

/// The events a port holds now beyond the ones it held before: what was
/// done on it in between, oldest first.
pub open spec fn new_events(before: Seq<PortEvent>, after: Seq<PortEvent>) -> Seq<PortEvent> {
    after.skip(before.len() as int)
}

/// The lines that the reads in `e` gave, oldest first: each `read_line`
/// that gave a line adds it; nothing else does.
pub open spec fn lines_read(e: Seq<PortEvent>) -> Seq<Seq<u8>>
    decreases e.len(),
{
    if e.len() == 0 {
        Seq::empty()
    } else {
        let before = lines_read(e.drop_last());
        match e.last() {
            PortEvent::ReadLine { got: Ok(Some(line)), .. } => before.push(line),
            _ => before,
        }
    }
}

/// The lines read over two runs of events are those of the first run, then
/// those of the second.
pub proof fn lemma_lines_read_concat(a: Seq<PortEvent>, b: Seq<PortEvent>)
    ensures
        lines_read(a + b) == lines_read(a) + lines_read(b),
    decreases b.len(),
{
    if b.len() == 0 {
        assert(a + b =~= a);
        assert(lines_read(a) + lines_read(b) =~= lines_read(a));
    } else {
        lemma_lines_read_concat(a, b.drop_last());
        assert((a + b).drop_last() =~= a + b.drop_last());
        assert((a + b).last() == b.last());
        let la = lines_read(a);
        let lb = lines_read(b.drop_last());
        match b.last() {
            PortEvent::ReadLine { got: Ok(Some(line)), .. } => {
                assert(la + lb.push(line) =~= (la + lb).push(line));
            },
            _ => {},
        }
    }
}

/// The lines read up to `after`, which extends `before`, are those read up
/// to `before`, then those read in between.
pub proof fn lemma_lines_read_since(before: Seq<PortEvent>, after: Seq<PortEvent>)
    requires
        before.is_prefix_of(after),
    ensures
        lines_read(after) == lines_read(before) + lines_read(new_events(before, after)),
{
    assert(after =~= before + new_events(before, after));
    lemma_lines_read_concat(before, new_events(before, after));
}

/// The bytes that the reads of bytes in `e` gave, in order: each
/// `read_exact` that gave bytes adds them; nothing else does.
pub open spec fn bytes_read(e: Seq<PortEvent>) -> Seq<u8>
    decreases e.len(),
{
    if e.len() == 0 {
        Seq::empty()
    } else {
        let before = bytes_read(e.drop_last());
        match e.last() {
            PortEvent::ReadExact { got: Ok(Some(bytes)), .. } => before + bytes,
            _ => before,
        }
    }
}

/// The bytes read over two runs of events are those of the first run, then
/// those of the second.
pub proof fn lemma_bytes_read_concat(a: Seq<PortEvent>, b: Seq<PortEvent>)
    ensures
        bytes_read(a + b) == bytes_read(a) + bytes_read(b),
    decreases b.len(),
{
    if b.len() == 0 {
        assert(a + b =~= a);
        assert(bytes_read(a) + bytes_read(b) =~= bytes_read(a));
    } else {
        lemma_bytes_read_concat(a, b.drop_last());
        assert((a + b).drop_last() =~= a + b.drop_last());
        assert((a + b).last() == b.last());
        let ba = bytes_read(a);
        let bb = bytes_read(b.drop_last());
        match b.last() {
            PortEvent::ReadExact { got: Ok(Some(bytes)), .. } => {
                assert(ba + (bb + bytes) =~= (ba + bb) + bytes);
            },
            _ => {},
        }
    }
}

/// The bytes read up to `after`, which extends `before`, are those read up
/// to `before`, then those read in between.
pub proof fn lemma_bytes_read_since(before: Seq<PortEvent>, after: Seq<PortEvent>)
    requires
        before.is_prefix_of(after),
    ensures
        bytes_read(after) == bytes_read(before) + bytes_read(new_events(before, after)),
{
    assert(after =~= before + new_events(before, after));
    lemma_bytes_read_concat(before, new_events(before, after));
}

/// `e` is a read made with a timeout of `timeout_ms`, or a write.
pub open spec fn timed(e: PortEvent, timeout_ms: u32) -> bool {
    match e {
        PortEvent::ReadLine { timeout_ms: t, .. } => t == timeout_ms,
        PortEvent::ReadExact { timeout_ms: t, .. } => t == timeout_ms,
        PortEvent::Write { .. } => true,
    }
}

/// Every read among the events `e` was made with a timeout of `timeout_ms`.
pub open spec fn all_timed(e: Seq<PortEvent>, timeout_ms: u32) -> bool {
    forall|i: int| 0 <= i < e.len() ==> timed(#[trigger] e[i], timeout_ms)
}

/// `e` is a read that failed with the error `err`: it gave nothing in time
/// (`Error::Timeout`), or the port failed (`Error::Serial`).
pub open spec fn failed_read(e: PortEvent, err: crate::error::Error) -> bool {
    match e {
        PortEvent::ReadLine { got, .. } => (got == Ok::<Option<Seq<u8>>, ()>(None) && err
            == crate::error::Error::Timeout) || (got is Err && err == crate::error::Error::Serial),
        PortEvent::ReadExact { got, .. } => (got == Ok::<Option<Seq<u8>>, ()>(None) && err
            == crate::error::Error::Timeout) || (got is Err && err == crate::error::Error::Serial),
        PortEvent::Write { .. } => false,
    }
}

/// The events went from `before` to `after` by one read that failed with `err`.
pub open spec fn read_failed_with(before: Seq<PortEvent>, after: Seq<PortEvent>, err: crate::error::Error) -> bool {
    &&& after.len() == before.len() + 1
    &&& after.drop_last() == before
    &&& failed_read(after.last(), err)
}

/// A type with an error of its own, such as a UART driver.
pub trait SerialError {
    type Error;
}

/// A serial port.
pub trait Serial {
    /// What a failed read or write reports.
    type SerialError;

    /// Everything written to the port so far.
    spec fn sent(&self) -> Seq<u8>;

    /// Every call made on the port so far, with what it gave, oldest first.
    spec fn events(&self) -> Seq<PortEvent>;
}

/// Reading from the serial port, with a limit on how long to wait.
pub trait SerialReadTimeout: Serial {
    /// Reads one line of the modem's output, without its line break; a port
    /// that hands on the output in chunks as it comes is framed into lines
    /// by [`crate::framed::FramedPort`]. `Ok(None)` means that nothing came
    /// within `timeout_ms` milliseconds.
    fn read_line(&mut self, timeout_ms: u32) -> (r: Result<Option<Vec<u8>>, Self::SerialError>)
        ensures
            final(self).sent() == old(self).sent(),
            final(self).events() == old(self).events().push(
                PortEvent::ReadLine { timeout_ms, got: read_result(r) },
            ),
    ;

    /// Reads exactly `len` bytes. `Ok(None)` means that they did not come
    /// within `timeout_ms` milliseconds.
    fn read_exact(&mut self, len: usize, timeout_ms: u32) -> (r: Result<
        Option<Vec<u8>>,
        Self::SerialError,
    >)
        ensures
            r matches Ok(Some(bytes)) ==> bytes@.len() == len,
            final(self).sent() == old(self).sent(),
            final(self).events() == old(self).events().push(
                PortEvent::ReadExact { len: len as nat, timeout_ms, got: read_result(r) },
            ),
    ;
}

/// Writing to the serial port.
pub trait SerialWrite: Serial {
    /// Writes all of `buf`.
    fn write(&mut self, buf: &[u8]) -> (r: Result<(), Self::SerialError>)
        ensures
            r is Ok ==> final(self).sent() == old(self).sent() + buf@,
            final(self).events() == old(self).events().push(
                PortEvent::Write { bytes: buf@, ok: r is Ok },
            ),
    ;
}

/// The most bytes that [`drain_relay`] takes from the port in one call: the
/// length of the longest line the modem writes.
pub const DRAIN_LIMIT: usize = 256;

/// `e` is a read of one byte with `timeout_ms`.
pub open spec fn byte_read(e: PortEvent, timeout_ms: u32) -> bool {
    e matches PortEvent::ReadExact { len, timeout_ms: t, .. } && len == 1 && t == timeout_ms
}

/// `e` is a read of bytes that gave them.
pub open spec fn gave_bytes(e: PortEvent) -> bool {
    match e {
        PortEvent::ReadExact { got: Ok(Some(_)), .. } => true,
        _ => false,
    }
}

/// What draining with `timeout_ms` does to the port, seen in the events `e`
/// it adds, and what it gives, `r`: it reads one byte at a time with
/// `timeout_ms`, until a read gives none (then it tells whether any byte
/// came), a read fails (`Error::Serial`), or [`DRAIN_LIMIT`] bytes came.
pub open spec fn drained(e: Seq<PortEvent>, timeout_ms: u32, r: Result<bool, crate::error::Error>) -> bool {
    &&& 0 < e.len() <= DRAIN_LIMIT
    &&& forall|i: int| 0 <= i < e.len() ==> byte_read(#[trigger] e[i], timeout_ms)
    &&& forall|i: int| 0 <= i < e.len() - 1 ==> gave_bytes(#[trigger] e[i])
    &&& match e.last()->ReadExact_got {
        Ok(Some(_)) => e.len() == DRAIN_LIMIT && r == Ok::<bool, crate::error::Error>(true),
        Ok(None) => r == Ok::<bool, crate::error::Error>(e.len() > 1),
        Err(()) => r == Err::<bool, crate::error::Error>(crate::error::Error::Serial),
    }
}

/// Waits up to `timeout_ms` milliseconds for bytes from the modem, such as
/// the echo of a request, and drops them; tells whether any came. It takes
/// at most [`DRAIN_LIMIT`] bytes (see [`drained`]).
pub fn drain_relay<B: SerialReadTimeout>(serial: &mut B, timeout_ms: u32) -> (r: Result<
    bool,
    crate::error::Error,
>)
    ensures
        r matches Err(e) ==> e == crate::error::Error::Serial,
        final(serial).sent() == old(serial).sent(),
        old(serial).events().is_prefix_of(final(serial).events()),
        drained(new_events(old(serial).events(), final(serial).events()), timeout_ms, r),
{
    let ghost ev0 = serial.events();
    let mut got = false;
    let mut n: usize = 0;
    while n < DRAIN_LIMIT
        invariant
            n <= DRAIN_LIMIT,
            ev0 == old(serial).events(),
            serial.sent() == old(serial).sent(),
            serial.events().len() == ev0.len() + n,
            serial.events().take(ev0.len() as int) == ev0,
            got == (n > 0),
            forall|i: int|
                0 <= i < n ==> byte_read(#[trigger] serial.events()[ev0.len() + i], timeout_ms),
            forall|i: int| 0 <= i < n ==> gave_bytes(#[trigger] serial.events()[ev0.len() + i]),
        decreases DRAIN_LIMIT - n,
    {
        let ghost before = serial.events();
        let r = serial.read_exact(1, timeout_ms);
        proof {
            assert(serial.events().take(ev0.len() as int) =~= ev0) by {
                assert(serial.events().take(ev0.len() as int) =~= before.take(ev0.len() as int));
            }
            assert forall|i: int| 0 <= i < n implies byte_read(
                #[trigger] serial.events()[ev0.len() + i],
                timeout_ms,
            ) && gave_bytes(serial.events()[ev0.len() + i]) by {
                assert(serial.events()[ev0.len() + i] == before[ev0.len() + i]);
            }
            let e = new_events(ev0, serial.events());
            assert forall|i: int| 0 <= i <= n implies #[trigger] e[i] == serial.events()[ev0.len()
                + i] by {}
        }
        match r {
            Ok(Some(_)) => {
                got = true;
            },
            Ok(None) => {
                proof {
                    let e = new_events(ev0, serial.events());
                    assert(e.len() == n + 1);
                    assert(ev0.is_prefix_of(serial.events()));
                }
                return Ok(got);
            },
            Err(_) => {
                proof {
                    let e = new_events(ev0, serial.events());
                    assert(e.len() == n + 1);
                    assert(ev0.is_prefix_of(serial.events()));
                }
                return Err(crate::error::Error::Serial);
            },
        }
        n = n + 1;
    }
    proof {
        assert(ev0.is_prefix_of(serial.events()));
        let e = new_events(ev0, serial.events());
        assert(e.len() == DRAIN_LIMIT);
        assert forall|i: int| 0 <= i < e.len() implies #[trigger] e[i] == serial.events()[ev0.len()
            + i] by {}
        assert(gave_bytes(e[e.len() - 1]));
        assert(e.last() == e[e.len() - 1]);
    }
    Ok(got)
}

} // verus!

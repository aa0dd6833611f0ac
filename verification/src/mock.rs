//! A scripted serial port for exercising the command layer without a modem:
//! it expects a given sequence of writes and reads, and answers the reads
//! with the bytes it was given.
//!
//! Each read of the script is handed on whole by `read_line`, as it was
//! queued, line breaks and all; a command layer that reads lines runs the
//! script through the line framing of [`crate::read::FramedPort`].
//!
//! Where the script is not followed (a read where it expects a write, a
//! write of other bytes, a write past its end), the port reports an error
//! rather than panicking, so that the verified code that drives it stays
//! free of panics; a test sees the error in the result of the command.

use vstd::prelude::*;
use std::collections::VecDeque;
use crate::serial::{read_result, PortEvent, Serial, SerialReadTimeout, SerialWrite};
use crate::text::sub_bytes;

verus! {

enum SerialOperation {
    Read(Vec<u8>),
    Write(Vec<u8>),
}

/// One step of the script, as a mathematical value.
pub enum ScriptStep {
    /// The modem sends these bytes.
    Read(Seq<u8>),
    /// The host must write these bytes.
    Write(Seq<u8>),
}

spec fn step_of(op: SerialOperation) -> ScriptStep {
    match op {
        SerialOperation::Read(b) => ScriptStep::Read(b@),
        SerialOperation::Write(b) => ScriptStep::Write(b@),
    }
}

pub struct MockSerial {
    operations: VecDeque<SerialOperation>,
    written: Ghost<Seq<u8>>,
    events: Ghost<Seq<PortEvent>>,
}

pub struct MockSerialBuilder {
    mock: MockSerial,
}

/// What reading a line from the script gives, and the script left after it:
/// the next read of the script, whole, as it was queued; `Ok(None)` when the
/// script is over; an error where it expects a write.
pub open spec fn script_next_read(script: Seq<ScriptStep>) -> (Result<Option<Seq<u8>>, ()>, Seq<
    ScriptStep,
>) {
    if script.len() == 0 {
        (Ok(None), script)
    } else {
        match script[0] {
            ScriptStep::Write(_) => (Err(()), script),
            ScriptStep::Read(b) => (Ok(Some(b)), script.drop_first()),
        }
    }
}

impl MockSerial {
    /// The steps of the script that are left, first first.
    pub closed spec fn script(&self) -> Seq<ScriptStep> {
        self.operations@.map_values(|op: SerialOperation| step_of(op))
    }

    /// A builder of an empty script.
    pub fn build() -> (b: MockSerialBuilder)
        ensures
            b.script() == Seq::<ScriptStep>::empty(),
    {
        let b = MockSerialBuilder {
            mock: MockSerial {
                operations: VecDeque::new(),
                written: Ghost(Seq::empty()),
                events: Ghost(Seq::empty()),
            },
        };
        assert(b.mock.script() =~= Seq::<ScriptStep>::empty());
        b
    }
}

impl MockSerialBuilder {
    /// The script built so far.
    pub closed spec fn script(&self) -> Seq<ScriptStep> {
        self.mock.script()
    }

    /// Adds a read: the port will deliver `bytes`.
    pub fn expect_read(self, bytes: &[u8]) -> (b: MockSerialBuilder)
        ensures
            b.script() == self.script().push(ScriptStep::Read(bytes@)),
    {
        let mut b = self;
        let ghost before = b.mock.operations@;
        let v = crate::text::sub_bytes(bytes, 0, bytes.len());
        assert(v@ =~= bytes@);
        let op = SerialOperation::Read(v);
        assert(step_of(op) == ScriptStep::Read(bytes@));
        b.mock.operations.push_back(op);
        assert(b.mock.operations@ == before.push(op));
        assert(b.script() =~= self.script().push(ScriptStep::Read(bytes@)));
        b
    }

    /// Adds a write: the host must write `bytes`.
    pub fn expect_write(self, bytes: &[u8]) -> (b: MockSerialBuilder)
        ensures
            b.script() == self.script().push(ScriptStep::Write(bytes@)),
    {
        let mut b = self;
        let ghost before = b.mock.operations@;
        let v = crate::text::sub_bytes(bytes, 0, bytes.len());
        assert(v@ =~= bytes@);
        let op = SerialOperation::Write(v);
        assert(step_of(op) == ScriptStep::Write(bytes@));
        b.mock.operations.push_back(op);
        assert(b.mock.operations@ == before.push(op));
        assert(b.script() =~= self.script().push(ScriptStep::Write(bytes@)));
        b
    }

    /// The port that plays the script.
    pub fn finalize(self) -> (m: MockSerial)
        ensures
            m.script() == self.script(),
    {
        self.mock
    }
}

/// What reading `len` bytes from the script gives, and the script left: the
/// bytes come from the first step, which must be a read holding at least
/// `len` bytes; `Ok(None)` when the script is over.
pub open spec fn script_read_exact(script: Seq<ScriptStep>, len: nat) -> (Result<
    Option<Seq<u8>>,
    (),
>, Seq<ScriptStep>) {
    if script.len() == 0 {
        (Ok(None), script)
    } else {
        match script[0] {
            ScriptStep::Write(_) => (Err(()), script),
            ScriptStep::Read(b) => if b.len() < len {
                (Err(()), script)
            } else if b.len() == len {
                (Ok(Some(b)), script.drop_first())
            } else {
                (Ok(Some(b.take(len as int))), script.update(0, ScriptStep::Read(b.skip(len as int))))
            },
        }
    }
}

/// The script left after the host writes `buf`, if the script expects it:
/// the writes of the script must spell `buf`, where a write that ends
/// before `buf` does must be followed in `buf` by a carriage return.
pub open spec fn script_write(script: Seq<ScriptStep>, buf: Seq<u8>) -> Option<Seq<ScriptStep>>
    decreases buf.len(),
{
    if script.len() == 0 {
        None
    } else {
        match script[0] {
            ScriptStep::Read(_) => None,
            ScriptStep::Write(b) => if b.len() < buf.len() {
                if buf.take(b.len() as int) == b && buf[b.len() as int] == 13u8 {
                    let rest = buf.skip(b.len() as int + 1);
                    if rest.len() == 0 {
                        Some(script.drop_first())
                    } else {
                        script_write(script.drop_first(), rest)
                    }
                } else {
                    None
                }
            } else if b.len() > buf.len() {
                if b.take(buf.len() as int) == buf {
                    Some(script.update(0, ScriptStep::Write(b.skip(buf.len() as int))))
                } else {
                    None
                }
            } else if b == buf {
                Some(script.drop_first())
            } else {
                None
            },
        }
    }
}

impl Serial for MockSerial {
    type SerialError = ();

    closed spec fn sent(&self) -> Seq<u8> {
        self.written@
    }

    closed spec fn events(&self) -> Seq<PortEvent> {
        self.events@
    }
}

impl MockSerial {
    /// Takes the next read of the script whole, as [`script_next_read`]
    /// says; the timeout does not count.
    fn play_read_line(&mut self, timeout_ms: u32) -> (r: Result<Option<Vec<u8>>, ()>)
        ensures
            final(self).events == old(self).events,
            final(self).sent() == old(self).sent(),
            ({
                let (res, rest) = script_next_read(old(self).script());
                &&& final(self).script() == rest
                &&& match r {
                    Ok(Some(bytes)) => res == Ok::<Option<Seq<u8>>, ()>(Some(bytes@)),
                    Ok(None) => res == Ok::<Option<Seq<u8>>, ()>(None),
                    Err(_) => res == Err::<Option<Seq<u8>>, ()>(()),
                }
            }),
    {
        let ghost before = self.script();
        let ghost ops = self.operations@;
        match self.operations.pop_front() {
            None => {
                assert(self.script() =~= Seq::<ScriptStep>::empty());
                Ok(None)
            },
            Some(SerialOperation::Write(b)) => {
                self.operations.push_front(SerialOperation::Write(b));
                assert(self.operations@ =~= ops);
                assert(before[0] == step_of(ops[0]));
                Err(())
            },
            Some(SerialOperation::Read(b)) => {
                let ghost rest_ops = self.operations@;
                proof {
                    assert(ops =~= seq![ops[0]] + rest_ops);
                    assert(before[0] == ScriptStep::Read(b@));
                    assert(before.drop_first() =~= rest_ops.map_values(
                        |o: SerialOperation| step_of(o),
                    ));
                }
                Ok(Some(b))
            },
        }
    }

    /// Takes `len` bytes from the first step of the script, as
    /// [`script_read_exact`] says; with a timeout of 200 ms or less it gives
    /// `Ok(None)` at once, which lets a caller drain an echo that the script
    /// does not hold.
    fn play_read_exact(&mut self, len: usize, timeout_ms: u32) -> (r: Result<Option<Vec<u8>>, ()>)
        ensures
            final(self).events == old(self).events,
            r matches Ok(Some(bytes)) ==> bytes@.len() == len,
            final(self).sent() == old(self).sent(),
            timeout_ms <= 200 ==> r == Ok::<Option<Vec<u8>>, ()>(None) && final(self).script()
                == old(self).script(),
            timeout_ms > 200 ==> ({
                let (res, rest) = script_read_exact(old(self).script(), len as nat);
                &&& final(self).script() == rest
                &&& match r {
                    Ok(Some(bytes)) => res == Ok::<Option<Seq<u8>>, ()>(Some(bytes@)),
                    Ok(None) => res == Ok::<Option<Seq<u8>>, ()>(None),
                    Err(_) => res == Err::<Option<Seq<u8>>, ()>(()),
                }
            }),
    {
        if timeout_ms <= 200 {
            return Ok(None);
        }
        let ghost before = self.script();
        let ghost ops = self.operations@;
        match self.operations.pop_front() {
            None => {
                assert(self.script() =~= Seq::<ScriptStep>::empty());
                Ok(None)
            },
            Some(SerialOperation::Write(b)) => {
                self.operations.push_front(SerialOperation::Write(b));
                assert(self.operations@ =~= ops);
                assert(before[0] == step_of(ops[0]));
                Err(())
            },
            Some(SerialOperation::Read(b)) => {
                let ghost rest_ops = self.operations@;
                proof {
                    assert(ops =~= seq![ops[0]] + rest_ops);
                    assert(before[0] == ScriptStep::Read(b@));
                    assert(before.drop_first() =~= rest_ops.map_values(
                        |o: SerialOperation| step_of(o),
                    ));
                }
                if b.len() < len {
                    self.operations.push_front(SerialOperation::Read(b));
                    assert(self.operations@ =~= ops);
                    return Err(());
                }
                let out = sub_bytes(b.as_slice(), 0, len);
                if len < b.len() {
                    let tail = sub_bytes(b.as_slice(), len, b.len());
                    let op = SerialOperation::Read(tail);
                    assert(step_of(op) == ScriptStep::Read(b@.skip(len as int)));
                    self.operations.push_front(op);
                    assert(self.script() =~= before.update(0, ScriptStep::Read(b@.skip(len as int))));
                } else {
                    assert(self.script() =~= before.drop_first());
                    assert(out@ =~= b@);
                }
                Ok(Some(out))
            },
        }
    }
}

impl MockSerial {
    /// Checks `buf` against the writes the script expects, as
    /// [`script_write`] says; an error where it does not match.
    #[verifier::loop_isolation(false)]
    fn play_write(&mut self, buf: &[u8]) -> (r: Result<(), ()>)
        ensures
            final(self).events == old(self).events,
            r is Ok ==> final(self).sent() == old(self).sent() + buf@,
            r is Ok <==> script_write(old(self).script(), buf@) is Some,
            r is Ok ==> final(self).script() == script_write(old(self).script(), buf@).unwrap(),
    {
        let mut pos: usize = 0;
        assert(buf@.skip(0) =~= buf@);
        loop
            invariant
                pos < buf@.len() || (pos == 0 && buf@.len() == 0),
                self.written == old(self).written,
                self.events == old(self).events,
                script_write(old(self).script(), buf@) == script_write(
                    self.script(),
                    buf@.skip(pos as int),
                ),
            decreases buf@.len() - pos,
        {
            let ghost before = self.script();
            let ghost ops = self.operations@;
            let ghost rem = buf@.skip(pos as int);
            match self.operations.pop_front() {
                None => {
                    return Err(());
                },
                Some(SerialOperation::Read(b)) => {
                    assert(before[0] == step_of(ops[0]));
                    return Err(());
                },
                Some(SerialOperation::Write(b)) => {
                    let ghost rest_ops = self.operations@;
                    proof {
                        assert(ops =~= seq![ops[0]] + rest_ops);
                        assert(before[0] == ScriptStep::Write(b@));
                        assert(before.drop_first() =~= rest_ops.map_values(
                            |o: SerialOperation| step_of(o),
                        ));
                    }
                    let left = buf.len() - pos;
                    if b.len() < left {
                        let mut k: usize = 0;
                        while k < b.len()
                            invariant
                                k <= b@.len() < left == buf@.len() - pos,
                                rem == buf@.skip(pos as int),
                                rem.take(k as int) == b@.take(k as int),
                            decreases b@.len() - k,
                        {
                            if buf[pos + k] != b[k] {
                                assert(rem.take(b@.len() as int)[k as int] != b@[k as int]);
                                return Err(());
                            }
                            assert(rem.take(k + 1) =~= rem.take(k as int).push(rem[k as int]));
                            assert(b@.take(k + 1) =~= b@.take(k as int).push(b@[k as int]));
                            k = k + 1;
                        }
                        assert(b@.take(k as int) =~= b@);
                        if buf[pos + b.len()] != 13u8 {
                            return Err(());
                        }
                        pos = pos + b.len() + 1;
                        assert(rem.skip(b@.len() as int + 1) =~= buf@.skip(pos as int));
                        if pos == buf.len() {
                            proof {
                                self.written@ = self.written@ + buf@;
                            }
                            return Ok(());
                        }
                    } else if b.len() > left {
                        let mut k: usize = 0;
                        while k < left
                            invariant
                                k <= left < b@.len(),
                                left == buf@.len() - pos,
                                rem == buf@.skip(pos as int),
                                rem.take(k as int) == b@.take(k as int),
                            decreases left - k,
                        {
                            if buf[pos + k] != b[k] {
                                assert(b@.take(left as int)[k as int] != rem[k as int]);
                                return Err(());
                            }
                            assert(rem.take(k + 1) =~= rem.take(k as int).push(rem[k as int]));
                            assert(b@.take(k + 1) =~= b@.take(k as int).push(b@[k as int]));
                            k = k + 1;
                        }
                        assert(rem.take(k as int) =~= rem);
                        let tail = sub_bytes(b.as_slice(), left, b.len());
                        let op = SerialOperation::Write(tail);
                        assert(step_of(op) == ScriptStep::Write(b@.skip(left as int)));
                        self.operations.push_front(op);
                        assert(self.script() =~= before.update(
                            0,
                            ScriptStep::Write(b@.skip(left as int)),
                        ));
                        proof {
                            self.written@ = self.written@ + buf@;
                        }
                        return Ok(());
                    } else {
                        let mut k: usize = 0;
                        while k < left
                            invariant
                                k <= left == b@.len(),
                                left == buf@.len() - pos,
                                rem == buf@.skip(pos as int),
                                rem.take(k as int) == b@.take(k as int),
                            decreases left - k,
                        {
                            if buf[pos + k] != b[k] {
                                assert(rem[k as int] != b@[k as int]);
                                return Err(());
                            }
                            assert(rem.take(k + 1) =~= rem.take(k as int).push(rem[k as int]));
                            assert(b@.take(k + 1) =~= b@.take(k as int).push(b@[k as int]));
                            k = k + 1;
                        }
                        assert(rem.take(k as int) =~= rem);
                        assert(b@.take(k as int) =~= b@);
                        assert(self.script() =~= before.drop_first());
                        proof {
                            self.written@ = self.written@ + buf@;
                        }
                        return Ok(());
                    }
                },
            }
        }
    }
}

impl SerialReadTimeout for MockSerial {
    /// Takes the next read of the script whole, as [`script_next_read`]
    /// says; the timeout does not count.
    fn read_line(&mut self, timeout_ms: u32) -> (r: Result<Option<Vec<u8>>, ()>)
        ensures
            final(self).sent() == old(self).sent(),
            ({
                let (res, rest) = script_next_read(old(self).script());
                &&& final(self).script() == rest
                &&& match r {
                    Ok(Some(line)) => res == Ok::<Option<Seq<u8>>, ()>(Some(line@)),
                    Ok(None) => res == Ok::<Option<Seq<u8>>, ()>(None),
                    Err(_) => res == Err::<Option<Seq<u8>>, ()>(()),
                }
            }),
    {
        let r = self.play_read_line(timeout_ms);
        proof {
            self.events@ = self.events@.push(PortEvent::ReadLine { timeout_ms, got: read_result(r) });
        }
        r
    }

    /// Takes `len` bytes from the first step of the script, as
    /// [`script_read_exact`] says; with a timeout of 200 ms or less it gives
    /// `Ok(None)` at once, which lets a caller drain an echo that the script
    /// does not hold.
    fn read_exact(&mut self, len: usize, timeout_ms: u32) -> (r: Result<Option<Vec<u8>>, ()>)
        ensures
            r matches Ok(Some(bytes)) ==> bytes@.len() == len,
            final(self).sent() == old(self).sent(),
            timeout_ms <= 200 ==> r == Ok::<Option<Vec<u8>>, ()>(None) && final(self).script()
                == old(self).script(),
            timeout_ms > 200 ==> ({
                let (res, rest) = script_read_exact(old(self).script(), len as nat);
                &&& final(self).script() == rest
                &&& match r {
                    Ok(Some(bytes)) => res == Ok::<Option<Seq<u8>>, ()>(Some(bytes@)),
                    Ok(None) => res == Ok::<Option<Seq<u8>>, ()>(None),
                    Err(_) => res == Err::<Option<Seq<u8>>, ()>(()),
                }
            }),
    {
        let r = self.play_read_exact(len, timeout_ms);
        proof {
            self.events@ = self.events@.push(
                PortEvent::ReadExact { len: len as nat, timeout_ms, got: read_result(r) },
            );
        }
        r
    }
}

impl SerialWrite for MockSerial {
    /// Checks `buf` against the writes the script expects, as
    /// [`script_write`] says; an error where it does not match.
    fn write(&mut self, buf: &[u8]) -> (r: Result<(), ()>)
        ensures
            r is Ok ==> final(self).sent() == old(self).sent() + buf@,
            r is Ok <==> script_write(old(self).script(), buf@) is Some,
            r is Ok ==> final(self).script() == script_write(old(self).script(), buf@).unwrap(),
    {
        let r = self.play_write(buf);
        proof {
            self.events@ = self.events@.push(PortEvent::Write { bytes: buf@, ok: r is Ok });
        }
        r
    }
}

} // verus!



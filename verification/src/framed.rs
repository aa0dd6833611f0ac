//! A serial port framed into lines: the reads of a port that hands on the
//! modem's output in chunks as they come go through a [`ModemReader`], and
//! come out one line at a time.

use vstd::prelude::*;
use vstd::string::StringSliceAdditionalSpecFns;
use vstd::utf8::encode_utf8;
use crate::error::Error;
use crate::read::{next_line_of, ModemReader, READ_BUFFER_CAPACITY};
use crate::serial::{
    all_timed, lines_read, new_events, read_result, PortEvent, Serial, SerialReadTimeout,
    SerialWrite,
};
use crate::text::sub_bytes;

verus! {

/// What reading a line gives, and the buffer left, when the buffer holds
/// `buf` and the port's reads give the chunks `chunks`: the next line of the
/// buffer, as [`next_line_of`] says; where none is complete, the next chunk
/// is appended to what is left, or `Error::BufferOverflow` where it does not
/// fit.
pub open spec fn frame(buf: Seq<u8>, chunks: Seq<Seq<u8>>) -> (
    Option<Result<Seq<char>, Error>>,
    Seq<u8>,
)
    decreases chunks.len(),
{
    let (first, rest) = next_line_of(buf);
    if first is Some || chunks.len() == 0 {
        (first, rest)
    } else if rest.len() + chunks[0].len() > READ_BUFFER_CAPACITY {
        (Some(Err(Error::BufferOverflow)), rest)
    } else {
        frame(rest + chunks[0], chunks.drop_first())
    }
}

/// One more chunk, after chunks that gave no line yet.
proof fn lemma_frame_push(buf: Seq<u8>, chunks: Seq<Seq<u8>>, c: Seq<u8>)
    requires
        frame(buf, chunks).0 is None,
    ensures
        frame(buf, chunks.push(c)) == if frame(buf, chunks).1.len() + c.len()
            > READ_BUFFER_CAPACITY {
            (Some(Err::<Seq<char>, Error>(Error::BufferOverflow)), frame(buf, chunks).1)
        } else {
            next_line_of(frame(buf, chunks).1 + c)
        },
    decreases chunks.len(),
{
    let rest = next_line_of(buf).1;
    if chunks.len() == 0 {
        assert(chunks.push(c) =~= seq![c]);
        assert(seq![c].drop_first() =~= Seq::<Seq<u8>>::empty());
        assert(frame(rest + c, Seq::<Seq<u8>>::empty()) == next_line_of(rest + c));
    } else {
        assert(next_line_of(buf).0 is None);
        assert(rest.len() + chunks[0].len() <= READ_BUFFER_CAPACITY);
        assert(frame(buf, chunks) == frame(rest + chunks[0], chunks.drop_first()));
        assert(chunks.push(c)[0] == chunks[0]);
        assert(chunks.push(c).drop_first() =~= chunks.drop_first().push(c));
        lemma_frame_push(rest + chunks[0], chunks.drop_first(), c);
    }
}

/// The chunks read through `read_line` grow by the chunk of a read that gave one.
proof fn lemma_chunk_read(ev: Seq<PortEvent>, ev1: Seq<PortEvent>, e: PortEvent)
    requires
        ev1 == ev.push(e),
    ensures
        lines_read(ev1) == match e {
            PortEvent::ReadLine { got: Ok(Some(c)), .. } => lines_read(ev).push(c),
            _ => lines_read(ev),
        },
{
    assert(ev1.drop_last() =~= ev);
}

/// A port whose reads come in chunks, framed into lines.
pub struct FramedPort<B> {
    port: B,
    reader: ModemReader,
    log: Ghost<Seq<PortEvent>>,
}

impl<B> FramedPort<B> {
    /// The port underneath.
    pub closed spec fn port(&self) -> B {
        self.port
    }

    /// The bytes received from the port and not yet handed on.
    pub closed spec fn buffered(&self) -> Seq<u8> {
        self.reader.buffered()
    }
}

impl<B: Serial> FramedPort<B> {
    /// Frames the reads of `port`, starting with an empty buffer and no calls.
    pub fn new(port: B) -> (f: FramedPort<B>)
        ensures
            f.port() == port,
            f.buffered() == Seq::<u8>::empty(),
            f.events() == Seq::<PortEvent>::empty(),
    {
        FramedPort { port, reader: ModemReader::new(), log: Ghost(Seq::empty()) }
    }
}

impl<B: Serial> Serial for FramedPort<B> {
    type SerialError = Error;

    closed spec fn sent(&self) -> Seq<u8> {
        self.port.sent()
    }

    closed spec fn events(&self) -> Seq<PortEvent> {
        self.log@
    }
}

impl<B: SerialReadTimeout> SerialReadTimeout for FramedPort<B> {
    /// The next line, as [`frame`] says of the buffer and the chunks that
    /// the port's reads give, each made with `timeout_ms`: reads go on
    /// until a line is complete, the port gives nothing in time
    /// (`Ok(None)`) or fails (an error), the buffer overflows, or a line is
    /// not UTF-8.
    fn read_line(&mut self, timeout_ms: u32) -> (r: Result<Option<Vec<u8>>, Error>)
        ensures
            old(self).port().events().is_prefix_of(final(self).port().events()),
            all_timed(new_events(old(self).port().events(), final(self).port().events()), timeout_ms),
            ({
                let pulled = new_events(old(self).port().events(), final(self).port().events());
                let (first, rest) = frame(old(self).buffered(), lines_read(pulled));
                &&& final(self).buffered() == rest
                &&& match r {
                    Ok(Some(line)) => first matches Some(Ok(chars)) && line@ == encode_utf8(chars),
                    Ok(None) => first is None,
                    Err(_) => first matches Some(Err(_)) || (first is None && pulled.len() > 0
                        && pulled.last() matches PortEvent::ReadLine { got: Err(()), .. }),
                }
            }),
    {
        let ghost ev0 = self.port.events();
        let ghost buf0 = self.reader.buffered();
        let mut pulls: u64 = 0;
        let r: Result<Option<Vec<u8>>, Error>;
        proof {
            assert(new_events(ev0, ev0) =~= Seq::<PortEvent>::empty());
            assert(ev0.is_prefix_of(ev0));
        }
        loop
            invariant_except_break
                frame(buf0, lines_read(new_events(ev0, self.port.events()))) == next_line_of(
                    self.reader.buffered(),
                ),
            invariant
                self.log == old(self).log,
                ev0 == old(self).port().events(),
                buf0 == old(self).buffered(),
                self.port.sent() == old(self).port().sent(),
                ev0.is_prefix_of(self.port.events()),
                all_timed(new_events(ev0, self.port.events()), timeout_ms),
            ensures
                self.log == old(self).log,
                self.port.sent() == old(self).port().sent(),
                ev0.is_prefix_of(self.port.events()),
                all_timed(new_events(ev0, self.port.events()), timeout_ms),
                ({
                    let pulled = new_events(ev0, self.port.events());
                    let (first, rest) = frame(buf0, lines_read(pulled));
                    &&& self.reader.buffered() == rest
                    &&& match r {
                        Ok(Some(line)) => first matches Some(Ok(chars)) && line@ == encode_utf8(
                            chars,
                        ),
                        Ok(None) => first is None,
                        Err(_) => first matches Some(Err(_)) || (first is None && pulled.len() > 0
                            && pulled.last() matches PortEvent::ReadLine { got: Err(()), .. }),
                    }
                }),
            decreases u64::MAX - pulls,
        {
            let ghost b = self.reader.buffered();
            let ghost chunks = lines_read(new_events(ev0, self.port.events()));
            match self.reader.next_line() {
                Some(Ok(line)) => {
                    let text = line.as_str().as_bytes();
                    let out = sub_bytes(text, 0, text.len());
                    assert(out@ =~= text@);
                    r = Ok(Some(out));
                    break;
                },
                Some(Err(e)) => {
                    r = Err(e);
                    break;
                },
                None => {},
            }
            if pulls == u64::MAX {
                r = Ok(None);
                break;
            }
            let ghost ev1 = self.port.events();
            let got = self.port.read_line(timeout_ms);
            proof {
                let ev2 = self.port.events();
                assert(new_events(ev0, ev2) =~= new_events(ev0, ev1).push(ev2.last()));
                lemma_chunk_read(new_events(ev0, ev1), new_events(ev0, ev2), ev2.last());
                assert(ev0.is_prefix_of(ev2));
                assert forall|i: int| 0 <= i < new_events(ev0, ev2).len() implies crate::serial::timed(
                    #[trigger] new_events(ev0, ev2)[i],
                    timeout_ms,
                ) by {
                    if i < new_events(ev0, ev1).len() {
                        assert(new_events(ev0, ev2)[i] == new_events(ev0, ev1)[i]);
                    }
                }
            }
            match got {
                Ok(Some(chunk)) => {
                    proof {
                        lemma_frame_push(buf0, chunks, chunk@);
                    }
                    match self.reader.push_bytes(chunk.as_slice()) {
                        Ok(()) => {},
                        Err(e) => {
                            r = Err(e);
                            break;
                        },
                    }
                },
                Ok(None) => {
                    r = Ok(None);
                    break;
                },
                Err(_) => {
                    r = Err(Error::Serial);
                    break;
                },
            }
            pulls = pulls + 1;
        }
        proof {
            self.log@ = self.log@.push(PortEvent::ReadLine { timeout_ms, got: read_result(r) });
        }
        r
    }

    /// The bytes buffered first, then those still missing from one read of
    /// the port: where the buffer holds `len` bytes the port is not read;
    /// else the buffered bytes are kept until the port gives the rest.
    fn read_exact(&mut self, len: usize, timeout_ms: u32) -> (r: Result<Option<Vec<u8>>, Error>)
        ensures
            old(self).buffered().len() >= len ==> {
                &&& r matches Ok(Some(bytes)) && bytes@ == old(self).buffered().take(len as int)
                &&& final(self).buffered() == old(self).buffered().skip(len as int)
                &&& final(self).port().events() == old(self).port().events()
            },
            old(self).buffered().len() < len ==> {
                let pe = final(self).port().events();
                &&& pe.len() == old(self).port().events().len() + 1
                &&& pe.drop_last() == old(self).port().events()
                &&& pe.last() matches PortEvent::ReadExact { len: n, timeout_ms: t, got }
                &&& n == len - old(self).buffered().len()
                &&& t == timeout_ms
                &&& match pe.last()->ReadExact_got {
                    Ok(Some(rest)) => {
                        &&& r matches Ok(Some(bytes)) && bytes@ == old(self).buffered() + rest
                        &&& final(self).buffered() == Seq::<u8>::empty()
                    },
                    Ok(None) => r == Ok::<Option<Vec<u8>>, Error>(None) && final(self).buffered()
                        == old(self).buffered(),
                    Err(()) => r == Err::<Option<Vec<u8>>, Error>(Error::Serial) && final(self).buffered()
                        == old(self).buffered(),
                }
            },
    {
        let have = self.reader.buffered_len();
        let r = if have >= len {
            Ok(Some(self.reader.take_buffered(len)))
        } else {
            let ghost ev0 = self.port.events();
            let got = self.port.read_exact(len - have, timeout_ms);
            proof {
                assert(self.port.events().drop_last() =~= ev0);
            }
            match got {
                Ok(Some(rest)) => {
                    let mut out = self.reader.take_buffered(have);
                    let mut i: usize = 0;
                    let ghost start = out@;
                    while i < rest.len()
                        invariant
                            i <= rest@.len(),
                            out@ == start + rest@.take(i as int),
                        decreases rest@.len() - i,
                    {
                        out.push(rest[i]);
                        i = i + 1;
                        assert(out@ =~= start + rest@.take(i as int));
                    }
                    assert(rest@.take(i as int) =~= rest@);
                    Ok(Some(out))
                },
                Ok(None) => Ok(None),
                Err(_) => Err(Error::Serial),
            }
        };
        proof {
            self.log@ = self.log@.push(
                PortEvent::ReadExact { len: len as nat, timeout_ms, got: read_result(r) },
            );
        }
        r
    }
}

impl<B: SerialWrite> SerialWrite for FramedPort<B> {
    /// Writes through to the port.
    fn write(&mut self, buf: &[u8]) -> (r: Result<(), Error>)
        ensures
            final(self).port().events() == old(self).port().events().push(
                PortEvent::Write { bytes: buf@, ok: r is Ok },
            ),
            final(self).buffered() == old(self).buffered(),
    {
        let r = match self.port.write(buf) {
            Ok(()) => Ok(()),
            Err(_) => Err(Error::Serial),
        };
        proof {
            self.log@ = self.log@.push(PortEvent::Write { bytes: buf@, ok: r is Ok });
        }
        r
    }
}

} // verus!

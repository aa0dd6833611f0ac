//! Reading the modem's answer line by line.

use vstd::prelude::*;
use vstd::string::StringSliceAdditionalSpecFns;
use crate::error::Error;
use crate::numparse::{is_digit, parse_i32, spec_parse_i32};
use crate::serial::{read_failed_with, timed, bytes_read, lemma_bytes_read_since, lemma_lines_read_since, lines_read, new_events, PortEvent, Serial, SerialReadTimeout};
use crate::text::has_prefix;

verus! {

/// A byte that may stand in the text of an integer.
pub open spec fn is_scalar_byte(b: u8) -> bool {
    is_digit(b) || b == 45u8
}

/// The length of the longest prefix of `s` made of digits and `-`.
pub open spec fn scalar_run(s: Seq<u8>) -> nat
    decreases s.len(),
{
    if s.len() == 0 || !is_scalar_byte(s[0]) {
        0
    } else {
        1 + scalar_run(s.drop_first())
    }
}

/// Reads the modem's answer: one line at a time, and through each line
/// from left to right.
pub struct Decoder {
    current_line: Option<Vec<u8>>,
    offset: usize,
    history: Ghost<Seq<Seq<u8>>>,
    base: Ghost<Seq<Seq<u8>>>,
    bytes_base: Ghost<Seq<u8>>,
    taken: Ghost<Seq<u8>>,
    timeout: Ghost<u32>,
    first_event: Ghost<nat>,
}

impl Decoder {
    /// The line being read, if one has been fetched.
    pub closed spec fn line(&self) -> Option<Seq<u8>> {
        match &self.current_line {
            Some(l) => Some(l@),
            None => None,
        }
    }

    /// How much of the current line has been read.
    pub closed spec fn offset(&self) -> nat {
        self.offset as nat
    }

    /// Every line fetched from the serial port so far, oldest first.
    pub closed spec fn history(&self) -> Seq<Seq<u8>> {
        self.history@
    }

    /// The lines the port had given before this decoder was made.
    pub closed spec fn base(&self) -> Seq<Seq<u8>> {
        self.base@
    }

    /// The bytes the port had given to reads of bytes before this decoder
    /// was made.
    pub closed spec fn bytes_base(&self) -> Seq<u8> {
        self.bytes_base@
    }

    /// Every byte read through [`Decoder::read_exact`] so far, in order.
    pub closed spec fn taken(&self) -> Seq<u8> {
        self.taken@
    }

    /// The timeout of every read the decoder makes, in milliseconds.
    pub closed spec fn timeout(&self) -> u32 {
        self.timeout@
    }

    /// How many events the port had seen when the decoder was made.
    pub closed spec fn first_event(&self) -> nat {
        self.first_event@
    }

    /// The lines of the port's events `events` are those it had given before
    /// the decoder was made, then those the decoder fetched, and likewise
    /// for the bytes of reads of bytes: every read since went through the
    /// decoder.
    pub open spec fn synced(&self, events: Seq<PortEvent>) -> bool {
        &&& lines_read(events) == self.base() + self.history()
        &&& bytes_read(events) == self.bytes_base() + self.taken()
        &&& self.first_event() <= events.len()
        &&& forall|i: int|
            self.first_event() <= i < events.len() ==> timed(#[trigger] events[i], self.timeout())
    }

    /// The offset lies within the current line, and that line is the last one fetched.
    pub closed spec fn wf(&self) -> bool {
        &&& self.current_line is Some ==> {
            &&& self.offset <= self.line().unwrap().len()
            &&& self.history@.len() > 0
            &&& self.history@.last() == self.line().unwrap()
        }
    }

    /// What is left to read of the current line.
    pub open spec fn rest(&self) -> Seq<u8> {
        self.line().unwrap().skip(self.offset() as int)
    }

    /// The text that the next operation reads: the rest of the current line,
    /// or else the next line to come.
    pub open spec fn pending(&self) -> Seq<Seq<u8>> {
        if self.line() is Some {
            seq![self.rest()]
        } else {
            Seq::empty()
        }
    }

    /// The lines that a decoder in state `after` has read since state `self`:
    /// the rest of the line it was on, then the lines fetched since.
    pub open spec fn seen_since(&self, after: Decoder) -> Seq<Seq<u8>> {
        self.pending() + after.history().skip(self.history().len() as int)
    }

    /// `after` has a current line: the one `self` had, or a newly fetched one.
    pub open spec fn fetched(&self, after: Decoder) -> bool {
        &&& after.wf()
        &&& after.base() == self.base()
        &&& after.bytes_base() == self.bytes_base()
        &&& after.taken() == self.taken()
        &&& after.timeout() == self.timeout()
        &&& after.first_event() == self.first_event()
        &&& after.line() is Some
        &&& self.line() is Some ==> after.line() == self.line() && after.history()
            == self.history()
        &&& self.line() is None ==> after.history() == self.history().push(after.line().unwrap())
    }

    /// Where reading starts on the current line of `after`.
    pub open spec fn start(&self) -> nat {
        if self.line() is Some {
            self.offset()
        } else {
            0
        }
    }

    /// No line could be fetched: the port failed or nothing came in time.
    pub open spec fn read_failed(&self, after: Decoder, e: Error) -> bool {
        &&& self.line() is None
        &&& after == *self
        &&& (e == Error::Timeout || e == Error::Serial)
    }

    /// A decoder of what `serial` gives from now on, read with a timeout of
    /// `timeout_ms` milliseconds.
    pub fn new<B: Serial>(serial: &B, timeout_ms: u32) -> (d: Decoder)
        ensures
            d.timeout() == timeout_ms,
            d.first_event() == serial.events().len(),
            d.wf(),
            d.line() is None,
            d.history() == Seq::<Seq<u8>>::empty(),
            d.taken() == Seq::<u8>::empty(),
            d.synced(serial.events()),
    {
        let d = Decoder {
            current_line: None,
            offset: 0,
            history: Ghost(Seq::empty()),
            base: Ghost(lines_read(serial.events())),
            bytes_base: Ghost(bytes_read(serial.events())),
            taken: Ghost(Seq::empty()),
            timeout: Ghost(timeout_ms),
            first_event: Ghost(serial.events().len()),
        };
        assert(d.base() + d.history() =~= lines_read(serial.events()));
        assert(d.bytes_base() + d.taken() =~= bytes_read(serial.events()));
        d
    }

    /// Fetches the next line when there is no current one.
    fn fill_line<B: SerialReadTimeout>(&mut self, serial: &mut B, timeout_ms: u32) -> (r: Result<
        (),
        Error,
    >)
        requires
            old(self).wf(),
            old(self).synced(old(serial).events()),
            old(self).timeout() == timeout_ms,
        ensures
            final(serial).sent() == old(serial).sent(),
            old(serial).events().is_prefix_of(final(serial).events()),
            final(self).wf(),
            final(self).synced(final(serial).events()),
            r is Err && r->Err_0 != Error::DecodingFailed ==> read_failed_with(
                old(serial).events(),
                final(serial).events(),
                r->Err_0,
            ),
            match r {
                Ok(()) => old(self).fetched(*final(self)) && final(self).offset() == old(self).start(),
                Err(e) => old(self).read_failed(*final(self), e),
            },
    {
        if self.current_line.is_none() {
            let ghost ev0 = serial.events();
            let got = serial.read_line(timeout_ms);
            proof {
                assert(serial.events().drop_last() =~= ev0);
                assert(ev0.is_prefix_of(serial.events()));
                lemma_timed_push(ev0, serial.events(), self.first_event(), timeout_ms);
            }
            match got {
                Ok(Some(line)) => {
                    proof {
                        self.history@ = self.history@.push(line@);
                        assert(self.base() + self.history() =~= (self.base() + old(self).history()).push(line@));
                    }
                    self.current_line = Some(line);
                    self.offset = 0;
                    Ok(())
                },
                Ok(None) => Err(Error::Timeout),
                Err(_) => Err(Error::Serial),
            }
        } else {
            Ok(())
        }
    }

    /// Requires that nothing is left on the current line.
    pub fn expect_empty<B: SerialReadTimeout>(&mut self, serial: &mut B, timeout_ms: u32) -> (r:
        Result<(), Error>)
        requires
            old(self).wf(),
            old(self).synced(old(serial).events()),
            old(self).timeout() == timeout_ms,
        ensures
            final(serial).sent() == old(serial).sent(),
            old(serial).events().is_prefix_of(final(serial).events()),
            final(self).wf(),
            final(self).synced(final(serial).events()),
            r is Err && r->Err_0 != Error::DecodingFailed ==> read_failed_with(
                old(serial).events(),
                final(serial).events(),
                r->Err_0,
            ),
            match r {
                Ok(()) => old(self).fetched(*final(self)) && final(self).offset() == old(self).start() && final(self).rest().len() == 0,
                Err(Error::DecodingFailed) => old(self).fetched(*final(self)) && final(self).offset() == old(self).start() && final(self).rest().len() != 0,
                Err(e) => old(self).read_failed(*final(self), e),
            },
    {
        self.fill_line(serial, timeout_ms)?;
        let line = self.current_line.as_ref().unwrap();
        if self.offset < line.len() {
            return Err(Error::DecodingFailed);
        }
        Ok(())
    }

    /// Reads an integer: the longest run of digits and `-` at the read
    /// position, which must not be empty, parsed as an `i32`. The run is
    /// consumed even when it does not parse.
    pub fn decode_scalar<B: SerialReadTimeout>(&mut self, serial: &mut B, timeout_ms: u32) -> (r:
        Result<i32, Error>)
        requires
            old(self).wf(),
            old(self).synced(old(serial).events()),
            old(self).timeout() == timeout_ms,
        ensures
            final(serial).sent() == old(serial).sent(),
            old(serial).events().is_prefix_of(final(serial).events()),
            final(self).wf(),
            final(self).synced(final(serial).events()),
            r is Err && r->Err_0 != Error::DecodingFailed ==> read_failed_with(
                old(serial).events(),
                final(serial).events(),
                r->Err_0,
            ),
            r is Err && r->Err_0 != Error::DecodingFailed ==> old(self).read_failed(*final(self),
                r->Err_0,
            ),
            r is Ok || r == Err::<i32, Error>(Error::DecodingFailed) ==> {
                let fin = *final(self);
                let run = fin.line().unwrap().skip(old(self).start() as int);
                let k = scalar_run(run);
                &&& old(self).fetched(fin)
                &&& fin.offset() == old(self).start() + k
                &&& (r is Ok) == (k > 0 && spec_parse_i32(run.take(k as int)) is Some)
                &&& r matches Ok(v) ==> spec_parse_i32(run.take(k as int)) == Some(v as int)
            },
    {
        self.fill_line(serial, timeout_ms)?;
        let line = self.current_line.as_ref().unwrap();
        let ghost run = line@.skip(self.offset as int);
        let start = self.offset;
        let mut i = start;
        while i < line.len() && (is_scalar_byte_exec(line[i]))
            invariant
                start <= i <= line@.len(),
                run == line@.skip(start as int),
                scalar_run(run) == (i - start) + scalar_run(line@.skip(i as int)),
            decreases line@.len() - i,
        {
            proof {
                assert(line@.skip(i as int).drop_first() =~= line@.skip(i + 1));
            }
            i = i + 1;
        }
        let k = i - start;
        assert(scalar_run(line@.skip(i as int)) == 0);
        if k == 0 {
            return Err(Error::DecodingFailed);
        }
        let mut digits: Vec<u8> = Vec::new();
        let mut j = start;
        while j < i
            invariant
                start <= j <= i <= line@.len(),
                digits@ == line@.subrange(start as int, j as int),
            decreases i - j,
        {
            digits.push(line[j]);
            j = j + 1;
            assert(digits@ =~= line@.subrange(start as int, j as int));
        }
        self.offset = i;
        assert(run.take(k as int) =~= digits@);
        match parse_i32(digits.as_slice()) {
            Some(v) => Ok(v),
            None => Err(Error::DecodingFailed),
        }
    }

    /// Leaves the current line; the next read fetches a new one.
    pub fn end_line(&mut self)
        requires
            old(self).wf(),
        ensures
            final(self).wf(),
            final(self).line() is None,
            final(self).history() == old(self).history(),
            final(self).base() == old(self).base(),
            final(self).bytes_base() == old(self).bytes_base(),
            final(self).taken() == old(self).taken(),
            final(self).timeout() == old(self).timeout(),
            final(self).first_event() == old(self).first_event(),
    {
        self.current_line = None;
    }

    /// Requires that the text at the read position starts with `value`,
    /// and reads past it.
    #[verifier::loop_isolation(false)]
    pub fn expect_str<B: SerialReadTimeout>(
        &mut self,
        value: &str,
        serial: &mut B,
        timeout_ms: u32,
    ) -> (r: Result<(), Error>)
        requires
            old(self).wf(),
            old(self).synced(old(serial).events()),
            old(self).timeout() == timeout_ms,
        ensures
            final(serial).sent() == old(serial).sent(),
            old(serial).events().is_prefix_of(final(serial).events()),
            final(self).wf(),
            final(self).synced(final(serial).events()),
            r is Err && r->Err_0 != Error::DecodingFailed ==> read_failed_with(
                old(serial).events(),
                final(serial).events(),
                r->Err_0,
            ),
            match r {
                Ok(()) => old(self).fetched(*final(self)) && has_prefix(
                    final(self).line().unwrap().skip(old(self).start() as int),
                    value.spec_bytes(),
                ) && final(self).offset() == old(self).start() + value.spec_bytes().len(),
                Err(Error::DecodingFailed) => old(self).fetched(*final(self)) && !has_prefix(
                    final(self).line().unwrap().skip(old(self).start() as int),
                    value.spec_bytes(),
                ) && final(self).offset() == old(self).start(),
                Err(e) => old(self).read_failed(*final(self), e),
            },
    {
        self.fill_line(serial, timeout_ms)?;
        let line = self.current_line.as_ref().unwrap();
        let v = value.as_bytes();
        let start = self.offset;
        if line.len() - start < v.len() {
            return Err(Error::DecodingFailed);
        }
        let mut i: usize = 0;
        while i < v.len()
            invariant
                i <= v@.len(),
                start + v@.len() <= line@.len(),
                line@.skip(start as int).take(i as int) == v@.take(i as int),
            decreases v@.len() - i,
        {
            if line[start + i] != v[i] {
                assert(line@.skip(start as int).take(v@.len() as int)[i as int] != v@[i as int]);
                return Err(Error::DecodingFailed);
            }
            assert(line@.skip(start as int).take(i + 1) =~= line@.skip(start as int).take(
                i as int,
            ).push(v@[i as int]));
            assert(v@.take(i + 1) =~= v@.take(i as int).push(v@[i as int]));
            i = i + 1;
        }
        assert(v@.take(i as int) =~= v@);
        self.offset = start + v.len();
        Ok(())
    }

    /// The text from the read position to the end of the line; the read
    /// position does not move.
    pub fn remainder_str<B: SerialReadTimeout>(&mut self, serial: &mut B, timeout_ms: u32) -> (r:
        Result<Vec<u8>, Error>)
        requires
            old(self).wf(),
            old(self).synced(old(serial).events()),
            old(self).timeout() == timeout_ms,
        ensures
            final(serial).sent() == old(serial).sent(),
            old(serial).events().is_prefix_of(final(serial).events()),
            final(self).wf(),
            final(self).synced(final(serial).events()),
            r is Err && r->Err_0 != Error::DecodingFailed ==> read_failed_with(
                old(serial).events(),
                final(serial).events(),
                r->Err_0,
            ),
            match r {
                Ok(rest) => old(self).fetched(*final(self)) && final(self).offset() == old(self).start() && rest@ == final(self).rest(),
                Err(e) => old(self).read_failed(*final(self), e),
            },
    {
        self.fill_line(serial, timeout_ms)?;
        let line = self.current_line.as_ref().unwrap();
        let mut out: Vec<u8> = Vec::new();
        let mut j = self.offset;
        while j < line.len()
            invariant
                self.offset <= j <= line@.len(),
                out@ == line@.subrange(self.offset as int, j as int),
            decreases line@.len() - j,
        {
            out.push(line[j]);
            j = j + 1;
            assert(out@ =~= line@.subrange(self.offset as int, j as int));
        }
        assert(out@ =~= line@.skip(self.offset as int));
        Ok(out)
    }

    /// Reads exactly `len` bytes, line breaks or not.
    pub(crate) fn read_exact<B: SerialReadTimeout>(
        &mut self,
        len: usize,
        serial: &mut B,
        timeout_ms: u32,
    ) -> (r: Result<Vec<u8>, Error>)
        requires
            old(self).synced(old(serial).events()),
            old(self).timeout() == timeout_ms,
        ensures
            final(serial).sent() == old(serial).sent(),
            old(serial).events().is_prefix_of(final(serial).events()),
            final(self).synced(final(serial).events()),
            r is Err && r->Err_0 != Error::DecodingFailed ==> read_failed_with(
                old(serial).events(),
                final(serial).events(),
                r->Err_0,
            ),
            old(self).wf() ==> final(self).wf(),
            final(self).line() == old(self).line(),
            final(self).offset() == old(self).offset(),
            final(self).history() == old(self).history(),
            final(self).base() == old(self).base(),
            final(self).bytes_base() == old(self).bytes_base(),
            final(self).timeout() == old(self).timeout(),
            final(self).first_event() == old(self).first_event(),
            final(self).taken() == old(self).taken() + match r {
                Ok(bytes) => bytes@,
                Err(_) => Seq::<u8>::empty(),
            },
            final(serial).events().len() == old(serial).events().len() + 1,
            final(serial).events().last() matches PortEvent::ReadExact { len: n, got, .. } && n
                == len && match r {
                Ok(bytes) => got == Ok::<Option<Seq<u8>>, ()>(Some(bytes@)),
                Err(_) => got is Err || got == Ok::<Option<Seq<u8>>, ()>(None),
            },
            r matches Ok(bytes) ==> bytes@.len() == len,
            r matches Err(e) ==> e == Error::Timeout || e == Error::Serial,
    {
        let ghost ev0 = serial.events();
        let got = serial.read_exact(len, timeout_ms);
        proof {
            assert(serial.events().drop_last() =~= ev0);
            assert(ev0.is_prefix_of(serial.events()));
            lemma_timed_push(ev0, serial.events(), self.first_event(), timeout_ms);
        }
        match got {
            Ok(Some(bytes)) => {
                proof {
                    self.taken@ = self.taken@ + bytes@;
                    assert(self.bytes_base() + self.taken() =~= (self.bytes_base() + old(self).taken()) + bytes@);
                }
                Ok(bytes)
            },
            Ok(None) => Err(Error::Timeout),
            Err(_) => Err(Error::Serial),
        }
    }
}

/// After fetching, the decoder has seen one line: the text it now stands on.
pub proof fn lemma_seen_fetched(a: Decoder, b: Decoder)
    requires
        a.wf(),
        a.fetched(b),
    ensures
        a.seen_since(b) == seq![b.line().unwrap().skip(a.start() as int)],
{
    if a.line() is Some {
        assert(b.history().skip(a.history().len() as int) =~= Seq::<Seq<u8>>::empty());
        assert(a.seen_since(b) =~= seq![b.line().unwrap().skip(a.start() as int)]);
    } else {
        assert(b.history().skip(a.history().len() as int) =~= seq![b.line().unwrap()]);
        assert(b.line().unwrap().skip(0) =~= b.line().unwrap());
        assert(a.seen_since(b) =~= seq![b.line().unwrap().skip(a.start() as int)]);
    }
}

/// A failed fetch sees nothing.
pub proof fn lemma_seen_failed(a: Decoder, b: Decoder, e: Error)
    requires
        a.read_failed(b, e),
    ensures
        a.seen_since(b) == Seq::<Seq<u8>>::empty(),
{
    assert(b.history().skip(a.history().len() as int) =~= Seq::<Seq<u8>>::empty());
    assert(a.seen_since(b) =~= Seq::<Seq<u8>>::empty());
}

/// The history only grows from `a` to `b`.
pub open spec fn extends(a: Decoder, b: Decoder) -> bool {
    &&& a.history().len() <= b.history().len()
    &&& b.history().take(a.history().len() as int) == a.history()
    &&& b.base() == a.base()
    &&& b.bytes_base() == a.bytes_base()
    &&& a.taken().is_prefix_of(b.taken())
    &&& b.timeout() == a.timeout()
    &&& b.first_event() == a.first_event()
}

/// What is seen from `a` to `c` through a state `b` between lines is what is
/// seen from `a` to `b`, then from `b` to `c`.
pub proof fn lemma_seen_concat(a: Decoder, b: Decoder, c: Decoder)
    requires
        b.line() is None,
        extends(a, b),
        extends(b, c),
    ensures
        a.seen_since(c) == a.seen_since(b) + b.seen_since(c),
        extends(a, c),
{
    assert(b.pending() =~= Seq::<Seq<u8>>::empty());
    assert(c.history().skip(a.history().len() as int) =~= b.history().skip(
        a.history().len() as int,
    ) + c.history().skip(b.history().len() as int));
    assert(a.seen_since(c) =~= a.seen_since(b) + b.seen_since(c));
    assert(c.history().take(a.history().len() as int) =~= b.history().take(
        a.history().len() as int,
    ));
}

/// Reading on the current line fetches nothing new.
pub proof fn lemma_same_line(a: Decoder, b: Decoder)
    requires
        a.line() is Some,
        extends(a, b),
        a.seen_since(b).len() == 1,
    ensures
        b.history() == a.history(),
{
    assert(b.history() =~= b.history().take(a.history().len() as int));
}

/// In a well formed decoder the read position lies within the current line.
pub proof fn lemma_offset_in_line(d: Decoder)
    requires
        d.wf(),
    ensures
        d.line() is Some ==> d.offset() <= d.line().unwrap().len(),
{
}

/// Fetching extends the history.
pub proof fn lemma_fetched_extends(a: Decoder, b: Decoder)
    requires
        a.fetched(b),
    ensures
        extends(a, b),
{
    assert(b.history().take(a.history().len() as int) =~= a.history());
}

/// Nothing happening extends the history.
pub proof fn lemma_extends_refl(a: Decoder)
    ensures
        extends(a, a),
        a.seen_since(a) == a.pending(),
{
    assert(a.history().take(a.history().len() as int) =~= a.history());
    assert(a.history().skip(a.history().len() as int) =~= Seq::<Seq<u8>>::empty());
    assert(a.seen_since(a) =~= a.pending());
}

/// Reads the text at the read position, or else the next line, to its end.
pub fn next_text<B: SerialReadTimeout>(decoder: &mut Decoder, serial: &mut B, timeout_ms: u32) -> (r:
    Result<Vec<u8>, Error>)
    requires
        old(decoder).wf(),
        old(decoder).synced(old(serial).events()),
        old(decoder).timeout() == timeout_ms,
    ensures
        final(serial).sent() == old(serial).sent(),
        old(serial).events().is_prefix_of(final(serial).events()),
        final(decoder).wf(),
        final(decoder).synced(final(serial).events()),
        r is Err && r->Err_0 != Error::DecodingFailed ==> read_failed_with(
            old(serial).events(),
            final(serial).events(),
            r->Err_0,
        ),
        extends(*old(decoder), *final(decoder)),
        final(decoder).taken() == old(decoder).taken(),
        match r {
            Ok(text) => {
                &&& old(decoder).seen_since(*final(decoder)) == seq![text@]
                &&& final(decoder).line() is Some
                &&& final(decoder).rest() == text@
                &&& old(decoder).line() is Some ==> text@ == old(decoder).rest()
                    && final(decoder).history() == old(decoder).history()
            },
            Err(e) => old(decoder).seen_since(*final(decoder)) == Seq::<Seq<u8>>::empty() && (e
                == Error::Timeout || e == Error::Serial) && *final(decoder) == *old(decoder),
        },
{
    let ghost d0 = *decoder;
    let r = decoder.remainder_str(serial, timeout_ms);
    proof {
        match r {
            Ok(_) => {
                lemma_seen_fetched(d0, *decoder);
                lemma_fetched_extends(d0, *decoder);
            },
            Err(e) => {
                lemma_seen_failed(d0, *decoder, e);
                lemma_extends_refl(d0);
            },
        }
    }
    r
}

/// Reads past `value`, which must start the text at the read position or
/// else the next line.
pub fn expect_text<B: SerialReadTimeout>(
    decoder: &mut Decoder,
    value: &str,
    serial: &mut B,
    timeout_ms: u32,
) -> (r: Result<(), Error>)
    requires
        old(decoder).wf(),
        old(decoder).synced(old(serial).events()),
        old(decoder).timeout() == timeout_ms,
    ensures
        final(serial).sent() == old(serial).sent(),
        old(serial).events().is_prefix_of(final(serial).events()),
        final(decoder).wf(),
        final(decoder).synced(final(serial).events()),
        r is Err && r->Err_0 != Error::DecodingFailed ==> read_failed_with(
            old(serial).events(),
            final(serial).events(),
            r->Err_0,
        ),
        extends(*old(decoder), *final(decoder)),
        final(decoder).taken() == old(decoder).taken(),
        match r {
            Ok(()) => {
                let seen = old(decoder).seen_since(*final(decoder));
                &&& seen.len() == 1
                &&& has_prefix(seen[0], value.spec_bytes())
                &&& final(decoder).line() is Some
                &&& final(decoder).rest() == seen[0].skip(value.spec_bytes().len() as int)
            },
            Err(Error::DecodingFailed) => {
                let seen = old(decoder).seen_since(*final(decoder));
                &&& seen.len() == 1
                &&& !has_prefix(seen[0], value.spec_bytes())
            },
            Err(e) => old(decoder).seen_since(*final(decoder)) == Seq::<Seq<u8>>::empty() && (e
                == Error::Timeout || e == Error::Serial) && *final(decoder) == *old(decoder),
        },
{
    let ghost d0 = *decoder;
    let r = decoder.expect_str(value, serial, timeout_ms);
    proof {
        match r {
            Err(e) => if e != Error::DecodingFailed {
                lemma_seen_failed(d0, *decoder, e);
                lemma_extends_refl(d0);
            } else {
                lemma_seen_fetched(d0, *decoder);
                lemma_fetched_extends(d0, *decoder);
            },
            Ok(_) => {
                lemma_seen_fetched(d0, *decoder);
                lemma_fetched_extends(d0, *decoder);
                let l = decoder.line().unwrap();
                assert(decoder.rest() =~= l.skip(d0.start() as int).skip(
                    value.spec_bytes().len() as int,
                ));
            },
        }
    }
    r
}

/// A decoder made when the port's events were `ev0` that has come to `d`
/// when they are `ev` has fetched exactly the lines the port gave in between.
pub proof fn lemma_decoder_saw(d0: Decoder, d: Decoder, ev0: Seq<PortEvent>, ev: Seq<PortEvent>)
    requires
        d0.line() is None,
        d0.history().len() == 0,
        d0.taken().len() == 0,
        d0.synced(ev0),
        d.synced(ev),
        extends(d0, d),
        ev0.is_prefix_of(ev),
    ensures
        d0.seen_since(d) == lines_read(new_events(ev0, ev)),
        d.history() == lines_read(new_events(ev0, ev)),
        d.taken() == bytes_read(new_events(ev0, ev)),
        d0.first_event() == ev0.len() ==> forall|i: int|
            0 <= i < new_events(ev0, ev).len() ==> timed(#[trigger] new_events(ev0, ev)[i], d0.timeout()),
{
    if d0.first_event() == ev0.len() {
        assert forall|i: int| 0 <= i < new_events(ev0, ev).len() implies timed(
            #[trigger] new_events(ev0, ev)[i],
            d0.timeout(),
        ) by {
            assert(new_events(ev0, ev)[i] == ev[ev0.len() + i]);
        }
    }
    lemma_lines_read_since(ev0, ev);
    lemma_bytes_read_since(ev0, ev);
    assert(d0.bytes_base() =~= bytes_read(ev0));
    assert(d.taken() =~= (d0.bytes_base() + d.taken()).skip(d0.bytes_base().len() as int));
    assert(bytes_read(new_events(ev0, ev)) =~= (d0.bytes_base() + bytes_read(new_events(ev0, ev))).skip(d0.bytes_base().len() as int));
    assert(d0.base() =~= lines_read(ev0));
    let n = new_events(ev0, ev);
    assert(d0.base() + d.history() == d0.base() + lines_read(n));
    assert(d.history() =~= (d0.base() + d.history()).skip(d0.base().len() as int));
    assert(lines_read(n) =~= (d0.base() + lines_read(n)).skip(d0.base().len() as int));
    assert(d.history().skip(0) =~= d.history());
    assert(d0.pending() =~= Seq::<Seq<u8>>::empty());
    assert(d0.seen_since(d) =~= d.history());
}

/// A read pushed with the decoder's timeout keeps every read since the
/// decoder was made within it.
proof fn lemma_timed_push(ev0: Seq<PortEvent>, ev: Seq<PortEvent>, first: nat, timeout_ms: u32)
    requires
        first <= ev0.len(),
        ev.len() == ev0.len() + 1,
        ev.drop_last() == ev0,
        timed(ev.last(), timeout_ms),
        forall|i: int| first <= i < ev0.len() ==> timed(#[trigger] ev0[i], timeout_ms),
    ensures
        forall|i: int| first <= i < ev.len() ==> timed(#[trigger] ev[i], timeout_ms),
{
    assert forall|i: int| first <= i < ev.len() implies timed(#[trigger] ev[i], timeout_ms) by {
        if i < ev0.len() {
            assert(ev[i] == ev.drop_last()[i]);
        }
    }
}

/// Whether `b` may stand in the text of an integer.
fn is_scalar_byte_exec(b: u8) -> (r: bool)
    ensures
        r == is_scalar_byte(b),
{
    (b >= 48 && b <= 57) || b == 45
}

} // verus!

//! Raw commands as they queue up for the modem's transmit line.

use vstd::prelude::*;
use vstd::string::StringSliceAdditionalSpecFns;

verus! {

/// The most bytes one raw command holds.
pub const RAW_CHUNK_CAPACITY: usize = 256;

/// The bytes of a raw text command.
pub uninterp spec fn raw_text_bytes(s: heapless::String<256>) -> Seq<u8>;

/// The bytes of a raw binary command.
pub uninterp spec fn chunk_items(v: heapless::Vec<u8, 256>) -> Seq<u8>;

/// `heapless::String::try_from`: a string holding the text of `s`; `Err`
/// where its bytes do not fit in the capacity of 256.
#[verifier::external_body]
fn text_try_from(s: &str) -> (r: Result<heapless::String<256>, ()>)
    ensures
        s.spec_bytes().len() <= 256 ==> r is Ok && raw_text_bytes(r->Ok_0) == s.spec_bytes(),
        s.spec_bytes().len() > 256 ==> r is Err,
{
    heapless::String::try_from(s)
}

/// `heapless::String::as_bytes`: the UTF-8 bytes of the text.
#[verifier::external_body]
fn text_as_bytes(s: &heapless::String<256>) -> (r: &[u8])
    ensures
        r@ == raw_text_bytes(*s),
{
    s.as_bytes()
}

/// `heapless::Vec::new`: an empty vector.
#[verifier::external_body]
fn chunk_new() -> (r: heapless::Vec<u8, 256>)
    ensures
        chunk_items(r) == Seq::<u8>::empty(),
{
    heapless::Vec::new()
}

/// `heapless::Vec::extend_from_slice`: appends `other`; where it does not
/// fit in the capacity of 256 the vector stays as it was and `Err` comes back.
#[verifier::external_body]
fn chunk_extend_from_slice(v: &mut heapless::Vec<u8, 256>, other: &[u8]) -> (r: Result<(), ()>)
    ensures
        chunk_items(*old(v)).len() + other@.len() <= 256 ==> r is Ok && chunk_items(*final(v))
            == chunk_items(*old(v)) + other@,
        chunk_items(*old(v)).len() + other@.len() > 256 ==> r is Err && chunk_items(*final(v))
            == chunk_items(*old(v)),
{
    v.extend_from_slice(other)
}

/// `heapless::Vec::as_slice`: the bytes, in order.
#[verifier::external_body]
fn chunk_as_slice(v: &heapless::Vec<u8, 256>) -> (r: &[u8])
    ensures
        r@ == chunk_items(*v),
{
    v.as_slice()
}

/// A command for the modem's transmit line: text or raw bytes.
pub enum RawAtCommand {
    Text(heapless::String<256>),
    Binary(heapless::Vec<u8, 256>),
}

impl RawAtCommand {
    /// The bytes the command puts on the line.
    pub open spec fn bytes(&self) -> Seq<u8> {
        match *self {
            RawAtCommand::Text(s) => raw_text_bytes(s),
            RawAtCommand::Binary(b) => chunk_items(b),
        }
    }

    /// A text command holding `s`, which has to fit in 256 bytes.
    pub fn from_str(s: &str) -> (r: RawAtCommand)
        requires
            s.spec_bytes().len() <= RAW_CHUNK_CAPACITY,
        ensures
            r is Text,
            r.bytes() == s.spec_bytes(),
    {
        match text_try_from(s) {
            Ok(t) => RawAtCommand::Text(t),
            Err(()) => vstd::pervasive::unreached(),
        }
    }

    /// The bytes the command puts on the line.
    pub fn as_bytes(&self) -> (r: &[u8])
        ensures
            r@ == self.bytes(),
    {
        match self {
            RawAtCommand::Text(s) => text_as_bytes(s),
            RawAtCommand::Binary(b) => chunk_as_slice(b),
        }
    }
}

/// The bytes of `cmds`, one command after the other.
pub open spec fn joined(cmds: Seq<RawAtCommand>) -> Seq<u8>
    decreases cmds.len(),
{
    if cmds.len() == 0 {
        Seq::empty()
    } else {
        joined(cmds.drop_last()) + cmds.last().bytes()
    }
}

/// Cuts `bytes` into binary commands of [`RAW_CHUNK_CAPACITY`] bytes, the
/// last one holding what is left; together they hold `bytes` in order.
pub fn chunks_of(bytes: &[u8]) -> (r: Vec<RawAtCommand>)
    ensures
        joined(r@) == bytes@,
        forall|i: int| 0 <= i < r@.len() ==> #[trigger] r@[i] is Binary,
        forall|i: int| 0 <= i < r@.len() ==> 0 < (#[trigger] r@[i]).bytes().len() <= RAW_CHUNK_CAPACITY,
        forall|i: int| 0 <= i < r@.len() - 1 ==> (#[trigger] r@[i]).bytes().len() == RAW_CHUNK_CAPACITY,
{
    let mut out: Vec<RawAtCommand> = Vec::new();
    let mut pos: usize = 0;
    while pos < bytes.len()
        invariant
            pos <= bytes@.len(),
            joined(out@) == bytes@.take(pos as int),
            forall|i: int| 0 <= i < out@.len() ==> #[trigger] out@[i] is Binary,
            forall|i: int| 0 <= i < out@.len() ==> 0 < (#[trigger] out@[i]).bytes().len() <= RAW_CHUNK_CAPACITY,
            forall|i: int| 0 <= i < out@.len() ==> (#[trigger] out@[i]).bytes().len() == RAW_CHUNK_CAPACITY,
        decreases bytes@.len() - pos,
    {
        let left = bytes.len() - pos;
        let n = if left < RAW_CHUNK_CAPACITY {
            left
        } else {
            RAW_CHUNK_CAPACITY
        };
        let mut chunk = chunk_new();
        let piece = vstd::slice::slice_subrange(bytes, pos, pos + n);
        let _ = chunk_extend_from_slice(&mut chunk, piece);
        let cmd = RawAtCommand::Binary(chunk);
        let ghost before = out@;
        out.push(cmd);
        proof {
            assert(out@.drop_last() =~= before);
            assert(bytes@.take((pos + n) as int) =~= bytes@.take(pos as int) + bytes@.subrange(
                pos as int,
                (pos + n) as int,
            ));
        }
        pos = pos + n;
        if pos < bytes.len() {
            assert(n == RAW_CHUNK_CAPACITY);
        } else {
            proof {
                assert(bytes@.take(pos as int) =~= bytes@);
                assert forall|i: int| 0 <= i < out@.len() - 1 implies (
                    #[trigger] out@[i]).bytes().len() == RAW_CHUNK_CAPACITY by {
                    assert(out@[i] == before[i]);
                }
            }
            return out;
        }
    }
    assert(bytes@.take(pos as int) =~= bytes@);
    out
}

} // verus!

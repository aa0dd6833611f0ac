//! Line framing of the modem's output: the bytes that come from the modem
//! are gathered in a buffer and handed on as lines.

use vstd::prelude::*;
use vstd::utf8::{decode_utf8, valid_utf8};
use vstd::string::StringSliceAdditionalSpecFns;
use crate::error::Error;
use crate::text::{has_prefix, sub_bytes};

verus! {

/// The most bytes the buffer holds.
pub const READ_BUFFER_CAPACITY: usize = 256;

/// A character of the Unicode property `White_Space`, which `str::trim` removes.
pub open spec fn is_white_space(c: char) -> bool {
    let u = c as u32;
    ||| 0x09 <= u <= 0x0d
    ||| u == 0x20
    ||| u == 0x85
    ||| u == 0xa0
    ||| u == 0x1680
    ||| 0x2000 <= u <= 0x200a
    ||| u == 0x2028
    ||| u == 0x2029
    ||| u == 0x202f
    ||| u == 0x205f
    ||| u == 0x3000
}

/// `s` without its leading white space.
pub open spec fn trim_start_chars(s: Seq<char>) -> Seq<char>
    decreases s.len(),
{
    if s.len() > 0 && is_white_space(s[0]) {
        trim_start_chars(s.drop_first())
    } else {
        s
    }
}

/// `s` without its trailing white space.
pub open spec fn trim_end_chars(s: Seq<char>) -> Seq<char>
    decreases s.len(),
{
    if s.len() > 0 && is_white_space(s.last()) {
        trim_end_chars(s.drop_last())
    } else {
        s
    }
}

/// `s` without white space at either end, as `str::trim` gives it.
pub open spec fn trim_chars(s: Seq<char>) -> Seq<char> {
    trim_end_chars(trim_start_chars(s))
}

/// The bytes of the prompt that the modem writes when it waits for data: `> `.
pub open spec fn prompt_bytes() -> Seq<u8> {
    seq![62u8, 32u8]
}

/// The characters of the prompt.
pub open spec fn prompt_chars() -> Seq<char> {
    seq!['>', ' ']
}

/// The position of the first line feed in `b`.
pub open spec fn newline_at(b: Seq<u8>) -> Option<nat>
    decreases b.len(),
{
    if b.len() == 0 {
        None
    } else if b[0] == 10u8 {
        Some(0)
    } else {
        match newline_at(b.drop_first()) {
            Some(p) => Some(p + 1),
            None => None,
        }
    }
}

pub proof fn lemma_newline_at(b: Seq<u8>)
    ensures
        newline_at(b) matches Some(p) ==> p < b.len() && b[p as int] == 10u8 && forall|j: int|
            0 <= j < p ==> b[j] != 10u8,
        newline_at(b) is None ==> forall|j: int| 0 <= j < b.len() ==> b[j] != 10u8,
    decreases b.len(),
{
    if b.len() > 0 && b[0] != 10u8 {
        lemma_newline_at(b.drop_first());
        assert forall|j: int| 1 <= j < b.len() implies b[j] == b.drop_first()[j - 1] by {}
    }
}

/// What the buffer `b` gives for the next line, and the buffer left:
/// - the prompt `> ` at the front is handed on as a line of its own;
/// - otherwise the text before the first line feed is a line, the line feed
///   dropped with it; a line that is not UTF-8 is an error; blank lines and
///   lines ending with `\r\r` (the modem's echo of a request) are passed
///   over; a line is handed on trimmed;
/// - `None` when no line is complete yet.
pub open spec fn next_line_of(b: Seq<u8>) -> (Option<Result<Seq<char>, Error>>, Seq<u8>)
    decreases b.len(),
{
    if has_prefix(b, prompt_bytes()) {
        (Some(Ok(prompt_chars())), b.skip(2))
    } else {
        match newline_at(b) {
            None => (None, b),
            Some(p) => {
                let raw = b.take(p as int);
                let rest = b.skip(p as int + 1);
                if !valid_utf8(raw) {
                    (Some(Err(Error::InvalidUtf8)), rest)
                } else if trim_chars(decode_utf8(raw)).len() == 0 || (raw.len() >= 2 && raw[raw.len()
                    - 1] == 13u8 && raw[raw.len() - 2] == 13u8) {
                    proof {
                        lemma_newline_at(b);
                    }
                    next_line_of(rest)
                } else {
                    (Some(Ok(trim_chars(decode_utf8(raw)))), rest)
                }
            },
        }
    }
}

/// A line feed in `a` is found at the same place in `a` followed by more bytes.
proof fn lemma_newline_at_append(a: Seq<u8>, c: Seq<u8>)
    requires
        newline_at(a) is Some,
    ensures
        newline_at(a + c) == newline_at(a),
    decreases a.len(),
{
    if a[0] != 10u8 {
        assert((a + c).drop_first() =~= a.drop_first() + c);
        lemma_newline_at_append(a.drop_first(), c);
    }
}

/// A line that the buffer `a` holds complete is handed on the same whatever
/// bytes `c` come after it, and those bytes stay in the buffer behind what
/// is left of `a`: bytes that arrive later never change a line already
/// framed, however the modem's output is cut into pieces.
pub proof fn lemma_line_unaffected_by_later_bytes(a: Seq<u8>, c: Seq<u8>)
    requires
        next_line_of(a).0 is Some,
    ensures
        next_line_of(a + c) == (next_line_of(a).0, next_line_of(a).1 + c),
    decreases a.len(),
{
    let ac = a + c;
    if has_prefix(a, prompt_bytes()) {
        assert(ac.take(2) =~= a.take(2));
        assert(ac.skip(2) =~= a.skip(2) + c);
    } else {
        let p = newline_at(a).unwrap();
        lemma_newline_at(a);
        lemma_newline_at_append(a, c);
        if has_prefix(ac, prompt_bytes()) {
            if a.len() >= 2 {
                assert(a.take(2) =~= ac.take(2));
            } else {
                assert(a[0] == ac[0]);
            }
        }
        assert(ac.take(p as int) =~= a.take(p as int));
        assert(ac.skip(p as int + 1) =~= a.skip(p as int + 1) + c);
        let raw = a.take(p as int);
        if valid_utf8(raw) && (trim_chars(decode_utf8(raw)).len() == 0 || (raw.len() >= 2
            && raw[raw.len() - 1] == 13u8 && raw[raw.len() - 2] == 13u8)) {
            lemma_line_unaffected_by_later_bytes(a.skip(p as int + 1), c);
        }
    }
}

/// `seg` holds no line feed.
pub open spec fn no_newline(seg: Seq<u8>) -> bool {
    forall|j: int| 0 <= j < seg.len() ==> seg[j] != 10u8
}

/// A line that the reader passes over: blank once trimmed, or the modem's
/// echo of a request (it ends with `\r\r`).
pub open spec fn passed_over(raw: Seq<u8>) -> bool {
    trim_chars(decode_utf8(raw)).len() == 0 || (raw.len() >= 2 && raw[raw.len() - 1] == 13u8
        && raw[raw.len() - 2] == 13u8)
}

/// The segments `segs`, each followed by a line feed.
pub open spec fn joined_lines(segs: Seq<Seq<u8>>) -> Seq<u8>
    decreases segs.len(),
{
    if segs.len() == 0 {
        Seq::empty()
    } else {
        segs[0] + seq![10u8] + joined_lines(segs.drop_first())
    }
}

/// The first line feed of `seg` followed by one stands right after `seg`.
proof fn lemma_newline_after(seg: Seq<u8>, rest: Seq<u8>)
    requires
        no_newline(seg),
    ensures
        newline_at(seg + seq![10u8] + rest) == Some(seg.len()),
    decreases seg.len(),
{
    let b = seg + seq![10u8] + rest;
    if seg.len() > 0 {
        assert(b.drop_first() =~= seg.drop_first() + seq![10u8] + rest);
        lemma_newline_after(seg.drop_first(), rest);
    }
}

/// A segment that does not start with the prompt does not start one with
/// its line feed behind it.
proof fn lemma_no_prompt(seg: Seq<u8>, rest: Seq<u8>)
    requires
        !has_prefix(seg, prompt_bytes()),
    ensures
        !has_prefix(seg + seq![10u8] + rest, prompt_bytes()),
{
    let b = seg + seq![10u8] + rest;
    if has_prefix(b, prompt_bytes()) {
        if seg.len() >= 2 {
            assert(seg.take(2) =~= b.take(2));
        } else if seg.len() == 1 {
            assert(b[1] == 10u8);
            assert(b.take(2)[1] == prompt_bytes()[1]);
        } else {
            assert(b[0] == 10u8);
            assert(b.take(2)[0] == prompt_bytes()[0]);
        }
    }
}

/// A complete line that is UTF-8, neither blank nor an echo, and not the
/// prompt, is handed on trimmed; exactly its bytes and its line feed are
/// consumed, and the rest stays in the buffer, in order.
pub proof fn lemma_next_line_gives_line(t: Seq<u8>, rest: Seq<u8>)
    requires
        no_newline(t),
        !has_prefix(t, prompt_bytes()),
        valid_utf8(t),
        !passed_over(t),
    ensures
        next_line_of(t + seq![10u8] + rest) == (
            Some(Ok::<Seq<char>, Error>(trim_chars(decode_utf8(t)))),
            rest,
        ),
{
    let b = t + seq![10u8] + rest;
    lemma_newline_after(t, rest);
    lemma_no_prompt(t, rest);
    assert(b.take(t.len() as int) =~= t);
    assert(b.skip(t.len() as int + 1) =~= rest);
}

/// A complete line that is not UTF-8 is refused with
/// `Error::InvalidUtf8`; it is consumed with its line feed and the rest
/// stays in the buffer, in order.
pub proof fn lemma_next_line_refuses_invalid(t: Seq<u8>, rest: Seq<u8>)
    requires
        no_newline(t),
        !has_prefix(t, prompt_bytes()),
        !valid_utf8(t),
    ensures
        next_line_of(t + seq![10u8] + rest) == (Some(Err::<Seq<char>, Error>(Error::InvalidUtf8)), rest),
{
    let b = t + seq![10u8] + rest;
    lemma_newline_after(t, rest);
    lemma_no_prompt(t, rest);
    assert(b.take(t.len() as int) =~= t);
    assert(b.skip(t.len() as int + 1) =~= rest);
}

/// Complete lines that are blank or echoes are passed over: what the reader
/// hands on next is what follows them.
pub proof fn lemma_next_line_passes_over(segs: Seq<Seq<u8>>, rest: Seq<u8>)
    requires
        forall|i: int|
            0 <= i < segs.len() ==> no_newline(#[trigger] segs[i]) && !has_prefix(
                segs[i],
                prompt_bytes(),
            ) && valid_utf8(segs[i]) && passed_over(segs[i]),
    ensures
        next_line_of(joined_lines(segs) + rest) == next_line_of(rest),
    decreases segs.len(),
{
    if segs.len() > 0 {
        let seg = segs[0];
        let tail = joined_lines(segs.drop_first()) + rest;
        let b = joined_lines(segs) + rest;
        assert(b =~= seg + seq![10u8] + tail);
        lemma_newline_after(seg, tail);
        lemma_no_prompt(seg, tail);
        assert(b.take(seg.len() as int) =~= seg);
        assert(b.skip(seg.len() as int + 1) =~= tail);
        assert forall|i: int| 0 <= i < segs.drop_first().len() implies no_newline(
            #[trigger] segs.drop_first()[i],
        ) && !has_prefix(segs.drop_first()[i], prompt_bytes()) && valid_utf8(segs.drop_first()[i])
            && passed_over(segs.drop_first()[i]) by {
            assert(segs.drop_first()[i] == segs[i + 1]);
        }
        lemma_next_line_passes_over(segs.drop_first(), rest);
    } else {
        assert(joined_lines(segs) + rest =~= rest);
    }
}

/// `std::str::from_utf8`: `Some` exactly for valid UTF-8, the text then
/// being made of those very bytes.
#[verifier::external_body]
fn str_from_utf8(bytes: &[u8]) -> (r: Option<&str>)
    ensures
        r is Some <==> valid_utf8(bytes@),
        r matches Some(s) ==> s.spec_bytes() == bytes@,
{
    std::str::from_utf8(bytes).ok()
}

/// `str::trim`: the text without leading and trailing white space, white
/// space being the Unicode property `White_Space`.
#[verifier::external_body]
fn str_trim(s: &str) -> (r: &str)
    ensures
        r@ == trim_chars(s@),
{
    s.trim()
}

/// Gathers the modem's output and cuts it into lines.
pub struct ModemReader {
    buffer: Vec<u8>,
}

impl ModemReader {
    /// The bytes received and not yet handed on.
    pub closed spec fn buffered(&self) -> Seq<u8> {
        self.buffer@
    }

    /// The buffer never holds more than [`READ_BUFFER_CAPACITY`] bytes.
    pub closed spec fn wf(&self) -> bool {
        self.buffer@.len() <= READ_BUFFER_CAPACITY
    }

    pub fn new() -> (r: ModemReader)
        ensures
            r.wf(),
            r.buffered() == Seq::<u8>::empty(),
    {
        ModemReader { buffer: Vec::new() }
    }

    /// How many more bytes the buffer can take.
    pub fn free_space(&self) -> (n: usize)
        requires
            self.wf(),
        ensures
            n == READ_BUFFER_CAPACITY - self.buffered().len(),
    {
        READ_BUFFER_CAPACITY - self.buffer.len()
    }

    /// How many bytes the buffer holds.
    pub fn buffered_len(&self) -> (n: usize)
        ensures
            n == self.buffered().len(),
    {
        self.buffer.len()
    }

    /// Adds bytes from the modem; an overflow, and nothing added, where they
    /// do not fit.
    pub fn push_bytes(&mut self, bytes: &[u8]) -> (r: Result<(), Error>)
        ensures
            old(self).wf() ==> final(self).wf(),
            r is Ok <==> old(self).buffered().len() + bytes@.len() <= READ_BUFFER_CAPACITY,
            r is Ok ==> final(self).buffered() == old(self).buffered() + bytes@,
            r is Err ==> r == Err::<(), Error>(Error::BufferOverflow) && final(self).buffered()
                == old(self).buffered(),
    {
        if bytes.len() > READ_BUFFER_CAPACITY || self.buffer.len() > READ_BUFFER_CAPACITY
            - bytes.len() {
            return Err(Error::BufferOverflow);
        }
        let mut i: usize = 0;
        while i < bytes.len()
            invariant
                i <= bytes@.len(),
                old(self).buffered().len() + bytes@.len() <= READ_BUFFER_CAPACITY,
                self.buffer@ == old(self).buffered() + bytes@.take(i as int),
            decreases bytes@.len() - i,
        {
            self.buffer.push(bytes[i]);
            i = i + 1;
            assert(self.buffer@ =~= old(self).buffered() + bytes@.take(i as int));
        }
        assert(bytes@.take(i as int) =~= bytes@);
        Ok(())
    }

    /// Drops the first `n` bytes of the buffer.
    fn drop_front(&mut self, n: usize)
        requires
            n <= old(self).buffer@.len(),
        ensures
            final(self).buffer@ == old(self).buffer@.skip(n as int),
    {
        self.buffer = sub_bytes(self.buffer.as_slice(), n, self.buffer.len());
    }

    /// Hands on the next line of the buffer, as [`next_line_of`] says; `None`
    /// asks for more bytes from the modem.
    pub fn next_line(&mut self) -> (r: Option<Result<String, Error>>)
        ensures
            old(self).wf() ==> final(self).wf(),
            final(self).buffered() == next_line_of(old(self).buffered()).1,
            match next_line_of(old(self).buffered()).0 {
                None => r is None,
                Some(Err(e)) => r == Some(Err::<String, Error>(e)),
                Some(Ok(line)) => r is Some && r->Some_0 is Ok && r->Some_0->Ok_0@ == line,
            },
    {
        loop
            invariant
                self.buffered().len() <= old(self).buffered().len(),
                next_line_of(old(self).buffered()) == next_line_of(self.buffered()),
            decreases self.buffer@.len(),
        {
            let ghost b = self.buffer@;
            if crate::text::starts_with(self.buffer.as_slice(), &[62u8, 32u8]) {
                self.drop_front(2);
                proof {
                    reveal_strlit("> ");
                }
                let prompt: String = "> ".to_owned();
                assert(prompt@ =~= prompt_chars());
                return Some(Ok(prompt));
            }
            let mut p: usize = 0;
            while p < self.buffer.len() && self.buffer[p] != 10u8
                invariant
                    p <= self.buffer@.len(),
                    forall|j: int| 0 <= j < p ==> self.buffer@[j] != 10u8,
                decreases self.buffer@.len() - p,
            {
                p = p + 1;
            }
            proof {
                lemma_newline_at(b);
            }
            if p == self.buffer.len() {
                proof {
                    if newline_at(b) is Some {
                        let q = newline_at(b).unwrap();
                        assert(b[q as int] == 10u8);
                    }
                }
                return None;
            }
            proof {
                let q = newline_at(b).unwrap();
                assert(q == p);
            }
            let raw = sub_bytes(self.buffer.as_slice(), 0, p);
            self.drop_front(p + 1);
            match str_from_utf8(raw.as_slice()) {
                None => {
                    assert(raw@ =~= b.take(p as int));
                    return Some(Err(Error::InvalidUtf8));
                },
                Some(text) => {
                    proof {
                        vstd::utf8::encode_utf8_decode_utf8(text@);
                        assert(raw@ =~= b.take(p as int));
                    }
                    let trimmed = str_trim(text);
                    let echoed = p >= 2 && raw[p - 1] == 13u8 && raw[p - 2] == 13u8;
                    if trimmed.is_empty() || echoed {
                        continue;
                    }
                    let line: String = trimmed.to_owned();
                    return Some(Ok(line));
                },
            }
        }
    }

    /// Takes up to `n` bytes from the front of the buffer: `n` where it holds
    /// as many, or else all it holds.
    pub fn take_buffered(&mut self, n: usize) -> (r: Vec<u8>)
        ensures
            old(self).wf() ==> final(self).wf(),
            n <= old(self).buffered().len() ==> r@ == old(self).buffered().take(n as int)
                && final(self).buffered() == old(self).buffered().skip(n as int),
            n > old(self).buffered().len() ==> r@ == old(self).buffered() && final(self).buffered() == Seq::<u8>::empty(),
    {
        if self.buffer.len() >= n {
            let out = sub_bytes(self.buffer.as_slice(), 0, n);
            self.drop_front(n);
            out
        } else {
            let out = sub_bytes(self.buffer.as_slice(), 0, self.buffer.len());
            self.buffer = Vec::new();
            assert(out@ =~= old(self).buffered());
            out
        }
    }
}

} // verus!

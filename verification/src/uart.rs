use vstd::prelude::*;
use vstd::string::StringSliceAdditionalSpecFns;

verus! {

/// `heapless::Vec`, the fixed-capacity vector that holds the line being
/// received; opaque here, its contents are named by `line_contents`.
#[verifier::external_type_specification]
#[verifier::external_body]
#[verifier::reject_recursive_types(T)]
pub struct ExHeaplessVec<T, const N: usize>(heapless::Vec<T, N>);

/// The bytes that a 256-byte `heapless::Vec` holds, in order (its first
/// `len` elements); the wrappers below state what each call does to them.
pub uninterp spec fn line_contents(v: heapless::Vec<u8, 256>) -> Seq<u8>;

/// Calls `heapless::Vec::new`; claims the new vector holds nothing.
#[verifier::external_body]
fn line_new() -> (v: heapless::Vec<u8, 256>)
    ensures
        line_contents(v) == Seq::<u8>::empty(),
{
    heapless::Vec::new()
}

/// Calls `heapless::Vec::push`; claims that it appends `b` and returns `Ok`
/// where fewer than 256 bytes are held, and otherwise returns `Err(b)` and
/// leaves the vector as it was.
#[verifier::external_body]
fn line_push(v: &mut heapless::Vec<u8, 256>, b: u8) -> (r: Result<(), u8>)
    ensures
        r is Ok <==> line_contents(*old(v)).len() < LINE_CAPACITY,
        r matches Err(e) ==> e == b,
        line_contents(*final(v)) == if line_contents(*old(v)).len() < LINE_CAPACITY {
            line_contents(*old(v)).push(b)
        } else {
            line_contents(*old(v))
        },
{
    v.push(b)
}

/// Calls `heapless::Vec::clear`; claims the vector holds nothing afterwards.
#[verifier::external_body]
fn line_clear(v: &mut heapless::Vec<u8, 256>)
    ensures
        line_contents(*final(v)) == Seq::<u8>::empty(),
{
    v.clear()
}

/// Calls `heapless::Vec::as_slice`; claims the slice is the bytes held, in order.
#[verifier::external_body]
fn line_as_slice(v: &heapless::Vec<u8, 256>) -> (s: &[u8])
    ensures
        s@ == line_contents(*v),
{
    v.as_slice()
}

/// Longest command line the reader holds, in bytes.
pub const LINE_CAPACITY: usize = 256;

/// What one received byte leads to.
#[derive(Debug, PartialEq, Eq)]
pub enum LineEvent {
    /// Nothing to answer yet.
    Pending,
    /// A complete, non-empty line (without its end-of-line bytes).
    Line(Vec<u8>),
    /// The line grew past `LINE_CAPACITY`; what was held is dropped.
    Overflow,
}

/// The line held after `byte` arrives while `pending` was held: a newline
/// ends (and forgets) the line, a carriage return is ignored, any other byte
/// is added where there is room, and the line is dropped where there is not.
pub open spec fn next_pending(pending: Seq<u8>, byte: u8) -> Seq<u8> {
    if byte == 10 {
        Seq::empty()
    } else if byte == 13 {
        pending
    } else if pending.len() < LINE_CAPACITY {
        pending.push(byte)
    } else {
        Seq::empty()
    }
}

/// The line held after each of `bytes` arrived in turn, from `pending`.
pub open spec fn feed(pending: Seq<u8>, bytes: Seq<u8>) -> Seq<u8>
    decreases bytes.len(),
{
    if bytes.len() == 0 {
        pending
    } else {
        next_pending(feed(pending, bytes.drop_last()), bytes.last())
    }
}

/// `bytes` without its carriage returns.
pub open spec fn without_cr(bytes: Seq<u8>) -> Seq<u8>
    decreases bytes.len(),
{
    if bytes.len() == 0 {
        bytes
    } else if bytes.last() == 13 {
        without_cr(bytes.drop_last())
    } else {
        without_cr(bytes.drop_last()).push(bytes.last())
    }
}

/// Bytes that hold no newline and fit the line, carriage returns aside,
/// are collected in order with their carriage returns left out; so the
/// newline that follows them hands out exactly that line.
pub proof fn law_line_collects_bytes(pending: Seq<u8>, bytes: Seq<u8>)
    requires
        forall|i: int| 0 <= i < bytes.len() ==> #[trigger] bytes[i] != 10,
        pending.len() + without_cr(bytes).len() <= LINE_CAPACITY,
    ensures
        feed(pending, bytes) == pending + without_cr(bytes),
    decreases bytes.len(),
{
    if bytes.len() > 0 {
        let front = bytes.drop_last();
        assert forall|i: int| 0 <= i < front.len() implies #[trigger] front[i] != 10 by {
            assert(front[i] == bytes[i]);
        }
        assert(bytes.last() == bytes[bytes.len() - 1]);
        law_line_collects_bytes(pending, front);
        if bytes.last() != 13 {
            assert(pending + without_cr(bytes) =~= (pending + without_cr(front)).push(bytes.last()));
        }
    } else {
        assert(pending + without_cr(bytes) =~= pending);
    }
}

/// A newline always ends the line held; a carriage return never changes
/// it; any other byte is appended while fewer than 256 bytes are held, and
/// once 256 are held the next such byte drops the whole line.
pub proof fn law_next_pending(pending: Seq<u8>, byte: u8)
    ensures
        byte == 10 ==> next_pending(pending, byte).len() == 0,
        byte == 13 ==> next_pending(pending, byte) == pending,
        byte != 10 && byte != 13 && pending.len() < 256 ==> next_pending(pending, byte).len()
            == pending.len() + 1 && next_pending(pending, byte).subrange(0, pending.len() as int)
            == pending && next_pending(pending, byte)[pending.len() as int] == byte,
        byte != 10 && byte != 13 && pending.len() >= 256 ==> next_pending(pending, byte).len() == 0,
{
    if byte != 10 && byte != 13 && pending.len() < 256 {
        assert(next_pending(pending, byte).subrange(0, pending.len() as int) =~= pending);
    }
}

/// Collects the bytes received over the UART into command lines.
pub struct LineReader {
    buf: heapless::Vec<u8, 256>,
}

impl LineReader {
    /// The line held never exceeds `LINE_CAPACITY` bytes.
    pub closed spec fn wf(&self) -> bool {
        line_contents(self.buf).len() <= LINE_CAPACITY
    }

    /// The bytes of the line received so far.
    pub closed spec fn pending(&self) -> Seq<u8> {
        line_contents(self.buf)
    }

    /// A well-formed reader holds at most `LINE_CAPACITY` bytes.
    pub proof fn lemma_wf_bound(&self)
        requires
            self.wf(),
        ensures
            self.pending().len() <= LINE_CAPACITY,
    {
    }

    /// A reader that holds nothing.
    pub fn new() -> (r: Self)
        ensures
            r.wf(),
            r.pending() == Seq::<u8>::empty(),
    {
        LineReader { buf: line_new() }
    }

    /// Takes one received byte. A newline ends a non-empty line, which is
    /// handed out and forgotten (an empty line is ignored); a carriage return
    /// is ignored; any other byte is added to the line, or, where the line is
    /// full, the line is dropped and the overflow reported.
    pub fn on_byte(&mut self, byte: u8) -> (e: LineEvent)
        requires
            old(self).wf(),
        ensures
            final(self).wf(),
            byte == 10 && old(self).pending().len() > 0 ==> (e matches LineEvent::Line(l) && l@
                == old(self).pending()) && final(self).pending() == Seq::<u8>::empty(),
            byte == 10 && old(self).pending().len() == 0 ==> e is Pending && final(self).pending()
                == old(self).pending(),
            byte == 13 ==> e is Pending && final(self).pending() == old(self).pending(),
            byte != 10 && byte != 13 && old(self).pending().len() < LINE_CAPACITY ==> e is Pending
                && final(self).pending() == old(self).pending().push(byte),
            byte != 10 && byte != 13 && old(self).pending().len() >= LINE_CAPACITY ==> e is Overflow
                && final(self).pending() == Seq::<u8>::empty(),
            final(self).pending().len() <= LINE_CAPACITY,
            final(self).pending() == next_pending(old(self).pending(), byte),
    {
        if byte == 10 {
            let held = line_as_slice(&self.buf);
            if held.len() == 0 {
                return LineEvent::Pending;
            }
            let line = vstd::slice::slice_to_vec(held);
            line_clear(&mut self.buf);
            return LineEvent::Line(line);
        }
        if byte == 13 {
            return LineEvent::Pending;
        }
        match line_push(&mut self.buf, byte) {
            Ok(()) => LineEvent::Pending,
            Err(_) => {
                line_clear(&mut self.buf);
                LineEvent::Overflow
            },
        }
    }
}

/// How a line or the reader came out, and so what the host is answered.
#[derive(Clone, Copy, Debug, PartialEq, Eq)]
pub enum Reply {
    /// The command was parsed and queued.
    Queued,
    /// The command was parsed but the queue was full.
    Busy,
    /// The line is no command; it is echoed back.
    Invalid,
    /// The line grew too long.
    Overflow,
}

/// The bytes sent back to the host for `reply` to `line`.
pub open spec fn reply_text(reply: Reply, line: Seq<u8>) -> Seq<u8> {
    match reply {
        Reply::Queued => "[ok]\r\n".spec_bytes(),
        Reply::Busy => "[err] busy\r\n".spec_bytes(),
        Reply::Invalid => "[err] ".spec_bytes() + line + "\r\n".spec_bytes(),
        Reply::Overflow => "[err] overflow\r\n".spec_bytes(),
    }
}

fn append_bytes(out: &mut Vec<u8>, bytes: &[u8])
    ensures
        final(out)@ == old(out)@ + bytes@,
{
    let mut i: usize = 0;
    while i < bytes.len()
        invariant
            i <= bytes@.len(),
            out@ == old(out)@ + bytes@.subrange(0, i as int),
        decreases bytes@.len() - i,
    {
        out.push(bytes[i]);
        i = i + 1;
        assert(out@ =~= old(out)@ + bytes@.subrange(0, i as int));
    }
    assert(bytes@.subrange(0, bytes@.len() as int) =~= bytes@);
}

/// The answer to the host for `reply`; `line` is echoed for an invalid one.
pub fn reply_bytes(reply: Reply, line: &[u8]) -> (out: Vec<u8>)
    ensures
        out@ == reply_text(reply, line@),
{
    let mut out: Vec<u8> = Vec::new();
    match reply {
        Reply::Queued => append_bytes(&mut out, "[ok]\r\n".as_bytes()),
        Reply::Busy => append_bytes(&mut out, "[err] busy\r\n".as_bytes()),
        Reply::Invalid => {
            append_bytes(&mut out, "[err] ".as_bytes());
            append_bytes(&mut out, line);
            append_bytes(&mut out, "\r\n".as_bytes());
        },
        Reply::Overflow => append_bytes(&mut out, "[err] overflow\r\n".as_bytes()),
    }
    out
}

/// The replies byte by byte: `[ok]` CR LF for a queued command,
/// `[err] busy` CR LF for a full queue, `[err] ` then the line itself then
/// CR LF for a line that is no command, `[err] overflow` CR LF for a line
/// that grew too long.
pub proof fn law_reply_text(line: Seq<u8>)
    ensures
        reply_text(Reply::Queued, line) == seq![0x5bu8, 0x6f, 0x6b, 0x5d, 0x0d, 0x0a],
        reply_text(Reply::Busy, line) == seq![
            0x5bu8, 0x65, 0x72, 0x72, 0x5d, 0x20, 0x62, 0x75, 0x73, 0x79, 0x0d, 0x0a,
        ],
        reply_text(Reply::Invalid, line) == seq![0x5bu8, 0x65, 0x72, 0x72, 0x5d, 0x20] + line
            + seq![0x0du8, 0x0a],
        reply_text(Reply::Overflow, line) == seq![
            0x5bu8, 0x65, 0x72, 0x72, 0x5d, 0x20, 0x6f, 0x76, 0x65, 0x72, 0x66, 0x6c, 0x6f, 0x77,
            0x0d, 0x0a,
        ],
{
    reveal_strlit("[ok]\r\n");
    reveal_strlit("[err] busy\r\n");
    reveal_strlit("[err] ");
    reveal_strlit("\r\n");
    reveal_strlit("[err] overflow\r\n");
    vstd::utf8::is_ascii_chars_encode_utf8("[ok]\r\n"@);
    vstd::utf8::is_ascii_chars_encode_utf8("[err] busy\r\n"@);
    vstd::utf8::is_ascii_chars_encode_utf8("[err] "@);
    vstd::utf8::is_ascii_chars_encode_utf8("\r\n"@);
    vstd::utf8::is_ascii_chars_encode_utf8("[err] overflow\r\n"@);
    assert("[ok]\r\n".spec_bytes() =~= seq![0x5bu8, 0x6f, 0x6b, 0x5d, 0x0d, 0x0a]);
    assert("[err] busy\r\n".spec_bytes() =~= seq![
        0x5bu8, 0x65, 0x72, 0x72, 0x5d, 0x20, 0x62, 0x75, 0x73, 0x79, 0x0d, 0x0a,
    ]);
    assert("[err] ".spec_bytes() =~= seq![0x5bu8, 0x65, 0x72, 0x72, 0x5d, 0x20]);
    assert("\r\n".spec_bytes() =~= seq![0x0du8, 0x0a]);
    assert("[err] overflow\r\n".spec_bytes() =~= seq![
        0x5bu8, 0x65, 0x72, 0x72, 0x5d, 0x20, 0x6f, 0x76, 0x65, 0x72, 0x66, 0x6c, 0x6f, 0x77,
        0x0d, 0x0a,
    ]);
}

} // verus!

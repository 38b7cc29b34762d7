//! The message protocol shared by the watchdog, the shell and the installer.
//!
//! The watchdog hosts the pipe; the shell and the installer are clients.
//! Messages are text, one message per line.
//!
//! The shell sends [`ToWatchdog::ShellHeartbeat`] every
//! [`HEARTBEAT_INTERVAL_MS`]; the watchdog answers each with
//! [`ToShell::HeartbeatAck`]. Silence longer than [`HEARTBEAT_TIMEOUT_NS`] on a
//! previously live channel means that the peer is *hung*: the observer kills
//! it, which converts the hang into a death, and the death paths take over. The
//! heartbeat layer only ever detects; it never recovers.
use vstd::prelude::*;

verus! {

/// How often the shell sends a heartbeat: once a second.
pub const HEARTBEAT_INTERVAL_MS: u64 = 1_000;

/// Silence longer than this on a previously live channel means "peer is hung":
/// five seconds, in nanoseconds. Five missed beats are tolerant of scheduling
/// stalls, and recovery still lands within a few seconds.
pub const HEARTBEAT_TIMEOUT_NS: u64 = 5_000_000_000;

/// Messages sent *to* the watchdog (the guardian).
#[derive(Debug, Clone, Copy, PartialEq, Eq, Structural)]
pub enum ToWatchdog {
    /// The shell is alive and pumping. `pid` identifies the sender.
    ShellHeartbeat { seq: u64, pid: u32 },
    /// Restore the stock desktop now (same path as the emergency hotkey).
    RequestRestore,
}

/// Messages sent *to* the shell.
#[derive(Debug, Clone, Copy, PartialEq, Eq, Structural)]
pub enum ToShell {
    /// Answer to a [`ToWatchdog::ShellHeartbeat`], echoing its `seq`. `pid` is
    /// the watchdog's: the shell uses it (not a possibly stale environment
    /// variable) when it must kill a hung watchdog.
    HeartbeatAck { seq: u64, pid: u32 },
    /// Re-read config from disk and re-apply (hot reload).
    ReloadConfig,
    /// Begin a clean shutdown.
    Shutdown,
}

/// The byte that ends a line.
pub const NEWLINE: u8 = 10;

/// One message as a line: its text and a newline.
pub fn encode(message: &str) -> (r: String)
    ensures
        r@ == message@.push('\n'),
{
    let mut line = message.to_owned();
    line.push('\n');
    line
}

/// UTF-8 as text, with invalid parts replaced.
pub uninterp spec fn utf8_lossy(bytes: Seq<u8>) -> Seq<char>;

/// Decodes UTF-8 with `String::from_utf8_lossy`, whose result is a function of
/// the bytes alone: the text, with U+FFFD in place of what is not valid, and so
/// exactly the text where all of it is valid.
#[verifier::external_body]
fn lossy_text(bytes: &[u8]) -> (r: String)
    ensures
        r@ == utf8_lossy(bytes@),
        vstd::utf8::valid_utf8(bytes@) ==> r@ == vstd::utf8::decode_utf8(bytes@),
{
    String::from_utf8_lossy(bytes).into_owned()
}

/// Where the first line of a buffer ends: the position of its newline, or the
/// length of a buffer without one.
pub open spec fn line_end(bytes: Seq<u8>) -> int
    decreases bytes.len(),
{
    if bytes.len() == 0 || bytes[0] == NEWLINE {
        0
    } else {
        1 + line_end(bytes.skip(1))
    }
}

/// Whether a buffer holds a complete line.
pub open spec fn has_line(bytes: Seq<u8>) -> bool {
    line_end(bytes) < bytes.len()
}

/// The end of the first line is its first newline.
pub proof fn lemma_line_end(bytes: Seq<u8>)
    ensures
        0 <= line_end(bytes) <= bytes.len(),
        has_line(bytes) ==> bytes[line_end(bytes)] == NEWLINE,
        forall|i: int| 0 <= i < line_end(bytes) ==> #[trigger] bytes[i] != NEWLINE,
    decreases bytes.len(),
{
    if bytes.len() > 0 && bytes[0] != NEWLINE {
        let rest = bytes.skip(1);
        lemma_line_end(rest);
        assert forall|i: int| 0 <= i < line_end(bytes) implies #[trigger] bytes[i] != NEWLINE by {
            if i > 0 {
                assert(bytes[i] == rest[i - 1]);
            }
        }
    }
}

/// A position with a newline and none before it is the end of the first line.
proof fn lemma_line_end_is(bytes: Seq<u8>, at: int)
    requires
        0 <= at < bytes.len(),
        bytes[at] == NEWLINE,
        forall|i: int| 0 <= i < at ==> #[trigger] bytes[i] != NEWLINE,
    ensures
        line_end(bytes) == at,
{
    lemma_line_end(bytes);
    if line_end(bytes) < at {
        assert(bytes[line_end(bytes)] != NEWLINE);
    } else if line_end(bytes) > at {
        assert(bytes[at] != NEWLINE);
    }
}

/// The bytes received and not yet taken as lines.
#[derive(Debug, Clone, PartialEq, Eq)]
pub struct LineBuffer {
    pub bytes: Vec<u8>,
}

impl LineBuffer {
    /// An empty buffer.
    pub fn new() -> (r: Self)
        ensures
            r.bytes@ == Seq::<u8>::empty(),
    {
        LineBuffer { bytes: Vec::new() }
    }

    /// Forget everything received, for the next client.
    pub fn clear(&mut self)
        ensures
            final(self).bytes@ == Seq::<u8>::empty(),
    {
        self.bytes.clear();
    }

    /// Take in a chunk that was read.
    pub fn receive(&mut self, chunk: &[u8])
        ensures
            final(self).bytes@ == old(self).bytes@ + chunk@,
    {
        let mut i: usize = 0;
        proof {
            assert(chunk@.take(0) =~= Seq::<u8>::empty());
            assert(self.bytes@ + Seq::<u8>::empty() =~= self.bytes@);
        }
        while i < chunk.len()
            invariant
                i <= chunk@.len(),
                self.bytes@ == old(self).bytes@ + chunk@.take(i as int),
            decreases chunk@.len() - i,
        {
            proof {
                assert(old(self).bytes@ + chunk@.take(i + 1) =~= (old(self).bytes@ + chunk@.take(
                    i as int,
                )).push(chunk@[i as int]));
            }
            self.bytes.push(chunk[i]);
            i = i + 1;
        }
        proof {
            assert(chunk@.take(chunk@.len() as int) =~= chunk@);
        }
    }

    /// The bytes of the next complete line, without its newline, taken off the
    /// buffer. `None` means "nothing complete yet".
    pub fn take_line_bytes(&mut self) -> (r: Option<Vec<u8>>)
        ensures
            r is Some <==> has_line(old(self).bytes@),
            r matches Some(line) ==> line@ == old(self).bytes@.take(line_end(old(self).bytes@))
                && final(self).bytes@ == old(self).bytes@.skip(line_end(old(self).bytes@) + 1),
            r is None ==> final(self).bytes@ == old(self).bytes@,
    {
        let mut at: usize = 0;
        while at < self.bytes.len() && self.bytes[at] != NEWLINE
            invariant
                at <= self.bytes@.len(),
                self.bytes@ == old(self).bytes@,
                forall|i: int| 0 <= i < at ==> #[trigger] self.bytes@[i] != NEWLINE,
            decreases self.bytes@.len() - at,
        {
            at = at + 1;
        }
        if at == self.bytes.len() {
            proof {
                lemma_line_end(self.bytes@);
            }
            return None;
        }
        proof {
            lemma_line_end_is(self.bytes@, at as int);
        }
        let rest = self.bytes.split_off(at + 1);
        let ghost head = self.bytes@;
        let mut line = rest;
        std::mem::swap(&mut line, &mut self.bytes);
        let _ = line.pop();
        proof {
            assert(line@ =~= old(self).bytes@.take(at as int));
            assert(self.bytes@ =~= old(self).bytes@.skip(at + 1));
        }
        Some(line)
    }

    /// The next complete line as text, taken off the buffer. `None` means
    /// "nothing complete yet".
    pub fn take_line(&mut self) -> (r: Option<String>)
        ensures
            r is Some <==> has_line(old(self).bytes@),
            r matches Some(line) ==> line@ == utf8_lossy(
                old(self).bytes@.take(line_end(old(self).bytes@)),
            ) && final(self).bytes@ == old(self).bytes@.skip(line_end(old(self).bytes@) + 1),
            r matches Some(line) ==> {
                let sent = old(self).bytes@.take(line_end(old(self).bytes@));
                vstd::utf8::valid_utf8(sent) ==> line@ == vstd::utf8::decode_utf8(sent)
            },
            r is None ==> final(self).bytes@ == old(self).bytes@,
    {
        match self.take_line_bytes() {
            Some(line) => Some(lossy_text(line.as_slice())),
            None => None,
        }
    }
}

/// What is sent as a line comes out as that line, whatever follows it, and what
/// follows it stays for the next one.
pub proof fn law_lines_come_out_as_sent(line: Seq<u8>, rest: Seq<u8>)
    requires
        forall|i: int| 0 <= i < line.len() ==> #[trigger] line[i] != NEWLINE,
    ensures
        ({
            let bytes = line.push(NEWLINE) + rest;
            &&& has_line(bytes)
            &&& bytes.take(line_end(bytes)) == line
            &&& bytes.skip(line_end(bytes) + 1) == rest
        }),
{
    let bytes = line.push(NEWLINE) + rest;
    assert forall|i: int| 0 <= i < line.len() implies #[trigger] bytes[i] != NEWLINE by {
        assert(bytes[i] == line[i]);
    }
    assert(bytes[line.len() as int] == NEWLINE);
    lemma_line_end_is(bytes, line.len() as int);
    assert(bytes.take(line.len() as int) =~= line);
    assert(bytes.skip(line.len() as int + 1) =~= rest);
}

/// The encoding of a character other than a newline holds no newline.
proof fn lemma_scalar_without_newline(c: char)
    requires
        c != '\n',
    ensures
        forall|i: int|
            0 <= i < vstd::utf8::encode_scalar(c as u32).len() ==> #[trigger]
                vstd::utf8::encode_scalar(c as u32)[i] != NEWLINE,
{
    let v = c as u32;
    assert(v != 10);
    if vstd::utf8::has_width_1_encoding(v) {
        assert(vstd::utf8::leading_byte_width_1(v) != 10u8) by (bit_vector)
            requires
                v != 10,
                0 <= v <= 0x7f,
        ;
    } else {
        assert(vstd::utf8::leading_byte_width_2(v) != 10u8) by (bit_vector);
        assert(vstd::utf8::leading_byte_width_3(v) != 10u8) by (bit_vector);
        assert(vstd::utf8::leading_byte_width_4(v) != 10u8) by (bit_vector);
        assert(vstd::utf8::last_continuation_byte(v) != 10u8) by (bit_vector);
        assert(vstd::utf8::second_last_continuation_byte(v) != 10u8) by (bit_vector);
        assert(vstd::utf8::third_last_continuation_byte(v) != 10u8) by (bit_vector);
    }
}

/// The encoding of a text without a newline holds no newline, and a newline at
/// its end is one byte more.
proof fn lemma_line_encoding(message: Seq<char>)
    requires
        !message.contains('\n'),
    ensures
        forall|i: int|
            0 <= i < vstd::utf8::encode_utf8(message).len() ==> #[trigger]
                vstd::utf8::encode_utf8(message)[i] != NEWLINE,
        vstd::utf8::encode_utf8(message.push('\n')) == vstd::utf8::encode_utf8(message).push(
            NEWLINE,
        ),
    decreases message.len(),
{
    let line = message.push('\n');
    if message.len() == 0 {
        let v = '\n' as u32;
        assert(v == 10);
        assert(vstd::utf8::leading_byte_width_1(10u32) == 10u8) by (bit_vector);
        assert(line.drop_first() =~= Seq::<char>::empty());
        assert(vstd::utf8::encode_utf8(line.drop_first()) =~= Seq::<u8>::empty());
        assert(vstd::utf8::encode_scalar(v) =~= seq![NEWLINE]);
        assert(vstd::utf8::encode_utf8(line) =~= seq![NEWLINE]);
        assert(vstd::utf8::encode_utf8(message).push(NEWLINE) =~= seq![NEWLINE]);
    } else {
        let rest = message.drop_first();
        assert(!rest.contains('\n')) by {
            if rest.contains('\n') {
                let i = choose|i: int| 0 <= i < rest.len() && rest[i] == '\n';
                assert(message[i + 1] == '\n');
            }
        }
        assert(message[0] != '\n');
        lemma_line_encoding(rest);
        lemma_scalar_without_newline(message[0]);
        let head = vstd::utf8::encode_scalar(message[0] as u32);
        let tail = vstd::utf8::encode_utf8(rest);
        assert(line.drop_first() =~= rest.push('\n'));
        assert(line[0] == message[0]);
        assert(head + tail.push(NEWLINE) =~= (head + tail).push(NEWLINE));
        assert forall|i: int| 0 <= i < (head + tail).len() implies #[trigger] (head + tail)[i]
            != NEWLINE by {
            if i < head.len() {
                assert((head + tail)[i] == head[i]);
            } else {
                assert((head + tail)[i] == tail[i - head.len()]);
            }
        }
    }
}

/// What a message was encoded as comes out as that message: the bytes of an
/// encoded message, whatever follows them, hold a complete line, it is valid and
/// decodes to the message, and what follows stays for the next one.
pub proof fn law_messages_come_out_as_sent(message: Seq<char>, rest: Seq<u8>)
    requires
        !message.contains('\n'),
    ensures
        ({
            let bytes = vstd::utf8::encode_utf8(message.push('\n')) + rest;
            let line = bytes.take(line_end(bytes));
            &&& has_line(bytes)
            &&& vstd::utf8::valid_utf8(line)
            &&& vstd::utf8::decode_utf8(line) == message
            &&& bytes.skip(line_end(bytes) + 1) == rest
        }),
{
    lemma_line_encoding(message);
    law_lines_come_out_as_sent(vstd::utf8::encode_utf8(message), rest);
    vstd::utf8::encode_utf8_valid_utf8(message);
    vstd::utf8::encode_utf8_decode_utf8(message);
}

/// A line that has not ended yet is never taken, however much of it has come.
pub proof fn law_partial_lines_wait(part: Seq<u8>)
    requires
        forall|i: int| 0 <= i < part.len() ==> #[trigger] part[i] != NEWLINE,
    ensures
        !has_line(part),
{
    lemma_line_end(part);
}

/// Whether a write of a message went through: all of it was written.
pub fn wrote_all(written: u32, length: usize) -> (r: bool)
    ensures
        r == (written == length),
{
    written as usize == length
}

/// A line ends at its first byte 10, which is not part of it: what is in front
/// comes out, and what is behind stays.
pub proof fn law_lines_end_at_the_first_newline(line: Seq<u8>, rest: Seq<u8>)
    requires
        !line.contains(10u8),
    ensures
        line_end(line + seq![10u8] + rest) == line.len(),
        has_line(line + seq![10u8] + rest),
        !has_line(line),
{
    let bytes = line + seq![10u8] + rest;
    assert forall|i: int| 0 <= i < line.len() implies #[trigger] bytes[i] != NEWLINE by {
        assert(bytes[i] == line[i]);
    }
    assert(bytes[line.len() as int] == NEWLINE);
    lemma_line_end_is(bytes, line.len() as int);
    assert forall|i: int| 0 <= i < line.len() implies #[trigger] line[i] != NEWLINE by {}
    law_partial_lines_wait(line);
}

/// A beat is sent every second, and a peer is hung after five seconds of silence:
/// five missed beats.
pub proof fn law_five_missed_beats_are_a_hang()
    ensures
        HEARTBEAT_INTERVAL_MS == 1000,
        HEARTBEAT_TIMEOUT_NS == 5 * HEARTBEAT_INTERVAL_MS * 1_000_000,
{
}

/// What ends a line.
pub proof fn law_lines_end_in_a_line_feed()
    ensures
        NEWLINE == 10,
{
}

} // verus!

//! Bounded, append-only, per-job text capture.
//!
//! A [`LogBuffer`] owns a fixed byte allocation. Lines are appended through
//! [`LogBuffer::log`]; once an append would exceed the available capacity,
//! a single truncation marker is written instead and the buffer is
//! permanently full: later appends are silent no-ops. The buffer therefore
//! never grows beyond [`BLOCK_SIZE`] bytes, never errors and never corrupts
//! content already written.

use vstd::prelude::*;
use vstd::utf8::{
    decode_utf8, encode_utf8, encode_utf8_valid_utf8, is_ascii_chars, is_ascii_chars_encode_utf8,
    valid_utf8, valid_utf8_concat,
};

verus! {

/// Total fixed allocation of one log buffer, in bytes.
pub const BLOCK_SIZE: usize = 65536;

/// Byte length of the truncation marker line.
pub const TRUNCATION_MARKER_LEN: usize = 20;

/// Capacity left for ordinary content: room for the marker is held back so
/// that writing it can never overflow the fixed allocation.
pub const AVAILABLE_SIZE: usize = BLOCK_SIZE - TRUNCATION_MARKER_LEN;

/// Severity tag of one log line.
#[derive(Copy, Clone, Debug)]
pub enum LogLevel {
    DEBUG,
    INFO,
    WARNING,
    ERROR,
}

/// The characters of a level's name as it appears inside a rendered line.
pub open spec fn level_chars(level: LogLevel) -> Seq<char> {
    match level {
        LogLevel::DEBUG => "DEBUG"@,
        LogLevel::INFO => "INFO"@,
        LogLevel::WARNING => "WARNING"@,
        LogLevel::ERROR => "ERROR"@,
    }
}

/// The characters of one full log line: `"[LEVEL] message\n"`.
pub open spec fn line_chars(level: LogLevel, msg: Seq<char>) -> Seq<char> {
    "["@ + level_chars(level) + "] "@ + msg + "\n"@
}

/// The characters of the truncation marker.
pub open spec fn trunc_chars() -> Seq<char> {
    "...[ TRUNCATED ]...\n"@
}

/// The UTF-8 bytes of the truncation marker.
pub open spec fn trunc_bytes() -> Seq<u8> {
    encode_utf8(trunc_chars())
}

impl LogLevel {
    /// The level's name, e.g. `"INFO"`.
    pub fn name(&self) -> (s: &'static str)
        ensures
            s@ == level_chars(*self),
    {
        match self {
            LogLevel::DEBUG => "DEBUG",
            LogLevel::INFO => "INFO",
            LogLevel::WARNING => "WARNING",
            LogLevel::ERROR => "ERROR",
        }
    }
}

/// The marker is twenty ASCII characters, so its encoding is twenty bytes
/// of valid UTF-8.
pub proof fn lemma_trunc_marker_facts()
    ensures
        is_ascii_chars(trunc_chars()),
        trunc_bytes().len() == TRUNCATION_MARKER_LEN,
        valid_utf8(trunc_bytes()),
{
    reveal_strlit("...[ TRUNCATED ]...\n");
    assert(is_ascii_chars(trunc_chars()));
    is_ascii_chars_encode_utf8(trunc_chars());
    encode_utf8_valid_utf8(trunc_chars());
}

/// Abstract state of a log buffer: the bytes written so far and the
/// one-way full flag.
pub struct LogModel {
    pub bytes: Seq<u8>,
    pub full: bool,
}

impl LogModel {
    /// Bytes never exceed the fixed allocation, and while the buffer is not
    /// full there is always room left for the truncation marker.
    pub open spec fn inv(self) -> bool {
        &&& self.bytes.len() <= BLOCK_SIZE
        &&& !self.full ==> self.bytes.len() <= AVAILABLE_SIZE
    }
}

/// The state of a freshly created buffer.
pub open spec fn empty_log() -> LogModel {
    LogModel { bytes: Seq::empty(), full: false }
}

/// Whether a write of `buf` onto state `m` is stored as ordinary content.
pub open spec fn write_accepts(m: LogModel, buf: Seq<u8>) -> bool {
    !m.full && m.bytes.len() + buf.len() <= AVAILABLE_SIZE
}

/// One write step: content that fits is appended; the first write that does
/// not fit appends the truncation marker and latches the full flag; once
/// full, nothing changes.
pub open spec fn write_model(m: LogModel, buf: Seq<u8>) -> LogModel {
    if m.full {
        m
    } else if m.bytes.len() + buf.len() <= AVAILABLE_SIZE {
        LogModel { bytes: m.bytes + buf, full: false }
    } else {
        LogModel { bytes: m.bytes + trunc_bytes(), full: true }
    }
}

/// One appended line: the write of the UTF-8 encoding of `"[LEVEL] msg\n"`.
pub open spec fn log_model(m: LogModel, level: LogLevel, msg: Seq<char>) -> LogModel {
    write_model(m, encode_utf8(line_chars(level, msg)))
}

/// Writing content that fits appends exactly those bytes.
pub proof fn lemma_write_fits(m: LogModel, buf: Seq<u8>)
    requires
        write_accepts(m, buf),
    ensures
        write_model(m, buf).bytes == m.bytes + buf,
        !write_model(m, buf).full,
{
}

/// The first write past capacity appends the written prefix's truncation
/// marker and latches the full flag.
pub proof fn lemma_write_truncates(m: LogModel, buf: Seq<u8>)
    requires
        !m.full,
        m.bytes.len() + buf.len() > AVAILABLE_SIZE,
    ensures
        write_model(m, buf).bytes == m.bytes + trunc_bytes(),
        write_model(m, buf).full,
{
}

/// Once full, a buffer absorbs every later write: content and length stop
/// growing.
pub proof fn lemma_full_absorbs(m: LogModel, buf: Seq<u8>)
    requires
        m.full,
    ensures
        write_model(m, buf) == m,
{
}

/// A write step preserves the size bounds.
pub proof fn lemma_write_model_inv(m: LogModel, buf: Seq<u8>)
    requires
        m.inv(),
    ensures
        write_model(m, buf).inv(),
{
    lemma_trunc_marker_facts();
}

/// Appending a log line keeps the buffer's content valid UTF-8.
pub proof fn lemma_log_model_valid_utf8(m: LogModel, level: LogLevel, msg: Seq<char>)
    requires
        valid_utf8(m.bytes),
    ensures
        valid_utf8(log_model(m, level, msg).bytes),
{
    encode_utf8_valid_utf8(line_chars(level, msg));
    lemma_trunc_marker_facts();
    valid_utf8_concat(m.bytes, encode_utf8(line_chars(level, msg)));
    valid_utf8_concat(m.bytes, trunc_bytes());
}

/// Fixed-capacity append-only byte region with a used length and a one-way
/// full flag.
pub struct LogBuffer {
    data: Vec<u8>,
    full: bool,
}

impl View for LogBuffer {
    type V = LogModel;

    closed spec fn view(&self) -> LogModel {
        LogModel { bytes: self.data@, full: self.full }
    }
}

impl LogBuffer {
    /// The size bounds of the abstract state, seen through the view.
    pub open spec fn wf(&self) -> bool {
        self@.inv()
    }

    /// An empty, not-yet-full buffer.
    pub fn new() -> (r: LogBuffer)
        ensures
            r@ == empty_log(),
            r.wf(),
    {
        let r = LogBuffer { data: Vec::new(), full: false };
        proof {
            assert(r@ =~= empty_log());
        }
        r
    }

    /// Number of bytes written so far.
    pub fn len(&self) -> (n: usize)
        ensures
            n == self@.bytes.len(),
    {
        self.data.len()
    }

    /// Whether the buffer has latched its full flag.
    pub fn is_full(&self) -> (b: bool)
        ensures
            b == self@.full,
    {
        self.full
    }

    /// A copy with the same content and flag.
    pub fn duplicate(&self) -> (r: LogBuffer)
        ensures
            r@ == self@,
    {
        let data = self.data.clone();
        proof {
            assert(data@ =~= self.data@);
        }
        let r = LogBuffer { data, full: self.full };
        proof {
            assert(r@ =~= self@);
        }
        r
    }

    fn write_bytes(&mut self, bytes: &[u8])
        requires
            old(self)@.bytes.len() + bytes@.len() <= BLOCK_SIZE,
        ensures
            final(self)@.bytes == old(self)@.bytes + bytes@,
            final(self)@.full == old(self)@.full,
    {
        self.data.extend_from_slice(bytes);
        proof {
            assert(final(self).data@ =~= old(self).data@ + bytes@);
        }
    }

    /// Raw append following the one-write transition [`write_model`]:
    /// returns how many of the caller's bytes were stored.
    pub fn write(&mut self, buf: &[u8]) -> (n: usize)
        requires
            old(self).wf(),
        ensures
            final(self).wf(),
            final(self)@ == write_model(old(self)@, buf@),
            n == if write_accepts(old(self)@, buf@) { buf@.len() } else { 0 },
    {
        proof {
            lemma_write_model_inv(old(self)@, buf@);
        }
        if self.full {
            return 0;
        }
        if buf.len() <= AVAILABLE_SIZE - self.data.len() {
            self.write_bytes(buf);
            proof {
                assert(final(self)@ =~= write_model(old(self)@, buf@));
            }
            buf.len()
        } else {
            let marker = truncation_marker();
            proof {
                lemma_trunc_marker_facts();
            }
            self.write_bytes(marker.as_bytes());
            self.full = true;
            proof {
                assert(final(self)@ =~= write_model(old(self)@, buf@));
            }
            0
        }
    }

    /// Appends the line `"[LEVEL] msg\n"`, or the truncation marker once
    /// capacity runs out, per [`log_model`].
    pub fn log(&mut self, level: LogLevel, msg: &str)
        requires
            old(self).wf(),
        ensures
            final(self).wf(),
            final(self)@ == log_model(old(self)@, level, msg@),
    {
        let mut line = String::new();
        line.append("[");
        line.append(level.name());
        line.append("] ");
        line.append(msg);
        line.append("\n");
        proof {
            assert(line@ =~= line_chars(level, msg@));
        }
        let _ = self.write(line.as_str().as_bytes());
    }

    /// Appends a line whose message was already formatted by the caller;
    /// otherwise identical to [`LogBuffer::log`].
    pub fn logf(&mut self, level: LogLevel, msg: &str)
        requires
            old(self).wf(),
        ensures
            final(self).wf(),
            final(self)@ == log_model(old(self)@, level, msg@),
    {
        self.log(level, msg);
    }

    /// The text of all bytes written so far, or a placeholder if they are
    /// not valid text.
    pub fn render(&self) -> (r: String)
        ensures
            valid_utf8(self@.bytes) ==> r@ == decode_utf8(self@.bytes),
            !valid_utf8(self@.bytes) ==> r@ == "<non-utf8 log data>"@,
    {
        match utf8_render(self.data.as_slice()) {
            Some(text) => text,
            None => String::from_str("<non-utf8 log data>"),
        }
    }
}

/// The truncation marker line.
fn truncation_marker() -> (s: &'static str)
    ensures
        s@ == trunc_chars(),
{
    "...[ TRUNCATED ]...\n"
}

/// Relies on core::str::from_utf8: it returns the decoded text exactly when
/// the bytes are a valid UTF-8 encoding, and an error otherwise.
#[verifier::external_body]
fn utf8_render(bytes: &[u8]) -> (r: Option<String>)
    ensures
        r is Some <==> valid_utf8(bytes@),
        r matches Some(s) ==> s@ == decode_utf8(bytes@),
{
    match core::str::from_utf8(bytes) {
        Ok(text) => Some(text.to_string()),
        Err(_) => None,
    }
}

} // verus!

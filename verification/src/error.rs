//! What can go wrong on a connection.

use vstd::prelude::*;

use crate::text::push_digits;

verus! {

/// The kinds of I/O error that the service tells apart.
#[derive(Clone, Copy, Debug, PartialEq, Eq, Structural)]
pub enum IoErrorKind {
    NotFound,
    PermissionDenied,
    HostUnreachable,
    NetworkUnreachable,
    NotConnected,
    AddrInUse,
    AddrNotAvailable,
    NetworkDown,
    NotSeekable,
    QuotaExceeded,
    Unsupported,
    OutOfMemory,
    BrokenPipe,
    UnexpectedEof,
    /// Any other kind.
    Other,
}

/// An I/O error: its kind and the text it is shown with.
#[derive(Debug, PartialEq, Eq)]
pub struct IoError {
    pub kind: IoErrorKind,
    pub message: String,
}

/// An error on a connection. The errors of the message codec are held by the text they are shown
/// with.
#[derive(Debug, PartialEq, Eq)]
pub enum ConnectionHandlerError {
    Io(IoError),
    MsgPackDecode(String),
    MsgPackEncode(String),
    InvalidMagicBytes([u8; 4]),
}

/// The mathematical content of a [`ConnectionHandlerError`].
#[verifier::ext_equal]
pub enum ConnectionError {
    Io { kind: IoErrorKind, message: Seq<char> },
    MsgPackDecode { message: Seq<char> },
    MsgPackEncode { message: Seq<char> },
    InvalidMagicBytes { bytes: Seq<u8> },
}

impl View for ConnectionHandlerError {
    type V = ConnectionError;

    open spec fn view(&self) -> ConnectionError {
        match self {
            ConnectionHandlerError::Io(e) => ConnectionError::Io {
                kind: e.kind,
                message: e.message@,
            },
            ConnectionHandlerError::MsgPackDecode(message) => ConnectionError::MsgPackDecode {
                message: message@,
            },
            ConnectionHandlerError::MsgPackEncode(message) => ConnectionError::MsgPackEncode {
                message: message@,
            },
            ConnectionHandlerError::InvalidMagicBytes(bytes) =>
                ConnectionError::InvalidMagicBytes { bytes: bytes@ },
        }
    }
}

impl ConnectionError {
    /// Whether the connection can go on after the error: only a message that could not be
    /// encoded or decoded leaves it usable.
    pub open spec fn recoverable(self) -> bool {
        self is MsgPackDecode || self is MsgPackEncode
    }

    /// The text that the error is shown with.
    pub open spec fn text(self) -> Seq<char> {
        match self {
            ConnectionError::Io { kind, message } => "IO error: "@ + message,
            ConnectionError::MsgPackDecode { message } => "MsgPack decode error: "@ + message,
            ConnectionError::MsgPackEncode { message } => "MsgPack encode error: "@ + message,
            ConnectionError::InvalidMagicBytes { bytes } => "invalid magic bytes: ["@ + byte_list(
                bytes,
            ) + "]"@,
        }
    }
}

/// Bytes in decimal, separated by `, `.
pub open spec fn byte_list(bytes: Seq<u8>) -> Seq<char>
    decreases bytes.len(),
{
    if bytes.len() == 0 {
        Seq::empty()
    } else if bytes.len() == 1 {
        crate::text::digits(bytes[0] as nat)
    } else {
        byte_list(bytes.drop_last()) + ", "@ + crate::text::digits(bytes.last() as nat)
    }
}

/// Appends bytes in decimal, separated by `, `.
fn push_byte_list(out: &mut String, bytes: &[u8; 4])
    ensures
        final(out)@ == old(out)@ + byte_list(bytes@),
{
    let mut i: usize = 0;
    while i < 4
        invariant
            i <= 4,
            out@ == old(out)@ + byte_list(bytes@.take(i as int)),
        decreases 4 - i,
    {
        if i > 0 {
            out.append(", ");
        }
        push_digits(out, bytes[i] as u64);
        assert(bytes@.take(i + 1).drop_last() =~= bytes@.take(i as int));
        i = i + 1;
    }
    assert(bytes@.take(4) =~= bytes@);
}

impl ConnectionHandlerError {
    /// Whether the connection can go on after the error.
    pub fn is_recoverable(&self) -> (b: bool)
        ensures
            b == self@.recoverable(),
    {
        match self {
            ConnectionHandlerError::Io(_) => false,
            ConnectionHandlerError::MsgPackDecode(_) => true,
            ConnectionHandlerError::MsgPackEncode(_) => true,
            ConnectionHandlerError::InvalidMagicBytes(_) => false,
        }
    }

    /// The text that the error is shown with.
    pub fn text(&self) -> (s: String)
        ensures
            s@ == self@.text(),
    {
        let mut s: String = String::new();
        match self {
            ConnectionHandlerError::Io(e) => {
                s.append("IO error: ");
                s.append(e.message.as_str());
            },
            ConnectionHandlerError::MsgPackDecode(message) => {
                s.append("MsgPack decode error: ");
                s.append(message.as_str());
            },
            ConnectionHandlerError::MsgPackEncode(message) => {
                s.append("MsgPack encode error: ");
                s.append(message.as_str());
            },
            ConnectionHandlerError::InvalidMagicBytes(bytes) => {
                s.append("invalid magic bytes: [");
                push_byte_list(&mut s, bytes);
                s.append("]");
            },
        }
        s
    }
}

/// A connection goes on after a message that could not be encoded or decoded, and ends on a
/// failed read or write and on foreign bytes.
pub proof fn law_io_and_foreign_bytes_are_not_recovered_from(e: ConnectionError)
    ensures
        !e.recoverable() <==> e is Io || e is InvalidMagicBytes,
{
}

/// An error is shown by what went wrong and, behind it, what was said of it: the text that came
/// with it, or the four bytes that were found, in decimal.
pub proof fn law_errors_show_what_came_with_them(
    kind: IoErrorKind,
    message: Seq<char>,
    a: u8,
    b: u8,
    c: u8,
    d: u8,
)
    ensures
        (ConnectionError::Io { kind, message }).text() == "IO error: "@ + message,
        (ConnectionError::MsgPackDecode { message }).text() == "MsgPack decode error: "@ + message,
        (ConnectionError::MsgPackEncode { message }).text() == "MsgPack encode error: "@ + message,
        (ConnectionError::InvalidMagicBytes { bytes: seq![a, b, c, d] }).text()
            == "invalid magic bytes: ["@ + (crate::text::digits(a as nat) + ", "@
            + crate::text::digits(b as nat) + ", "@ + crate::text::digits(c as nat) + ", "@
            + crate::text::digits(d as nat)) + "]"@,
{
    let bytes = seq![a, b, c, d];
    reveal_with_fuel(byte_list, 4);
    assert(bytes.drop_last() =~= seq![a, b, c]);
    assert(seq![a, b, c].drop_last() =~= seq![a, b]);
    assert(seq![a, b].drop_last() =~= seq![a]);
}

/// The mathematical content of an error is the error: its kind and all of what came with it.
pub proof fn law_nothing_of_an_error_is_lost(e: ConnectionHandlerError)
    ensures
        match e {
            ConnectionHandlerError::Io(io) => e@ == (ConnectionError::Io {
                kind: io.kind,
                message: io.message@,
            }),
            ConnectionHandlerError::MsgPackDecode(text) => e@ == (ConnectionError::MsgPackDecode {
                message: text@,
            }),
            ConnectionHandlerError::MsgPackEncode(text) => e@ == (ConnectionError::MsgPackEncode {
                message: text@,
            }),
            ConnectionHandlerError::InvalidMagicBytes(bytes) => e@ == (
            ConnectionError::InvalidMagicBytes { bytes: bytes@ }),
        },
{
}

} // verus!

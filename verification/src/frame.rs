//! Message framing.
//!
//! A frame is four magic bytes, the payload length as eight big-endian bytes, and the payload.
//! [`encode_frame`] writes one; [`FrameReader`] says how many bytes to read next and what the
//! bytes that were read amount to.

use vstd::prelude::*;

verus! {

/// The number that a sequence of bytes spells, most significant byte first.
pub open spec fn be_value(s: Seq<u8>) -> nat
    decreases s.len(),
{
    if s.len() == 0 {
        0
    } else {
        be_value(s.drop_last()) * 256 + s.last() as nat
    }
}

/// The last `width` bytes of `n`, most significant byte first.
pub open spec fn be_bytes(n: nat, width: nat) -> Seq<u8>
    decreases width,
{
    if width == 0 {
        Seq::empty()
    } else {
        be_bytes(n / 256, (width - 1) as nat).push((n % 256) as u8)
    }
}

/// How many numbers `width` bytes can spell.
pub open spec fn byte_range(width: nat) -> nat
    decreases width,
{
    if width == 0 {
        1
    } else {
        256 * byte_range((width - 1) as nat)
    }
}

/// A number that fits in `width` bytes is spelled by `width` bytes, and they spell it.
pub proof fn law_be_value_of_be_bytes(n: nat, width: nat)
    requires
        n < byte_range(width),
    ensures
        be_bytes(n, width).len() == width,
        be_value(be_bytes(n, width)) == n,
    decreases width,
{
    if width > 0 {
        law_be_value_of_be_bytes(n / 256, (width - 1) as nat);
        let s = be_bytes(n, width);
        assert(s.drop_last() =~= be_bytes(n / 256, (width - 1) as nat));
    }
}

/// Spelling the number that some bytes spell gives those bytes back.
pub proof fn law_be_bytes_of_be_value(s: Seq<u8>)
    ensures
        be_value(s) < byte_range(s.len()),
        be_bytes(be_value(s), s.len()) == s,
    decreases s.len(),
{
    if s.len() > 0 {
        law_be_bytes_of_be_value(s.drop_last());
        let rest = be_value(s.drop_last());
        let n = be_value(s);
        assert(n / 256 == rest);
        assert(n % 256 == s.last() as nat);
        assert(be_bytes(n, s.len()) =~= s);
    }
}

/// Eight bytes spell exactly the numbers of a `u64`.
pub proof fn lemma_eight_bytes()
    ensures
        byte_range(8) == u64::MAX + 1,
{
    reveal_with_fuel(byte_range, 9);
}

/// `byteorder::NetworkEndian::read_u64`: the first eight bytes of `buf`, read as a big-endian
/// number. The call panics on a shorter buffer.
#[verifier::external_body]
fn read_u64(buf: &[u8]) -> (n: u64)
    requires
        buf@.len() >= 8,
    ensures
        n == be_value(buf@.take(8)),
{
    <byteorder::NetworkEndian as byteorder::ByteOrder>::read_u64(buf)
}

/// `byteorder::NetworkEndian::write_u64`: fills the eight bytes of `buf` with `n`, most
/// significant byte first.
#[verifier::external_body]
fn write_u64(buf: &mut [u8; 8], n: u64)
    ensures
        final(buf)@ == be_bytes(n as nat, 8),
{
    <byteorder::NetworkEndian as byteorder::ByteOrder>::write_u64(buf, n)
}

/// The bytes of the frame that carries `payload`.
pub open spec fn frame(magic: Seq<u8>, payload: Seq<u8>) -> Seq<u8> {
    magic + be_bytes(payload.len(), 8) + payload
}

/// Puts `payload` into a frame: the bytes that go out on the connection for one message.
pub fn encode_frame(magic: &[u8; 4], payload: &[u8]) -> (bytes: Vec<u8>)
    ensures
        bytes@ == frame(magic@, payload@),
{
    let mut length: [u8; 8] = [0u8; 8];
    write_u64(&mut length, payload.len() as u64);
    let mut bytes: Vec<u8> = Vec::new();
    bytes.extend_from_slice(magic.as_slice());
    bytes.extend_from_slice(length.as_slice());
    bytes.extend_from_slice(payload);
    assert(bytes@ =~= frame(magic@, payload@));
    bytes
}

/// How much of the next frame has been read.
#[derive(Clone, Copy, Debug, PartialEq, Eq, Structural)]
pub enum FrameStage {
    /// Nothing: the first magic byte is next.
    Start,
    /// The first magic byte: the other three are next.
    Magic { first: u8 },
    /// The magic bytes: the payload length is next.
    Length,
    /// The payload length: the payload is next.
    Payload { len: u64 },
}

/// What the bytes that were read amount to.
#[derive(Debug)]
pub enum FrameProgress {
    /// The frame goes on.
    More,
    /// The magic bytes are these, not the expected ones.
    InvalidMagic([u8; 4]),
    /// The frame is complete and carries this payload.
    Frame(Vec<u8>),
}

/// The mathematical content of a [`FrameProgress`].
pub enum FrameOutcome {
    More,
    InvalidMagic(Seq<u8>),
    Frame(Seq<u8>),
}

impl View for FrameProgress {
    type V = FrameOutcome;

    open spec fn view(&self) -> FrameOutcome {
        match self {
            FrameProgress::More => FrameOutcome::More,
            FrameProgress::InvalidMagic(bytes) => FrameOutcome::InvalidMagic(bytes@),
            FrameProgress::Frame(payload) => FrameOutcome::Frame(payload@),
        }
    }
}

/// How many bytes are read next at a stage.
pub open spec fn bytes_wanted(stage: FrameStage) -> nat {
    match stage {
        FrameStage::Start => 1,
        FrameStage::Magic { first } => 3,
        FrameStage::Length => 8,
        FrameStage::Payload { len } => len as nat,
    }
}

/// Where the bytes wanted at a stage lead, and what they amount to.
pub open spec fn frame_step(magic: Seq<u8>, stage: FrameStage, bytes: Seq<u8>) -> (
    FrameStage,
    FrameOutcome,
) {
    match stage {
        FrameStage::Start => (FrameStage::Magic { first: bytes[0] }, FrameOutcome::More),
        FrameStage::Magic { first } => if seq![first] + bytes == magic {
            (FrameStage::Length, FrameOutcome::More)
        } else {
            (FrameStage::Start, FrameOutcome::InvalidMagic(seq![first] + bytes))
        },
        FrameStage::Length => (
            FrameStage::Payload { len: be_value(bytes) as u64 },
            FrameOutcome::More,
        ),
        FrameStage::Payload { len } => (FrameStage::Start, FrameOutcome::Frame(bytes)),
    }
}

/// Reads frames: says what to read next and takes what was read.
#[derive(Debug)]
pub struct FrameReader {
    pub magic: [u8; 4],
    pub stage: FrameStage,
}

impl FrameReader {
    /// A reader of frames that start with `magic`, before the first byte of one.
    pub fn new(magic: [u8; 4]) -> (reader: FrameReader)
        ensures
            reader.magic == magic,
            reader.stage == FrameStage::Start,
    {
        FrameReader { magic, stage: FrameStage::Start }
    }

    /// How many bytes to read next.
    pub fn wanted(&self) -> (n: u64)
        ensures
            n == bytes_wanted(self.stage),
    {
        match self.stage {
            FrameStage::Start => 1,
            FrameStage::Magic { first } => 3,
            FrameStage::Length => 8,
            FrameStage::Payload { len } => len,
        }
    }

    /// Takes the bytes that were asked for.
    pub fn accept(&mut self, bytes: Vec<u8>) -> (progress: FrameProgress)
        requires
            bytes@.len() == bytes_wanted(old(self).stage),
        ensures
            final(self).magic == old(self).magic,
            (final(self).stage, progress@) == frame_step(
                old(self).magic@,
                old(self).stage,
                bytes@,
            ),
    {
        match self.stage {
            FrameStage::Start => {
                self.stage = FrameStage::Magic { first: bytes[0] };
                FrameProgress::More
            },
            FrameStage::Magic { first } => {
                let found: [u8; 4] = [first, bytes[0], bytes[1], bytes[2]];
                assert(found@ =~= seq![first] + bytes@);
                if found[0] == self.magic[0] && found[1] == self.magic[1] && found[2]
                    == self.magic[2] && found[3] == self.magic[3] {
                    assert(found@ =~= self.magic@);
                    self.stage = FrameStage::Length;
                    FrameProgress::More
                } else {
                    self.stage = FrameStage::Start;
                    FrameProgress::InvalidMagic(found)
                }
            },
            FrameStage::Length => {
                let len: u64 = read_u64(bytes.as_slice());
                assert(bytes@.take(8) =~= bytes@);
                self.stage = FrameStage::Payload { len };
                FrameProgress::More
            },
            FrameStage::Payload { len } => {
                self.stage = FrameStage::Start;
                FrameProgress::Frame(bytes)
            },
        }
    }
}

/// What reading from a stage on makes of the bytes of a connection: the first frame or the first
/// invalid magic, with the bytes after it, or nothing yet when the bytes end before that.
pub open spec fn read_frame(magic: Seq<u8>, stage: FrameStage, bytes: Seq<u8>) -> Option<
    (FrameOutcome, Seq<u8>),
>
    decreases stage_rank(stage),
{
    let wanted = bytes_wanted(stage) as int;
    if bytes.len() < wanted {
        None
    } else {
        let (next, outcome) = frame_step(magic, stage, bytes.take(wanted));
        match outcome {
            FrameOutcome::More => if stage_rank(next) < stage_rank(stage) {
                read_frame(magic, next, bytes.skip(wanted))
            } else {
                None
            },
            _ => Some((outcome, bytes.skip(wanted))),
        }
    }
}

/// How many reads are left before a stage ends in a frame.
pub open spec fn stage_rank(stage: FrameStage) -> nat {
    match stage {
        FrameStage::Start => 4,
        FrameStage::Magic { first } => 3,
        FrameStage::Length => 2,
        FrameStage::Payload { len } => 1,
    }
}

/// Reading gives back what was framed: the bytes of a frame, whatever follows them, are read as
/// that frame's payload, and reading goes on right behind it.
pub proof fn law_frame_is_read_back(magic: Seq<u8>, payload: Seq<u8>, rest: Seq<u8>)
    requires
        magic.len() == 4,
        payload.len() <= u64::MAX,
    ensures
        read_frame(magic, FrameStage::Start, frame(magic, payload) + rest) == Some(
            (FrameOutcome::Frame(payload), rest),
        ),
{
    let n = payload.len();
    lemma_eight_bytes();
    law_be_value_of_be_bytes(n, 8);
    let length = be_bytes(n, 8);
    let all = frame(magic, payload) + rest;

    let after_first = all.skip(1);
    let after_magic = after_first.skip(3);
    let after_length = after_magic.skip(8);
    assert(all.take(1)[0] == magic[0]);
    assert(seq![magic[0]] + after_first.take(3) =~= magic);
    assert(after_magic.take(8) =~= length);
    assert(after_length.take(n as int) =~= payload);
    assert(after_length.skip(n as int) =~= rest);

    let payload_stage = FrameStage::Payload { len: n as u64 };
    assert(read_frame(magic, payload_stage, after_length) == Some(
        (FrameOutcome::Frame(payload), rest),
    ));
    assert(read_frame(magic, FrameStage::Length, after_magic) == read_frame(
        magic,
        payload_stage,
        after_length,
    ));
    assert(read_frame(magic, FrameStage::Magic { first: magic[0] }, after_first) == read_frame(
        magic,
        FrameStage::Length,
        after_magic,
    ));
}

/// Bytes that do not start with the magic bytes are refused, and the refusal names the four bytes
/// that were found.
pub proof fn law_foreign_bytes_are_refused(magic: Seq<u8>, bytes: Seq<u8>)
    requires
        magic.len() == 4,
        bytes.len() >= 4,
        bytes.take(4) != magic,
    ensures
        read_frame(magic, FrameStage::Start, bytes) == Some(
            (FrameOutcome::InvalidMagic(bytes.take(4)), bytes.skip(4)),
        ),
{
    let after_first = bytes.skip(1);
    assert(seq![bytes.take(1)[0]] + after_first.take(3) =~= bytes.take(4));
    assert(after_first.skip(3) =~= bytes.skip(4));
    assert(read_frame(magic, FrameStage::Magic { first: bytes[0] }, after_first) == Some(
        (FrameOutcome::InvalidMagic(bytes.take(4)), bytes.skip(4)),
    ));
}

/// A frame that is cut short anywhere is not yet a frame, and is not refused.
pub proof fn law_partial_frame_is_awaited(magic: Seq<u8>, payload: Seq<u8>, cut: int)
    requires
        magic.len() == 4,
        payload.len() <= u64::MAX,
        0 <= cut < frame(magic, payload).len(),
    ensures
        read_frame(magic, FrameStage::Start, frame(magic, payload).take(cut)) is None,
{
    let n = payload.len();
    lemma_eight_bytes();
    law_be_value_of_be_bytes(n, 8);
    let all = frame(magic, payload).take(cut);
    if cut >= 1 {
        let after_first = all.skip(1);
        assert(all.take(1)[0] == magic[0]);
        if cut >= 4 {
            let after_magic = after_first.skip(3);
            assert(seq![magic[0]] + after_first.take(3) =~= magic);
            if cut >= 12 {
                assert(after_magic.take(8) =~= be_bytes(n, 8));
                let after_length = after_magic.skip(8);
                assert(read_frame(magic, FrameStage::Payload { len: n as u64 }, after_length)
                    is None);
            }
            assert(read_frame(magic, FrameStage::Length, after_magic) is None);
        }
        assert(read_frame(magic, FrameStage::Magic { first: magic[0] }, after_first) is None);
    }
}

/// The bytes of several frames, one after the other.
pub open spec fn frames(magic: Seq<u8>, payloads: Seq<Seq<u8>>) -> Seq<u8>
    decreases payloads.len(),
{
    if payloads.len() == 0 {
        Seq::empty()
    } else {
        frame(magic, payloads.first()) + frames(magic, payloads.drop_first())
    }
}

/// What reading `n` frames makes of the bytes of a connection: their payloads, with the bytes
/// after them, or nothing if there are not `n` whole frames.
pub open spec fn read_frames(magic: Seq<u8>, bytes: Seq<u8>, n: nat) -> Option<
    (Seq<Seq<u8>>, Seq<u8>),
>
    decreases n,
{
    if n == 0 {
        Some((Seq::empty(), bytes))
    } else {
        match read_frame(magic, FrameStage::Start, bytes) {
            Some((FrameOutcome::Frame(payload), rest)) => match read_frames(
                magic,
                rest,
                (n - 1) as nat,
            ) {
                Some((payloads, rest)) => Some((seq![payload] + payloads, rest)),
                None => None,
            },
            _ => None,
        }
    }
}

/// Any number of messages sent one after the other are read back whole and in order.
pub proof fn law_frames_are_read_back_in_order(
    magic: Seq<u8>,
    payloads: Seq<Seq<u8>>,
    rest: Seq<u8>,
)
    requires
        magic.len() == 4,
        forall|i: int| 0 <= i < payloads.len() ==> (#[trigger] payloads[i]).len() <= u64::MAX,
    ensures
        read_frames(magic, frames(magic, payloads) + rest, payloads.len()) == Some(
            (payloads, rest),
        ),
    decreases payloads.len(),
{
    if payloads.len() == 0 {
        assert(frames(magic, payloads) + rest =~= rest);
        assert(payloads =~= Seq::empty());
    } else {
        let first = payloads[0];
        let others = payloads.drop_first();
        assert forall|i: int| 0 <= i < others.len() implies (#[trigger] others[i]).len()
            <= u64::MAX by {
            assert(others[i] == payloads[i + 1]);
        }
        law_frames_are_read_back_in_order(magic, others, rest);
        law_frame_is_read_back(magic, first, frames(magic, others) + rest);
        assert(frames(magic, payloads) + rest =~= frame(magic, first) + (frames(magic, others)
            + rest));
        assert(seq![first] + others =~= payloads);
    }
}

/// The bytes of a number are its places to the base 256, the most significant first.
pub proof fn law_bytes_are_the_places_of_a_number(n: nat, width: nat)
    ensures
        be_bytes(n, width).len() == width,
        forall|i: int|
            0 <= i < width ==> #[trigger] be_bytes(n, width)[i] == (n as int
                / vstd::arithmetic::power::pow(256, (width - 1 - i) as nat)) % 256,
    decreases width,
{
    vstd::arithmetic::power::lemma_pow0(256);
    vstd::arithmetic::power::lemma_pow1(256);
    if width > 0 {
        let rest = be_bytes(n / 256, (width - 1) as nat);
        law_bytes_are_the_places_of_a_number(n / 256, (width - 1) as nat);
        assert forall|i: int| 0 <= i < width implies #[trigger] be_bytes(n, width)[i] == (n as int
            / vstd::arithmetic::power::pow(256, (width - 1 - i) as nat)) % 256 by {
            if i < width - 1 {
                let k = (width - 2 - i) as nat;
                let p = vstd::arithmetic::power::pow(256, k);
                vstd::arithmetic::power::lemma_pow_positive(256, k);
                vstd::arithmetic::power::lemma_pow_adds(256, 1, k);
                vstd::arithmetic::div_mod::lemma_div_denominator(n as int, 256, p);
                assert(be_bytes(n, width)[i] == rest[i]);
            }
        }
    }
}

/// A frame is the magic bytes, then the length of the payload in eight bytes with the most
/// significant first, then the payload, and nothing else.
pub proof fn law_what_a_frame_is_made_of(magic: Seq<u8>, payload: Seq<u8>)
    requires
        magic.len() == 4,
    ensures
        frame(magic, payload).len() == 12 + payload.len(),
        frame(magic, payload).take(4) == magic,
        forall|i: int|
            0 <= i < 8 ==> #[trigger] frame(magic, payload)[4 + i] == (payload.len() as int
                / vstd::arithmetic::power::pow(256, (7 - i) as nat)) % 256,
        frame(magic, payload).skip(12) == payload,
{
    let all = frame(magic, payload);
    law_bytes_are_the_places_of_a_number(payload.len(), 8);
    assert(all.take(4) =~= magic);
    assert(all.skip(12) =~= payload);
    assert forall|i: int| 0 <= i < 8 implies #[trigger] all[4 + i] == (payload.len() as int
        / vstd::arithmetic::power::pow(256, (7 - i) as nat)) % 256 by {
        assert(all[4 + i] == be_bytes(payload.len(), 8)[i]);
    }
}

/// A frame is read in four pieces: one byte, the other three magic bytes, the eight bytes of the
/// length, and as many bytes as they say.
pub proof fn law_a_frame_is_read_in_four_pieces(first: u8, len: u64)
    ensures
        bytes_wanted(FrameStage::Start) == 1,
        bytes_wanted(FrameStage::Magic { first }) == 3,
        bytes_wanted(FrameStage::Length) == 8,
        bytes_wanted(FrameStage::Payload { len }) == len,
{
}

/// Each piece of a frame counts for what it is: the first byte is kept, the four magic bytes are
/// compared, the length is taken, and the payload is handed out as it came.
pub proof fn law_what_the_pieces_of_a_frame_amount_to(
    magic: Seq<u8>,
    first: u8,
    three: Seq<u8>,
    length: Seq<u8>,
    payload: Seq<u8>,
    len: u64,
)
    requires
        length.len() == 8,
    ensures
        frame_step(magic, FrameStage::Start, seq![first]) == (
            FrameStage::Magic { first },
            FrameOutcome::More,
        ),
        seq![first] + three == magic ==> frame_step(magic, FrameStage::Magic { first }, three) == (
            FrameStage::Length,
            FrameOutcome::More,
        ),
        seq![first] + three != magic ==> frame_step(magic, FrameStage::Magic { first }, three) == (
            FrameStage::Start,
            FrameOutcome::InvalidMagic(seq![first] + three),
        ),
        frame_step(magic, FrameStage::Length, length).1 is More,
        frame_step(magic, FrameStage::Length, length).0 matches FrameStage::Payload { len: found }
            && be_bytes(found as nat, 8) == length,
        frame_step(magic, FrameStage::Payload { len }, payload) == (
            FrameStage::Start,
            FrameOutcome::Frame(payload),
        ),
{
    lemma_eight_bytes();
    law_be_bytes_of_be_value(length);
}

/// The mathematical content of a reader's progress is all that it hands out.
pub proof fn law_nothing_of_the_progress_is_lost(progress: FrameProgress)
    ensures
        match progress {
            FrameProgress::More => progress@ is More,
            FrameProgress::InvalidMagic(bytes) => progress@ == FrameOutcome::InvalidMagic(bytes@),
            FrameProgress::Frame(payload) => progress@ == FrameOutcome::Frame(payload@),
        },
{
}

} // verus!

//! The messages between the relay and its clients, and the frames that carry
//! them over a stream of bytes.
use crate::ident::Uuid;
use tokio_util::bytes::BytesMut;
use tokio_util::codec::{AnyDelimiterCodec, AnyDelimiterCodecError, Decoder, Encoder};
use vstd::prelude::*;
use vstd::utf8::*;

verus! {

/// What a client tells the relay.
#[derive(Debug, Clone, Copy, PartialEq, Eq, Structural)]
pub enum ClientMessage {
    /// The client asks for a subdomain.
    Hello,
    /// The client takes over the waiting connection with this identifier.
    Accept(Uuid),
}

/// What the relay tells a client.
#[derive(Debug)]
pub enum ServerMessage {
    /// The subdomain that the client's local server is published at.
    SubDomain(String),
    /// A visitor's connection waits under this identifier.
    Connection(Uuid),
    /// The relay is still there.
    Heartbeat,
}

/// A message of the relay with its text as a sequence of characters.
pub enum ServerMessageView {
    SubDomain(Seq<char>),
    Connection(Uuid),
    Heartbeat,
}

impl View for ServerMessage {
    type V = ServerMessageView;

    open spec fn view(&self) -> ServerMessageView {
        match *self {
            ServerMessage::SubDomain(name) => ServerMessageView::SubDomain(name@),
            ServerMessage::Connection(id) => ServerMessageView::Connection(id),
            ServerMessage::Heartbeat => ServerMessageView::Heartbeat,
        }
    }
}

/// How frames are told apart in a stream: a frame ends at any of
/// `seek_delimiters`, `sequence_writer` is put behind a frame that is written,
/// and a frame that is read has no more than `max_length` bytes. What is left of a
/// longer one `is_discarding` says to pass over.
#[derive(Debug)]
pub struct FrameCodec {
    pub seek_delimiters: Vec<u8>,
    pub sequence_writer: Vec<u8>,
    pub max_length: usize,
    pub is_discarding: bool,
}

/// Why no frame can be read.
#[derive(Debug, Clone, Copy, PartialEq, Eq, Structural)]
pub enum FrameError {
    /// There are more bytes than a frame can have, and no end of a frame.
    MaxChunkLengthExceeded,
    /// The stream failed.
    Io,
}

/// Where the first of `delimiters` stands, or the end of the bytes.
pub open spec fn frame_end(bytes: Seq<u8>, delimiters: Seq<u8>) -> int
    decreases bytes.len(),
{
    if bytes.len() == 0 || delimiters.contains(bytes.first()) {
        0
    } else {
        1 + frame_end(bytes.drop_first(), delimiters)
    }
}

/// What is read from the bytes that have arrived, and the bytes left after it.
pub open spec fn decoded(
    delimiters: Seq<u8>,
    max_length: usize,
    bytes: Seq<u8>,
) -> (Result<Option<Seq<u8>>, FrameError>, Seq<u8>) {
    let end = frame_end(bytes, delimiters);
    if end < bytes.len() && end <= max_length {
        (Ok(Some(bytes.take(end))), bytes.skip(end + 1))
    } else if bytes.len() > max_length {
        (Err(FrameError::MaxChunkLengthExceeded), bytes)
    } else {
        (Ok(None), bytes)
    }
}

/// What is read once no more bytes will arrive: what is left without a delimiter
/// is the last frame.
pub open spec fn decoded_at_end(
    delimiters: Seq<u8>,
    max_length: usize,
    bytes: Seq<u8>,
) -> (Result<Option<Seq<u8>>, FrameError>, Seq<u8>) {
    let (frame, rest) = decoded(delimiters, max_length, bytes);
    if frame == Ok::<Option<Seq<u8>>, FrameError>(None) && rest.len() > 0 {
        (Ok(Some(rest)), Seq::empty())
    } else {
        (frame, rest)
    }
}

/// What is left of the bytes behind the frame that is passed over: `None` if that
/// has not come to its end.
pub open spec fn discarded(delimiters: Seq<u8>, bytes: Seq<u8>) -> Option<Seq<u8>> {
    let end = frame_end(bytes, delimiters);
    if end < bytes.len() {
        Some(bytes.skip(end + 1))
    } else {
        None
    }
}

/// The bytes of a frame that was read.
pub open spec fn frame_view(frame: Result<Option<Vec<u8>>, FrameError>) -> Result<
    Option<Seq<u8>>,
    FrameError,
> {
    match frame {
        Ok(Some(bytes)) => Ok(Some(bytes@)),
        Ok(None) => Ok(None),
        Err(e) => Err(e),
    }
}

/// `AnyDelimiterCodec::decode` of a new codec: the bytes in front of the first
/// delimiter, which are taken out together with it, if it stands among the first
/// `max_length + 1` bytes; else an error if there are more than `max_length`
/// bytes, and no frame yet if there are not.
#[verifier::external_body]
fn decode_frame(codec: &FrameCodec, bytes: &[u8]) -> (r: (
    Result<Option<Vec<u8>>, FrameError>,
    Vec<u8>,
))
    ensures
        (frame_view(r.0), r.1@) == decoded(codec.seek_delimiters@, codec.max_length, bytes@),
{
    let (seek, write) = (codec.seek_delimiters.clone(), codec.sequence_writer.clone());
    let mut inner = AnyDelimiterCodec::new_with_max_length(seek, write, codec.max_length);
    let mut buffer = BytesMut::from(bytes);
    let frame = match inner.decode(&mut buffer) {
        Ok(Some(frame)) => Ok(Some(frame.to_vec())),
        Ok(None) => Ok(None),
        Err(AnyDelimiterCodecError::MaxChunkLengthExceeded) => {
            Err(FrameError::MaxChunkLengthExceeded)
        },
        Err(AnyDelimiterCodecError::Io(_)) => Err(FrameError::Io),
    };
    (frame, buffer.to_vec())
}

/// `AnyDelimiterCodec::decode_eof` of a new codec: as `decode`, but where that
/// finds no frame yet, all the bytes that there are make one.
#[verifier::external_body]
fn decode_last_frame(codec: &FrameCodec, bytes: &[u8]) -> (r: (
    Result<Option<Vec<u8>>, FrameError>,
    Vec<u8>,
))
    ensures
        (frame_view(r.0), r.1@) == decoded_at_end(
            codec.seek_delimiters@,
            codec.max_length,
            bytes@,
        ),
{
    let (seek, write) = (codec.seek_delimiters.clone(), codec.sequence_writer.clone());
    let mut inner = AnyDelimiterCodec::new_with_max_length(seek, write, codec.max_length);
    let mut buffer = BytesMut::from(bytes);
    let frame = match inner.decode_eof(&mut buffer) {
        Ok(Some(frame)) => Ok(Some(frame.to_vec())),
        Ok(None) => Ok(None),
        Err(AnyDelimiterCodecError::MaxChunkLengthExceeded) => {
            Err(FrameError::MaxChunkLengthExceeded)
        },
        Err(AnyDelimiterCodecError::Io(_)) => Err(FrameError::Io),
    };
    (frame, buffer.to_vec())
}

/// `AnyDelimiterCodec::encode`: the bytes of the text with the sequence of the
/// codec behind them, whatever their length.
#[verifier::external_body]
fn encode_frame(codec: &FrameCodec, text: &str) -> (r: Vec<u8>)
    ensures
        r@ == encode_utf8(text@) + codec.sequence_writer@,
{
    let (seek, write) = (codec.seek_delimiters.clone(), codec.sequence_writer.clone());
    let mut inner = AnyDelimiterCodec::new_with_max_length(seek, write, codec.max_length);
    let mut buffer = BytesMut::new();
    let _ = inner.encode(text, &mut buffer);
    buffer.to_vec()
}

/// The longest frame that is read.
pub const MAX_FRAME: usize = 128;

/// The codec of the protocol: frames end with a zero byte and have up to 128
/// bytes.
pub fn new_codec() -> (r: FrameCodec)
    ensures
        r.seek_delimiters@ == seq![0u8],
        r.sequence_writer@ == seq![0u8],
        r.max_length == MAX_FRAME,
        !r.is_discarding,
{
    FrameCodec {
        seek_delimiters: vec![0u8],
        sequence_writer: vec![0u8],
        max_length: MAX_FRAME,
        is_discarding: false,
    }
}

impl FrameCodec {
    /// Whether two codecs tell frames apart in the same way.
    pub open spec fn same_frames(&self, other: &FrameCodec) -> bool {
        &&& self.seek_delimiters@ == other.seek_delimiters@
        &&& self.sequence_writer@ == other.sequence_writer@
        &&& self.max_length == other.max_length
    }

    /// Whether a byte ends a frame.
    fn is_delimiter(&self, byte: u8) -> (r: bool)
        ensures
            r == self.seek_delimiters@.contains(byte),
    {
        let mut i: usize = 0;
        while i < self.seek_delimiters.len()
            invariant
                0 <= i <= self.seek_delimiters@.len(),
                forall|j: int| 0 <= j < i ==> self.seek_delimiters@[j] != byte,
            decreases self.seek_delimiters@.len() - i,
        {
            if self.seek_delimiters[i] == byte {
                return true;
            }
            i += 1;
        }
        false
    }

    /// Passes over what is left of a frame that is too long. Says whether its end
    /// has come.
    fn discard(&self, bytes: &mut Vec<u8>) -> (r: bool)
        ensures
            match discarded(self.seek_delimiters@, old(bytes)@) {
                Some(rest) => r && final(bytes)@ == rest,
                None => !r && final(bytes)@.len() == 0,
            },
    {
        let n: usize = bytes.len();
        let mut i: usize = 0;
        while i < n && !self.is_delimiter(bytes[i])
            invariant
                0 <= i <= n,
                n == bytes@.len(),
                bytes@ == old(bytes)@,
                forall|j: int| 0 <= j < i ==> !self.seek_delimiters@.contains(#[trigger] bytes@[j]),
            decreases n - i,
        {
            i += 1;
        }
        proof {
            lemma_frame_end(bytes@, self.seek_delimiters@, i as int);
        }
        if i < n {
            let rest: Vec<u8> = bytes.split_off(i + 1);
            assert(rest@ =~= old(bytes)@.skip(i + 1));
            *bytes = rest;
            true
        } else {
            bytes.clear();
            false
        }
    }

    /// Takes the first frame out of the bytes that have arrived: `None` if more
    /// bytes are needed. After an error, what is left of the frame that is too long
    /// is passed over first.
    pub fn decode(&mut self, bytes: &mut Vec<u8>) -> (r: Result<Option<Vec<u8>>, FrameError>)
        ensures
            final(self).same_frames(old(self)),
            (frame_view(r), final(bytes)@, final(self).is_discarding) == read_on(
                old(self).seek_delimiters@,
                old(self).max_length,
                old(self).is_discarding,
                old(bytes)@,
                false,
            ),
    {
        if self.is_discarding && !self.discard(bytes) {
            assert(bytes@ =~= Seq::empty());
            return Ok(None);
        }
        let (frame, rest) = decode_frame(self, bytes.as_slice());
        *bytes = rest;
        self.is_discarding = frame.is_err();
        frame
    }

    /// Takes the first frame out of the last bytes of a stream.
    pub fn decode_eof(&mut self, bytes: &mut Vec<u8>) -> (r: Result<Option<Vec<u8>>, FrameError>)
        ensures
            final(self).same_frames(old(self)),
            (frame_view(r), final(bytes)@, final(self).is_discarding) == read_on(
                old(self).seek_delimiters@,
                old(self).max_length,
                old(self).is_discarding,
                old(bytes)@,
                true,
            ),
    {
        if self.is_discarding && !self.discard(bytes) {
            assert(bytes@ =~= Seq::empty());
            return Ok(None);
        }
        let (frame, rest) = decode_last_frame(self, bytes.as_slice());
        *bytes = rest;
        self.is_discarding = frame.is_err();
        frame
    }

    /// The bytes of a frame that carries a text.
    pub fn encode(&self, text: &str) -> (r: Vec<u8>)
        ensures
            r@ == encode_utf8(text@) + self.sequence_writer@,
    {
        encode_frame(self, text)
    }
}

/// What a codec reads from the bytes that have arrived, the bytes left after it,
/// and whether it passes over what comes next. `at_end` says that no more bytes
/// will arrive.
pub open spec fn read_on(
    delimiters: Seq<u8>,
    max_length: usize,
    is_discarding: bool,
    bytes: Seq<u8>,
    at_end: bool,
) -> (Result<Option<Seq<u8>>, FrameError>, Seq<u8>, bool) {
    if is_discarding && discarded(delimiters, bytes) is None {
        (Ok(None), Seq::empty(), true)
    } else {
        let arrived = if is_discarding {
            discarded(delimiters, bytes)->0
        } else {
            bytes
        };
        let (frame, rest) = if at_end {
            decoded_at_end(delimiters, max_length, arrived)
        } else {
            decoded(delimiters, max_length, arrived)
        };
        (frame, rest, frame is Err)
    }
}

/// The bytes of a text as a frame of the protocol.
pub open spec fn frame_of(text: Seq<char>) -> Seq<u8> {
    encode_utf8(text) + seq![0u8]
}

/// What is read by the codec of the protocol, unless it passes over bytes.
pub open spec fn read_frame(bytes: Seq<u8>) -> (Result<Option<Seq<u8>>, FrameError>, Seq<u8>) {
    decoded(seq![0u8], MAX_FRAME, bytes)
}

/// Whether a text fits into a frame of the protocol: up to 128 bytes, none of
/// them zero.
pub open spec fn fits_frame(text: Seq<char>) -> bool {
    encode_utf8(text).len() <= MAX_FRAME && !encode_utf8(text).contains(0u8)
}

proof fn lemma_frame_end(bytes: Seq<u8>, delimiters: Seq<u8>, end: int)
    requires
        0 <= end <= bytes.len(),
        forall|i: int| 0 <= i < end ==> !delimiters.contains(#[trigger] bytes[i]),
        end == bytes.len() || delimiters.contains(bytes[end]),
    ensures
        frame_end(bytes, delimiters) == end,
    decreases end,
{
    if end > 0 {
        assert(!delimiters.contains(bytes[0]));
        assert forall|i: int| 0 <= i < end - 1 implies !delimiters.contains(
            #[trigger] bytes.drop_first()[i],
        ) by {
            assert(bytes.drop_first()[i] == bytes[i + 1]);
        }
        lemma_frame_end(bytes.drop_first(), delimiters, end - 1);
    }
}

proof fn lemma_no_delimiter(text: Seq<char>, bytes: Seq<u8>, n: int)
    requires
        !encode_utf8(text).contains(0u8),
        0 <= n <= encode_utf8(text).len(),
        n <= bytes.len(),
        bytes.take(n) == encode_utf8(text).take(n),
    ensures
        forall|i: int| 0 <= i < n ==> !seq![0u8].contains(#[trigger] bytes[i]),
{
    assert forall|i: int| 0 <= i < n implies !seq![0u8].contains(#[trigger] bytes[i]) by {
        assert(bytes[i] == bytes.take(n)[i]);
        assert(bytes[i] == encode_utf8(text)[i]);
    }
}

/// A frame is read whole, and nothing but it: the bytes in front of the first
/// delimiter, if there are no more of them than a frame can have, are read as they
/// are, the delimiter is taken out, and what comes behind it stays. Whether more
/// bytes will arrive makes no difference.
pub proof fn law_whole_frame_is_read(
    delimiters: Seq<u8>,
    max_length: usize,
    carried: Seq<u8>,
    delimiter: u8,
    rest: Seq<u8>,
    at_end: bool,
)
    requires
        forall|i: int| 0 <= i < carried.len() ==> !delimiters.contains(#[trigger] carried[i]),
        delimiters.contains(delimiter),
        carried.len() <= max_length,
    ensures
        read_on(delimiters, max_length, false, carried + seq![delimiter] + rest, at_end) == (
            Ok::<Option<Seq<u8>>, FrameError>(Some(carried)),
            rest,
            false,
        ),
{
    let bytes = carried + seq![delimiter] + rest;
    let n = carried.len() as int;
    assert forall|i: int| 0 <= i < n implies !delimiters.contains(#[trigger] bytes[i]) by {
        assert(bytes[i] == carried[i]);
    }
    assert(bytes[n] == delimiter);
    lemma_frame_end(bytes, delimiters, n);
    assert(bytes.take(n) =~= carried);
    assert(bytes.skip(n + 1) =~= rest);
}

/// Bytes without a delimiter, and no more of them than a frame can have, are waited
/// on, and none of them is lost. Once no more will arrive they are the last frame.
pub proof fn law_open_frame_is_kept(delimiters: Seq<u8>, max_length: usize, bytes: Seq<u8>)
    requires
        forall|i: int| 0 <= i < bytes.len() ==> !delimiters.contains(#[trigger] bytes[i]),
        bytes.len() <= max_length,
    ensures
        read_on(delimiters, max_length, false, bytes, false) == (
            Ok::<Option<Seq<u8>>, FrameError>(None),
            bytes,
            false,
        ),
        bytes.len() > 0 ==> read_on(delimiters, max_length, false, bytes, true) == (
            Ok::<Option<Seq<u8>>, FrameError>(Some(bytes)),
            Seq::<u8>::empty(),
            false,
        ),
        bytes.len() == 0 ==> read_on(delimiters, max_length, false, bytes, true) == (
            Ok::<Option<Seq<u8>>, FrameError>(None),
            Seq::<u8>::empty(),
            false,
        ),
{
    lemma_frame_end(bytes, delimiters, bytes.len() as int);
    assert(bytes.len() == 0 ==> bytes =~= Seq::<u8>::empty());
}

/// More bytes than a frame can have, without a delimiter among them and whatever
/// comes behind, are refused. None of them is taken out, and what is left of them is
/// passed over from then on.
pub proof fn law_too_many_bytes_are_refused(
    delimiters: Seq<u8>,
    max_length: usize,
    bytes: Seq<u8>,
    at_end: bool,
)
    requires
        bytes.len() > max_length,
        forall|i: int| 0 <= i <= max_length ==> !delimiters.contains(#[trigger] bytes[i]),
    ensures
        read_on(delimiters, max_length, false, bytes, at_end) == (
            Err::<Option<Seq<u8>>, FrameError>(FrameError::MaxChunkLengthExceeded),
            bytes,
            true,
        ),
{
    lemma_frame_end_after(bytes, delimiters, max_length + 1);
}

/// After a frame that was refused the next one is read as ever: what is left of the
/// refused one is passed over up to its delimiter, and nothing behind that. As long
/// as the delimiter has not come, all that arrives is passed over.
pub proof fn law_refused_frame_is_passed_over(
    delimiters: Seq<u8>,
    max_length: usize,
    left: Seq<u8>,
    delimiter: u8,
    bytes: Seq<u8>,
    at_end: bool,
)
    requires
        forall|i: int| 0 <= i < left.len() ==> !delimiters.contains(#[trigger] left[i]),
        delimiters.contains(delimiter),
    ensures
        read_on(delimiters, max_length, true, left + seq![delimiter] + bytes, at_end) == read_on(
            delimiters,
            max_length,
            false,
            bytes,
            at_end,
        ),
        read_on(delimiters, max_length, true, left, at_end) == (
            Ok::<Option<Seq<u8>>, FrameError>(None),
            Seq::<u8>::empty(),
            true,
        ),
{
    let all = left + seq![delimiter] + bytes;
    let n = left.len() as int;
    assert forall|i: int| 0 <= i < n implies !delimiters.contains(#[trigger] all[i]) by {
        assert(all[i] == left[i]);
    }
    assert(all[n] == delimiter);
    lemma_frame_end(all, delimiters, n);
    lemma_frame_end(left, delimiters, n);
    assert(all.skip(n + 1) =~= bytes);
}

/// What is written is what a frame of the protocol carries: the bytes of the text,
/// and one zero byte behind them.
pub proof fn law_frame_carries_the_text(text: Seq<char>)
    ensures
        frame_of(text) == encode_utf8(text).push(0u8),
        fits_frame(text) <==> encode_utf8(text).len() <= 128 && !encode_utf8(text).contains(0u8),
{
    assert(frame_of(text) =~= encode_utf8(text).push(0u8));
}

/// Reading gives back what was written: the first frame of a stream that starts
/// with the frame of a text is that text, and the rest of the stream stays, whether
/// more bytes will arrive or not. It holds of the texts that fit into a frame.
pub proof fn law_read_gives_back_written(text: Seq<char>, rest: Seq<u8>, at_end: bool)
    requires
        encode_utf8(text).len() <= 128,
        !encode_utf8(text).contains(0u8),
    ensures
        read_on(seq![0u8], 128, false, encode_utf8(text).push(0u8) + rest, at_end) == (
            Ok::<Option<Seq<u8>>, FrameError>(Some(encode_utf8(text))),
            rest,
            false,
        ),
        read_frame(frame_of(text) + rest) == (
            Ok::<Option<Seq<u8>>, FrameError>(Some(encode_utf8(text))),
            rest,
        ),
        MAX_FRAME == 128,
{
    let carried = encode_utf8(text);
    let n = carried.len() as int;
    lemma_no_delimiter(text, carried, n);
    assert(seq![0u8][0] == 0u8);
    assert(seq![0u8].contains(0u8));
    law_whole_frame_is_read(seq![0u8], MAX_FRAME, carried, 0u8, rest, at_end);
    law_whole_frame_is_read(seq![0u8], MAX_FRAME, carried, 0u8, rest, false);
    assert(carried.push(0u8) + rest =~= carried + seq![0u8] + rest);
    assert(frame_of(text) + rest =~= carried + seq![0u8] + rest);
}

/// A frame that has arrived in part is waited for, and no byte of it is lost.
pub proof fn law_partial_frame_is_kept(text: Seq<char>, n: int)
    requires
        encode_utf8(text).len() <= 128,
        !encode_utf8(text).contains(0u8),
        0 <= n <= encode_utf8(text).len(),
    ensures
        read_on(seq![0u8], 128, false, encode_utf8(text).take(n), false) == (
            Ok::<Option<Seq<u8>>, FrameError>(None),
            encode_utf8(text).take(n),
            false,
        ),
        read_frame(frame_of(text).take(n)) == (
            Ok::<Option<Seq<u8>>, FrameError>(None),
            frame_of(text).take(n),
        ),
{
    let bytes = encode_utf8(text).take(n);
    assert(frame_of(text).take(n) =~= bytes);
    assert(bytes.take(n) =~= bytes);
    lemma_no_delimiter(text, bytes, n);
    law_open_frame_is_kept(seq![0u8], MAX_FRAME, bytes);
}

/// A text of more than 128 bytes is refused, whatever comes behind it, and no byte
/// of it is taken.
pub proof fn law_long_frame_is_refused(text: Seq<char>, rest: Seq<u8>, at_end: bool)
    requires
        encode_utf8(text).len() > 128,
        !encode_utf8(text).contains(0u8),
    ensures
        read_on(seq![0u8], 128, false, encode_utf8(text) + rest, at_end) == (
            Err::<Option<Seq<u8>>, FrameError>(FrameError::MaxChunkLengthExceeded),
            encode_utf8(text) + rest,
            true,
        ),
        read_frame(encode_utf8(text) + rest) == (
            Err::<Option<Seq<u8>>, FrameError>(FrameError::MaxChunkLengthExceeded),
            encode_utf8(text) + rest,
        ),
{
    let bytes = encode_utf8(text) + rest;
    let n = encode_utf8(text).len() as int;
    assert(bytes.take(n) =~= encode_utf8(text).take(n));
    lemma_no_delimiter(text, bytes, n);
    law_too_many_bytes_are_refused(seq![0u8], MAX_FRAME, bytes, at_end);
    law_too_many_bytes_are_refused(seq![0u8], MAX_FRAME, bytes, false);
}

proof fn lemma_frame_end_after(bytes: Seq<u8>, delimiters: Seq<u8>, n: int)
    requires
        0 <= n <= bytes.len(),
        forall|i: int| 0 <= i < n ==> !delimiters.contains(#[trigger] bytes[i]),
    ensures
        frame_end(bytes, delimiters) >= n,
    decreases n,
{
    if n > 0 {
        assert(!delimiters.contains(bytes[0]));
        assert forall|i: int| 0 <= i < n - 1 implies !delimiters.contains(
            #[trigger] bytes.drop_first()[i],
        ) by {
            assert(bytes.drop_first()[i] == bytes[i + 1]);
        }
        lemma_frame_end_after(bytes.drop_first(), delimiters, n - 1);
    } else {
        lemma_frame_end_nonnegative(bytes, delimiters);
    }
}

proof fn lemma_frame_end_nonnegative(bytes: Seq<u8>, delimiters: Seq<u8>)
    ensures
        frame_end(bytes, delimiters) >= 0,
    decreases bytes.len(),
{
    if bytes.len() > 0 {
        lemma_frame_end_nonnegative(bytes.drop_first(), delimiters);
    }
}

/// After a frame that is too long the reader goes on with the next one: whatever
/// is left of it is passed over up to its end, and nothing behind that.
pub proof fn law_reading_goes_on_after_a_long_frame(left: Seq<u8>, bytes: Seq<u8>, at_end: bool)
    requires
        !left.contains(0u8),
    ensures
        read_on(seq![0u8], 128, true, left + seq![0u8] + bytes, at_end) == read_on(
            seq![0u8],
            128,
            false,
            bytes,
            at_end,
        ),
{
    assert(seq![0u8][0] == 0u8);
    assert(seq![0u8].contains(0u8));
    assert forall|i: int| 0 <= i < left.len() implies !seq![0u8].contains(#[trigger] left[i]) by {
        assert(left.contains(left[i]));
    }
    law_refused_frame_is_passed_over(seq![0u8], MAX_FRAME, left, 0u8, bytes, at_end);
}

/// The frames of texts, one behind the other.
pub open spec fn stream_of(texts: Seq<Seq<char>>) -> Seq<u8>
    decreases texts.len(),
{
    if texts.len() == 0 {
        Seq::empty()
    } else {
        encode_utf8(texts.first()).push(0u8) + stream_of(texts.drop_first())
    }
}

/// What is read from a stream, frame by frame, up to the first read that gives
/// none.
pub open spec fn frames_in(bytes: Seq<u8>) -> Seq<Seq<u8>>
    decreases bytes.len(),
{
    let (frame, rest, passing_over) = read_on(seq![0u8], 128, false, bytes, false);
    if frame is Ok && frame->Ok_0 is Some && rest.len() < bytes.len() {
        seq![frame->Ok_0->0] + frames_in(rest)
    } else {
        Seq::empty()
    }
}

/// Several messages on one stream are read one by one in the order in which they
/// were written.
pub proof fn law_frames_keep_their_order(texts: Seq<Seq<char>>)
    requires
        forall|i: int| 0 <= i < texts.len() ==> fits_frame(#[trigger] texts[i]),
    ensures
        frames_in(stream_of(texts)) == texts.map_values(|text: Seq<char>| encode_utf8(text)),
    decreases texts.len(),
{
    if texts.len() == 0 {
        assert(frames_in(stream_of(texts)) =~= texts.map_values(
            |text: Seq<char>| encode_utf8(text),
        ));
    } else {
        let less = texts.drop_first();
        assert(fits_frame(texts[0]));
        assert forall|i: int| 0 <= i < less.len() implies fits_frame(#[trigger] less[i]) by {
            assert(less[i] == texts[i + 1]);
        }
        law_frames_keep_their_order(less);
        law_read_gives_back_written(texts.first(), stream_of(less), false);
        assert(frames_in(stream_of(texts)) =~= texts.map_values(
            |text: Seq<char>| encode_utf8(text),
        ));
    }
}

/// A message of the relay and a frame that was read are seen as they are, and codecs
/// that tell frames apart in the same way differ in nothing but what they pass over.
pub proof fn law_messages_and_frames_are_seen_whole(
    name: String,
    id: Uuid,
    bytes: Vec<u8>,
    error: FrameError,
    one: FrameCodec,
    other: FrameCodec,
)
    ensures
        ServerMessage::SubDomain(name)@ == ServerMessageView::SubDomain(name@),
        ServerMessage::Connection(id)@ == ServerMessageView::Connection(id),
        ServerMessage::Heartbeat@ == ServerMessageView::Heartbeat,
        frame_view(Ok(Some(bytes))) == Ok::<Option<Seq<u8>>, FrameError>(Some(bytes@)),
        frame_view(Ok(None)) == Ok::<Option<Seq<u8>>, FrameError>(None),
        frame_view(Err(error)) == Err::<Option<Seq<u8>>, FrameError>(error),
        one.same_frames(&other) ==> one.seek_delimiters@ == other.seek_delimiters@
            && one.sequence_writer@ == other.sequence_writer@ && one.max_length
            == other.max_length,
{
}

} // verus!

//! An ALTS-encrypted transport stream over a raw connection.
//!
//! The stream never touches the connection itself. It says what to write,
//! takes what was read, and keeps the counters and buffers in between:
//!
//! - To read, ask [`AltsStream::read_ready`] first. Where it has nothing, read
//!   at most [`READ_CHUNK_SIZE`] bytes from the connection and hand them to
//!   [`AltsStream::read_received`].
//! - To write, take the frame that [`AltsStream::start_write`] builds, write it
//!   to the connection in one go, and report how much of it was written to
//!   [`AltsStream::finish_write`].

use crate::alts::cipher::gcm_sealed;
use crate::alts::cipher::KEY_SIZE;
use crate::alts::cipher::TAG_SIZE;
use crate::alts::frame::decrypt_frame;
use crate::alts::frame::encrypt_frame;
use crate::alts::frame::frame_plaintext;
use crate::alts::frame::nonce_bytes;
use crate::alts::frame::wire_frame;
use crate::alts::frame::FrameError;
use crate::alts::frame::FRAME_LENGTH_SIZE;
use crate::alts::frame::MAX_FRAME_SIZE;
use crate::bytes::le_value;
use crate::bytes::to_le_bytes;
use crate::bytes::u32_from_le;
use vstd::prelude::*;
use vstd::slice::slice_subrange;
use vstd::slice::slice_to_vec;

verus! {

/// The most that is read from the connection at a time, in bytes.
pub const READ_CHUNK_SIZE: usize = 8192;

/// What the bytes at the head of a buffer hold.
pub enum ParsedFrame {
    /// Less than a whole frame.
    Incomplete,
    /// A length prefix beyond what is allowed.
    TooLarge(nat),
    /// A whole sealed frame, and what follows it.
    Complete(Seq<u8>, Seq<u8>),
}

/// Reads one frame off the head of a buffer.
pub open spec fn parse_frame(bytes: Seq<u8>) -> ParsedFrame {
    if bytes.len() < FRAME_LENGTH_SIZE {
        ParsedFrame::Incomplete
    } else {
        let len = le_value(bytes.take(FRAME_LENGTH_SIZE as int));
        let end = FRAME_LENGTH_SIZE + len;
        if len > MAX_FRAME_SIZE {
            ParsedFrame::TooLarge(len)
        } else if bytes.len() < end {
            ParsedFrame::Incomplete
        } else {
            ParsedFrame::Complete(bytes.subrange(FRAME_LENGTH_SIZE as int, end), bytes.skip(end))
        }
    }
}

/// The state of a stream.
#[verifier::ext_equal]
pub struct StreamState {
    /// Key for outgoing frames.
    pub encrypt_key: Seq<u8>,
    /// Key for incoming frames.
    pub decrypt_key: Seq<u8>,
    /// Sequence number of the next outgoing frame.
    pub write_counter: nat,
    /// Sequence number of the next incoming frame.
    pub read_counter: nat,
    /// What came from the connection and is not decrypted yet.
    pub received: Seq<u8>,
    /// What is decrypted and not consumed yet.
    pub unread: Seq<u8>,
    /// The frame at the head of what was received has been refused.
    pub refused: bool,
}

/// What a read hands out.
pub enum ReadStep {
    /// The connection is at its end, and no whole frame is left but one that has
    /// been refused.
    EndOfStream,
    /// No whole frame has come in yet.
    Incomplete,
    /// Decrypted data.
    Data(Seq<u8>),
    /// The next frame is too large, by its length prefix.
    TooLarge(nat),
    /// The next frame does not decrypt.
    Refused,
}

/// The first `room` elements, or all where there are fewer.
pub open spec fn clipped(s: Seq<u8>, room: nat) -> Seq<u8> {
    if room < s.len() {
        s.take(room as int)
    } else {
        s
    }
}

/// What is left after the first `room` elements.
pub open spec fn beyond(s: Seq<u8>, room: nat) -> Seq<u8> {
    s.skip(clipped(s, room).len() as int)
}

impl StreamState {
    /// A stream that has neither sent nor received anything.
    pub open spec fn fresh(encrypt_key: Seq<u8>, decrypt_key: Seq<u8>) -> StreamState {
        StreamState {
            encrypt_key,
            decrypt_key,
            write_counter: 0,
            read_counter: 0,
            received: seq![],
            unread: seq![],
            refused: false,
        }
    }

    /// What holds of the state of every stream: a frame that has been refused
    /// is one that cannot be read.
    pub open spec fn valid(self) -> bool {
        self.refused ==> match parse_frame(self.received) {
            ParsedFrame::Incomplete => false,
            ParsedFrame::TooLarge(_) => true,
            ParsedFrame::Complete(sealed, _) => frame_plaintext(
                self.decrypt_key,
                self.read_counter,
                sealed,
            ) is None,
        }
    }

    /// The connection has to be asked for a read: nothing decrypted is left, and
    /// no whole frame is there but one that has been refused.
    pub open spec fn asks(self) -> bool {
        self.unread.len() == 0 && (self.refused || parse_frame(self.received) is Incomplete)
    }

    /// Takes up to `room` bytes of decrypted data.
    pub open spec fn buffered_read(self, room: nat) -> (StreamState, Seq<u8>) {
        (StreamState { unread: beyond(self.unread, room), ..self }, clipped(self.unread, room))
    }

    /// Takes the next frame off what was received, where nothing decrypted is
    /// left, and hands out up to `room` bytes of it. A frame that cannot be read
    /// stays and is refused once.
    pub open spec fn held_read(self, room: nat) -> (StreamState, ReadStep) {
        if self.refused {
            (self, ReadStep::Incomplete)
        } else {
            match parse_frame(self.received) {
                ParsedFrame::Incomplete => (self, ReadStep::Incomplete),
                ParsedFrame::TooLarge(len) => (
                    StreamState { refused: true, ..self },
                    ReadStep::TooLarge(len),
                ),
                ParsedFrame::Complete(sealed, rest) => match frame_plaintext(
                    self.decrypt_key,
                    self.read_counter,
                    sealed,
                ) {
                    None => (StreamState { refused: true, ..self }, ReadStep::Refused),
                    Some(plaintext) => (
                        StreamState {
                            read_counter: self.read_counter + 1,
                            received: rest,
                            unread: beyond(plaintext, room),
                            ..self
                        },
                        ReadStep::Data(clipped(plaintext, room)),
                    ),
                },
            }
        }
    }

    /// Reads without the connection: decrypted data first, then a frame that is
    /// there already.
    pub open spec fn ready_read(self, room: nat) -> (StreamState, ReadStep) {
        if self.unread.len() > 0 {
            let (state, data) = self.buffered_read(room);
            (state, ReadStep::Data(data))
        } else {
            self.held_read(room)
        }
    }

    /// Takes in a chunk read from the connection, empty at its end, where
    /// nothing decrypted is left, and hands out up to `room` bytes of the next
    /// frame. With every chunk that comes behind it, a frame that cannot be read
    /// is refused again. The stream is at its end only where no whole frame is
    /// left but one that has been refused.
    pub open spec fn received_read(self, chunk: Seq<u8>, room: nat) -> (StreamState, ReadStep) {
        let (state, step) = StreamState {
            received: self.received + chunk,
            refused: self.refused && chunk.len() == 0,
            ..self
        }.held_read(room);
        if step is Incomplete && chunk.len() == 0 {
            (state, ReadStep::EndOfStream)
        } else {
            (state, step)
        }
    }

    /// One read: what is ready, or else what the connection gives when it is
    /// asked.
    pub open spec fn poll_read(self, poll: Poll) -> (StreamState, ReadStep) {
        if self.asks() {
            self.received_read(poll.chunk, poll.room)
        } else {
            self.ready_read(poll.room)
        }
    }

    /// The state after the frame built last went out, whole or not.
    pub open spec fn wrote(self, whole: bool) -> StreamState {
        if whole {
            StreamState { write_counter: self.write_counter + 1, ..self }
        } else {
            self
        }
    }

    /// The stream builds this frame from the head of a buffer: it carries as
    /// much of it as one frame can, sealed under the next sequence number, and
    /// is genuine.
    pub open spec fn builds(self, buf: Seq<u8>, frame: SentFrame) -> bool {
        &&& frame.plaintext == buf.take(write_size(buf.len()) as int)
        &&& frame.sealed == gcm_sealed(
            self.encrypt_key,
            nonce_bytes(self.write_counter),
            frame.plaintext,
        )
        &&& frame.sealed.len() == frame.plaintext.len() + TAG_SIZE
        &&& genuine(self.encrypt_key, self.write_counter, seq![frame])
    }
}

/// One read of a stream: what the connection has to give, and how much the
/// reader has room for.
pub struct Poll {
    /// The bytes that the connection gives if it is asked.
    pub chunk: Seq<u8>,
    /// How much the reader has room for.
    pub room: nat,
}

/// How much of a buffer of the given size the next outgoing frame carries.
pub open spec fn write_size(len: nat) -> nat {
    if len < MAX_FRAME_SIZE - TAG_SIZE {
        len
    } else {
        (MAX_FRAME_SIZE - TAG_SIZE) as nat
    }
}

/// A frame that a peer sent.
pub struct SentFrame {
    /// The plaintext it carries.
    pub plaintext: Seq<u8>,
    /// The encrypted payload with its tag.
    pub sealed: Seq<u8>,
}

/// The frames are genuine: numbered from `counter`, each decrypts under `key`
/// to the plaintext it carries, and none is larger than allowed.
pub open spec fn genuine(key: Seq<u8>, counter: nat, frames: Seq<SentFrame>) -> bool {
    forall|i: int|
        #![trigger frames[i]]
        0 <= i < frames.len() ==> {
            &&& frames[i].sealed.len() <= MAX_FRAME_SIZE
            &&& frame_plaintext(key, (counter + i) as nat, frames[i].sealed) == Some(
                frames[i].plaintext,
            )
        }
}

/// What came of handing a chunk to a stream.
#[derive(Debug)]
pub enum ReadOutcome {
    /// The connection is at its end, and all data is handed out.
    EndOfStream,
    /// No whole frame has come in yet: read again.
    Incomplete,
    /// Decrypted data.
    Data(Vec<u8>),
}

/// A frame ready to be written to the connection.
#[derive(Debug)]
pub struct OutgoingFrame {
    /// The bytes to write: length prefix and encrypted payload.
    pub bytes: Vec<u8>,
    /// How much plaintext the frame carries.
    pub plaintext_len: usize,
}

/// An ALTS-encrypted transport stream that wraps a raw connection.
///
/// Transparently encrypts and decrypts ALTS frames between the caller and the
/// connection: what the peer wrote is read, and the end of the stream comes
/// behind all of it.
pub struct AltsStream<S> {
    inner: S,
    /// Key used for encrypting outgoing frames (client key).
    encrypt_key: Vec<u8>,
    /// Key used for decrypting incoming frames (server key).
    decrypt_key: Vec<u8>,
    /// Sequence number for outgoing frames.
    write_counter: u64,
    /// Sequence number for incoming frames.
    read_counter: u64,
    /// Buffer for decrypted data that hasn't been consumed yet.
    read_buf: Vec<u8>,
    /// Current read position in read_buf.
    read_pos: usize,
    /// Buffer for accumulating incoming frame data.
    frame_buf: Vec<u8>,
    /// Expected total size of the current incoming frame (including length prefix).
    frame_expected: Option<usize>,
    /// The frame at the head of frame_buf has been refused.
    refused: bool,
}

impl<S> View for AltsStream<S> {
    type V = StreamState;

    closed spec fn view(&self) -> StreamState {
        StreamState {
            encrypt_key: self.encrypt_key@,
            decrypt_key: self.decrypt_key@,
            write_counter: self.write_counter as nat,
            read_counter: self.read_counter as nat,
            received: self.frame_buf@,
            unread: self.read_buf@.skip(self.read_pos as int),
            refused: self.refused,
        }
    }
}

impl<S> AltsStream<S> {
    /// The connection.
    pub closed spec fn connection(&self) -> S {
        self.inner
    }

    /// The buffers agree with each other: the read position lies in the
    /// buffer, which is empty once it is used up; an expected size is that of
    /// the frame at the head of what was received; and the state is valid.
    pub closed spec fn wf(&self) -> bool {
        &&& self@.valid()
        &&& self.read_pos < self.read_buf@.len() || (self.read_pos == 0 && self.read_buf@.len() == 0)
        &&& self.frame_expected matches Some(expected) ==> {
            &&& self.frame_buf@.len() >= FRAME_LENGTH_SIZE
            &&& expected == FRAME_LENGTH_SIZE + le_value(
                self.frame_buf@.take(FRAME_LENGTH_SIZE as int),
            )
            &&& expected <= FRAME_LENGTH_SIZE + MAX_FRAME_SIZE
        }
    }

    /// Creates a new ALTS-encrypted stream.
    ///
    /// `encrypt_key` and `decrypt_key` should be derived from the ALTS
    /// handshake result via [`crate::alts::frame::derive_keys`].
    pub fn new(inner: S, encrypt_key: Vec<u8>, decrypt_key: Vec<u8>) -> (stream: Self)
        ensures
            stream.wf(),
            stream.connection() == inner,
            stream@ == StreamState::fresh(encrypt_key@, decrypt_key@),
            stream@.encrypt_key == encrypt_key@ && stream@.decrypt_key == decrypt_key@,
            stream@.write_counter == 0 && stream@.read_counter == 0,
            stream@.received.len() == 0 && stream@.unread.len() == 0 && !stream@.refused,
    {
        AltsStream::with_received(inner, encrypt_key, decrypt_key, Vec::new())
    }

    /// Creates a new ALTS-encrypted stream whose first bytes came in already,
    /// with the end of the handshake.
    pub fn with_received(
        inner: S,
        encrypt_key: Vec<u8>,
        decrypt_key: Vec<u8>,
        received: Vec<u8>,
    ) -> (stream: Self)
        ensures
            stream.wf(),
            stream.connection() == inner,
            stream@ == (StreamState {
                received: received@,
                ..StreamState::fresh(encrypt_key@, decrypt_key@)
            }),
    {
        let stream = AltsStream {
            inner,
            encrypt_key,
            decrypt_key,
            write_counter: 0,
            read_counter: 0,
            read_buf: Vec::new(),
            read_pos: 0,
            frame_buf: received,
            frame_expected: None,
            refused: false,
        };
        assert(stream@.unread =~= seq![]);
        stream
    }

    /// The connection, to read from and write to.
    pub fn inner_mut(&mut self) -> (inner: &mut S)
        requires
            old(self).wf(),
        ensures
            *inner == old(self).connection(),
            final(self).wf(),
            final(self)@ == old(self)@,
            final(self).connection() == *final(inner),
    {
        &mut self.inner
    }

    /// Sequence number of the next outgoing frame.
    pub fn write_counter(&self) -> (counter: u64)
        ensures
            counter == self@.write_counter,
    {
        self.write_counter
    }

    /// Sequence number of the next incoming frame.
    pub fn read_counter(&self) -> (counter: u64)
        ensures
            counter == self@.read_counter,
    {
        self.read_counter
    }

    /// Takes up to `room` bytes of data that is already decrypted, or nothing
    /// where none is left.
    pub fn read_buffered(&mut self, room: usize) -> (data: Option<Vec<u8>>)
        requires
            old(self).wf(),
        ensures
            final(self).wf(),
            final(self).connection() == old(self).connection(),
            data is Some <==> old(self)@.unread.len() > 0,
            final(self)@ == old(self)@.buffered_read(room as nat).0,
            data matches Some(d) ==> d@ == old(self)@.buffered_read(room as nat).1,
            data matches Some(d) ==> {
                &&& d@.len() == vstd::math::min(room as int, old(self)@.unread.len() as int)
                &&& d@ == old(self)@.unread.take(d@.len() as int)
                &&& final(self)@.unread == old(self)@.unread.skip(d@.len() as int)
            },
    {
        if self.read_pos < self.read_buf.len() {
            let available = self.read_buf.len() - self.read_pos;
            let to_copy = if available < room {
                available
            } else {
                room
            };
            let data = slice_to_vec(
                slice_subrange(self.read_buf.as_slice(), self.read_pos, self.read_pos + to_copy),
            );
            self.read_pos = self.read_pos + to_copy;
            if self.read_pos == self.read_buf.len() {
                self.read_buf.clear();
                self.read_pos = 0;
            }
            assert(data@ =~= clipped(old(self)@.unread, room as nat));
            assert(self@.unread =~= beyond(old(self)@.unread, room as nat));
            Some(data)
        } else {
            assert(self@.unread =~= beyond(old(self)@.unread, room as nat));
            None
        }
    }

    /// Hands out up to `room` bytes of the next frame where a whole one has come
    /// in already, or nothing where more has to be read for it.
    ///
    /// To be called where [`AltsStream::read_buffered`] had nothing, before the
    /// connection is asked for more. What does not fit into `room` is kept for
    /// the next read. A frame that cannot be read is an error once; after that
    /// there is nothing here, and the connection tells how it goes on: the error
    /// comes again with more bytes, and the end of the stream without.
    pub fn read_held(&mut self, room: usize) -> (r: Result<Option<Vec<u8>>, FrameError>)
        requires
            old(self).wf(),
            old(self)@.unread.len() == 0,
            old(self)@.read_counter < u64::MAX,
        ensures
            final(self).wf(),
            final(self).connection() == old(self).connection(),
            final(self)@ == old(self)@.held_read(room as nat).0,
            match old(self)@.held_read(room as nat).1 {
                ReadStep::EndOfStream => false,
                ReadStep::Incomplete => r matches Ok(None),
                ReadStep::Data(data) => r matches Ok(Some(d)) && d@ == data,
                ReadStep::TooLarge(len) => r matches Err(FrameError::FrameTooLarge(n)) && n == len,
                ReadStep::Refused => r matches Err(e) && if old(self)@.decrypt_key.len()
                    != KEY_SIZE {
                    e.is_bad_key()
                } else {
                    e is DecryptionFailed
                },
            },
            r matches Ok(Some(d)) ==> d@.len() <= room && (final(self)@.unread.len() > 0 ==> d@.len()
                == room),
    {
        let ghost bytes = self.frame_buf@;
        if self.refused {
            return Ok(None);
        }
        if self.frame_expected.is_none() && self.frame_buf.len() >= FRAME_LENGTH_SIZE {
            let prefix = slice_subrange(self.frame_buf.as_slice(), 0, FRAME_LENGTH_SIZE);
            assert(prefix@ =~= bytes.take(FRAME_LENGTH_SIZE as int));
            let frame_len = u32_from_le(prefix) as usize;
            if frame_len > MAX_FRAME_SIZE {
                self.refused = true;
                return Err(FrameError::FrameTooLarge(frame_len));
            }
            self.frame_expected = Some(FRAME_LENGTH_SIZE + frame_len);
        }
        if let Some(expected) = self.frame_expected {
            if self.frame_buf.len() >= expected {
                let ciphertext = slice_subrange(
                    self.frame_buf.as_slice(),
                    FRAME_LENGTH_SIZE,
                    expected,
                );
                let plaintext = match decrypt_frame(
                    self.decrypt_key.as_slice(),
                    self.read_counter,
                    ciphertext,
                ) {
                    Ok(plaintext) => plaintext,
                    Err(e) => {
                        self.refused = true;
                        return Err(e);
                    },
                };
                let ghost whole = plaintext@;
                self.read_counter = self.read_counter + 1;
                self.frame_buf = self.frame_buf.split_off(expected);
                self.frame_expected = None;
                assert(self.frame_buf@ =~= bytes.skip(expected as int));

                if room < plaintext.len() {
                    let data = slice_to_vec(slice_subrange(plaintext.as_slice(), 0, room));
                    assert(data@ =~= clipped(whole, room as nat));
                    self.read_buf = plaintext;
                    self.read_pos = room;
                    return Ok(Some(data));
                }
                assert(self@.unread =~= beyond(whole, room as nat));
                return Ok(Some(plaintext));
            }
        }
        Ok(None)
    }

    /// Hands out up to `room` bytes of what is ready: data that is decrypted
    /// already, or else the next frame where a whole one has come in. Where it
    /// has nothing, the connection has to be asked.
    pub fn read_ready(&mut self, room: usize) -> (r: Result<Option<Vec<u8>>, FrameError>)
        requires
            old(self).wf(),
            old(self)@.read_counter < u64::MAX,
        ensures
            final(self).wf(),
            final(self).connection() == old(self).connection(),
            r matches Ok(None) <==> old(self)@.asks(),
            old(self)@.asks() ==> final(self)@ == old(self)@,
            !old(self)@.asks() ==> {
                let (state, step) = old(self)@.ready_read(room as nat);
                &&& final(self)@ == state
                &&& match step {
                    ReadStep::EndOfStream | ReadStep::Incomplete => false,
                    ReadStep::Data(data) => r matches Ok(Some(d)) && d@ == data,
                    ReadStep::TooLarge(len) => r matches Err(FrameError::FrameTooLarge(n)) && n
                        == len,
                    ReadStep::Refused => r matches Err(e) && if old(self)@.decrypt_key.len()
                        != KEY_SIZE {
                        e.is_bad_key()
                    } else {
                        e is DecryptionFailed
                    },
                }
            },
            r matches Ok(Some(d)) ==> d@.len() <= room && (final(self)@.unread.len() > 0 ==> d@.len()
                == room),
    {
        if let Some(data) = self.read_buffered(room) {
            return Ok(Some(data));
        }
        assert(self@.unread =~= old(self)@.unread);
        self.read_held(room)
    }

    /// Takes in a chunk read from the connection, empty at its end, and hands
    /// out up to `room` bytes of the next frame where it is complete.
    ///
    /// To be called where [`AltsStream::read_ready`] had nothing. What does
    /// not fit into `room` is kept for the next read.
    pub fn read_received(&mut self, chunk: &[u8], room: usize) -> (r: Result<
        ReadOutcome,
        FrameError,
    >)
        requires
            old(self).wf(),
            old(self)@.unread.len() == 0,
            old(self)@.read_counter < u64::MAX,
        ensures
            final(self).wf(),
            final(self).connection() == old(self).connection(),
            final(self)@ == old(self)@.received_read(chunk@, room as nat).0,
            match old(self)@.received_read(chunk@, room as nat).1 {
                ReadStep::EndOfStream => r matches Ok(ReadOutcome::EndOfStream),
                ReadStep::Incomplete => r matches Ok(ReadOutcome::Incomplete),
                ReadStep::Data(data) => r matches Ok(ReadOutcome::Data(d)) && d@ == data,
                ReadStep::TooLarge(len) => r matches Err(FrameError::FrameTooLarge(n)) && n == len,
                ReadStep::Refused => r matches Err(e) && if old(self)@.decrypt_key.len()
                    != KEY_SIZE {
                    e.is_bad_key()
                } else {
                    e is DecryptionFailed
                },
            },
            r matches Ok(ReadOutcome::Data(d)) ==> d@.len() <= room && (final(self)@.unread.len() > 0
                ==> d@.len() == room),
    {
        self.frame_buf.extend_from_slice(chunk);
        if chunk.len() > 0 {
            self.refused = false;
        }
        proof {
            assert(self.frame_buf@ =~= old(self)@.received + chunk@);
            assert(old(self).frame_expected is Some ==> self.frame_buf@.take(
                FRAME_LENGTH_SIZE as int,
            ) =~= old(self).frame_buf@.take(FRAME_LENGTH_SIZE as int));
        }
        match self.read_held(room) {
            Err(e) => Err(e),
            Ok(Some(data)) => Ok(ReadOutcome::Data(data)),
            Ok(None) => {
                if chunk.len() == 0 {
                    Ok(ReadOutcome::EndOfStream)
                } else {
                    Ok(ReadOutcome::Incomplete)
                }
            },
        }
    }

    /// Builds the next outgoing frame from the head of `buf`: as much of it as
    /// one frame can carry.
    ///
    /// The stream stays as it is until [`AltsStream::finish_write`].
    pub fn start_write(&self, buf: &[u8]) -> (r: Result<OutgoingFrame, FrameError>)
        ensures
            r is Ok <==> self@.encrypt_key.len() == KEY_SIZE,
            r matches Ok(frame) ==> {
                let plaintext = buf@.take(write_size(buf@.len()) as int);
                let sealed = gcm_sealed(
                    self@.encrypt_key,
                    nonce_bytes(self@.write_counter),
                    plaintext,
                );
                &&& frame.plaintext_len == plaintext.len()
                &&& frame.bytes@ == wire_frame(sealed)
                &&& self@.builds(buf@, SentFrame { plaintext, sealed })
                &&& frame.plaintext_len == vstd::math::min(buf@.len() as int, 1_048_560)
                &&& frame.bytes@.len() == frame.plaintext_len + 20
                &&& frame.bytes@.skip(4) == gcm_sealed(
                    self@.encrypt_key,
                    nonce_bytes(self@.write_counter),
                    buf@.take(frame.plaintext_len as int),
                )
            },
            r matches Err(e) ==> e.is_bad_key(),
    {
        let limit: usize = MAX_FRAME_SIZE - TAG_SIZE;
        let plaintext_len = if buf.len() < limit {
            buf.len()
        } else {
            limit
        };
        let plaintext = slice_subrange(buf, 0, plaintext_len);
        assert(plaintext@ =~= buf@.take(write_size(buf@.len()) as int));
        let encrypted = match encrypt_frame(
            self.encrypt_key.as_slice(),
            self.write_counter,
            plaintext,
        ) {
            Ok(encrypted) => encrypted,
            Err(e) => return Err(e),
        };
        let mut bytes = to_le_bytes(encrypted.len() as u64, FRAME_LENGTH_SIZE);
        let ghost prefix = bytes@;
        bytes.extend_from_slice(encrypted.as_slice());
        assert(bytes@ =~= prefix + encrypted@);
        assert(bytes@.skip(4) =~= encrypted@);
        Ok(OutgoingFrame { bytes, plaintext_len })
    }

    /// Records that `written` bytes of a frame went out: the whole frame moves
    /// the stream on, anything less is an error.
    pub fn finish_write(&mut self, frame: &OutgoingFrame, written: usize) -> (r: Result<
        usize,
        FrameError,
    >)
        requires
            old(self).wf(),
            old(self)@.write_counter < u64::MAX,
        ensures
            final(self).wf(),
            final(self).connection() == old(self).connection(),
            final(self)@ == old(self)@.wrote(written == frame.bytes@.len()),
            final(self)@ == (StreamState {
                write_counter: old(self)@.write_counter + if written == frame.bytes@.len() {
                    1int
                } else {
                    0
                } as nat,
                ..old(self)@
            }),
            if written == frame.bytes@.len() {
                r matches Ok(n) && n == frame.plaintext_len
            } else {
                r matches Err(FrameError::PartialWrite)
            },
    {
        if written == frame.bytes.len() {
            self.write_counter = self.write_counter + 1;
            Ok(frame.plaintext_len)
        } else {
            Err(FrameError::PartialWrite)
        }
    }
}

/// The state of every stream is valid.
pub proof fn streams_are_valid<S>(stream: AltsStream<S>)
    requires
        stream.wf(),
    ensures
        stream@.valid(),
{
}

} // verus!

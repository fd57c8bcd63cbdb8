//! What each step of the record protocol does, byte for byte.

use crate::alts::cipher::gcm_opened;
use crate::alts::cipher::gcm_sealed;
use crate::alts::cipher::KEY_SIZE;
use crate::alts::cipher::MAX_MESSAGE_SIZE;
use crate::alts::cipher::NONCE_SIZE;
use crate::alts::cipher::TAG_SIZE;
use crate::alts::frame::frame_plaintext;
use crate::alts::frame::nonce_bytes;
use crate::alts::frame::wire_frame;
use crate::alts::frame::FrameError;
use crate::alts::frame::FRAME_LENGTH_SIZE;
use crate::alts::frame::MAX_FRAME_SIZE;
use crate::alts::laws::sent;
use crate::alts::laws::wire;
use crate::alts::stream::genuine;
use crate::alts::stream::parse_frame;
use crate::alts::stream::write_size;
use crate::alts::stream::ParsedFrame;
use crate::alts::stream::Poll;
use crate::alts::stream::ReadStep;
use crate::alts::stream::SentFrame;
use crate::alts::stream::StreamState;
use crate::alts::stream::READ_CHUNK_SIZE;
use crate::bytes::byte_capacity;
use crate::bytes::four_bytes_weigh;
use crate::bytes::le_bytes;
use crate::bytes::lemma_le_bytes_len;
use crate::bytes::lemma_le_round_trip;
use vstd::math::min;
use vstd::prelude::*;

verus! {

/// The sizes of the record protocol, in bytes.
pub proof fn record_sizes()
    ensures
        KEY_SIZE == 16,
        NONCE_SIZE == 12,
        TAG_SIZE == 16,
        FRAME_LENGTH_SIZE == 4,
        MAX_FRAME_SIZE == 1_048_576,
        MAX_MESSAGE_SIZE == 0x10_0000_0000 - 32,
        READ_CHUNK_SIZE == 8192,
{
}

/// What a rejected key and a failed encryption are reported as.
pub proof fn cipher_errors_have_texts(e: FrameError)
    ensures
        e.is_bad_key() <==> (e matches FrameError::BadKey(t) && t@ == "Unspecified"@),
        e.is_encryption_failed() <==> (e matches FrameError::EncryptionFailed(t) && t@
            == "Unspecified"@),
{
}

/// A frame as it travels: four bytes that weigh up to its length, then the
/// frame itself.
pub proof fn wire_frame_tells_length(sealed: Seq<u8>)
    requires
        sealed.len() <= u32::MAX,
    ensures
        ({
            let bytes = wire_frame(sealed);
            &&& bytes.len() == 4 + sealed.len()
            &&& bytes.skip(4) == sealed
            &&& sealed.len() == bytes[0] + 0x100 * bytes[1] + 0x1_0000 * bytes[2] + 0x100_0000
                * bytes[3]
        }),
{
    let prefix = le_bytes(sealed.len(), 4);
    reveal_with_fuel(byte_capacity, 5);
    lemma_le_bytes_len(sealed.len(), 4);
    lemma_le_round_trip(sealed.len(), 4);
    four_bytes_weigh(prefix);
    let bytes = wire_frame(sealed);
    assert(bytes.skip(4) =~= sealed);
    assert(bytes[0] == prefix[0] && bytes[1] == prefix[1] && bytes[2] == prefix[2] && bytes[3]
        == prefix[3]);
}

/// Frames travel one behind the other, in order.
pub proof fn wire_appends(frames: Seq<SentFrame>, next: SentFrame)
    ensures
        wire(Seq::<SentFrame>::empty()) == Seq::<u8>::empty(),
        wire(frames.push(next)) == wire(frames) + wire_frame(next.sealed),
    decreases frames.len(),
{
    let all = frames.push(next);
    if frames.len() == 0 {
        assert(all.drop_first() =~= seq![]);
        assert(wire(all.drop_first()) =~= seq![]);
        assert(wire(frames) =~= seq![]);
        assert(wire(all) =~= wire(frames) + wire_frame(next.sealed));
    } else {
        wire_appends(frames.drop_first(), next);
        assert(all.drop_first() =~= frames.drop_first().push(next));
        assert(wire(all) =~= wire(frames) + wire_frame(next.sealed));
    }
}

/// What the first four bytes of a buffer weigh decides on the frame at its
/// head: more than a mebibyte is too large; otherwise as many bytes behind
/// those four are the frame, and the rest follows it, where so many are there.
pub proof fn frame_is_found_by_length(bytes: Seq<u8>)
    ensures
        bytes.len() < 4 ==> parse_frame(bytes) is Incomplete,
        bytes.len() >= 4 ==> {
            let len: int = bytes[0] + 0x100 * bytes[1] + 0x1_0000 * bytes[2] + 0x100_0000
                * bytes[3];
            if len > 1_048_576 {
                parse_frame(bytes) matches ParsedFrame::TooLarge(n) && n == len
            } else if bytes.len() < 4 + len {
                parse_frame(bytes) is Incomplete
            } else {
                parse_frame(bytes) matches ParsedFrame::Complete(sealed, rest) && sealed.len()
                    == len && sealed == bytes.subrange(4, 4 + len) && rest == bytes.skip(4 + len)
            }
        },
{
    if bytes.len() >= 4 {
        four_bytes_weigh(bytes.take(4));
    }
}

/// What a stream is made of at its start.
pub proof fn stream_starts_fresh(encrypt_key: Seq<u8>, decrypt_key: Seq<u8>)
    ensures
        ({
            let state = StreamState::fresh(encrypt_key, decrypt_key);
            &&& state.encrypt_key == encrypt_key
            &&& state.decrypt_key == decrypt_key
            &&& state.write_counter == 0
            &&& state.read_counter == 0
            &&& state.received.len() == 0
            &&& state.unread.len() == 0
            &&& !state.refused
        }),
{
}

/// A read of decrypted data hands out its head, as much as there is room for
/// and no more, keeps the rest for later, and changes nothing else.
pub proof fn buffered_data_is_handed_out(state: StreamState, room: nat)
    ensures
        ({
            let (after, data) = state.buffered_read(room);
            &&& data.len() == min(room as int, state.unread.len() as int)
            &&& data == state.unread.take(data.len() as int)
            &&& after.unread == state.unread.skip(data.len() as int)
            &&& after == (StreamState { unread: after.unread, ..state })
        }),
{
    let (after, data) = state.buffered_read(room);
    assert(data =~= state.unread.take(data.len() as int));
}

/// A read of a frame that is at hand, in full.
///
/// Where no whole frame is there, or the one at the head has been refused,
/// there is nothing to read and nothing changes. A frame that is too large or
/// that the cipher does not open is refused and stays. A frame that opens under
/// the key and the next sequence number is taken off: its head is handed out, as
/// much as there is room for and no more, the rest is kept, and the sequence
/// number moves on by one.
pub proof fn held_frame_is_read(state: StreamState, room: nat)
    ensures
        ({
            let (after, step) = state.held_read(room);
            let b = state.received;
            let len: int = b[0] + 0x100 * b[1] + 0x1_0000 * b[2] + 0x100_0000 * b[3];
            if state.refused || b.len() < 4 || (len <= 1_048_576 && b.len() < 4 + len) {
                step is Incomplete && after == state
            } else if len > 1_048_576 {
                &&& step matches ReadStep::TooLarge(n) && n == len
                &&& after == (StreamState { refused: true, ..state })
            } else {
                let opened = gcm_opened(
                    state.decrypt_key,
                    nonce_bytes(state.read_counter),
                    b.subrange(4, 4 + len),
                );
                if state.decrypt_key.len() != 16 || opened is None {
                    step is Refused && after == (StreamState { refused: true, ..state })
                } else {
                    let plaintext = opened->0;
                    let n = min(room as int, plaintext.len() as int);
                    &&& step matches ReadStep::Data(data) && data == plaintext.take(n)
                    &&& after == (StreamState {
                        read_counter: state.read_counter + 1,
                        received: b.skip(4 + len),
                        unread: plaintext.skip(n),
                        ..state
                    })
                }
            }
        }),
{
    let b = state.received;
    frame_is_found_by_length(b);
    let (after, step) = state.held_read(room);
    if let ReadStep::Data(data) = step {
        let plaintext = frame_plaintext(
            state.decrypt_key,
            state.read_counter,
            parse_frame(b)->Complete_0,
        )->0;
        let n = min(room as int, plaintext.len() as int);
        assert(data =~= plaintext.take(n));
        assert(after.unread =~= plaintext.skip(n));
    }
}

/// A read of what the connection gave: it is put behind what was received, and
/// the frame at the head is read as one at hand, be it refused before or not.
/// Where the connection gave nothing, that is the end of the stream unless a
/// frame is at hand that has not been refused.
pub proof fn received_bytes_are_read(state: StreamState, chunk: Seq<u8>, room: nat)
    ensures
        chunk.len() > 0 ==> state.received_read(chunk, room) == (StreamState {
            received: state.received + chunk,
            refused: false,
            ..state
        }).held_read(room),
        chunk.len() == 0 ==> {
            let (held, held_step) = state.held_read(room);
            let (after, step) = state.received_read(chunk, room);
            &&& after == held
            &&& if held_step is Incomplete {
                step is EndOfStream
            } else {
                step == held_step
            }
        },
{
    if chunk.len() == 0 {
        assert(state.received + chunk =~= state.received);
    }
}

/// The order of a read: decrypted data first; then a frame at hand; and only
/// where there is neither, what the connection gives.
pub proof fn reads_go_in_order(state: StreamState, poll: Poll)
    ensures
        state.unread.len() > 0 ==> {
            let (after, step) = state.poll_read(poll);
            &&& after == state.buffered_read(poll.room).0
            &&& step == ReadStep::Data(state.buffered_read(poll.room).1)
        },
        state.unread.len() == 0 && !(state.held_read(poll.room).1 is Incomplete)
            ==> state.poll_read(poll) == state.held_read(poll.room),
        state.unread.len() == 0 && state.held_read(poll.room).1 is Incomplete ==> state.poll_read(
            poll,
        ) == state.received_read(poll.chunk, poll.room),
        state.asks() <==> state.unread.len() == 0 && state.held_read(poll.room).1 is Incomplete,
        !state.asks() ==> state.ready_read(poll.room) == state.poll_read(poll),
        state.taken(poll) == (if state.unread.len() == 0 && state.held_read(
            poll.room,
        ).1 is Incomplete {
            poll.chunk
        } else {
            Seq::<u8>::empty()
        }),
{
}

/// No read hands out more than the reader has room for, and none hands out less
/// than it could: where something of a frame is kept back, the room is used up.
pub proof fn reads_fill_the_room(state: StreamState, poll: Poll)
    ensures
        ({
            let (after, step) = state.poll_read(poll);
            step matches ReadStep::Data(data) ==> {
                &&& data.len() <= poll.room
                &&& data.len() == min(poll.room as int, (data + after.unread).len() as int)
                &&& after.unread.len() > 0 ==> data.len() == poll.room
                &&& state.unread.len() > 0 ==> data.len() == min(
                    poll.room as int,
                    state.unread.len() as int,
                ) && data + after.unread == state.unread
            }
        }),
{
    let (after, step) = state.poll_read(poll);
    reads_go_in_order(state, poll);
    buffered_data_is_handed_out(state, poll.room);
    held_frame_is_read(state, poll.room);
    received_bytes_are_read(state, poll.chunk, poll.room);
    held_frame_is_read(
        StreamState { received: state.received + poll.chunk, refused: false, ..state },
        poll.room,
    );
    if state.unread.len() > 0 {
        let data = state.buffered_read(poll.room).1;
        assert(data + after.unread =~= state.unread);
    }
}

/// A write takes the whole buffer, or as much of it as fits into a frame of a
/// mebibyte beside the tag.
pub proof fn write_takes_what_fits(len: nat)
    ensures
        write_size(len) == min(len as int, 1_048_560),
{
}

/// What a frame that a stream builds is: the head of the buffer, sealed under
/// the key of the stream and the nonce of its next frame, so that it opens to
/// what it carries.
pub proof fn built_frame_carries_head(state: StreamState, buf: Seq<u8>, frame: SentFrame)
    requires
        state.builds(buf, frame),
    ensures
        frame.plaintext == buf.take(min(buf.len() as int, 1_048_560)),
        frame.sealed == gcm_sealed(
            state.encrypt_key,
            nonce_bytes(state.write_counter),
            frame.plaintext,
        ),
        frame.sealed.len() == frame.plaintext.len() + 16,
        state.encrypt_key.len() == 16,
        gcm_opened(state.encrypt_key, nonce_bytes(state.write_counter), frame.sealed) == Some(
            frame.plaintext,
        ),
{
    assert(seq![frame][0] == frame);
}

/// A frame that goes out whole moves the sequence number on by one; one that
/// does not changes nothing.
pub proof fn whole_frames_are_counted(state: StreamState, whole: bool)
    ensures
        state.wrote(whole) == (StreamState {
            write_counter: state.write_counter + if whole {
                1int
            } else {
                0
            } as nat,
            ..state
        }),
{
}

/// Frames are genuine where each fits into a mebibyte and opens under the key
/// and its number to what it carries.
pub proof fn genuine_frames_open(key: Seq<u8>, counter: nat, frames: Seq<SentFrame>)
    ensures
        genuine(key, counter, frames) <==> forall|i: int|
            0 <= i < frames.len() ==> {
                &&& (#[trigger] frames[i]).sealed.len() <= 1_048_576
                &&& key.len() == 16
                &&& gcm_opened(key, nonce_bytes((counter + i) as nat), frames[i].sealed) == Some(
                    frames[i].plaintext,
                )
            },
{
    if genuine(key, counter, frames) {
        assert forall|i: int| 0 <= i < frames.len() implies {
            &&& (#[trigger] frames[i]).sealed.len() <= 1_048_576
            &&& key.len() == 16
            &&& gcm_opened(key, nonce_bytes((counter + i) as nat), frames[i].sealed) == Some(
                frames[i].plaintext,
            )
        } by {}
    }
}

/// Frames on the wire are those of each frame, one behind the other, and what
/// they carry is what each carries, one behind the other.
pub proof fn frames_are_joined(frames: Seq<SentFrame>)
    ensures
        wire(frames) == frames.map_values(|frame: SentFrame| wire_frame(frame.sealed)).flatten(),
        sent(frames) == frames.map_values(|frame: SentFrame| frame.plaintext).flatten(),
    decreases frames.len(),
{
    let wires = frames.map_values(|frame: SentFrame| wire_frame(frame.sealed));
    let plains = frames.map_values(|frame: SentFrame| frame.plaintext);
    if frames.len() > 0 {
        let rest = frames.drop_first();
        frames_are_joined(rest);
        assert(wires.drop_first() =~= rest.map_values(
            |frame: SentFrame| wire_frame(frame.sealed),
        ));
        assert(plains.drop_first() =~= rest.map_values(|frame: SentFrame| frame.plaintext));
    }
}

} // verus!

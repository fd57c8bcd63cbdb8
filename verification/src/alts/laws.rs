//! What holds of ALTS streams as a whole.

use crate::alts::cipher::TAG_SIZE;
use crate::alts::frame::frame_plaintext;
use crate::alts::frame::nonce_bytes;
use crate::alts::frame::wire_frame;
use crate::alts::frame::COUNTER_SIZE;
use crate::alts::frame::FRAME_LENGTH_SIZE;
use crate::alts::frame::MAX_FRAME_SIZE;
use crate::alts::frame::NONCE_PREFIX_SIZE;
use crate::alts::stream::beyond;
use crate::alts::stream::genuine;
use crate::alts::stream::clipped;
use crate::alts::stream::parse_frame;
use crate::alts::stream::ParsedFrame;
use crate::alts::stream::Poll;
use crate::alts::stream::ReadStep;
use crate::alts::stream::SentFrame;
use crate::alts::stream::write_size;
use crate::alts::stream::StreamState;
use crate::bytes::byte_capacity;
use crate::bytes::le_bytes;
use crate::bytes::le_value;
use crate::bytes::lemma_le_bytes_len;
use crate::bytes::lemma_le_round_trip;
use vstd::prelude::*;

verus! {

impl StreamState {
    /// The bytes that one read takes from the connection.
    pub open spec fn taken(self, poll: Poll) -> Seq<u8> {
        if self.asks() {
            poll.chunk
        } else {
            seq![]
        }
    }

    /// The plaintext that the stream still owes its reader once `more` bytes
    /// have come in behind those received so far.
    pub open spec fn owed(self, more: Seq<u8>) -> Seq<u8> {
        self.unread + plaintexts(self.decrypt_key, self.read_counter, self.received + more)
    }
}

/// The data that a read hands out.
pub open spec fn delivered(step: ReadStep) -> Seq<u8> {
    match step {
        ReadStep::Data(data) => data,
        _ => seq![],
    }
}

/// The read failed.
pub open spec fn failed(step: ReadStep) -> bool {
    step is TooLarge || step is Refused
}

/// The plaintext of the whole frames at the head of `bytes`, up to the first
/// that cannot be decrypted.
pub open spec fn plaintexts(key: Seq<u8>, counter: nat, bytes: Seq<u8>) -> Seq<u8>
    decreases bytes.len(),
{
    match parse_frame(bytes) {
        ParsedFrame::Complete(sealed, rest) => match frame_plaintext(key, counter, sealed) {
            Some(plaintext) => plaintext + plaintexts(key, counter + 1, rest),
            None => seq![],
        },
        _ => seq![],
    }
}

/// What a run of reads comes to.
pub struct ReadRun {
    /// The state of the stream after it.
    pub state: StreamState,
    /// The data that was handed out, in order.
    pub delivered: Seq<u8>,
    /// The bytes that were taken from the connection, in order.
    pub taken: Seq<u8>,
    /// Some read failed.
    pub failed: bool,
}

/// A run of reads, one after the other.
pub open spec fn read_run(start: StreamState, polls: Seq<Poll>) -> ReadRun
    decreases polls.len(),
{
    if polls.len() == 0 {
        ReadRun { state: start, delivered: seq![], taken: seq![], failed: false }
    } else {
        let before = read_run(start, polls.drop_last());
        let (state, step) = before.state.poll_read(polls.last());
        ReadRun {
            state,
            delivered: before.delivered + delivered(step),
            taken: before.taken + before.state.taken(polls.last()),
            failed: before.failed || failed(step),
        }
    }
}

/// The frames as they travel, one behind the other.
pub open spec fn wire(frames: Seq<SentFrame>) -> Seq<u8>
    decreases frames.len(),
{
    if frames.len() == 0 {
        seq![]
    } else {
        wire_frame(frames[0].sealed) + wire(frames.drop_first())
    }
}

/// The plaintext that the frames carry, in order.
pub open spec fn sent(frames: Seq<SentFrame>) -> Seq<u8>
    decreases frames.len(),
{
    if frames.len() == 0 {
        seq![]
    } else {
        frames[0].plaintext + sent(frames.drop_first())
    }
}

/// No two frames of a stream share a nonce: frames with different sequence
/// numbers have different nonces.
pub proof fn nonces_are_distinct(a: u64, b: u64)
    requires
        a != b,
    ensures
        nonce_bytes(a as nat) != nonce_bytes(b as nat),
{
    lemma_capacity();
    lemma_le_round_trip(a as nat, COUNTER_SIZE as nat);
    lemma_le_round_trip(b as nat, COUNTER_SIZE as nat);
    if nonce_bytes(a as nat) == nonce_bytes(b as nat) {
        assert(nonce_bytes(a as nat).skip(NONCE_PREFIX_SIZE as int) =~= le_bytes(
            a as nat,
            COUNTER_SIZE as nat,
        ));
        assert(nonce_bytes(b as nat).skip(NONCE_PREFIX_SIZE as int) =~= le_bytes(
            b as nat,
            COUNTER_SIZE as nat,
        ));
    }
}

/// What four and eight bytes can hold.
proof fn lemma_capacity()
    ensures
        byte_capacity(FRAME_LENGTH_SIZE as nat) == 0x1_0000_0000,
        byte_capacity(COUNTER_SIZE as nat) == 0x1_0000_0000_0000_0000,
{
    reveal_with_fuel(byte_capacity, 9);
}

/// A frame is read off the wire as it was put there, whatever follows it.
pub proof fn parse_inverts_wire_frame(sealed: Seq<u8>, rest: Seq<u8>)
    requires
        sealed.len() <= MAX_FRAME_SIZE,
    ensures
        parse_frame(wire_frame(sealed) + rest) == ParsedFrame::Complete(sealed, rest),
{
    lemma_capacity();
    lemma_le_bytes_len(sealed.len(), FRAME_LENGTH_SIZE as nat);
    lemma_le_round_trip(sealed.len(), FRAME_LENGTH_SIZE as nat);
    let bytes = wire_frame(sealed) + rest;
    let end = FRAME_LENGTH_SIZE + sealed.len();
    assert(bytes.take(FRAME_LENGTH_SIZE as int) =~= le_bytes(
        sealed.len(),
        FRAME_LENGTH_SIZE as nat,
    ));
    assert(bytes.subrange(FRAME_LENGTH_SIZE as int, end) =~= sealed);
    assert(bytes.skip(end) =~= rest);
}

/// What is found at the head of a buffer, other than too little, is found
/// there too when more bytes follow.
proof fn lemma_parse_more(bytes: Seq<u8>, more: Seq<u8>)
    ensures
        parse_frame(bytes) matches ParsedFrame::Complete(sealed, rest) ==> parse_frame(bytes + more)
            == ParsedFrame::Complete(sealed, rest + more),
        parse_frame(bytes) matches ParsedFrame::TooLarge(len) ==> parse_frame(bytes + more)
            == ParsedFrame::TooLarge(len),
{
    if bytes.len() >= FRAME_LENGTH_SIZE {
        let all = bytes + more;
        assert(all.take(FRAME_LENGTH_SIZE as int) =~= bytes.take(FRAME_LENGTH_SIZE as int));
        let end = FRAME_LENGTH_SIZE + le_value(bytes.take(FRAME_LENGTH_SIZE as int));
        if bytes.len() >= end {
            assert(all.subrange(FRAME_LENGTH_SIZE as int, end) =~= bytes.subrange(
                FRAME_LENGTH_SIZE as int,
                end,
            ));
            assert(all.skip(end) =~= bytes.skip(end) + more);
        }
    }
}

/// One read neither loses, adds nor reorders plaintext: what it hands out and
/// what the stream owes after it is what the stream owed before, whatever
/// bytes come in later.
pub proof fn read_keeps_plaintext(state: StreamState, poll: Poll, more: Seq<u8>)
    ensures
        ({
            let (after, step) = state.poll_read(poll);
            delivered(step) + after.owed(more) == state.owed(state.taken(poll) + more)
        }),
{
    let (after, step) = state.poll_read(poll);
    let bytes = state.received + state.taken(poll);
    let key = state.decrypt_key;
    assert(state.received + (state.taken(poll) + more) =~= bytes + more);
    if state.unread.len() > 0 {
        assert(bytes =~= state.received);
        assert(clipped(state.unread, poll.room) + beyond(state.unread, poll.room)
            =~= state.unread);
    } else {
        if !state.asks() {
            assert(bytes =~= state.received);
        }
        lemma_parse_more(bytes, more);
        if let ParsedFrame::Complete(sealed, rest) = parse_frame(bytes) {
            if let Some(plaintext) = frame_plaintext(key, state.read_counter, sealed) {
                assert(clipped(plaintext, poll.room) + beyond(plaintext, poll.room) =~= plaintext);
                assert(delivered(step) + after.owed(more) =~= plaintext + plaintexts(
                    key,
                    state.read_counter + 1,
                    rest + more,
                ));
            }
        }
    }
    assert(delivered(step) + after.owed(more) =~= state.owed(state.taken(poll) + more));
}

/// A run of reads neither loses, adds nor reorders plaintext, however the
/// bytes are cut into chunks and however little room the reader has.
pub proof fn reads_keep_plaintext(start: StreamState, polls: Seq<Poll>, more: Seq<u8>)
    ensures
        ({
            let run = read_run(start, polls);
            run.delivered + run.state.owed(more) == start.owed(run.taken + more)
        }),
    decreases polls.len(),
{
    let run = read_run(start, polls);
    if polls.len() == 0 {
        assert(run.taken + more =~= more);
        assert(run.delivered + run.state.owed(more) =~= start.owed(more));
    } else {
        let before = read_run(start, polls.drop_last());
        let last = polls.last();
        let taken = before.state.taken(last);
        reads_keep_plaintext(start, polls.drop_last(), taken + more);
        read_keeps_plaintext(before.state, last, more);
        let (after, step) = before.state.poll_read(last);
        assert(run.taken + more =~= before.taken + (taken + more));
        assert(run.delivered + after.owed(more) =~= before.delivered + (delivered(step)
            + after.owed(more)));
    }
}

/// One write to a stream.
pub struct Write {
    /// What there is to write.
    pub buf: Seq<u8>,
    /// The frame that the stream builds.
    pub frame: SentFrame,
    /// The connection took the whole frame.
    pub whole: bool,
}

/// What a run of writes comes to.
pub struct WriteRun {
    /// The state of the stream after it.
    pub state: StreamState,
    /// The frames that went out whole, in order.
    pub frames: Seq<SentFrame>,
}

/// A run of writes, one after the other.
pub open spec fn write_run(start: StreamState, writes: Seq<Write>) -> WriteRun
    decreases writes.len(),
{
    if writes.len() == 0 {
        WriteRun { state: start, frames: seq![] }
    } else {
        let before = write_run(start, writes.drop_last());
        let last = writes.last();
        WriteRun {
            state: before.state.wrote(last.whole),
            frames: if last.whole {
                before.frames.push(last.frame)
            } else {
                before.frames
            },
        }
    }
}

/// Each frame of a run of writes is one that the stream builds when its turn
/// comes.
pub open spec fn are_writes(start: StreamState, writes: Seq<Write>) -> bool
    decreases writes.len(),
{
    writes.len() > 0 ==> {
        let last = writes.last();
        &&& are_writes(start, writes.drop_last())
        &&& write_run(start, writes.drop_last()).state.builds(last.buf, last.frame)
    }
}

/// The frames that go out whole are genuine together, numbered from the next
/// sequence number of the stream, which moves on by as many. For a fresh stream
/// that number is zero.
pub proof fn writes_are_genuine(start: StreamState, writes: Seq<Write>)
    requires
        are_writes(start, writes),
    ensures
        ({
            let run = write_run(start, writes);
            &&& genuine(start.encrypt_key, start.write_counter, run.frames)
            &&& run.state == (StreamState {
                write_counter: start.write_counter + run.frames.len(),
                ..start
            })
        }),
    decreases writes.len(),
{
    if writes.len() > 0 {
        writes_are_genuine(start, writes.drop_last());
        let last = writes.last();
        assert(seq![last.frame][0] == last.frame);
    }
}

/// What a run of writes sends is, in order, what the frames carry of the
/// buffers that were written whole.
pub open spec fn written(writes: Seq<Write>) -> Seq<u8>
    decreases writes.len(),
{
    if writes.len() == 0 {
        seq![]
    } else {
        let before = written(writes.drop_last());
        let last = writes.last();
        if last.whole {
            before + last.buf.take(write_size(last.buf.len()) as int)
        } else {
            before
        }
    }
}

/// The last of the frames comes last in what they carry.
proof fn lemma_sent_push(frames: Seq<SentFrame>, next: SentFrame)
    ensures
        sent(frames.push(next)) == sent(frames) + next.plaintext,
    decreases frames.len(),
{
    let all = frames.push(next);
    if frames.len() == 0 {
        assert(all.drop_first() =~= seq![]);
        assert(sent(all.drop_first()) =~= seq![]);
        assert(sent(frames) =~= seq![]);
        assert(sent(all) =~= sent(frames) + next.plaintext);
    } else {
        lemma_sent_push(frames.drop_first(), next);
        assert(all.drop_first() =~= frames.drop_first().push(next));
        assert(sent(all) =~= sent(frames) + next.plaintext);
    }
}

/// The frames of a run of writes carry what was written.
pub proof fn frames_carry_writes(start: StreamState, writes: Seq<Write>)
    requires
        are_writes(start, writes),
    ensures
        sent(write_run(start, writes).frames) == written(writes),
    decreases writes.len(),
{
    if writes.len() > 0 {
        frames_carry_writes(start, writes.drop_last());
        let before = write_run(start, writes.drop_last());
        lemma_sent_push(before.frames, writes.last().frame);
    }
}

/// Every write takes something of what there is to write, no more than there
/// is, and no more than a frame can hold that the peer accepts.
pub proof fn writes_make_progress(len: nat)
    requires
        len > 0,
    ensures
        0 < write_size(len) <= len,
        write_size(len) + TAG_SIZE <= MAX_FRAME_SIZE,
{
}

/// The plaintext of genuine frames is what was sent.
pub proof fn plaintexts_of_wire(key: Seq<u8>, counter: nat, frames: Seq<SentFrame>)
    requires
        genuine(key, counter, frames),
    ensures
        plaintexts(key, counter, wire(frames)) == sent(frames),
    decreases frames.len(),
{
    if frames.len() > 0 {
        let rest = frames.drop_first();
        assert(genuine(key, counter + 1, rest)) by {
            assert forall|i: int|
                #![trigger rest[i]]
                0 <= i < rest.len() implies rest[i].sealed.len() <= MAX_FRAME_SIZE
                && frame_plaintext(key, (counter + 1 + i) as nat, rest[i].sealed) == Some(
                rest[i].plaintext,
            ) by {
                assert(rest[i] == frames[i + 1]);
            }
        }
        plaintexts_of_wire(key, counter + 1, rest);
        parse_inverts_wire_frame(frames[0].sealed, wire(rest));
    }
}

/// Fewer bytes give a prefix of the plaintext that more bytes give.
pub proof fn plaintexts_grow(key: Seq<u8>, counter: nat, bytes: Seq<u8>, more: Seq<u8>)
    ensures
        plaintexts(key, counter, bytes).is_prefix_of(plaintexts(key, counter, bytes + more)),
    decreases bytes.len(),
{
    lemma_parse_more(bytes, more);
    if let ParsedFrame::Complete(sealed, rest) = parse_frame(bytes) {
        if let Some(plaintext) = frame_plaintext(key, counter, sealed) {
            plaintexts_grow(key, counter + 1, rest, more);
        }
    }
}

/// A reader gets a prefix of what its peer wrote, and is owed the rest.
///
/// Let a peer send genuine frames, and let a stream with nothing decrypted
/// pending and nothing refused have received, at its start and by its reads, any prefix of their
/// bytes, cut into chunks in any way. Then no read fails; what the reader has
/// is a prefix of what was sent, in order; and once all bytes are in, what the
/// reader has and what the stream still owes it is all that was sent.
pub proof fn reads_give_back_writes(
    start: StreamState,
    frames: Seq<SentFrame>,
    polls: Seq<Poll>,
)
    requires
        start.unread.len() == 0,
        !start.refused,
        genuine(start.decrypt_key, start.read_counter, frames),
        (start.received + read_run(start, polls).taken).is_prefix_of(wire(frames)),
    ensures
        ({
            let run = read_run(start, polls);
            &&& !run.failed
            &&& run.delivered.is_prefix_of(sent(frames))
            &&& start.received + run.taken == wire(frames) ==> run.delivered + run.state.owed(
                seq![],
            ) == sent(frames)
        }),
{
    let run = read_run(start, polls);
    let key = start.decrypt_key;
    let came = start.received + run.taken;
    let rest = wire(frames).skip(came.len() as int);
    lemma_position(start, frames, polls);
    plaintexts_of_wire(key, start.read_counter, frames);
    reads_keep_plaintext(start, polls, rest);
    assert(wire(frames) =~= came + rest);
    assert(start.received + (run.taken + rest) =~= came + rest);
    assert(start.owed(run.taken + rest) =~= sent(frames));
    if came == wire(frames) {
        assert(rest =~= seq![]);
    }
}

/// Reads keep the state of a stream valid.
pub proof fn reads_stay_valid(start: StreamState, polls: Seq<Poll>)
    requires
        start.valid(),
    ensures
        read_run(start, polls).state.valid(),
    decreases polls.len(),
{
    if polls.len() > 0 {
        reads_stay_valid(start, polls.drop_last());
        let before = read_run(start, polls.drop_last()).state;
        assert(before.received + Seq::<u8>::empty() =~= before.received);
        if polls.last().chunk.len() == 0 {
            assert(before.received + polls.last().chunk =~= before.received);
        }
    }
}

/// A frame that has been refused is never passed: with more bytes from the
/// connection it is refused again, and at the end of the connection the stream
/// is at its end.
pub proof fn refused_frame_stays(state: StreamState, poll: Poll)
    requires
        state.valid(),
        state.refused,
        state.unread.len() == 0,
    ensures
        state.asks(),
        poll.chunk.len() == 0 ==> state.poll_read(poll).1 is EndOfStream,
        poll.chunk.len() > 0 ==> failed(state.poll_read(poll).1),
        state.poll_read(poll).0 == (StreamState { received: state.received + poll.chunk, ..state }),
{
    lemma_parse_more(state.received, poll.chunk);
}

/// A stream that reports its end owes its reader nothing.
pub proof fn end_of_stream_owes_nothing(state: StreamState, poll: Poll)
    requires
        state.valid(),
        state.poll_read(poll).1 is EndOfStream,
    ensures
        state.owed(seq![]).len() == 0,
        state.poll_read(poll).0.owed(seq![]).len() == 0,
{
    let after = state.poll_read(poll).0;
    assert(state.received + poll.chunk =~= state.received);
    assert(state.received + Seq::<u8>::empty() =~= state.received);
    assert(after.received + Seq::<u8>::empty() =~= state.received);
}

/// A reader that comes to the end of the stream has all that its peer wrote.
pub proof fn reader_at_end_has_all(start: StreamState, frames: Seq<SentFrame>, polls: Seq<Poll>)
    requires
        start.unread.len() == 0,
        !start.refused,
        genuine(start.decrypt_key, start.read_counter, frames),
        start.received + read_run(start, polls).taken == wire(frames),
        polls.len() > 0,
        read_run(start, polls.drop_last()).state.poll_read(polls.last()).1 is EndOfStream,
    ensures
        read_run(start, polls).delivered == sent(frames),
{
    let run = read_run(start, polls);
    reads_give_back_writes(start, frames, polls);
    reads_stay_valid(start, polls.drop_last());
    end_of_stream_owes_nothing(read_run(start, polls.drop_last()).state, polls.last());
    assert(run.delivered + run.state.owed(seq![]) =~= run.delivered);
}

/// What one end writes, the other end reads: a reader that shares the key and
/// the sequence number with a writer, takes in the frames that went out whole
/// and comes to the end of the stream has exactly what was written.
pub proof fn written_data_is_read(
    writer: StreamState,
    writes: Seq<Write>,
    reader: StreamState,
    polls: Seq<Poll>,
)
    requires
        are_writes(writer, writes),
        reader.decrypt_key == writer.encrypt_key,
        reader.read_counter == writer.write_counter,
        reader.unread.len() == 0,
        !reader.refused,
        reader.received + read_run(reader, polls).taken == wire(write_run(writer, writes).frames),
        polls.len() > 0,
        read_run(reader, polls.drop_last()).state.poll_read(polls.last()).1 is EndOfStream,
    ensures
        read_run(reader, polls).delivered == written(writes),
{
    writes_are_genuine(writer, writes);
    frames_carry_writes(writer, writes);
    reader_at_end_has_all(reader, write_run(writer, writes).frames, polls);
}

/// How many whole frames there are at the head of `bytes`, up to the first that
/// cannot be decrypted.
pub open spec fn whole_frames(key: Seq<u8>, counter: nat, bytes: Seq<u8>) -> nat
    decreases bytes.len(),
{
    match parse_frame(bytes) {
        ParsedFrame::Complete(sealed, rest) => match frame_plaintext(key, counter, sealed) {
            Some(_) => 1 + whole_frames(key, counter + 1, rest),
            None => 0,
        },
        _ => 0,
    }
}

impl StreamState {
    /// How many reads it takes at most, with room for a byte each, to hand out
    /// what is owed: one for each byte, and one for each frame.
    pub open spec fn reads_due(self) -> nat {
        self.owed(seq![]).len() + whole_frames(self.decrypt_key, self.read_counter, self.received)
    }
}

/// A read with room hands out something of what is owed, or takes off a frame
/// that carries nothing, without asking the connection: no reader waits for
/// bytes while it is owed data.
pub proof fn owed_data_needs_no_bytes(state: StreamState, poll: Poll)
    requires
        state.valid(),
        state.reads_due() > 0,
        poll.room > 0,
    ensures
        state.taken(poll).len() == 0,
        state.poll_read(poll).1 is Data,
        state.poll_read(poll).0.reads_due() < state.reads_due(),
{
    let (after, step) = state.poll_read(poll);
    let none = Seq::<u8>::empty();
    assert(state.received + none =~= state.received);
    assert(after.received + none =~= after.received);
    assert(none + none =~= none);
    read_keeps_plaintext(state, poll, none);
    assert(state.taken(poll) =~= none);
    assert(delivered(step).len() + after.owed(none).len() == state.owed(none).len());
}

/// A read leaves nothing due where nothing was and nothing comes in.
proof fn lemma_nothing_due(state: StreamState, poll: Poll)
    requires
        state.reads_due() == 0,
        poll.chunk.len() == 0,
    ensures
        state.poll_read(poll).0.reads_due() == 0,
{
    assert(state.received + poll.chunk =~= state.received);
    assert(state.received + Seq::<u8>::empty() =~= state.received);
}

/// What is owed is handed out: where the connection gives no more, enough reads
/// with room for a byte each deliver all that the stream owes.
pub proof fn owed_data_is_delivered(start: StreamState, polls: Seq<Poll>)
    requires
        start.valid(),
        polls.len() >= start.reads_due(),
        forall|i: int|
            0 <= i < polls.len() ==> (#[trigger] polls[i]).room > 0 && polls[i].chunk.len() == 0,
    ensures
        read_run(start, polls).delivered == start.owed(seq![]),
        read_run(start, polls).state.owed(seq![]).len() == 0,
{
    let run = read_run(start, polls);
    lemma_reads_due(start, polls);
    reads_keep_plaintext(start, polls, seq![]);
    assert(run.taken + Seq::<u8>::empty() =~= seq![]);
    assert(run.delivered + run.state.owed(seq![]) =~= run.delivered);
}

/// Reads that take nothing from the connection bring down what is due.
proof fn lemma_reads_due(start: StreamState, polls: Seq<Poll>)
    requires
        start.valid(),
        forall|i: int|
            0 <= i < polls.len() ==> (#[trigger] polls[i]).room > 0 && polls[i].chunk.len() == 0,
    ensures
        ({
            let run = read_run(start, polls);
            &&& run.taken.len() == 0
            &&& run.state.reads_due() == 0 || run.state.reads_due() + polls.len()
                <= start.reads_due()
        }),
    decreases polls.len(),
{
    if polls.len() > 0 {
        let shorter = polls.drop_last();
        let last = polls.last();
        assert(forall|i: int| 0 <= i < shorter.len() ==> shorter[i] == polls[i]);
        assert(last == polls[polls.len() - 1]);
        lemma_reads_due(start, shorter);
        let before = read_run(start, shorter).state;
        reads_stay_valid(start, shorter);
        if before.reads_due() > 0 {
            owed_data_needs_no_bytes(before, last);
        } else {
            lemma_nothing_due(before, last);
        }
    }
}

/// Where a reader of genuine frames stands: it has read whole frames, as many
/// as its counter moved, and what it holds and what is still to come are the
/// frames behind those.
#[verifier::spinoff_prover]
#[verifier::rlimit(60)]
proof fn lemma_position(start: StreamState, frames: Seq<SentFrame>, polls: Seq<Poll>)
    requires
        start.unread.len() == 0,
        !start.refused,
        genuine(start.decrypt_key, start.read_counter, frames),
        (start.received + read_run(start, polls).taken).is_prefix_of(wire(frames)),
    ensures
        ({
            let run = read_run(start, polls);
            let came = start.received.len() + run.taken.len();
            let done = run.state.read_counter - start.read_counter;
            &&& !run.failed
            &&& !run.state.refused
            &&& run.state.decrypt_key == start.decrypt_key
            &&& 0 <= done <= frames.len()
            &&& run.state.received + wire(frames).skip(came as int) == wire(frames.skip(done))
        }),
    decreases polls.len(),
{
    let run = read_run(start, polls);
    let all = wire(frames);
    let came = start.received + run.taken;
    let left = all.skip(came.len() as int);
    assert(all =~= came + left);
    if polls.len() == 0 {
        assert(frames.skip(0) =~= frames);
        assert(came =~= start.received);
    } else {
        let before = read_run(start, polls.drop_last());
        let last = polls.last();
        let taken = before.state.taken(last);
        let came_before = start.received + before.taken;
        assert(came =~= came_before + taken);
        assert(came_before =~= all.take(came_before.len() as int));
        lemma_position(start, frames, polls.drop_last());
        let done = before.state.read_counter - start.read_counter;
        assert(all.skip(came_before.len() as int) =~= taken + left);
        if before.state.unread.len() > 0 {
            assert(taken + left =~= left);
        } else {
            let bytes = before.state.received + taken;
            let ahead = frames.skip(done);
            if !before.state.asks() {
                assert(bytes =~= before.state.received);
            }
            assert(bytes + left =~= wire(ahead));
            lemma_parse_more(bytes, left);
            if ahead.len() > 0 {
                assert(ahead[0] == frames[done]);
                parse_inverts_wire_frame(ahead[0].sealed, wire(ahead.drop_first()));
                assert(ahead.drop_first() =~= frames.skip(done + 1));
            }
        }
    }
}

} // verus!

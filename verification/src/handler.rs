//! The per-connection read-loop policy.
//!
//! A handler owns one accepted socket and a private read buffer. Its
//! whole behaviour is a function of the sizes and bytes of the reads it
//! performs: a zero-length read closes the connection, a four-byte read
//! records one measurement, every other read is logged and skipped. The
//! host runs the loop (the reads themselves suspend); this module holds
//! the decision taken after each read, and the fold of those decisions
//! over a whole connection, with the laws the bridge owes: every
//! well-formed frame is recorded exactly once and in arrival order, a
//! malformed frame never takes the connection down, and nothing is
//! recorded after an orderly close.

use vstd::prelude::*;

use crate::codec::decode;
use crate::codec::frame_value_bits;
use crate::codec::FrameOutcome;

verus! {

/// What the handler does in response to one read.
pub enum HandlerAction {
    /// Forward the reading's 32 raw bits to the sink, stamped with the
    /// receipt time.
    Record(u32),
    /// Log the offending bytes and their count; the connection stays in
    /// its read loop.
    LogMalformed(Vec<u8>, usize),
    /// Orderly close by the peer: leave the read loop and drop the
    /// socket.
    Close,
}

/// The decision after one read of `length` bytes into `buffer`.
///
/// The only closing read is the zero-length one, so no frame — however
/// malformed — terminates a connection.
pub fn handle_read(buffer: &Vec<u8>, length: usize) -> (action: HandlerAction)
    requires
        length <= buffer.len(),
    ensures
        length == 0 ==> action == HandlerAction::Close,
        length == 4 ==> action == HandlerAction::Record(frame_value_bits(buffer@)),
        length != 0 && length != 4 ==> (action matches HandlerAction::LogMalformed(raw, n)
            && raw@ == buffer@.take(length as int) && n == length),
{
    match decode(buffer, length) {
        FrameOutcome::EndOfStream => HandlerAction::Close,
        FrameOutcome::Decoded(bits) => HandlerAction::Record(bits),
        FrameOutcome::Malformed(raw, n) => HandlerAction::LogMalformed(raw, n),
    }
}

/// The readings a connection records, given the chunks its successive
/// reads return: one entry per four-byte chunk, in arrival order, up to
/// but not beyond the first zero-length read.
pub open spec fn recorded_values(chunks: Seq<Seq<u8>>) -> Seq<u32>
    decreases chunks.len(),
{
    if chunks.len() == 0 {
        Seq::empty()
    } else if chunks[0].len() == 0 {
        Seq::empty()
    } else if chunks[0].len() == 4 {
        seq![frame_value_bits(chunks[0])] + recorded_values(chunks.drop_first())
    } else {
        recorded_values(chunks.drop_first())
    }
}

/// No read in `chunks` is the zero-length closing one.
pub open spec fn all_reads_open(chunks: Seq<Seq<u8>>) -> bool {
    forall|i: int| 0 <= i < chunks.len() ==> #[trigger] chunks[i].len() != 0
}

/// The views of the chunks a connection's reads returned.
pub open spec fn chunk_views(reads: Seq<Vec<u8>>) -> Seq<Seq<u8>> {
    reads.map_values(|r: Vec<u8>| r@)
}

/// While the connection stays open, the fold splits at any point: the
/// recordings of the whole session are those of a prefix followed by
/// those of the rest.
pub proof fn lemma_session_split(chunks: Seq<Seq<u8>>, i: int)
    requires
        0 <= i <= chunks.len(),
        forall|j: int| 0 <= j < i ==> #[trigger] chunks[j].len() != 0,
    ensures
        recorded_values(chunks) == recorded_values(chunks.take(i)) + recorded_values(
            chunks.skip(i),
        ),
    decreases i,
{
    if i == 0 {
        assert(chunks.take(0) =~= Seq::<Seq<u8>>::empty());
        assert(chunks.skip(0) =~= chunks);
        assert(recorded_values(chunks.take(0)) + recorded_values(chunks) =~= recorded_values(
            chunks,
        ));
    } else {
        let rest = chunks.drop_first();
        assert(rest.take(i - 1) =~= chunks.take(i).drop_first());
        assert(rest.skip(i - 1) =~= chunks.skip(i));
        lemma_session_split(rest, i - 1);
        assert(chunks.take(i)[0] == chunks[0]);
        assert(recorded_values(chunks) =~= recorded_values(chunks.take(i)) + recorded_values(
            chunks.skip(i),
        ));
    }
}

/// A session of well-formed frames loses and duplicates nothing: it
/// records exactly one reading per frame, in arrival order.
pub proof fn lemma_frames_all_recorded(chunks: Seq<Seq<u8>>)
    requires
        forall|i: int| 0 <= i < chunks.len() ==> #[trigger] chunks[i].len() == 4,
    ensures
        recorded_values(chunks).len() == chunks.len(),
        forall|i: int| 0 <= i < chunks.len() ==> recorded_values(chunks)[i] == frame_value_bits(
            #[trigger] chunks[i],
        ),
    decreases chunks.len(),
{
    if chunks.len() > 0 {
        let rest = chunks.drop_first();
        assert(chunks[0].len() == 4);
        assert forall|i: int| 0 <= i < rest.len() implies #[trigger] rest[i].len() == 4 by {
            assert(rest[i] == chunks[i + 1]);
        }
        lemma_frames_all_recorded(rest);
        let out = recorded_values(chunks);
        assert(out == seq![frame_value_bits(chunks[0])] + recorded_values(rest));
        assert forall|i: int| 0 <= i < chunks.len() implies out[i] == frame_value_bits(
            #[trigger] chunks[i],
        ) by {
            if i > 0 {
                assert(rest[i - 1] == chunks[i]);
                assert(recorded_values(rest)[i - 1] == frame_value_bits(rest[i - 1]));
            }
        }
    }
}

/// A malformed read is skipped, nothing more: the session records the
/// same readings as if the read had not happened.
pub proof fn lemma_malformed_read_skipped(chunks: Seq<Seq<u8>>)
    requires
        chunks.len() > 0,
        chunks[0].len() != 0,
        chunks[0].len() != 4,
    ensures
        recorded_values(chunks) == recorded_values(chunks.drop_first()),
{
}

/// Nothing is recorded past an orderly close: whatever follows the first
/// zero-length read leaves the session's recordings unchanged.
pub proof fn lemma_close_ends_session(chunks: Seq<Seq<u8>>, i: int)
    requires
        0 <= i < chunks.len(),
        chunks[i].len() == 0,
        forall|j: int| 0 <= j < i ==> #[trigger] chunks[j].len() != 0,
    ensures
        recorded_values(chunks) == recorded_values(chunks.take(i)),
{
    lemma_session_split(chunks, i);
    assert(chunks.skip(i)[0] == chunks[i]);
    assert(recorded_values(chunks.skip(i)) =~= Seq::<u32>::empty());
    assert(recorded_values(chunks.take(i)) + Seq::<u32>::empty() =~= recorded_values(
        chunks.take(i),
    ));
}

/// The readings recorded over a set of independent connections, summed
/// session by session.
pub open spec fn total_recorded(sessions: Seq<Seq<Seq<u8>>>) -> int
    decreases sessions.len(),
{
    if sessions.len() == 0 {
        0
    } else {
        recorded_values(sessions[0]).len() + total_recorded(sessions.drop_first())
    }
}

/// Connections neither share nor steal work: when each of the sessions
/// records `per_session` readings, the bridge records exactly
/// `sessions.len() * per_session` in all — none lost, none duplicated —
/// whatever the interleaving across connections was.
pub proof fn lemma_connections_independent(sessions: Seq<Seq<Seq<u8>>>, per_session: int)
    requires
        forall|k: int| 0 <= k < sessions.len() ==> recorded_values(
            #[trigger] sessions[k],
        ).len() == per_session,
    ensures
        total_recorded(sessions) == sessions.len() * per_session,
    decreases sessions.len(),
{
    if sessions.len() == 0 {
        assert(0int * per_session == 0) by (nonlinear_arith);
    } else {
        let rest = sessions.drop_first();
        lemma_connections_independent(rest, per_session);
        assert(per_session + (sessions.len() - 1) * per_session == sessions.len() * per_session)
            by (nonlinear_arith);
    }
}

/// Runs one connection's decisions over the chunks its reads returned,
/// in order, and yields the readings it records: each four-byte chunk's
/// bits, in arrival order, stopping at the first zero-length read.
///
/// This is the read loop with the reads already performed; the host
/// loop interleaves the same decisions with the actual socket reads.
pub fn process_connection(reads: &Vec<Vec<u8>>) -> (recorded: Vec<u32>)
    ensures
        recorded@ == recorded_values(chunk_views(reads@)),
{
    let ghost chunks = chunk_views(reads@);
    let mut recorded: Vec<u32> = Vec::new();
    let mut i: usize = 0;
    loop
        invariant
            i <= reads.len(),
            chunks == chunk_views(reads@),
            forall|j: int| 0 <= j < i ==> #[trigger] chunks[j].len() != 0,
            recorded@ == recorded_values(chunks.take(i as int)),
        ensures
            recorded@ == recorded_values(chunks),
        decreases reads.len() - i,
    {
        if i == reads.len() {
            proof {
                assert(chunks.take(i as int) =~= chunks);
            }
            break ;
        }
        let chunk = &reads[i];
        let action = handle_read(chunk, chunk.len());
        proof {
            assert(chunks[i as int] == chunk@);
        }
        match action {
            HandlerAction::Close => {
                proof {
                    lemma_close_ends_session(chunks, i as int);
                }
                break ;
            },
            HandlerAction::Record(bits) => {
                recorded.push(bits);
            },
            HandlerAction::LogMalformed(_, _) => {},
        }
        proof {
            lemma_session_split(chunks.take(i as int + 1), i as int);
            assert(chunks.take(i as int + 1).take(i as int) =~= chunks.take(i as int));
            assert(chunks.take(i as int + 1).skip(i as int) =~= seq![chunks[i as int]]);
            assert(seq![chunks[i as int]].drop_first() =~= Seq::<Seq<u8>>::empty());
            assert(recorded_values(Seq::<Seq<u8>>::empty()) =~= Seq::<u32>::empty());
            if chunks[i as int].len() == 4 {
                assert(recorded_values(seq![chunks[i as int]]) =~= seq![frame_value_bits(
                    chunks[i as int],
                )]);
                assert(recorded@ =~= recorded_values(chunks.take(i as int + 1)));
            } else {
                assert(recorded_values(seq![chunks[i as int]]) =~= Seq::<u32>::empty());
                assert(recorded@ =~= recorded_values(chunks.take(i as int + 1)));
            }
        }
        i += 1;
    }
    recorded
}

} // verus!

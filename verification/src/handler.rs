//! The per-connection echo protocol.
//!
//! A connection is handled as a loop of reads: each read yields some bytes
//! (zero bytes when the peer has closed its side) or fails. [`echo_step`]
//! decides what the server does after one read; [`echo_session`] gives the
//! bytes a whole session writes back, against the spec [`echo_output`].

use vstd::prelude::*;

verus! {

/// The largest number of bytes a single read from a connection can return.
pub const CHUNK_SIZE: usize = 1024;

/// What one read from the connection produced: the bytes read, which are
/// empty exactly when the peer closed its side, or a transport error.
pub enum ReadOutcome {
    Data(Vec<u8>),
    Failed,
}

/// What the server does in response to one read.
pub enum HandlerAction {
    /// Write these bytes back to the peer and keep reading.
    Reply(Vec<u8>),
    /// Close both directions of the connection and stop: the peer is done.
    Shutdown,
    /// Stop handling this connection without a reply: the read failed.
    Abort,
}

/// Decides the server's response to one read: a non-empty read is echoed
/// back verbatim, a zero-length read closes the connection, and a failed
/// read abandons it.
pub fn echo_step(outcome: ReadOutcome) -> (action: HandlerAction)
    ensures
        outcome matches ReadOutcome::Data(b) ==> {
            &&& b@.len() == 0 ==> action is Shutdown
            &&& b@.len() > 0 ==> (action matches HandlerAction::Reply(r) && r@ == b@)
        },
        outcome is Failed <==> action is Abort,
        action is Shutdown ==> (outcome matches ReadOutcome::Data(b) && b@.len() == 0),
{
    match outcome {
        ReadOutcome::Data(bytes) => {
            if bytes.len() == 0 {
                HandlerAction::Shutdown
            } else {
                HandlerAction::Reply(bytes)
            }
        },
        ReadOutcome::Failed => HandlerAction::Abort,
    }
}

/// The views of a sequence of byte vectors.
pub open spec fn byte_views(reads: Seq<Vec<u8>>) -> Seq<Seq<u8>> {
    reads.map_values(|r: Vec<u8>| r@)
}

/// The bytes a whole session writes back, given what each read returned, in
/// order: every read before the first zero-length one is echoed; the first
/// zero-length read ends the session and nothing after it is echoed.
pub open spec fn echo_output(reads: Seq<Seq<u8>>) -> Seq<u8>
    decreases reads.len(),
{
    if reads.len() == 0 {
        Seq::empty()
    } else if reads.first().len() == 0 {
        Seq::empty()
    } else {
        reads.first() + echo_output(reads.drop_first())
    }
}

/// Runs one whole session over the given reads and returns everything the
/// server writes back, concatenated in order.
pub fn echo_session(reads: &Vec<Vec<u8>>) -> (out: Vec<u8>)
    ensures
        out@ == echo_output(byte_views(reads@)),
{
    let ghost dv = byte_views(reads@);
    let mut out: Vec<u8> = Vec::new();
    let mut i: usize = 0;
    proof {
        assert(dv.skip(0) =~= dv);
        assert(out@ + echo_output(dv) =~= echo_output(dv));
    }
    while i < reads.len()
        invariant_except_break
            i <= reads.len(),
            dv == byte_views(reads@),
            out@ + echo_output(dv.skip(i as int)) == echo_output(dv),
        ensures
            out@ == echo_output(dv),
        decreases reads.len() - i,
    {
        if reads[i].len() == 0 {
            proof {
                assert(dv.skip(i as int).first() == dv[i as int]);
                assert(echo_output(dv.skip(i as int)) =~= Seq::<u8>::empty());
                assert(out@ =~= out@ + Seq::<u8>::empty());
            }
            break;
        }
        let ghost prev = out@;
        let mut j: usize = 0;
        while j < reads[i].len()
            invariant
                i < reads.len(),
                j <= reads@[i as int]@.len(),
                out@ == prev + reads@[i as int]@.take(j as int),
            decreases reads@[i as int]@.len() - j,
        {
            let b = reads[i][j];
            out.push(b);
            proof {
                assert(out@ =~= prev + reads@[i as int]@.take(j as int + 1));
            }
            j = j + 1;
        }
        proof {
            let s = dv.skip(i as int);
            assert(reads@[i as int]@.take(reads@[i as int]@.len() as int)
                =~= reads@[i as int]@);
            assert(s.first() == dv[i as int]);
            assert(s.drop_first() =~= dv.skip(i as int + 1));
            assert(echo_output(s) == s.first() + echo_output(s.drop_first()));
            assert(out@ + echo_output(dv.skip(i as int + 1))
                =~= prev + echo_output(dv.skip(i as int)));
        }
        i = i + 1;
    }
    out
}

/// A message no longer than the chunk size arrives in a single read, and
/// the server returns exactly that message, unchanged.
pub proof fn lemma_single_read_echoed(msg: Seq<u8>)
    requires
        msg.len() <= CHUNK_SIZE,
    ensures
        echo_output(seq![msg]) == msg,
{
    let s = seq![msg];
    if msg.len() == 0 {
        assert(echo_output(s) =~= msg);
    } else {
        assert(s.first() == msg);
        assert(s.drop_first() =~= Seq::<Seq<u8>>::empty());
        assert(echo_output(s.drop_first()) =~= Seq::<u8>::empty());
        assert(echo_output(s) =~= msg + Seq::<u8>::empty());
        assert(msg + Seq::<u8>::empty() =~= msg);
    }
}

/// A message of any length comes back whole and in order: over a session
/// whose reads are all non-empty, the server returns exactly the
/// concatenation of what it read, however the message was split into
/// chunks.
pub proof fn lemma_echo_preserves_message(reads: Seq<Seq<u8>>)
    requires
        forall|i: int| 0 <= i < reads.len() ==> (#[trigger] reads[i]).len() > 0,
    ensures
        echo_output(reads) == reads.flatten(),
    decreases reads.len(),
{
    if reads.len() == 0 {
        assert(echo_output(reads) =~= reads.flatten());
    } else {
        assert(forall|i: int|
            0 <= i < reads.drop_first().len()
                ==> (#[trigger] reads.drop_first()[i]).len() > 0);
        lemma_echo_preserves_message(reads.drop_first());
    }
}

/// Splits a message into the reads the server will see when the client
/// sends it whole: successive chunks of at most [`CHUNK_SIZE`] bytes, all
/// non-empty, that concatenate back to the message.
pub fn chunk_message(data: &Vec<u8>) -> (chunks: Vec<Vec<u8>>)
    ensures
        byte_views(chunks@).flatten() == data@,
        forall|i: int|
            0 <= i < chunks@.len() ==> 0 < (#[trigger] chunks@[i])@.len() <= CHUNK_SIZE,
{
    let mut chunks: Vec<Vec<u8>> = Vec::new();
    let mut start: usize = 0;
    proof {
        assert(byte_views(chunks@).flatten() =~= data@.take(0));
    }
    while start < data.len()
        invariant
            start <= data@.len(),
            byte_views(chunks@).flatten() == data@.take(start as int),
            forall|i: int|
                0 <= i < chunks@.len()
                    ==> 0 < (#[trigger] chunks@[i])@.len() <= CHUNK_SIZE,
        decreases data@.len() - start,
    {
        let remaining = data.len() - start;
        let len = if remaining < CHUNK_SIZE {
            remaining
        } else {
            CHUNK_SIZE
        };
        let ghost prev_chunks = chunks@;
        let end = start + len;
        let mut chunk: Vec<u8> = Vec::new();
        let mut k: usize = start;
        while k < end
            invariant
                start <= k <= end,
                end <= data@.len(),
                chunk@ == data@.subrange(start as int, k as int),
            decreases end - k,
        {
            let b = data[k];
            chunk.push(b);
            proof {
                assert(chunk@ =~= data@.subrange(start as int, k as int + 1));
            }
            k = k + 1;
        }
        chunks.push(chunk);
        proof {
            broadcast use Seq::lemma_flatten_push;

            assert(byte_views(chunks@) =~= byte_views(prev_chunks).push(chunk@));
            assert(byte_views(chunks@).flatten()
                =~= data@.take(start as int + len as int));
        }
        start = start + len;
    }
    proof {
        assert(data@.take(data@.len() as int) =~= data@);
    }
    chunks
}

/// What a client observes end to end: a message sent whole arrives in
/// chunks of at most [`CHUNK_SIZE`] bytes and comes back byte for byte,
/// whole and in order.
pub fn echo_whole_message(data: &Vec<u8>) -> (out: Vec<u8>)
    ensures
        out@ == data@,
{
    let chunks = chunk_message(data);
    proof {
        assert(forall|i: int|
            0 <= i < byte_views(chunks@).len()
                ==> (#[trigger] byte_views(chunks@)[i]).len() > 0);
        lemma_echo_preserves_message(byte_views(chunks@));
    }
    echo_session(&chunks)
}

} // verus!

//! Capture of a child process's two output streams.
//!
//! A running child produces a standard-output byte stream and a
//! standard-error byte stream. Readers cut each stream into bounded,
//! non-empty chunks and the consumer delivers every chunk, tagged by its
//! stream, to a `DualOutputStream` in arrival order. The delivery order
//! across the two streams is whatever interleaving production happened to
//! give; within one stream the chunks stay in order, so concatenating the
//! delivered chunks of one stream gives back that stream's bytes exactly.

use vstd::prelude::*;
use crate::output::{MultiplexedOutput, OutputError};

verus! {

/// Which of the child's two streams a chunk came from.
#[derive(Clone, Copy, PartialEq, Eq, Structural, Debug)]
pub enum OutputStream {
    Stdout,
    Stderr,
}

/// One bounded unit of captured output, tagged by its source stream.
pub struct Chunk {
    pub stream: OutputStream,
    pub data: Vec<u8>,
}

/// The largest number of bytes one chunk may carry.
pub const BUFFER_SIZE: usize = 1024;

/// What a child process wrote, one byte sequence per stream.
pub struct ChildStreams {
    pub stdout: Vec<u8>,
    pub stderr: Vec<u8>,
}

/// The pair of sink collections a capture writes into: one for
/// standard-output chunks, one for standard-error chunks. Keeps a ghost
/// record of all bytes delivered on each side.
pub struct DualOutputStream {
    pub out: MultiplexedOutput,
    pub err: MultiplexedOutput,
    pub delivered_out: Ghost<Seq<u8>>,
    pub delivered_err: Ghost<Seq<u8>>,
}

impl DualOutputStream {
    /// All bytes delivered so far for the given stream, in delivery order.
    pub open spec fn delivered(&self, stream: OutputStream) -> Seq<u8> {
        match stream {
            OutputStream::Stdout => self.delivered_out@,
            OutputStream::Stderr => self.delivered_err@,
        }
    }

    /// True when no sink on either side can fail.
    pub open spec fn all_accept(&self) -> bool {
        self.out.all_accept() && self.err.all_accept()
    }

    pub fn new(out: MultiplexedOutput, err: MultiplexedOutput) -> (r: Self)
        ensures
            r.out == out,
            r.err == err,
            r.all_accept() == (out.all_accept() && err.all_accept()),
            r.delivered(OutputStream::Stdout) == Seq::<u8>::empty(),
            r.delivered(OutputStream::Stderr) == Seq::<u8>::empty(),
    {
        DualOutputStream {
            out,
            err,
            delivered_out: Ghost(Seq::empty()),
            delivered_err: Ghost(Seq::empty()),
        }
    }

    /// Delivers one whole buffer to every standard-output sink. On success
    /// the buffer is appended to the delivered standard-output bytes; the
    /// standard-error side is untouched either way.
    pub fn write_stdout(&mut self, buf: &Vec<u8>) -> (r: Result<(), OutputError>)
        ensures
            r is Ok ==> final(self).delivered(OutputStream::Stdout) == old(self).delivered(
                OutputStream::Stdout,
            ) + buf@,
            r is Err ==> final(self).delivered(OutputStream::Stdout) == old(self).delivered(
                OutputStream::Stdout,
            ),
            final(self).delivered(OutputStream::Stderr) == old(self).delivered(
                OutputStream::Stderr,
            ),
            final(self).err == old(self).err,
            final(self).all_accept() == old(self).all_accept(),
            old(self).all_accept() ==> r is Ok,
            r is Ok ==> forall|i: int|
                0 <= i < old(self).out.sinks().len() ==> final(self).out.sinks()[i].accepted()
                    == old(self).out.sinks()[i].accepted() + buf@,
    {
        let res = self.out.write(buf);
        match res {
            Ok(()) => {
                self.delivered_out = Ghost(self.delivered_out@ + buf@);
                Ok(())
            }
            Err(e) => Err(e),
        }
    }

    /// Delivers one whole buffer to every standard-error sink. On success
    /// the buffer is appended to the delivered standard-error bytes; the
    /// standard-output side is untouched either way.
    pub fn write_stderr(&mut self, buf: &Vec<u8>) -> (r: Result<(), OutputError>)
        ensures
            r is Ok ==> final(self).delivered(OutputStream::Stderr) == old(self).delivered(
                OutputStream::Stderr,
            ) + buf@,
            r is Err ==> final(self).delivered(OutputStream::Stderr) == old(self).delivered(
                OutputStream::Stderr,
            ),
            final(self).delivered(OutputStream::Stdout) == old(self).delivered(
                OutputStream::Stdout,
            ),
            final(self).out == old(self).out,
            final(self).all_accept() == old(self).all_accept(),
            old(self).all_accept() ==> r is Ok,
            r is Ok ==> forall|i: int|
                0 <= i < old(self).err.sinks().len() ==> final(self).err.sinks()[i].accepted()
                    == old(self).err.sinks()[i].accepted() + buf@,
    {
        let res = self.err.write(buf);
        match res {
            Ok(()) => {
                self.delivered_err = Ghost(self.delivered_err@ + buf@);
                Ok(())
            }
            Err(e) => Err(e),
        }
    }

    /// Flushes every sink on both sides; the delivered bytes are unchanged.
    pub fn flush(&mut self) -> (r: Result<(), OutputError>)
        ensures
            final(self).delivered(OutputStream::Stdout) == old(self).delivered(
                OutputStream::Stdout,
            ),
            final(self).delivered(OutputStream::Stderr) == old(self).delivered(
                OutputStream::Stderr,
            ),
            final(self).all_accept() == old(self).all_accept(),
            old(self).all_accept() ==> r is Ok,
    {
        let r1 = self.out.flush();
        if let Err(e) = r1 {
            return Err(e);
        }
        self.err.flush()
    }
}

/// Concatenation of a sequence of byte chunks.
pub open spec fn concat_frames(frames: Seq<Seq<u8>>) -> Seq<u8>
    decreases frames.len(),
{
    if frames.len() == 0 {
        Seq::empty()
    } else {
        frames[0] + concat_frames(frames.skip(1))
    }
}

/// The bytes a sequence of tagged events carries for one stream, in order.
pub open spec fn delivered_to(events: Seq<(OutputStream, Seq<u8>)>, stream: OutputStream) -> Seq<
    u8,
>
    decreases events.len(),
{
    if events.len() == 0 {
        Seq::empty()
    } else {
        (if events[0].0 == stream {
            events[0].1
        } else {
            Seq::empty()
        }) + delivered_to(events.skip(1), stream)
    }
}

/// True when `events` is some interleaving of the standard-output chunks
/// `outs` and the standard-error chunks `errs`: every event takes the next
/// chunk of its stream, and both chunk lists are consumed in full.
pub open spec fn is_interleaving(
    events: Seq<(OutputStream, Seq<u8>)>,
    outs: Seq<Seq<u8>>,
    errs: Seq<Seq<u8>>,
) -> bool
    decreases events.len(),
{
    if events.len() == 0 {
        outs.len() == 0 && errs.len() == 0
    } else {
        let e = events[0];
        ||| (e.0 == OutputStream::Stdout && outs.len() > 0 && e.1 == outs[0] && is_interleaving(
            events.skip(1),
            outs.skip(1),
            errs,
        ))
        ||| (e.0 == OutputStream::Stderr && errs.len() > 0 && e.1 == errs[0] && is_interleaving(
            events.skip(1),
            outs,
            errs.skip(1),
        ))
    }
}

/// Capture loses no bytes and reorders none within a stream: whatever
/// interleaving the two producers happened to give, the bytes delivered for
/// one stream are exactly the concatenation of that stream's chunks.
pub proof fn lemma_interleaving_preserves_streams(
    events: Seq<(OutputStream, Seq<u8>)>,
    outs: Seq<Seq<u8>>,
    errs: Seq<Seq<u8>>,
)
    requires
        is_interleaving(events, outs, errs),
    ensures
        delivered_to(events, OutputStream::Stdout) == concat_frames(outs),
        delivered_to(events, OutputStream::Stderr) == concat_frames(errs),
    decreases events.len(),
{
    if events.len() == 0 {
        assert(delivered_to(events, OutputStream::Stdout) == Seq::<u8>::empty());
        assert(delivered_to(events, OutputStream::Stderr) == Seq::<u8>::empty());
    } else {
        let e = events[0];
        if e.0 == OutputStream::Stdout {
            lemma_interleaving_preserves_streams(events.skip(1), outs.skip(1), errs);
            assert(concat_frames(outs) == outs[0] + concat_frames(outs.skip(1)));
            assert(delivered_to(events, OutputStream::Stderr) == Seq::<u8>::empty()
                + delivered_to(events.skip(1), OutputStream::Stderr));
            assert(Seq::<u8>::empty() + concat_frames(errs) == concat_frames(errs));
        } else {
            lemma_interleaving_preserves_streams(events.skip(1), outs, errs.skip(1));
            assert(concat_frames(errs) == errs[0] + concat_frames(errs.skip(1)));
            assert(delivered_to(events, OutputStream::Stdout) == Seq::<u8>::empty()
                + delivered_to(events.skip(1), OutputStream::Stdout));
            assert(Seq::<u8>::empty() + concat_frames(outs) == concat_frames(outs));
        }
    }
}

/// The tagged view of a chunk list.
pub open spec fn chunk_views(chunks: Seq<Chunk>) -> Seq<(OutputStream, Seq<u8>)> {
    chunks.map(|i: int, c: Chunk| (c.stream, c.data@))
}

/// Delivers one tagged chunk to the matching side of the output.
pub fn write_chunk(chunk: &Chunk, output: &mut DualOutputStream) -> (r: Result<(), OutputError>)
    ensures
        r is Ok ==> final(output).delivered(chunk.stream) == old(output).delivered(chunk.stream)
            + chunk.data@,
        r is Ok ==> forall|s: OutputStream|
            s != chunk.stream ==> final(output).delivered(s) == old(output).delivered(s),
        r is Err ==> forall|s: OutputStream|
            final(output).delivered(s) == old(output).delivered(s),
        final(output).all_accept() == old(output).all_accept(),
        old(output).all_accept() ==> r is Ok,
{
    match chunk.stream {
        OutputStream::Stdout => output.write_stdout(&chunk.data),
        OutputStream::Stderr => output.write_stderr(&chunk.data),
    }
}

/// The consumer loop: delivers every chunk in arrival order. On success the
/// bytes appended to each stream's delivery record are exactly what the
/// chunk list carries for that stream.
pub fn deliver_chunks(chunks: &Vec<Chunk>, output: &mut DualOutputStream) -> (r: Result<
    (),
    OutputError,
>)
    ensures
        r is Ok ==> forall|s: OutputStream|
            final(output).delivered(s) == old(output).delivered(s) + delivered_to(
                chunk_views(chunks@),
                s,
            ),
        final(output).all_accept() == old(output).all_accept(),
        old(output).all_accept() ==> r is Ok,
{
    let n = chunks.len();
    let mut j: usize = 0;
    while j < n
        invariant
            n == chunks@.len(),
            j <= n,
            forall|s: OutputStream|
                output.delivered(s) == old(output).delivered(s) + delivered_to(
                    chunk_views(chunks@.subrange(0, j as int)),
                    s,
                ),
            output.all_accept() == old(output).all_accept(),
        decreases n - j,
    {
        proof {
            lemma_delivered_to_snoc(chunks@.subrange(0, j as int), chunks@[j as int]);
            assert(chunks@.subrange(0, j as int).push(chunks@[j as int]) == chunks@.subrange(
                0,
                j as int + 1,
            ));
        }
        let res = write_chunk(&chunks[j], output);
        if let Err(e) = res {
            return Err(e);
        }
        j = j + 1;
    }
    proof {
        assert(chunks@.subrange(0, n as int) == chunks@);
    }
    Ok(())
}

/// Appending one chunk to a list appends its bytes to that stream's
/// delivery and leaves the other stream's delivery unchanged.
proof fn lemma_delivered_to_snoc(chunks: Seq<Chunk>, c: Chunk)
    ensures
        forall|s: OutputStream|
            delivered_to(chunk_views(chunks.push(c)), s) == delivered_to(chunk_views(chunks), s)
                + (if c.stream == s {
                c.data@
            } else {
                Seq::<u8>::empty()
            }),
    decreases chunks.len(),
{
    assert forall|s: OutputStream|
        delivered_to(chunk_views(chunks.push(c)), s) == delivered_to(chunk_views(chunks), s) + (
        if c.stream == s {
            c.data@
        } else {
            Seq::<u8>::empty()
        }) by {
        lemma_delivered_to_snoc_one(chunks, c, s);
    }
}

proof fn lemma_delivered_to_snoc_one(chunks: Seq<Chunk>, c: Chunk, s: OutputStream)
    ensures
        delivered_to(chunk_views(chunks.push(c)), s) == delivered_to(chunk_views(chunks), s) + (
        if c.stream == s {
            c.data@
        } else {
            Seq::<u8>::empty()
        }),
    decreases chunks.len(),
{
    let tail = if c.stream == s {
        c.data@
    } else {
        Seq::<u8>::empty()
    };
    if chunks.len() == 0 {
        assert(chunk_views(chunks.push(c)).len() == 1);
        assert(chunk_views(chunks.push(c))[0] == (c.stream, c.data@));
        assert(chunk_views(chunks.push(c)).skip(1) =~= chunk_views(chunks));
        assert(delivered_to(chunk_views(chunks), s) == Seq::<u8>::empty());
        assert(delivered_to(chunk_views(chunks.push(c)), s) == tail + Seq::<u8>::empty());
        assert(tail + Seq::<u8>::empty() == tail);
        assert(Seq::<u8>::empty() + tail == tail);
    } else {
        lemma_delivered_to_snoc_one(chunks.skip(1), c, s);
        assert(chunk_views(chunks.push(c)).skip(1) =~= chunk_views(chunks.skip(1).push(c)));
        assert(chunk_views(chunks).skip(1) =~= chunk_views(chunks.skip(1)));
        let head = if chunks[0].stream == s {
            chunks[0].data@
        } else {
            Seq::<u8>::empty()
        };
        assert(chunk_views(chunks.push(c))[0] == (chunks[0].stream, chunks[0].data@));
        assert(chunk_views(chunks)[0] == (chunks[0].stream, chunks[0].data@));
        assert(delivered_to(chunk_views(chunks.push(c)), s) == head + delivered_to(
            chunk_views(chunks.skip(1).push(c)),
            s,
        ));
        assert(delivered_to(chunk_views(chunks), s) == head + delivered_to(
            chunk_views(chunks.skip(1)),
            s,
        ));
        assert(head + (delivered_to(chunk_views(chunks.skip(1)), s) + tail) == (head
            + delivered_to(chunk_views(chunks.skip(1)), s)) + tail);
    }
}

/// Copies `v[from..to]` into a fresh vector.
fn copy_range(v: &Vec<u8>, from: usize, to: usize) -> (r: Vec<u8>)
    requires
        from <= to <= v@.len(),
    ensures
        r@ == v@.subrange(from as int, to as int),
{
    let mut out: Vec<u8> = Vec::new();
    let mut i: usize = from;
    while i < to
        invariant
            from <= i <= to <= v@.len(),
            out@ == v@.subrange(from as int, i as int),
        decreases to - i,
    {
        out.push(v[i]);
        proof {
            assert(v@.subrange(from as int, i as int).push(v@[i as int]) == v@.subrange(
                from as int,
                i as int + 1,
            ));
        }
        i = i + 1;
    }
    out
}

/// Reads the child's two streams to exhaustion in bounded chunks and
/// delivers every chunk to the output, alternating between the streams
/// while both still have bytes. On success the delivered bytes of each
/// stream grow by exactly that stream's full contents; on failure each
/// grows by some prefix of them.
pub fn capture_command(child: &ChildStreams, output: &mut DualOutputStream) -> (r: Result<
    (),
    OutputError,
>)
    ensures
        r is Ok ==> final(output).delivered(OutputStream::Stdout) == old(output).delivered(
            OutputStream::Stdout,
        ) + child.stdout@,
        r is Ok ==> final(output).delivered(OutputStream::Stderr) == old(output).delivered(
            OutputStream::Stderr,
        ) + child.stderr@,
        r is Err ==> exists|n: int|
            0 <= n <= child.stdout@.len() && final(output).delivered(OutputStream::Stdout) == old(
                output,
            ).delivered(OutputStream::Stdout) + child.stdout@.subrange(0, n),
        r is Err ==> exists|n: int|
            0 <= n <= child.stderr@.len() && final(output).delivered(OutputStream::Stderr) == old(
                output,
            ).delivered(OutputStream::Stderr) + child.stderr@.subrange(0, n),
        final(output).all_accept() == old(output).all_accept(),
        old(output).all_accept() ==> r is Ok,
{
    let mut pos_out: usize = 0;
    let mut pos_err: usize = 0;
    let out_len = child.stdout.len();
    let err_len = child.stderr.len();
    while pos_out < out_len || pos_err < err_len
        invariant
            pos_out <= out_len == child.stdout@.len(),
            pos_err <= err_len == child.stderr@.len(),
            output.delivered(OutputStream::Stdout) == old(output).delivered(OutputStream::Stdout)
                + child.stdout@.subrange(0, pos_out as int),
            output.delivered(OutputStream::Stderr) == old(output).delivered(OutputStream::Stderr)
                + child.stderr@.subrange(0, pos_err as int),
            output.all_accept() == old(output).all_accept(),
        decreases (out_len - pos_out) + (err_len - pos_err),
    {
        if pos_out < out_len {
            let take = if out_len - pos_out < BUFFER_SIZE {
                out_len - pos_out
            } else {
                BUFFER_SIZE
            };
            let buf = copy_range(&child.stdout, pos_out, pos_out + take);
            let res = output.write_stdout(&buf);
            proof {
                assert(child.stdout@.subrange(0, pos_out as int) + child.stdout@.subrange(
                    pos_out as int,
                    pos_out as int + take as int,
                ) == child.stdout@.subrange(0, pos_out as int + take as int));
            }
            if let Err(e) = res {
                return Err(e);
            }
            pos_out = pos_out + take;
        }
        if pos_err < err_len {
            let take = if err_len - pos_err < BUFFER_SIZE {
                err_len - pos_err
            } else {
                BUFFER_SIZE
            };
            let buf = copy_range(&child.stderr, pos_err, pos_err + take);
            let res = output.write_stderr(&buf);
            proof {
                assert(child.stderr@.subrange(0, pos_err as int) + child.stderr@.subrange(
                    pos_err as int,
                    pos_err as int + take as int,
                ) == child.stderr@.subrange(0, pos_err as int + take as int));
            }
            if let Err(e) = res {
                return Err(e);
            }
            pos_err = pos_err + take;
        }
    }
    proof {
        assert(child.stdout@.subrange(0, out_len as int) == child.stdout@);
        assert(child.stderr@.subrange(0, err_len as int) == child.stderr@);
    }
    Ok(())
}

} // verus!

use vstd::prelude::*;

use crate::errors::Error;
use crate::frames::{concat_ins, concat_outs, lemma_concat_ins_push};
use crate::io::{ByteSink, ByteSource};
use crate::raw::{cstream_out_size, units_ok, Operation};

verus! {

/// Bounds the retry loops of the adapters: the engine flushes at least one
/// block of internal data per round, so a stall this long means it is not
/// making progress and the adapter reports an engine fault instead of
/// spinning forever.
const STEP_FUEL: usize = 1024;

/// Implements pull-style reading around an [`Operation`].
///
/// Input bytes are pulled from a [`ByteSource`] and stepped through the
/// operation; each `read` hands back some translated bytes. The reader
/// detects frame boundaries, reinitializes the operation between
/// concatenated frames (unless single-frame mode is set), finishes the
/// operation at end of input, and reports a truncated stream as an error.
pub struct Reader<R: ByteSource, D: Operation> {
    reader: R,
    operation: D,
    /// Whether the last step left the operation mid-frame, so that end of
    /// input would mean a truncated stream.
    needs_data: bool,
    finished: bool,
    finished_frame: bool,
    single_frame: bool,
    frames: bool,
    units: Ghost<Seq<(Seq<u8>, Seq<u8>)>>,
    delivered: Ghost<Seq<u8>>,
    src0: Ghost<Seq<u8>>,
}

impl<R: ByteSource, D: Operation> Reader<R, D> {
    /// All the bytes this reader originally had in front of it.
    pub closed spec fn src_log(&self) -> Seq<u8> {
        self.src0@
    }

    /// All the bytes handed back to the caller so far, in order.
    pub closed spec fn delivered_log(&self) -> Seq<u8> {
        self.delivered@
    }

    /// The bytes the underlying source still holds.
    pub closed spec fn src_remaining(&self) -> Seq<u8> {
        self.reader.remaining()
    }

    /// The completed exchange units so far: for a decoder, each is one
    /// complete frame paired with its decoded content.
    pub closed spec fn units_log(&self) -> Seq<(Seq<u8>, Seq<u8>)> {
        self.units@
    }

    /// The input consumed by the current (incomplete or just-completed)
    /// unit.
    pub closed spec fn unit_in(&self) -> Seq<u8> {
        self.operation.consumed()
    }

    /// The output produced by the current unit.
    pub closed spec fn unit_out(&self) -> Seq<u8> {
        self.operation.produced()
    }

    /// The dictionary of the underlying operation.
    pub closed spec fn dict(&self) -> Seq<u8> {
        self.operation.dict()
    }

    /// Whether this reader reached its terminal state: no more bytes will
    /// ever be produced, and the underlying source is not touched again.
    pub closed spec fn is_finished(&self) -> bool {
        self.finished
    }

    /// Whether single-frame mode has been set.
    pub closed spec fn single_mode(&self) -> bool {
        self.single_frame
    }

    /// The underlying source, as a value.
    pub closed spec fn source(&self) -> R {
        self.reader
    }

    /// The underlying operation, as a value.
    pub closed spec fn op(&self) -> D {
        self.operation
    }

    /// Internal consistency: the source bytes consumed so far are exactly
    /// the completed units' inputs plus the current unit's input, and the
    /// bytes delivered are the completed units' outputs plus the current
    /// unit's output.
    pub closed spec fn wf(&self) -> bool {
        &&& self.operation.inv()
        &&& self.frames == D::run_end_signal()
        &&& units_ok::<D>(self.operation.dict(), self.units@)
        &&& self.src0@ == concat_ins(self.units@) + self.operation.consumed()
            + self.reader.remaining()
        &&& self.delivered@ == concat_outs(self.units@) + self.operation.produced()
        &&& (self.finished_frame ==> self.operation.done())
        &&& (!self.finished && !self.finished_frame ==> !self.operation.done())
        &&& (!self.finished && !self.needs_data ==> (self.operation.done() || (
        self.operation.consumed().len() == 0 && self.operation.produced().len() == 0)))
        &&& (!self.frames ==> self.needs_data)
        &&& (self.finished ==> (D::rel(
            self.operation.dict(),
            self.operation.consumed(),
            self.operation.produced(),
        ) || (self.operation.consumed().len() == 0 && self.operation.produced().len() == 0)))
        &&& (self.finished ==> (self.single_frame || self.reader.remaining().len() == 0))
    }

    /// Creates a new `Reader`.
    ///
    /// `reader` will be used to pull input data for the given operation.
    pub fn new(reader: R, operation: D) -> (r: Reader<R, D>)
        requires
            operation.inv(),
            operation.consumed().len() == 0,
            operation.produced().len() == 0,
            !operation.done(),
        ensures
            r.wf(),
            r.delivered_log().len() == 0,
            r.src_log() == reader.remaining(),
            r.src_remaining() == reader.remaining(),
            r.dict() == operation.dict(),
            !r.is_finished(),
            !r.single_mode(),
            r.units_log().len() == 0,
    {
        let frames = operation.frames();
        let ghost rem = reader.remaining();
        let r = Reader {
            reader,
            operation,
            needs_data: true,
            finished: false,
            finished_frame: false,
            single_frame: false,
            frames,
            units: Ghost(Seq::empty()),
            delivered: Ghost(Seq::empty()),
            src0: Ghost(rem),
        };
        proof {
            assert(concat_ins(r.units@) =~= Seq::<u8>::empty());
            assert(concat_outs(r.units@) =~= Seq::<u8>::empty());
            assert(r.src0@ =~= concat_ins(r.units@) + r.operation.consumed()
                + r.reader.remaining());
            assert(r.delivered@ =~= concat_outs(r.units@) + r.operation.produced());
        }
        r
    }

    /// Instructs this reader to stop permanently after the first completed
    /// frame instead of continuing with the next concatenated frame.
    pub fn set_single_frame(&mut self)
        ensures
            old(self).wf() ==> final(self).wf(),
            final(self).single_mode(),
            final(self).delivered_log() == old(self).delivered_log(),
            final(self).src_log() == old(self).src_log(),
            final(self).src_remaining() == old(self).src_remaining(),
            final(self).dict() == old(self).dict(),
            final(self).is_finished() == old(self).is_finished(),
            final(self).units_log() == old(self).units_log(),
            final(self).unit_in() == old(self).unit_in(),
            final(self).unit_out() == old(self).unit_out(),
    {
        self.single_frame = true;
    }

    /// Acquire a reference to the underlying reader.
    pub fn get_ref(&self) -> (r: &R)
        ensures
            *r == self.source(),
    {
        &self.reader
    }

    /// Acquire a mutable reference to the underlying reader.
    ///
    /// Note that mutation of the reader may result in surprising results if
    /// this decoder is continued to be used.
    pub fn get_mut(&mut self) -> (r: &mut R)
        ensures
            *r == old(self).source(),
            final(self).source() == *final(r),
            final(self).delivered_log() == old(self).delivered_log(),
            final(self).src_log() == old(self).src_log(),
            final(self).dict() == old(self).dict(),
            final(self).is_finished() == old(self).is_finished(),
    {
        &mut self.reader
    }

    /// Returns a mutable reference to the underlying reader.
    pub fn reader_mut(&mut self) -> (r: &mut R)
        ensures
            *r == old(self).source(),
            final(self).source() == *final(r),
            final(self).delivered_log() == old(self).delivered_log(),
            final(self).src_log() == old(self).src_log(),
            final(self).dict() == old(self).dict(),
            final(self).is_finished() == old(self).is_finished(),
    {
        &mut self.reader
    }

    /// Returns a mutable reference to the underlying operation.
    pub fn operation_mut(&mut self) -> (r: &mut D)
        ensures
            *r == old(self).op(),
            final(self).op() == *final(r),
            final(self).delivered_log() == old(self).delivered_log(),
            final(self).src_log() == old(self).src_log(),
            final(self).is_finished() == old(self).is_finished(),
    {
        &mut self.operation
    }

    /// Returns the inner source.
    pub fn finish(self) -> (r: R)
        ensures
            r == self.source(),
    {
        self.reader
    }

    /// The accounting that `wf` maintains, stated for callers: the source
    /// bytes consumed so far split into completed units (each satisfying the
    /// operation's relation) plus the input of the unit in progress, and the
    /// delivered bytes are exactly the corresponding outputs; once finished,
    /// the last unit is complete too (or empty), and a reader not in
    /// single-frame mode finishes only at the true end of its source.
    pub proof fn accounting(&self)
        requires
            self.wf(),
        ensures
            units_ok::<D>(self.dict(), self.units_log()),
            self.src_log() == concat_ins(self.units_log()) + self.unit_in()
                + self.src_remaining(),
            self.delivered_log() == concat_outs(self.units_log()) + self.unit_out(),
            self.is_finished() ==> (D::rel(self.dict(), self.unit_in(), self.unit_out()) || (
            self.unit_in().len() == 0 && self.unit_out().len() == 0)),
            self.is_finished() ==> (self.single_mode() || self.src_remaining().len() == 0),
    {
    }

    /// At a completed frame: record the finished exchange unit and reset
    /// the operation so the next concatenated frame starts afresh.
    fn next_frame(&mut self) -> (r: Result<(), Error>)
        requires
            old(self).wf(),
            old(self).finished_frame,
            !old(self).finished,
        ensures
            final(self).delivered_log() == old(self).delivered_log(),
            final(self).src_log() == old(self).src_log(),
            final(self).src_remaining() == old(self).src_remaining(),
            final(self).dict() == old(self).dict(),
            final(self).single_mode() == old(self).single_mode(),
            final(self).is_finished() == old(self).is_finished(),
            match r {
                Ok(()) => final(self).wf() && !final(self).finished_frame && !final(self).op().done() && final(self).needs_data == old(self).needs_data,
                Err(_) => final(self).wf(),
            },
    {
        let ghost ci = self.operation.consumed();
        let ghost co = self.operation.produced();
        proof {
            self.operation.done_implies_rel();
        }
        match self.operation.reinit() {
            Ok(()) => {
                proof {
                    lemma_concat_ins_push(self.units@, (ci, co));
                    let ghost olds = self.units@;
                    self.units@ = self.units@.push((ci, co));
                    assert forall|i: int| 0 <= i < self.units@.len() implies #[trigger] D::rel(
                        self.operation.dict(),
                        self.units@[i].0,
                        self.units@[i].1,
                    ) by {
                        if i < olds.len() {
                            assert(D::rel(self.operation.dict(), olds[i].0, olds[i].1));
                        }
                    }
                    assert(self.src0@ =~= concat_ins(self.units@) + self.operation.consumed()
                        + self.reader.remaining());
                    assert(self.delivered@ =~= concat_outs(self.units@)
                        + self.operation.produced());
                }
                self.finished_frame = false;
                Ok(())
            },
            Err(e) => Err(e),
        }
    }

    /// Performs the job of a `read`: hands back at most `out_cap` translated
    /// bytes. An empty result (for a non-zero `out_cap`) means the stream is
    /// cleanly finished. End of input in the middle of a frame is the
    /// truncated-stream error, never a silent short read.
    ///
    /// At the end of input, trailing bytes are surfaced first and the
    /// terminal state is recorded in the same call in which the operation
    /// reports nothing left to write; after that, every call returns no
    /// bytes and leaves the source untouched.
    pub fn read(&mut self, out_cap: usize) -> (r: Result<Vec<u8>, Error>)
        requires
            old(self).wf(),
        ensures
            final(self).src_log() == old(self).src_log(),
            final(self).dict() == old(self).dict(),
            final(self).single_mode() == old(self).single_mode(),
            final(self).src_remaining().len() <= old(self).src_remaining().len(),
            match r {
                Ok(v) => final(self).wf() && v@.len() <= out_cap && final(self).delivered_log()
                    == old(self).delivered_log() + v@ && (old(self).is_finished() ==> (v@.len()
                    == 0 && final(self).is_finished() && final(self).src_remaining() == old(self).src_remaining())) && (v@.len() == 0 && out_cap > 0 ==> final(self).is_finished()),
                Err(_) => final(self).wf() && final(self).delivered_log() == old(self).delivered_log() && final(self).is_finished() == old(self).is_finished(),
            },
    {
        if self.finished {
            return Ok(Vec::new());
        }
        if out_cap == 0 {
            return Ok(Vec::new());
        }
        if self.finished_frame {
            // The previous call completed a frame. In single-frame mode the
            // stream ends here; otherwise start the next frame afresh.
            if self.single_frame {
                proof {
                    self.operation.done_implies_rel();
                }
                self.finished = true;
                return Ok(Vec::new());
            }
            match self.next_frame() {
                Ok(()) => {},
                Err(e) => {
                    return Err(e);
                },
            }
        }
        let mut fuel: usize = STEP_FUEL;
        loop
            invariant
                self.wf(),
                !self.finished,
                !self.finished_frame,
                !self.operation.done(),
                !old(self).is_finished(),
                self.src_remaining().len() <= old(self).src_remaining().len(),
                out_cap > 0,
                self.delivered_log() == old(self).delivered_log(),
                self.src_log() == old(self).src_log(),
                self.dict() == old(self).dict(),
                self.single_mode() == old(self).single_mode(),
            decreases self.reader.remaining().len(), fuel,
        {
            let chunk = match self.reader.peek() {
                Ok(c) => c,
                Err(e) => {
                    return Err(e);
                },
            };
            if chunk.len() == 0 {
                // True end of input: finish the stream. `needs_data` tells
                // the operation whether this is a clean point.
                let clean = !self.needs_data;
                match self.operation.finish(out_cap, clean) {
                    Ok((rem, out)) => {
                        proof {
                            self.delivered@ = self.delivered@ + out@;
                            assert(self.delivered@ =~= concat_outs(self.units@)
                                + self.operation.produced());
                        }
                        if rem == 0 {
                            self.finished = true;
                            return Ok(out);
                        }
                        if out.len() == 0 {
                            // Nonzero remainder, nothing written, input
                            // exhausted: a truncated or incomplete frame.
                            return Err(Error::UnexpectedEof);
                        }
                        // More trailing output to drain on the next call.
                        self.needs_data = true;
                        return Ok(out);
                    },
                    Err(e) => {
                        return Err(e);
                    },
                }
            }
            let ghost rem0 = self.reader.remaining();
            match self.operation.run(chunk.as_slice(), out_cap) {
                Ok((st, out)) => {
                    proof {
                        assert(chunk@.take(st.bytes_read as int) =~= rem0.take(
                            st.bytes_read as int,
                        ));
                    }
                    self.reader.advance(st.bytes_read);
                    proof {
                        assert(rem0 =~= rem0.take(st.bytes_read as int) + rem0.skip(
                            st.bytes_read as int,
                        ));
                        assert(self.src0@ =~= concat_ins(self.units@) + self.operation.consumed()
                            + self.reader.remaining());
                        self.delivered@ = self.delivered@ + out@;
                        assert(self.delivered@ =~= concat_outs(self.units@)
                            + self.operation.produced());
                    }
                    if self.frames {
                        self.needs_data = st.remaining != 0;
                    }
                    if self.frames && st.remaining == 0 {
                        // A frame just completed exactly here.
                        self.finished_frame = true;
                        if self.single_frame {
                            proof {
                                self.operation.done_implies_rel();
                            }
                            self.finished = true;
                            return Ok(out);
                        }
                        if out.len() > 0 {
                            return Ok(out);
                        }
                        if st.bytes_read == 0 {
                            // The engine reported a frame boundary without
                            // consuming or producing anything: no progress.
                            return Err(Error::Codec(0));
                        }
                        // The frame ended with nothing left to hand out:
                        // move on to the next frame within this call.
                        match self.next_frame() {
                            Ok(()) => {},
                            Err(e) => {
                                return Err(e);
                            },
                        }
                    } else {
                        if out.len() > 0 {
                            return Ok(out);
                        }
                    }
                    if st.bytes_read == 0 {
                        if fuel == 0 {
                            // The engine is consuming nothing and producing
                            // nothing: report the stall as an engine fault.
                            return Err(Error::Codec(0));
                        }
                        fuel = fuel - 1;
                    } else {
                        fuel = STEP_FUEL;
                    }
                },
                Err(e) => {
                    return Err(e);
                },
            }
        }
    }
}

/// Implements push-style writing around an [`Operation`].
///
/// Caller bytes are stepped through the operation; the translated bytes are
/// staged in a growable buffer and drained to a [`ByteSink`], retrying
/// partial sends from the correct offset. `finish` closes the frame and
/// drains everything; finishing twice is a no-op.
pub struct Writer<W: ByteSink, D: Operation> {
    writer: W,
    operation: D,
    offset: usize,
    buffer: Vec<u8>,
    finished: bool,
    clean: bool,
    frames: bool,
    cap: usize,
    base: Ghost<Seq<u8>>,
}

impl<W: ByteSink, D: Operation> Writer<W, D> {
    /// The bytes the sink held before this writer started.
    pub closed spec fn base(&self) -> Seq<u8> {
        self.base@
    }

    /// All caller bytes accepted by `write` so far.
    pub closed spec fn written(&self) -> Seq<u8> {
        self.operation.consumed()
    }

    /// All translated bytes the operation has emitted so far (staged or
    /// already at the sink).
    pub closed spec fn emitted(&self) -> Seq<u8> {
        self.operation.produced()
    }

    /// Everything the underlying sink has accepted so far.
    pub closed spec fn sunk(&self) -> Seq<u8> {
        self.writer.received()
    }

    /// The staged bytes not yet drained to the sink.
    pub closed spec fn staged(&self) -> Seq<u8> {
        self.buffer@.skip(self.offset as int)
    }

    /// The whole staging buffer, drained part included.
    pub closed spec fn staging(&self) -> Seq<u8> {
        self.buffer@
    }

    /// How much of the staging buffer has already been drained.
    pub closed spec fn drained(&self) -> int {
        self.offset as int
    }

    /// The dictionary of the underlying operation.
    pub closed spec fn dict(&self) -> Seq<u8> {
        self.operation.dict()
    }

    /// Whether `finish` has completed: the frame footer is fully staged and
    /// drained, and no further bytes will be produced.
    pub closed spec fn is_finished(&self) -> bool {
        self.finished
    }

    /// Whether the operation's current unit is complete.
    pub closed spec fn unit_done(&self) -> bool {
        self.operation.done()
    }

    /// The underlying sink, as a value.
    pub closed spec fn sink(&self) -> W {
        self.writer
    }

    /// The underlying operation, as a value.
    pub closed spec fn op(&self) -> D {
        self.operation
    }

    /// Internal consistency: every emitted byte is either already at the
    /// sink or still staged, in order and without loss.
    pub closed spec fn wf(&self) -> bool {
        &&& self.operation.inv()
        &&& self.frames == D::run_end_signal()
        &&& self.cap >= 1
        &&& self.offset <= self.buffer@.len()
        &&& self.base@ + self.operation.produced() == self.writer.received() + self.buffer@.skip(
            self.offset as int,
        )
        &&& (self.clean ==> (self.operation.done() || (self.operation.consumed().len() == 0
            && self.operation.produced().len() == 0)))
        &&& (self.finished ==> (D::rel(
            self.operation.dict(),
            self.operation.consumed(),
            self.operation.produced(),
        ) || (self.operation.consumed().len() == 0 && self.operation.produced().len() == 0)))
    }

    /// Returns a new `Writer` staging into a buffer of the engine's
    /// recommended size.
    pub fn new(writer: W, operation: D) -> (r: Writer<W, D>)
        requires
            operation.inv(),
            operation.consumed().len() == 0,
            operation.produced().len() == 0,
            !operation.done(),
        ensures
            r.wf(),
            r.written().len() == 0,
            r.emitted().len() == 0,
            r.base() == writer.received(),
            r.sunk() == writer.received(),
            r.dict() == operation.dict(),
            !r.is_finished(),
            !r.unit_done(),
    {
        let cap = cstream_out_size();
        let frames = operation.frames();
        let ghost b = writer.received();
        let r = Writer {
            writer,
            operation,
            offset: 0,
            buffer: Vec::new(),
            finished: false,
            clean: true,
            frames,
            cap,
            base: Ghost(b),
        };
        proof {
            assert(r.base@ + r.operation.produced() =~= r.writer.received() + r.buffer@.skip(
                r.offset as int,
            ));
        }
        r
    }

    /// Acquires a reference to the underlying writer.
    pub fn get_ref(&self) -> (r: &W)
        ensures
            *r == self.sink(),
    {
        &self.writer
    }

    /// Acquires a mutable reference to the underlying writer.
    ///
    /// Note that mutation of the writer may result in surprising results if
    /// this encoder is continued to be used.
    pub fn get_mut(&mut self) -> (r: &mut W)
        ensures
            *r == old(self).sink(),
            final(self).sink() == *final(r),
            final(self).written() == old(self).written(),
            final(self).emitted() == old(self).emitted(),
            final(self).base() == old(self).base(),
            final(self).dict() == old(self).dict(),
            final(self).is_finished() == old(self).is_finished(),
    {
        &mut self.writer
    }

    /// Returns the inner writer.
    pub fn into_inner(self) -> (r: W)
        ensures
            r == self.sink(),
            r.received() == self.sunk(),
    {
        self.writer
    }

    /// The bytes currently staged and not yet drained to the sink.
    pub fn buffer(&self) -> (r: &[u8])
        ensures
            r@ == self.staging(),
    {
        self.buffer.as_slice()
    }

    /// The position within the staging buffer up to which everything has
    /// been drained to the sink.
    pub fn offset(&self) -> (r: usize)
        ensures
            r as int == self.drained(),
    {
        self.offset
    }

    /// Drains the staged bytes to the sink, retrying partial sends from the
    /// correct position. A sink that accepts zero bytes of a non-empty
    /// buffer is the fatal `WriteZero` error.
    fn write_from_offset(&mut self) -> (r: Result<(), Error>)
        requires
            old(self).wf(),
        ensures
            final(self).wf(),
            final(self).written() == old(self).written(),
            final(self).emitted() == old(self).emitted(),
            final(self).base() == old(self).base(),
            final(self).dict() == old(self).dict(),
            final(self).is_finished() == old(self).is_finished(),
            final(self).unit_done() == old(self).unit_done(),
            final(self).op() == old(self).op(),
            old(self).staged().len() == 0 ==> (r == Ok::<(), Error>(()) && final(self).sunk()
                == old(self).sunk()),
            match r {
                Ok(()) => final(self).staged().len() == 0,
                Err(_) => true,
            },
    {
        while self.offset < self.buffer.len()
            invariant
                self.wf(),
                self.operation == old(self).op(),
                self.base@ == old(self).base(),
                self.finished == old(self).is_finished(),
                self.clean == old(self).clean,
                self.frames == old(self).frames,
                self.cap == old(self).cap,
                old(self).staged().len() == 0 ==> (self.staged().len() == 0 && self.sunk() == old(self).sunk()),
            decreases self.buffer@.len() - self.offset,
        {
            let len = self.buffer.len();
            let ghost pending = self.buffer@.skip(self.offset as int);
            let ghost rec = self.writer.received();
            let chunk = vstd::slice::slice_subrange(self.buffer.as_slice(), self.offset, len);
            proof {
                assert(pending =~= chunk@);
            }
            match self.writer.accept(chunk) {
                Ok(consumed) => {
                    if consumed == 0 {
                        return Err(Error::WriteZero);
                    }
                    self.offset = self.offset + consumed;
                    proof {
                        assert(self.writer.received() =~= rec + pending.take(consumed as int));
                        assert(self.buffer@.skip(self.offset as int) =~= pending.skip(
                            consumed as int,
                        ));
                        assert(self.writer.received() + self.buffer@.skip(self.offset as int)
                            =~= rec + pending);
                    }
                },
                Err(e) => {
                    return Err(e);
                },
            }
        }
        Ok(())
    }

    /// Stages as much of `buf` as the operation accepts, draining previously
    /// staged output first. Returns how many bytes of `buf` were genuinely
    /// handed to the operation: the caller must not resubmit them.
    pub fn write(&mut self, buf: &[u8]) -> (r: Result<usize, Error>)
        requires
            old(self).wf(),
            !old(self).is_finished(),
            !old(self).unit_done(),
        ensures
            final(self).base() == old(self).base(),
            final(self).dict() == old(self).dict(),
            match r {
                Ok(n) => final(self).wf() && n <= buf@.len() && (n > 0 || buf@.len() == 0 || final(self).unit_done()) && final(self).written() == old(self).written() + buf@.take(
                    n as int,
                ) && !final(self).is_finished() && (!D::run_end_signal() ==> !final(self).unit_done()),
                Err(_) => final(self).wf() && final(self).written() == old(self).written()
                    && !final(self).is_finished(),
            },
    {
        let mut fuel: usize = STEP_FUEL;
        loop
            invariant
                self.wf(),
                !self.finished,
                !self.operation.done(),
                self.written() == old(self).written(),
                self.base() == old(self).base(),
                self.dict() == old(self).dict(),
            decreases fuel,
        {
            match self.write_from_offset() {
                Ok(()) => {},
                Err(e) => {
                    return Err(e);
                },
            }
            match self.operation.run(buf, self.cap) {
                Ok((st, out)) => {
                    proof {
                        assert(self.buffer@.skip(self.offset as int).len() == 0);
                        assert(self.base@ + self.operation.produced() =~= self.writer.received()
                            + out@.skip(0));
                    }
                    self.buffer = out;
                    self.offset = 0;
                    if self.frames {
                        self.clean = st.remaining == 0;
                    } else if st.bytes_read > 0 || self.buffer.len() > 0 {
                        self.clean = false;
                    }
                    if self.frames && st.remaining == 0 {
                        // The unit completed: stop stepping; the caller sees
                        // how much input was taken.
                        return Ok(st.bytes_read);
                    }
                    if st.bytes_read != 0 || buf.len() == 0 {
                        return Ok(st.bytes_read);
                    }
                    if fuel == 0 {
                        // The engine is consuming nothing and producing no
                        // end of its internal data: report the stall.
                        return Err(Error::Codec(0));
                    }
                    fuel = fuel - 1;
                },
                Err(e) => {
                    return Err(e);
                },
            }
        }
    }

    /// Writes the whole of `buf` through the operation, stepping as many
    /// times as needed. Only for operations whose unit cannot complete from
    /// `run` alone (an encoder's frame closes only at `finish`).
    pub fn write_all(&mut self, buf: &[u8]) -> (r: Result<(), Error>)
        requires
            old(self).wf(),
            !old(self).is_finished(),
            !old(self).unit_done(),
            !D::run_end_signal(),
        ensures
            final(self).base() == old(self).base(),
            final(self).dict() == old(self).dict(),
            match r {
                Ok(()) => final(self).wf() && final(self).written() == old(self).written() + buf@
                    && !final(self).is_finished() && !final(self).unit_done(),
                Err(_) => final(self).wf() && !final(self).is_finished(),
            },
    {
        let mut done_n: usize = 0;
        while done_n < buf.len()
            invariant
                self.wf(),
                !self.finished,
                !self.operation.done(),
                !D::run_end_signal(),
                done_n <= buf@.len(),
                self.written() == old(self).written() + buf@.take(done_n as int),
                self.base() == old(self).base(),
                self.dict() == old(self).dict(),
            decreases buf@.len() - done_n,
        {
            let chunk = vstd::slice::slice_subrange(buf, done_n, buf.len());
            match self.write(chunk) {
                Ok(n) => {
                    proof {
                        assert(old(self).written() + buf@.take(done_n as int) + chunk@.take(
                            n as int,
                        ) =~= old(self).written() + buf@.take(done_n + n));
                    }
                    done_n = done_n + n;
                },
                Err(e) => {
                    return Err(e);
                },
            }
        }
        proof {
            assert(buf@.take(done_n as int) =~= buf@);
        }
        Ok(())
    }

    /// Drains pending output, then asks the operation to flush its internal
    /// buffers until none remain: all output produced so far reaches the
    /// sink. Does not close the frame.
    pub fn flush(&mut self) -> (r: Result<(), Error>)
        requires
            old(self).wf(),
            old(self).is_finished() || !old(self).unit_done(),
        ensures
            final(self).base() == old(self).base(),
            final(self).dict() == old(self).dict(),
            final(self).written() == old(self).written(),
            final(self).is_finished() == old(self).is_finished(),
            match r {
                Ok(()) => final(self).wf() && final(self).sunk() == final(self).base() + final(self).emitted(),
                Err(_) => final(self).wf(),
            },
    {
        let mut fuel: usize = STEP_FUEL;
        loop
            invariant
                self.wf(),
                self.finished == old(self).is_finished(),
                self.written() == old(self).written(),
                self.base() == old(self).base(),
                self.dict() == old(self).dict(),
                self.finished || !self.operation.done(),
            decreases fuel,
        {
            match self.write_from_offset() {
                Ok(()) => {},
                Err(e) => {
                    return Err(e);
                },
            }
            proof {
                assert(self.buffer@.skip(self.offset as int).len() == 0);
                assert(self.sunk() =~= self.base() + self.emitted());
            }
            if self.finished {
                return Ok(());
            }
            match self.operation.flush(self.cap) {
                Ok((rem, out)) => {
                    proof {
                        assert(self.base@ + self.operation.produced() =~= self.writer.received()
                            + out@.skip(0));
                    }
                    self.buffer = out;
                    self.offset = 0;
                    if self.buffer.len() > 0 {
                        self.clean = false;
                    }
                    if rem == 0 {
                        match self.write_from_offset() {
                            Ok(()) => {},
                            Err(e) => {
                                return Err(e);
                            },
                        }
                        proof {
                            assert(self.buffer@.skip(self.offset as int).len() == 0);
                            assert(self.sunk() =~= self.base() + self.emitted());
                        }
                        return Ok(());
                    }
                    if fuel == 0 {
                        return Err(Error::Codec(0));
                    }
                    fuel = fuel - 1;
                },
                Err(e) => {
                    return Err(e);
                },
            }
        }
    }

    /// Closes the frame: drains pending output and steps the operation's
    /// `finish` until it reports nothing left, at which point the sink holds
    /// one complete unit. Calling `finish` again afterwards succeeds without
    /// writing further bytes.
    pub fn finish(&mut self) -> (r: Result<(), Error>)
        requires
            old(self).wf(),
        ensures
            final(self).base() == old(self).base(),
            final(self).dict() == old(self).dict(),
            final(self).written() == old(self).written(),
            old(self).is_finished() ==> (final(self).is_finished() && final(self).emitted() == old(self).emitted()),
            (old(self).is_finished() && old(self).staged().len() == 0) ==> (r == Ok::<(), Error>(
                (),
            ) && final(self).sunk() == old(self).sunk()),
            match r {
                Ok(()) => final(self).wf() && final(self).is_finished() && final(self).staged().len() == 0 && final(self).sunk() == final(self).base() + final(self).emitted() && (D::rel(
                    final(self).dict(),
                    final(self).written(),
                    final(self).emitted(),
                ) || (final(self).written().len() == 0 && final(self).emitted().len() == 0)),
                Err(_) => final(self).wf(),
            },
    {
        let mut fuel: usize = STEP_FUEL;
        loop
            invariant
                self.wf(),
                self.written() == old(self).written(),
                self.base() == old(self).base(),
                self.dict() == old(self).dict(),
                old(self).is_finished() ==> (self.finished && self.emitted() == old(self).emitted()),
                (old(self).is_finished() && old(self).staged().len() == 0) ==> (
                self.staged().len() == 0 && self.sunk() == old(self).sunk()),
            decreases fuel,
        {
            match self.write_from_offset() {
                Ok(()) => {},
                Err(e) => {
                    return Err(e);
                },
            }
            if self.finished {
                proof {
                    assert(self.buffer@.skip(self.offset as int).len() == 0);
                    assert(self.sunk() =~= self.base() + self.emitted());
                }
                return Ok(());
            }
            let clean = self.clean;
            self.clean = false;
            match self.operation.finish(self.cap, clean) {
                Ok((rem, out)) => {
                    proof {
                        assert(self.buffer@.skip(self.offset as int).len() == 0);
                        assert(self.base@ + self.operation.produced() =~= self.writer.received()
                            + out@.skip(0));
                    }
                    self.buffer = out;
                    self.offset = 0;
                    if rem == 0 {
                        self.finished = true;
                        match self.write_from_offset() {
                            Ok(()) => {},
                            Err(e) => {
                                return Err(e);
                            },
                        }
                        proof {
                            assert(self.buffer@.skip(self.offset as int).len() == 0);
                            assert(self.sunk() =~= self.base() + self.emitted());
                        }
                        return Ok(());
                    }
                    if fuel == 0 {
                        return Err(Error::Codec(0));
                    }
                    fuel = fuel - 1;
                },
                Err(e) => {
                    return Err(e);
                },
            }
        }
    }
}

} // verus!

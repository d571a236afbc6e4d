use vstd::prelude::*;

use crate::errors::Error;
use crate::frames::{concat_ins, concat_outs, frame_content, frame_units_ok};
use crate::io::ByteSource;
use crate::raw;
use crate::raw::Operation;
use crate::zio;

verus! {

/// A decompressing decoder around any buffered byte source.
///
/// Reading from it yields the decoded contents of the complete frames that
/// the source holds, one `read` worth at a time.
pub struct Decoder<R: ByteSource> {
    reader: zio::Reader<R, raw::Decoder>,
}

impl<R: ByteSource> Decoder<R> {
    /// Internal consistency of the underlying reader.
    pub closed spec fn wf(&self) -> bool {
        self.reader.wf()
    }

    /// All the bytes the source originally held.
    pub closed spec fn src_log(&self) -> Seq<u8> {
        self.reader.src_log()
    }

    /// The bytes of the source not consumed yet.
    pub closed spec fn src_remaining(&self) -> Seq<u8> {
        self.reader.src_remaining()
    }

    /// All decoded bytes handed back so far.
    pub closed spec fn delivered_log(&self) -> Seq<u8> {
        self.reader.delivered_log()
    }

    /// The complete frames decoded so far, each with its content.
    pub closed spec fn units_log(&self) -> Seq<(Seq<u8>, Seq<u8>)> {
        self.reader.units_log()
    }

    /// The consumed bytes of the frame in progress.
    pub closed spec fn unit_in(&self) -> Seq<u8> {
        self.reader.unit_in()
    }

    /// The decoded bytes of the frame in progress.
    pub closed spec fn unit_out(&self) -> Seq<u8> {
        self.reader.unit_out()
    }

    /// The dictionary this decoder was primed with.
    pub closed spec fn dict(&self) -> Seq<u8> {
        self.reader.dict()
    }

    /// Whether the stream has cleanly ended.
    pub closed spec fn is_finished(&self) -> bool {
        self.reader.is_finished()
    }

    /// Whether single-frame mode is set.
    pub closed spec fn single_mode(&self) -> bool {
        self.reader.single_mode()
    }

    /// The underlying source, as a value.
    pub closed spec fn source(&self) -> R {
        self.reader.source()
    }

    /// Returns a new stream decoder without a dictionary.
    pub fn new(reader: R) -> (r: Result<Decoder<R>, Error>)
        ensures
            match r {
                Ok(d) => d.wf() && d.src_log() == reader.remaining() && d.src_remaining()
                    == reader.remaining() && d.delivered_log().len() == 0 && d.dict().len() == 0
                    && !d.is_finished() && !d.single_mode(),
                Err(_) => true,
            },
    {
        let empty: Vec<u8> = Vec::new();
        Decoder::with_dictionary(reader, empty.as_slice())
    }

    /// Returns a new stream decoder primed with the given dictionary, which
    /// must be the one the data was compressed with.
    pub fn with_dictionary(reader: R, dictionary: &[u8]) -> (r: Result<Decoder<R>, Error>)
        ensures
            match r {
                Ok(d) => d.wf() && d.src_log() == reader.remaining() && d.src_remaining()
                    == reader.remaining() && d.delivered_log().len() == 0 && d.dict()
                    == dictionary@ && !d.is_finished() && !d.single_mode(),
                Err(_) => true,
            },
    {
        match raw::Decoder::with_dictionary(dictionary) {
            Ok(op) => Ok(Decoder { reader: zio::Reader::new(reader, op) }),
            Err(e) => Err(e),
        }
    }

    /// Instructs this decoder to stop after reading the first frame.
    pub fn set_single_frame(&mut self)
        ensures
            old(self).wf() ==> final(self).wf(),
            final(self).single_mode(),
            final(self).delivered_log() == old(self).delivered_log(),
            final(self).src_log() == old(self).src_log(),
            final(self).src_remaining() == old(self).src_remaining(),
            final(self).dict() == old(self).dict(),
            final(self).is_finished() == old(self).is_finished(),
    {
        self.reader.set_single_frame();
    }

    /// Acquire a reference to the underlying source.
    pub fn get_ref(&self) -> (r: &R)
        ensures
            *r == self.source(),
    {
        self.reader.get_ref()
    }

    /// Acquire a mutable reference to the underlying source.
    ///
    /// Note that mutation of the source may result in surprising results if
    /// this decoder is continued to be used.
    pub fn get_mut(&mut self) -> (r: &mut R)
        ensures
            *r == old(self).source(),
            final(self).source() == *final(r),
            final(self).delivered_log() == old(self).delivered_log(),
            final(self).src_log() == old(self).src_log(),
            final(self).dict() == old(self).dict(),
            final(self).is_finished() == old(self).is_finished(),
    {
        self.reader.get_mut()
    }

    /// Returns the inner source.
    pub fn finish(self) -> (r: R)
        ensures
            r == self.source(),
    {
        self.reader.finish()
    }

    /// Hands back at most `out_cap` decoded bytes. An empty result (for a
    /// non-zero `out_cap`) means the stream cleanly ended; a source that
    /// ends mid-frame gives the truncated-stream error.
    pub fn read(&mut self, out_cap: usize) -> (r: Result<Vec<u8>, Error>)
        requires
            old(self).wf(),
        ensures
            final(self).src_log() == old(self).src_log(),
            final(self).dict() == old(self).dict(),
            final(self).single_mode() == old(self).single_mode(),
            final(self).src_remaining().len() <= old(self).src_remaining().len(),
            match r {
                Ok(v) => final(self).wf() && v@.len() <= out_cap && final(self).delivered_log()
                    == old(self).delivered_log() + v@ && (old(self).is_finished() ==> (v@.len()
                    == 0 && final(self).is_finished() && final(self).src_remaining() == old(self).src_remaining())) && (v@.len() == 0 && out_cap > 0 ==> final(self).is_finished()),
                Err(_) => final(self).wf() && final(self).delivered_log() == old(self).delivered_log() && final(self).is_finished() == old(self).is_finished(),
            },
    {
        self.reader.read(out_cap)
    }

    /// The accounting of the decoding so far: the consumed source bytes are
    /// the decoded frames plus the frame in progress, and the delivered
    /// bytes are exactly their contents; a finished decoder's last frame is
    /// complete too (or nothing of it was consumed), and a decoder not in
    /// single-frame mode finishes only at the true end of its source.
    pub proof fn accounting(&self)
        requires
            self.wf(),
        ensures
            frame_units_ok(self.dict(), self.units_log()),
            self.src_log() == concat_ins(self.units_log()) + self.unit_in()
                + self.src_remaining(),
            self.delivered_log() == concat_outs(self.units_log()) + self.unit_out(),
            self.is_finished() ==> (frame_content(self.unit_in(), self.dict()) == Some(
                self.unit_out(),
            ) || (self.unit_in().len() == 0 && self.unit_out().len() == 0)),
            self.is_finished() ==> (self.single_mode() || self.src_remaining().len() == 0),
    {
        self.reader.accounting();
        assert forall|i: int| 0 <= i < self.units_log().len() implies frame_content(
            #[trigger] self.units_log()[i].0,
            self.dict(),
        ) == Some(self.units_log()[i].1) by {
            assert(raw::Decoder::rel(
                self.dict(),
                self.units_log()[i].0,
                self.units_log()[i].1,
            ));
        }
    }
}

} // verus!

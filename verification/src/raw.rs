use vstd::prelude::*;

use crate::errors::Error;
use crate::frames::frame_content;

verus! {

/// Describes the result of a compression/decompression step.
pub struct Status {
    /// Number of bytes expected for next input (this is just a hint), or,
    /// for `flush`/`finish`, the number of bytes still held internally.
    pub remaining: usize,
    /// Number of bytes read from the input.
    pub bytes_read: usize,
    /// Number of bytes written to the output.
    pub bytes_written: usize,
}

/// Represents an abstract compression/decompression operation.
///
/// An operation is a stepping translator: each step takes some input bytes
/// and hands back some output bytes. Its specification is a transcript: the
/// bytes `consumed` and `produced` since the operation was (re)initialized,
/// the priming `dict`, and whether the current exchange unit is `done`.
/// `rel` states what a completed exchange unit means; it is the semantic
/// bridge between an encoder and a decoder.
pub trait Operation: Sized {
    /// Internal well-formedness of the operation's state.
    spec fn inv(&self) -> bool;

    /// The dictionary this operation was primed with (empty if none).
    spec fn dict(&self) -> Seq<u8>;

    /// All input bytes consumed since the last (re)initialization.
    spec fn consumed(&self) -> Seq<u8>;

    /// All output bytes handed back since the last (re)initialization.
    spec fn produced(&self) -> Seq<u8>;

    /// The current exchange unit is complete: `consumed` forms one whole unit
    /// and `produced` is its entire translation.
    spec fn done(&self) -> bool;

    /// What a completed exchange unit means: how the consumed input relates
    /// to the produced output under the dictionary.
    spec fn rel(dict: Seq<u8>, inp: Seq<u8>, outp: Seq<u8>) -> bool;

    /// Whether a zero hint from `run` signals that a unit just completed
    /// (true for decoders: a zero hint means a frame just ended).
    spec fn run_end_signal() -> bool;

    /// A completed unit always satisfies the operation's relation.
    proof fn done_implies_rel(&self)
        requires
            self.inv(),
            self.done(),
        ensures
            Self::rel(self.dict(), self.consumed(), self.produced()),
    ;

    /// Exec mirror of `run_end_signal`.
    fn frames(&self) -> (r: bool)
        ensures
            r == Self::run_end_signal(),
    ;

    /// Performs a single step: consumes some prefix of `input` and produces
    /// at most `out_cap` bytes of output. Returns a hint for the next input
    /// size (0 from a decoder signals that a frame just completed).
    fn run(&mut self, input: &[u8], out_cap: usize) -> (r: Result<(Status, Vec<u8>), Error>)
        requires
            old(self).inv(),
            !old(self).done(),
        ensures
            match r {
                Ok((st, out)) => final(self).inv() && final(self).dict() == old(self).dict()
                    && st.bytes_read <= input@.len() && st.bytes_written == out@.len()
                    && out@.len() <= out_cap && final(self).consumed() == old(self).consumed()
                    + input@.take(st.bytes_read as int) && final(self).produced() == old(self).produced() + out@ && (if st.remaining == 0 && Self::run_end_signal() {
                    final(self).done()
                } else {
                    final(self).done() == old(self).done()
                }),
                Err(_) => final(self).inv() && final(self).dict() == old(self).dict() && final(self).consumed() == old(self).consumed() && final(self).produced() == old(self).produced() && final(self).done() == old(self).done(),
            },
    ;

    /// Pushes internally buffered output out, without closing the unit.
    /// Returns the number of bytes still buffered internally.
    fn flush(&mut self, out_cap: usize) -> (r: Result<(usize, Vec<u8>), Error>)
        requires
            old(self).inv(),
            !old(self).done(),
        ensures
            match r {
                Ok((rem, out)) => final(self).inv() && final(self).dict() == old(self).dict()
                    && out@.len() <= out_cap && final(self).consumed() == old(self).consumed()
                    && final(self).produced() == old(self).produced() + out@ && final(self).done()
                    == old(self).done(),
                Err(_) => final(self).inv() && final(self).dict() == old(self).dict() && final(self).consumed() == old(self).consumed() && final(self).produced() == old(self).produced() && final(self).done() == old(self).done(),
            },
    ;

    /// Finishes the unit: writes any closing footer (encoder) or checks that
    /// the input ended at a clean point (decoder). Returns the number of
    /// bytes still to write; keep calling until it returns 0.
    ///
    /// `clean` tells the operation whether the caller observed a clean end of
    /// input: a completed unit, or nothing consumed at all.
    fn finish(&mut self, out_cap: usize, clean: bool) -> (r: Result<(usize, Vec<u8>), Error>)
        requires
            old(self).inv(),
            clean ==> old(self).done() || (old(self).consumed().len() == 0 && old(self).produced().len() == 0),
        ensures
            match r {
                Ok((rem, out)) => final(self).inv() && final(self).dict() == old(self).dict()
                    && out@.len() <= out_cap && final(self).consumed() == old(self).consumed()
                    && final(self).produced() == old(self).produced() + out@ && (rem != 0 ==> final(self).done() == old(self).done()) && (rem == 0 ==> (Self::rel(
                    final(self).dict(),
                    final(self).consumed(),
                    final(self).produced(),
                ) || (final(self).consumed().len() == 0 && final(self).produced().len() == 0))),
                Err(_) => final(self).inv() && final(self).dict() == old(self).dict() && final(self).consumed() == old(self).consumed() && final(self).produced() == old(self).produced() && final(self).done() == old(self).done(),
            },
    ;

    /// Resets per-unit state so the same operation can process another unit
    /// (decoder: the next concatenated frame) without reallocating.
    fn reinit(&mut self) -> (r: Result<(), Error>)
        requires
            old(self).inv(),
        ensures
            match r {
                Ok(()) => final(self).inv() && final(self).dict() == old(self).dict() && final(self).consumed().len() == 0 && final(self).produced().len() == 0 && !final(self).done(),
                Err(_) => final(self).inv() && final(self).dict() == old(self).dict() && final(self).consumed() == old(self).consumed() && final(self).produced() == old(self).produced() && final(self).done() == old(self).done(),
            },
    ;
}

/// Every unit in the list is a completed exchange of the operation `D`:
/// its input and output halves satisfy the operation's relation.
pub open spec fn units_ok<D: Operation>(dict: Seq<u8>, units: Seq<(Seq<u8>, Seq<u8>)>) -> bool {
    forall|i: int| 0 <= i < units.len() ==> #[trigger] D::rel(dict, units[i].0, units[i].1)
}

#[verifier::external_type_specification]
#[verifier::external_body]
pub struct ExCCtx<'a>(zstd_safe::CCtx<'a>);

#[verifier::external_type_specification]
#[verifier::external_body]
pub struct ExDCtx<'a>(zstd_safe::DCtx<'a>);

/// Relies on zstd_safe::CCtx::out_size (ZSTD_CStreamOutSize): the recommended
/// compressed-output buffer size, guaranteed to fit at least one block.
#[verifier::external_body]
pub fn cstream_out_size() -> (r: usize)
    ensures
        r >= 1,
{
    zstd_safe::CCtx::out_size()
}

/// Relies on zstd_safe::DCtx::out_size (ZSTD_DStreamOutSize): the recommended
/// decompressed-output buffer size.
#[verifier::external_body]
pub fn dstream_out_size() -> (r: usize)
    ensures
        r >= 1,
{
    zstd_safe::DCtx::out_size()
}

/// Relies on zstd_safe::CCtx::create, CCtx::init (ZSTD_initCStream) and
/// CCtx::load_dictionary (ZSTD_CCtx_loadDictionary): a fresh compression
/// session at `level`, primed with `dictionary` (an empty dictionary means
/// no-dictionary mode); the dictionary is sticky for the whole session.
#[verifier::external_body]
fn cctx_with_dictionary(level: i32, dictionary: &[u8]) -> (r: Result<
    zstd_safe::CCtx<'static>,
    Error,
>)
{
    let mut ctx = zstd_safe::CCtx::create();
    if let Err(code) = ctx.init(level) {
        return Err(Error::Codec(code as u64));
    }
    if let Err(code) = ctx.load_dictionary(dictionary) {
        return Err(Error::Codec(code as u64));
    }
    Ok(ctx)
}

/// Relies on zstd_safe::DCtx::create, DCtx::init (ZSTD_initDStream) and
/// DCtx::load_dictionary (ZSTD_DCtx_loadDictionary): a fresh decompression
/// session primed with `dictionary` (an empty dictionary means no-dictionary
/// mode); the dictionary is sticky for all future frames of this session.
#[verifier::external_body]
fn dctx_with_dictionary(dictionary: &[u8]) -> (r: Result<zstd_safe::DCtx<'static>, Error>) {
    let mut ctx = zstd_safe::DCtx::create();
    if let Err(code) = ctx.init() {
        return Err(Error::Codec(code as u64));
    }
    if let Err(code) = ctx.load_dictionary(dictionary) {
        return Err(Error::Codec(code as u64));
    }
    Ok(ctx)
}

/// An in-memory encoder for streams of data: one compression session of the
/// engine, primed with a dictionary and a level.
///
/// The ghost transcript records the bytes the session consumed and emitted;
/// `finished` mirrors whether the frame's footer has been completely written.
pub struct Encoder {
    ctx: zstd_safe::CCtx<'static>,
    finished: bool,
    g_dict: Ghost<Seq<u8>>,
    g_consumed: Ghost<Seq<u8>>,
    g_produced: Ghost<Seq<u8>>,
}

impl Encoder {
    /// Creates a new encoder without a dictionary.
    pub fn new(level: i32) -> (r: Result<Encoder, Error>)
        ensures
            match r {
                Ok(e) => e.inv() && e.dict().len() == 0 && e.consumed().len() == 0
                    && e.produced().len() == 0 && !e.done(),
                Err(_) => true,
            },
    {
        let empty: Vec<u8> = Vec::new();
        Encoder::with_dictionary(level, empty.as_slice())
    }

    /// Creates a new encoder using the given dictionary (empty for none).
    /// The contracts of this encoder's stepping methods speak of decoding
    /// with this same dictionary.
    pub fn with_dictionary(level: i32, dictionary: &[u8]) -> (r: Result<Encoder, Error>)
        ensures
            match r {
                Ok(e) => e.inv() && e.dict() == dictionary@ && e.consumed().len() == 0
                    && e.produced().len() == 0 && !e.done(),
                Err(_) => true,
            },
    {
        match cctx_with_dictionary(level, dictionary) {
            Ok(ctx) => Ok(
                Encoder {
                    ctx,
                    finished: false,
                    g_dict: Ghost(dictionary@),
                    g_consumed: Ghost(Seq::empty()),
                    g_produced: Ghost(Seq::empty()),
                },
            ),
            Err(e) => Err(e),
        }
    }

    /// Performs a compression step: consumes a prefix of `input`, emits at
    /// most `out_cap` compressed bytes, and returns a hint for the next
    /// input size.
    ///
    /// Relies on zstd_safe::CCtx::compress_stream (ZSTD_compressStream): the
    /// engine updates both cursors; on an error nothing is handed out and the
    /// session is poisoned, so every later call reports the same error.
    #[verifier::external_body]
    pub fn compress(&mut self, input: &[u8], out_cap: usize) -> (r: Result<
        (Status, Vec<u8>),
        Error,
    >)
        requires
            old(self).inv(),
            !old(self).done(),
        ensures
            match r {
                Ok((st, out)) => final(self).inv() && final(self).dict() == old(self).dict()
                    && st.bytes_read <= input@.len() && st.bytes_written == out@.len()
                    && out@.len() <= out_cap && final(self).consumed() == old(self).consumed()
                    + input@.take(st.bytes_read as int) && final(self).produced() == old(self).produced() + out@ && !final(self).done(),
                Err(_) => final(self).inv() && final(self).dict() == old(self).dict() && final(self).consumed() == old(self).consumed() && final(self).produced() == old(self).produced() && final(self).done() == old(self).done(),
            },
    {
        let mut buf = vec![0u8; out_cap];
        let mut ib = zstd_safe::InBuffer::around(input);
        let (res, pos) = {
            let mut ob = zstd_safe::OutBuffer::around(buf.as_mut_slice());
            let res = self.ctx.compress_stream(&mut ob, &mut ib);
            (res, ob.pos())
        };
        buf.truncate(pos);
        match res {
            Ok(hint) => Ok(
                (Status { remaining: hint, bytes_read: ib.pos(), bytes_written: pos }, buf),
            ),
            Err(code) => Err(Error::Codec(code as u64)),
        }
    }

    /// Convenience wrapper around `compress` for whole buffers.
    pub fn compress_buffers(&mut self, input: &[u8], out_cap: usize) -> (r: Result<
        (Status, Vec<u8>),
        Error,
    >)
        requires
            old(self).inv(),
            !old(self).done(),
        ensures
            match r {
                Ok((st, out)) => final(self).inv() && final(self).dict() == old(self).dict()
                    && st.bytes_read <= input@.len() && st.bytes_written == out@.len()
                    && out@.len() <= out_cap && final(self).consumed() == old(self).consumed()
                    + input@.take(st.bytes_read as int) && final(self).produced() == old(self).produced() + out@ && !final(self).done(),
                Err(_) => final(self).inv() && final(self).dict() == old(self).dict() && final(self).consumed() == old(self).consumed() && final(self).produced() == old(self).produced() && final(self).done() == old(self).done(),
            },
    {
        self.compress(input, out_cap)
    }

    /// Pushes internally buffered compressed bytes out without closing the
    /// frame. Returns the number of bytes still buffered.
    ///
    /// Relies on zstd_safe::CCtx::flush_stream (ZSTD_flushStream).
    #[verifier::external_body]
    pub fn flush(&mut self, out_cap: usize) -> (r: Result<(usize, Vec<u8>), Error>)
        requires
            old(self).inv(),
            !old(self).done(),
        ensures
            match r {
                Ok((rem, out)) => final(self).inv() && final(self).dict() == old(self).dict()
                    && out@.len() <= out_cap && final(self).consumed() == old(self).consumed()
                    && final(self).produced() == old(self).produced() + out@ && !final(self).done(),
                Err(_) => final(self).inv() && final(self).dict() == old(self).dict() && final(self).consumed() == old(self).consumed() && final(self).produced() == old(self).produced() && final(self).done() == old(self).done(),
            },
    {
        let mut buf = vec![0u8; out_cap];
        let (res, pos) = {
            let mut ob = zstd_safe::OutBuffer::around(buf.as_mut_slice());
            let res = self.ctx.flush_stream(&mut ob);
            (res, ob.pos())
        };
        buf.truncate(pos);
        match res {
            Ok(rem) => Ok((rem, buf)),
            Err(code) => Err(Error::Codec(code as u64)),
        }
    }

    /// Writes the closing footer of the frame. Keep calling until the
    /// returned count of bytes still to write reaches 0; at that point the
    /// emitted bytes form one complete frame whose content is exactly the
    /// consumed input.
    ///
    /// Relies on zstd_safe::CCtx::end_stream (ZSTD_endStream): a return of 0
    /// means the frame is fully written, and decompressing that frame with
    /// the same dictionary yields exactly the bytes that were compressed.
    #[verifier::external_body]
    pub fn finish(&mut self, out_cap: usize) -> (r: Result<(usize, Vec<u8>), Error>)
        requires
            old(self).inv(),
            !old(self).done(),
        ensures
            match r {
                Ok((rem, out)) => final(self).inv() && final(self).dict() == old(self).dict()
                    && out@.len() <= out_cap && final(self).consumed() == old(self).consumed()
                    && final(self).produced() == old(self).produced() + out@ && final(self).done()
                    == (rem == 0) && (rem == 0 ==> frame_content(
                    final(self).produced(),
                    final(self).dict(),
                ) == Some(final(self).consumed())),
                Err(_) => final(self).inv() && final(self).dict() == old(self).dict() && final(self).consumed() == old(self).consumed() && final(self).produced() == old(self).produced() && final(self).done() == old(self).done(),
            },
    {
        let mut buf = vec![0u8; out_cap];
        let (res, pos) = {
            let mut ob = zstd_safe::OutBuffer::around(buf.as_mut_slice());
            let res = self.ctx.end_stream(&mut ob);
            (res, ob.pos())
        };
        buf.truncate(pos);
        match res {
            Ok(rem) => {
                self.finished = rem == 0;
                Ok((rem, buf))
            },
            Err(code) => Err(Error::Codec(code as u64)),
        }
    }

    /// Relies on zstd_safe::CCtx::reset (ZSTD_CCtx_reset, session only): the
    /// current frame is abandoned, the parameters and the sticky dictionary
    /// remain, and the session is ready for a fresh frame.
    #[verifier::external_body]
    fn reset_session(&mut self) -> (r: Result<(), Error>)
        requires
            old(self).inv(),
        ensures
            match r {
                Ok(()) => final(self).inv() && final(self).dict() == old(self).dict() && final(self).consumed().len() == 0 && final(self).produced().len() == 0 && !final(self).done(),
                Err(_) => final(self).inv() && final(self).dict() == old(self).dict() && final(self).consumed() == old(self).consumed() && final(self).produced() == old(self).produced() && final(self).done() == old(self).done(),
            },
    {
        self.finished = false;
        match self.ctx.reset(zstd_safe::ResetDirective::SessionOnly) {
            Ok(_) => Ok(()),
            Err(code) => Err(Error::Codec(code as u64)),
        }
    }
}

impl Operation for Encoder {
    closed spec fn inv(&self) -> bool {
        self.finished ==> frame_content(self.g_produced@, self.g_dict@) == Some(self.g_consumed@)
    }

    closed spec fn dict(&self) -> Seq<u8> {
        self.g_dict@
    }

    closed spec fn consumed(&self) -> Seq<u8> {
        self.g_consumed@
    }

    closed spec fn produced(&self) -> Seq<u8> {
        self.g_produced@
    }

    closed spec fn done(&self) -> bool {
        self.finished
    }

    open spec fn rel(dict: Seq<u8>, inp: Seq<u8>, outp: Seq<u8>) -> bool {
        frame_content(outp, dict) == Some(inp)
    }

    open spec fn run_end_signal() -> bool {
        false
    }

    proof fn done_implies_rel(&self) {
    }

    fn frames(&self) -> (r: bool) {
        false
    }

    fn run(&mut self, input: &[u8], out_cap: usize) -> (r: Result<(Status, Vec<u8>), Error>) {
        self.compress(input, out_cap)
    }

    fn flush(&mut self, out_cap: usize) -> (r: Result<(usize, Vec<u8>), Error>) {
        self.flush(out_cap)
    }

    fn finish(&mut self, out_cap: usize, clean: bool) -> (r: Result<(usize, Vec<u8>), Error>) {
        if self.finished {
            return Ok((0, Vec::new()));
        }
        self.finish(out_cap)
    }

    fn reinit(&mut self) -> (r: Result<(), Error>) {
        self.reset_session()
    }
}


/// An in-memory decoder for streams of data: one decompression session of
/// the engine, primed with a dictionary.
pub struct Decoder {
    ctx: zstd_safe::DCtx<'static>,
    g_dict: Ghost<Seq<u8>>,
    g_consumed: Ghost<Seq<u8>>,
    g_produced: Ghost<Seq<u8>>,
    g_done: Ghost<bool>,
}

impl Decoder {
    /// Creates a new decoder without a dictionary.
    pub fn new() -> (r: Result<Decoder, Error>)
        ensures
            match r {
                Ok(d) => d.inv() && d.dict().len() == 0 && d.consumed().len() == 0
                    && d.produced().len() == 0 && !d.done(),
                Err(_) => true,
            },
    {
        let empty: Vec<u8> = Vec::new();
        Decoder::with_dictionary(empty.as_slice())
    }

    /// Creates a new decoder using the given dictionary (empty for none).
    /// The contracts of this decoder's stepping methods speak of frames
    /// decoded with this same dictionary.
    pub fn with_dictionary(dictionary: &[u8]) -> (r: Result<Decoder, Error>)
        ensures
            match r {
                Ok(d) => d.inv() && d.dict() == dictionary@ && d.consumed().len() == 0
                    && d.produced().len() == 0 && !d.done(),
                Err(_) => true,
            },
    {
        match dctx_with_dictionary(dictionary) {
            Ok(ctx) => Ok(
                Decoder {
                    ctx,
                    g_dict: Ghost(dictionary@),
                    g_consumed: Ghost(Seq::empty()),
                    g_produced: Ghost(Seq::empty()),
                    g_done: Ghost(false),
                },
            ),
            Err(e) => Err(e),
        }
    }

    /// Performs a decompression step: consumes a prefix of `input`, emits at
    /// most `out_cap` decoded bytes. A returned hint of 0 means the frame
    /// just completed: the engine stops consuming at the frame boundary, and
    /// at that point everything consumed since the last (re)initialization
    /// is one complete frame whose decoded content is exactly everything
    /// produced since then.
    ///
    /// Relies on zstd_safe::DCtx::decompress_stream (ZSTD_decompressStream):
    /// a return of 0 means "a frame is completely decoded and fully
    /// flushed"; on an error nothing is handed out and the session is
    /// poisoned, so every later call reports the same error.
    #[verifier::external_body]
    pub fn decompress(&mut self, input: &[u8], out_cap: usize) -> (r: Result<
        (Status, Vec<u8>),
        Error,
    >)
        requires
            old(self).inv(),
            !old(self).done(),
        ensures
            match r {
                Ok((st, out)) => final(self).inv() && final(self).dict() == old(self).dict()
                    && st.bytes_read <= input@.len() && st.bytes_written == out@.len()
                    && out@.len() <= out_cap && final(self).consumed() == old(self).consumed()
                    + input@.take(st.bytes_read as int) && final(self).produced() == old(self).produced() + out@ && final(self).done() == (st.remaining == 0) && (st.remaining
                    == 0 ==> frame_content(final(self).consumed(), final(self).dict()) == Some(
                    final(self).produced(),
                )),
                Err(_) => final(self).inv() && final(self).dict() == old(self).dict() && final(self).consumed() == old(self).consumed() && final(self).produced() == old(self).produced() && final(self).done() == old(self).done(),
            },
    {
        let mut buf = vec![0u8; out_cap];
        let mut ib = zstd_safe::InBuffer::around(input);
        let (res, pos) = {
            let mut ob = zstd_safe::OutBuffer::around(buf.as_mut_slice());
            let res = self.ctx.decompress_stream(&mut ob, &mut ib);
            (res, ob.pos())
        };
        buf.truncate(pos);
        match res {
            Ok(hint) => Ok(
                (Status { remaining: hint, bytes_read: ib.pos(), bytes_written: pos }, buf),
            ),
            Err(code) => Err(Error::Codec(code as u64)),
        }
    }

    /// Convenience wrapper around `decompress` for whole buffers.
    pub fn decompress_buffers(&mut self, input: &[u8], out_cap: usize) -> (r: Result<
        (Status, Vec<u8>),
        Error,
    >)
        requires
            old(self).inv(),
            !old(self).done(),
        ensures
            match r {
                Ok((st, out)) => final(self).inv() && final(self).dict() == old(self).dict()
                    && st.bytes_read <= input@.len() && st.bytes_written == out@.len()
                    && out@.len() <= out_cap && final(self).consumed() == old(self).consumed()
                    + input@.take(st.bytes_read as int) && final(self).produced() == old(self).produced() + out@ && final(self).done() == (st.remaining == 0) && (st.remaining
                    == 0 ==> frame_content(final(self).consumed(), final(self).dict()) == Some(
                    final(self).produced(),
                )),
                Err(_) => final(self).inv() && final(self).dict() == old(self).dict() && final(self).consumed() == old(self).consumed() && final(self).produced() == old(self).produced() && final(self).done() == old(self).done(),
            },
    {
        self.decompress(input, out_cap)
    }

    /// Relies on zstd_safe::DCtx::reset (ZSTD_DCtx_reset, session only): any
    /// partially decoded frame is abandoned, the sticky dictionary remains,
    /// and the session is ready for the next frame.
    #[verifier::external_body]
    fn reset_session(&mut self) -> (r: Result<(), Error>)
        requires
            old(self).inv(),
        ensures
            match r {
                Ok(()) => final(self).inv() && final(self).dict() == old(self).dict() && final(self).consumed().len() == 0 && final(self).produced().len() == 0 && !final(self).done(),
                Err(_) => final(self).inv() && final(self).dict() == old(self).dict() && final(self).consumed() == old(self).consumed() && final(self).produced() == old(self).produced() && final(self).done() == old(self).done(),
            },
    {
        match self.ctx.reset(zstd_safe::ResetDirective::SessionOnly) {
            Ok(_) => Ok(()),
            Err(code) => Err(Error::Codec(code as u64)),
        }
    }
}

impl Operation for Decoder {
    closed spec fn inv(&self) -> bool {
        self.g_done@ ==> frame_content(self.g_consumed@, self.g_dict@) == Some(self.g_produced@)
    }

    closed spec fn dict(&self) -> Seq<u8> {
        self.g_dict@
    }

    closed spec fn consumed(&self) -> Seq<u8> {
        self.g_consumed@
    }

    closed spec fn produced(&self) -> Seq<u8> {
        self.g_produced@
    }

    closed spec fn done(&self) -> bool {
        self.g_done@
    }

    open spec fn rel(dict: Seq<u8>, inp: Seq<u8>, outp: Seq<u8>) -> bool {
        frame_content(inp, dict) == Some(outp)
    }

    open spec fn run_end_signal() -> bool {
        true
    }

    proof fn done_implies_rel(&self) {
    }

    fn frames(&self) -> (r: bool) {
        true
    }

    fn run(&mut self, input: &[u8], out_cap: usize) -> (r: Result<(Status, Vec<u8>), Error>) {
        self.decompress(input, out_cap)
    }

    fn flush(&mut self, out_cap: usize) -> (r: Result<(usize, Vec<u8>), Error>) {
        Ok((0, Vec::new()))
    }

    fn finish(&mut self, out_cap: usize, clean: bool) -> (r: Result<(usize, Vec<u8>), Error>) {
        if clean {
            Ok((0, Vec::new()))
        } else {
            Err(Error::UnexpectedEof)
        }
    }

    fn reinit(&mut self) -> (r: Result<(), Error>) {
        self.reset_session()
    }
}

/// A transparent operation: hands its input through unchanged. Useful to
/// exercise the adapters without an engine.
pub struct NoOp {
    hist_in: Ghost<Seq<u8>>,
    hist_out: Ghost<Seq<u8>>,
}

impl NoOp {
    /// A fresh pass-through operation.
    pub fn new() -> (r: NoOp)
        ensures
            r.inv(),
            r.consumed().len() == 0,
            r.produced().len() == 0,
            r.dict().len() == 0,
            !r.done(),
    {
        NoOp { hist_in: Ghost(Seq::empty()), hist_out: Ghost(Seq::empty()) }
    }
}

impl Operation for NoOp {
    closed spec fn inv(&self) -> bool {
        self.hist_in@ == self.hist_out@
    }

    open spec fn dict(&self) -> Seq<u8> {
        Seq::empty()
    }

    closed spec fn consumed(&self) -> Seq<u8> {
        self.hist_in@
    }

    closed spec fn produced(&self) -> Seq<u8> {
        self.hist_out@
    }

    open spec fn done(&self) -> bool {
        false
    }

    open spec fn rel(dict: Seq<u8>, inp: Seq<u8>, outp: Seq<u8>) -> bool {
        inp == outp
    }

    open spec fn run_end_signal() -> bool {
        false
    }

    proof fn done_implies_rel(&self) {
    }

    fn frames(&self) -> (r: bool) {
        false
    }

    fn run(&mut self, input: &[u8], out_cap: usize) -> (r: Result<(Status, Vec<u8>), Error>) {
        let k: usize = if input.len() < out_cap {
            input.len()
        } else {
            out_cap
        };
        let mut out: Vec<u8> = Vec::new();
        let mut i: usize = 0;
        while i < k
            invariant
                i <= k,
                k <= input@.len(),
                out@ == input@.take(i as int),
            decreases k - i,
        {
            out.push(input[i]);
            assert(out@ =~= input@.take(i + 1));
            i = i + 1;
        }
        proof {
            self.hist_in@ = self.hist_in@ + input@.take(k as int);
            self.hist_out@ = self.hist_out@ + out@;
        }
        Ok((Status { remaining: input.len() - k, bytes_read: k, bytes_written: k }, out))
    }

    fn flush(&mut self, out_cap: usize) -> (r: Result<(usize, Vec<u8>), Error>) {
        Ok((0, Vec::new()))
    }

    fn finish(&mut self, out_cap: usize, clean: bool) -> (r: Result<(usize, Vec<u8>), Error>) {
        Ok((0, Vec::new()))
    }

    fn reinit(&mut self) -> (r: Result<(), Error>) {
        proof {
            self.hist_in@ = Seq::empty();
            self.hist_out@ = Seq::empty();
        }
        Ok(())
    }
}

} // verus!

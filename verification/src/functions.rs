use vstd::prelude::*;

use crate::errors::Error;
use crate::frames::{
    concat_ins, concat_outs, decodes_to, frame_content, frame_units_ok, lemma_concat_ins_push,
};
use crate::io::{ByteSink, ByteSource, VecSink};
use crate::raw::{dstream_out_size, Decoder, Encoder, Operation};
use crate::zio::{Reader, Writer};

verus! {

/// Compresses everything `source` holds into one frame, returned whole:
/// decoding the returned bytes (with no dictionary) yields exactly the
/// source bytes.
pub fn encode_all<R: ByteSource>(source: R, level: i32) -> (r: Result<Vec<u8>, Error>)
    ensures
        match r {
            Ok(out) => frame_content(out@, Seq::<u8>::empty()) == Some(source.remaining()) || (
            source.remaining().len() == 0 && out@.len() == 0),
            Err(_) => true,
        },
{
    let op = match Encoder::new(level) {
        Ok(o) => o,
        Err(e) => {
            return Err(e);
        },
    };
    let sink = VecSink::new();
    let mut w: Writer<VecSink, Encoder> = Writer::new(sink, op);
    let mut src = source;
    let ghost total = src.remaining();
    loop
        invariant
            w.wf(),
            !w.is_finished(),
            !w.unit_done(),
            w.base().len() == 0,
            w.dict().len() == 0,
            total == w.written() + src.remaining(),
        ensures
            w.wf(),
            !w.is_finished(),
            !w.unit_done(),
            w.base().len() == 0,
            w.dict().len() == 0,
            w.written() == total,
        decreases src.remaining().len(),
    {
        let ghost rem0 = src.remaining();
        let chunk = match src.peek() {
            Ok(c) => c,
            Err(e) => {
                return Err(e);
            },
        };
        if chunk.len() == 0 {
            proof {
                assert(w.written() + src.remaining() =~= w.written());
            }
            break;
        }
        let n = chunk.len();
        match w.write_all(chunk.as_slice()) {
            Ok(()) => {},
            Err(e) => {
                return Err(e);
            },
        }
        src.advance(n);
        proof {
            assert(chunk@ =~= rem0.take(n as int));
            assert(rem0 =~= rem0.take(n as int) + rem0.skip(n as int));
            assert(w.written() + src.remaining() =~= total);
        }
    }
    match w.finish() {
        Ok(()) => {},
        Err(e) => {
            return Err(e);
        },
    }
    let ghost emitted = w.emitted();
    let ghost dict = w.dict();
    proof {
        assert(dict =~= Seq::<u8>::empty());
        assert(w.sunk() =~= emitted);
    }
    let out = w.into_inner().into_bytes();
    proof {
        assert(out@ == emitted);
    }
    Ok(out)
}

/// Decodes everything `source` holds, stopping with `BufferTooSmall` if the
/// decoded content exceeds `capacity` bytes. The returned bytes are the
/// concatenated contents of the complete frames that partition the source.
pub fn decode_upto<R: ByteSource>(source: R, capacity: usize) -> (r: Result<Vec<u8>, Error>)
    requires
        capacity <= usize::MAX - 2,
    ensures
        match r {
            Ok(out) => out@.len() <= capacity && decodes_to(
                source.remaining(),
                Seq::<u8>::empty(),
                out@,
            ),
            Err(_) => true,
        },
{
    let op = match Decoder::new() {
        Ok(o) => o,
        Err(e) => {
            return Err(e);
        },
    };
    let mut rd: Reader<R, Decoder> = Reader::new(source, op);
    let mut out: Vec<u8> = Vec::new();
    let step = dstream_out_size();
    loop
        invariant
            rd.wf(),
            step >= 1,
            capacity <= usize::MAX - 2,
            rd.src_log() == source.remaining(),
            rd.dict().len() == 0,
            !rd.single_mode(),
            out@ == rd.delivered_log(),
            out@.len() <= capacity,
        ensures
            rd.wf(),
            rd.is_finished(),
            rd.src_log() == source.remaining(),
            rd.dict().len() == 0,
            !rd.single_mode(),
            out@ == rd.delivered_log(),
            out@.len() <= capacity,
        decreases rd.src_remaining().len(), capacity + 2 - out@.len(),
    {
        let cap_left = capacity - out.len() + 1;
        let cap = if step < cap_left {
            step
        } else {
            cap_left
        };
        match rd.read(cap) {
            Ok(mut v) => {
                if v.len() == 0 {
                    break;
                }
                out.append(&mut v);
                if out.len() > capacity {
                    return Err(Error::BufferTooSmall);
                }
            },
            Err(e) => {
                return Err(e);
            },
        }
    }
    proof {
        rd.accounting();
        let d = rd.dict();
        assert(d =~= Seq::<u8>::empty());
        if Decoder::rel(d, rd.unit_in(), rd.unit_out()) {
            let us = rd.units_log().push((rd.unit_in(), rd.unit_out()));
            lemma_concat_ins_push(rd.units_log(), (rd.unit_in(), rd.unit_out()));
            assert forall|i: int| 0 <= i < us.len() implies frame_content(
                #[trigger] us[i].0,
                d,
            ) == Some(us[i].1) by {
                if i < rd.units_log().len() {
                    assert(Decoder::rel(d, rd.units_log()[i].0, rd.units_log()[i].1));
                }
            }
            assert(concat_ins(us) =~= source.remaining());
            assert(concat_outs(us) =~= out@);
            assert(frame_units_ok(d, us) && concat_ins(us) == source.remaining() && concat_outs(
                us,
            ) == out@);
        } else {
            let us = rd.units_log();
            assert forall|i: int| 0 <= i < us.len() implies frame_content(
                #[trigger] us[i].0,
                d,
            ) == Some(us[i].1) by {
                assert(Decoder::rel(d, us[i].0, us[i].1));
            }
            assert(concat_ins(us) =~= source.remaining());
            assert(concat_outs(us) =~= out@);
            assert(frame_units_ok(d, us) && concat_ins(us) == source.remaining() && concat_outs(
                us,
            ) == out@);
        }
    }
    Ok(out)
}

/// Decodes everything `source` holds, growing the result as needed.
pub fn decode_all<R: ByteSource>(source: R) -> (r: Result<Vec<u8>, Error>)
    ensures
        match r {
            Ok(out) => decodes_to(source.remaining(), Seq::<u8>::empty(), out@),
            Err(_) => true,
        },
{
    decode_upto(source, usize::MAX - 2)
}

/// Pushes the whole of `data` into the sink, retrying partial accepts. A
/// sink accepting zero bytes of a non-empty offer is the `WriteZero` error.
fn sink_all<W: ByteSink>(sink: &mut W, data: &[u8]) -> (r: Result<(), Error>)
    ensures
        match r {
            Ok(()) => final(sink).received() == old(sink).received() + data@,
            Err(_) => true,
        },
{
    let mut done_n: usize = 0;
    while done_n < data.len()
        invariant
            done_n <= data@.len(),
            sink.received() == old(sink).received() + data@.take(done_n as int),
        decreases data@.len() - done_n,
    {
        let chunk = vstd::slice::slice_subrange(data, done_n, data.len());
        match sink.accept(chunk) {
            Ok(n) => {
                if n == 0 {
                    return Err(Error::WriteZero);
                }
                proof {
                    assert(old(sink).received() + data@.take(done_n as int) + chunk@.take(
                        n as int,
                    ) =~= old(sink).received() + data@.take(done_n + n));
                }
                done_n = done_n + n;
            },
            Err(e) => {
                return Err(e);
            },
        }
    }
    proof {
        assert(data@.take(done_n as int) =~= data@);
    }
    Ok(())
}

/// Compresses everything `source` holds and pushes the resulting frame into
/// `writer`, returning the sink.
pub fn copy_encode<R: ByteSource, W: ByteSink>(source: R, writer: W, level: i32) -> (r: Result<
    W,
    Error,
>)
    ensures
        match r {
            Ok(w) => exists|f: Seq<u8>|
                w.received() == writer.received() + f && (#[trigger] frame_content(
                    f,
                    Seq::<u8>::empty(),
                ) == Some(source.remaining()) || (source.remaining().len() == 0 && f.len() == 0)),
            Err(_) => true,
        },
{
    let out = match encode_all(source, level) {
        Ok(o) => o,
        Err(e) => {
            return Err(e);
        },
    };
    let mut w = writer;
    match sink_all(&mut w, out.as_slice()) {
        Ok(()) => Ok(w),
        Err(e) => Err(e),
    }
}

/// Decodes everything `source` holds and pushes the content into `writer`,
/// returning the sink.
pub fn copy_decode<R: ByteSource, W: ByteSink>(source: R, writer: W) -> (r: Result<W, Error>)
    ensures
        match r {
            Ok(w) => exists|out: Seq<u8>|
                #[trigger] decodes_to(source.remaining(), Seq::<u8>::empty(), out) && w.received()
                    == writer.received() + out,
            Err(_) => true,
        },
{
    let out = match decode_all(source) {
        Ok(o) => o,
        Err(e) => {
            return Err(e);
        },
    };
    let mut w = writer;
    match sink_all(&mut w, out.as_slice()) {
        Ok(()) => Ok(w),
        Err(e) => Err(e),
    }
}

} // verus!

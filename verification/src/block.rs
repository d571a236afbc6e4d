use vstd::prelude::*;

use crate::errors::Error;
use crate::frames::{decodes_to, frame_content};
use crate::functions::{decode_upto, encode_all};
use crate::io::SliceSource;

verus! {

fn slice_to_vec(data: &[u8]) -> (r: Vec<u8>)
    ensures
        r@ == data@,
{
    let mut out: Vec<u8> = Vec::new();
    let mut i: usize = 0;
    while i < data.len()
        invariant
            i <= data@.len(),
            out@ == data@.take(i as int),
        decreases data@.len() - i,
    {
        out.push(data[i]);
        assert(out@ =~= data@.take(i + 1));
        i = i + 1;
    }
    proof {
        assert(out@ =~= data@);
    }
    out
}

/// Compresses a block of data and returns the compressed result: one
/// complete frame whose content is exactly `data`.
///
/// A level of `0` uses the engine's default.
pub fn compress(data: &[u8], level: i32) -> (r: Result<Vec<u8>, Error>)
    ensures
        match r {
            Ok(out) => frame_content(out@, Seq::<u8>::empty()) == Some(data@) || (data@.len() == 0
                && out@.len() == 0),
            Err(_) => true,
        },
{
    let v = slice_to_vec(data);
    let src = SliceSource::new(v);
    encode_all(src, level)
}

/// Decompresses a block of data and returns the decompressed result.
///
/// The decompressed data must be at most `capacity` bytes, or the
/// `BufferTooSmall` error is returned.
pub fn decompress(data: &[u8], capacity: usize) -> (r: Result<Vec<u8>, Error>)
    ensures
        match r {
            Ok(out) => out@.len() <= capacity && decodes_to(data@, Seq::<u8>::empty(), out@),
            Err(_) => true,
        },
{
    let v = slice_to_vec(data);
    let src = SliceSource::new(v);
    let cap = if capacity < usize::MAX - 2 {
        capacity
    } else {
        usize::MAX - 2
    };
    decode_upto(src, cap)
}

/// Compresses a single block of data into the given destination buffer,
/// which may hold at most `capacity` bytes.
///
/// Returns the number of bytes written, or `BufferTooSmall` if the
/// compressed frame does not fit.
pub fn compress_to_buffer(source: &[u8], destination: &mut Vec<u8>, capacity: usize, level: i32) -> (r:
    Result<usize, Error>)
    ensures
        match r {
            Ok(n) => n == final(destination)@.len() && n <= capacity && (frame_content(
                final(destination)@,
                Seq::<u8>::empty(),
            ) == Some(source@) || (source@.len() == 0 && final(destination)@.len() == 0)),
            Err(_) => true,
        },
{
    match compress(source, level) {
        Ok(out) => {
            if out.len() > capacity {
                return Err(Error::BufferTooSmall);
            }
            let n = out.len();
            *destination = out;
            Ok(n)
        },
        Err(e) => Err(e),
    }
}

/// Decompresses a single block of data into the given destination buffer,
/// which may hold at most `capacity` bytes.
///
/// Returns the number of bytes written, or `BufferTooSmall` if the content
/// does not fit.
pub fn decompress_to_buffer(source: &[u8], destination: &mut Vec<u8>, capacity: usize) -> (r:
    Result<usize, Error>)
    ensures
        match r {
            Ok(n) => n == final(destination)@.len() && n <= capacity && decodes_to(
                source@,
                Seq::<u8>::empty(),
                final(destination)@,
            ),
            Err(_) => true,
        },
{
    match decompress(source, capacity) {
        Ok(out) => {
            let n = out.len();
            *destination = out;
            Ok(n)
        },
        Err(e) => Err(e),
    }
}

} // verus!

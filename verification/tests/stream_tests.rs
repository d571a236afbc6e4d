use zstd::block;
use zstd::bufread;
use zstd::errors::Error;
use zstd::functions::{copy_decode, copy_encode, decode_all, encode_all};
use zstd::io::{SliceSource, VecSink};
use zstd::raw::{Decoder, Encoder, NoOp};
use zstd::zio::{Reader, Writer};

fn read_to_end<F: FnMut(usize) -> Result<Vec<u8>, Error>>(mut read: F, cap: usize) -> Vec<u8> {
    let mut out = Vec::new();
    loop {
        let v = read(cap).unwrap();
        if v.is_empty() {
            return out;
        }
        out.extend_from_slice(&v);
    }
}

#[test]
fn test_noop() {
    let input = b"AbcdefghAbcdefgh.";

    // Test reader
    let mut output = Vec::new();
    {
        let mut reader = Reader::new(SliceSource::new(input.to_vec()), NoOp::new());
        loop {
            let v = reader.read(1024).unwrap();
            if v.is_empty() {
                break;
            }
            output.extend_from_slice(&v);
        }
    }
    assert_eq!(&output, input);
}

#[test]
fn test_compress() {
    let input = b"AbcdefghAbcdefgh.";

    // Test reader
    let mut output = Vec::new();
    {
        let mut reader = Reader::new(
            SliceSource::new(input.to_vec()),
            Encoder::new(1).unwrap(),
        );
        loop {
            let v = reader.read(1024).unwrap();
            if v.is_empty() {
                break;
            }
            output.extend_from_slice(&v);
        }
    }
    let decoded = decode_all(SliceSource::new(output)).unwrap();
    assert_eq!(&decoded, input);
}

fn sample_data() -> Vec<u8> {
    let mut data = Vec::new();
    for i in 0..1024u32 {
        data.extend_from_slice(format!("line {} of the sample corpus\n", i % 97).as_bytes());
    }
    data
}

// Streaming compress with a given caller chunk size, through the Writer.
fn stream_compress(data: &[u8], chunk: usize, level: i32) -> Vec<u8> {
    let mut w = Writer::new(VecSink::new(), Encoder::new(level).unwrap());
    for piece in data.chunks(chunk.max(1)) {
        let mut piece = piece;
        while !piece.is_empty() {
            let n = w.write(piece).unwrap();
            assert!(n > 0);
            piece = &piece[n..];
        }
    }
    w.finish().unwrap();
    w.into_inner().into_bytes()
}

// Streaming decompress with given source chunk size and read capacity.
fn stream_decompress(data: &[u8], chunk: usize, cap: usize) -> Vec<u8> {
    let src = SliceSource::with_chunk(data.to_vec(), chunk.max(1));
    let mut d = bufread::Decoder::new(src).unwrap();
    read_to_end(|c| d.read(c), cap.max(1))
}

#[test]
fn test_streaming_matches_block() {
    let data = sample_data();
    let block_compressed = block::compress(&data, 3).unwrap();
    let block_round = block::decompress(&block_compressed, data.len()).unwrap();
    assert_eq!(block_round, data);

    for chunk in [1usize, 7, 4096, data.len()] {
        let compressed = stream_compress(&data, chunk, 3);
        for read_cap in [1usize, 7, 4096, data.len()] {
            let decompressed = stream_decompress(&compressed, 4096, read_cap);
            assert_eq!(decompressed, data, "chunk {} cap {}", chunk, read_cap);
        }
        // Source granularity does not matter either.
        for src_chunk in [1usize, 7] {
            let decompressed = stream_decompress(&compressed, src_chunk, 4096);
            assert_eq!(decompressed, data, "chunk {} src {}", chunk, src_chunk);
        }
        // The streaming result decodes to the same bytes as the block API.
        assert_eq!(
            block::decompress(&compressed, data.len()).unwrap(),
            block_round
        );
    }
}

#[test]
fn test_partial_io_one_byte() {
    // A source delivering one byte per call and a sink accepting one byte
    // per call still produce an exact round trip.
    let data = b"partial input output resilience check, byte by byte".to_vec();

    let mut w = Writer::new(VecSink::with_limit(1), Encoder::new(3).unwrap());
    let mut piece = &data[..];
    while !piece.is_empty() {
        let n = w.write(piece).unwrap();
        piece = &piece[n..];
    }
    w.finish().unwrap();
    let compressed = w.into_inner().into_bytes();

    let src = SliceSource::with_chunk(compressed, 1);
    let mut d = bufread::Decoder::new(src).unwrap();
    let decompressed = read_to_end(|c| d.read(c), 1);
    assert_eq!(decompressed, data);
}

#[test]
fn test_multi_frame_concatenation() {
    let a = b"first independent frame payload".to_vec();
    let b = b"and a second, different payload".to_vec();
    let mut ca = block::compress(&a, 3).unwrap();
    let cb = block::compress(&b, 3).unwrap();
    let mut both = Vec::new();
    both.append(&mut ca);
    both.extend_from_slice(&cb);

    // A plain reader decodes the concatenation of both contents.
    let all = decode_all(SliceSource::new(both.clone())).unwrap();
    let mut expected = a.clone();
    expected.extend_from_slice(&b);
    assert_eq!(all, expected);

    // A single-frame reader yields only the first.
    let mut d = bufread::Decoder::new(SliceSource::new(both)).unwrap();
    d.set_single_frame();
    let first = read_to_end(|c| d.read(c), 4096);
    assert_eq!(first, a);
}

#[test]
fn test_truncation_detected() {
    let data = sample_data();
    let compressed = block::compress(&data, 3).unwrap();
    let truncated = compressed[..compressed.len() - 5].to_vec();
    let r = decode_all(SliceSource::new(truncated));
    assert_eq!(r, Err(Error::UnexpectedEof));
}

#[test]
fn test_empty_input_is_truncated() {
    let r = decode_all(SliceSource::new(Vec::new()));
    assert_eq!(r, Err(Error::UnexpectedEof));
}

fn trained_dictionary(seed: u8) -> Vec<u8> {
    let mut samples = Vec::new();
    let mut sizes = Vec::new();
    for i in 0..1024u32 {
        let line = format!(
            "sample record {:04} with marker {} and shared structure\n",
            i,
            seed
        );
        samples.extend_from_slice(line.as_bytes());
        sizes.push(line.len());
    }
    let mut dict = vec![0u8; 16 * 1024];
    let n = zstd_safe::train_from_buffer(dict.as_mut_slice(), &samples, &sizes).unwrap();
    dict.truncate(n);
    dict
}

fn compress_with_dictionary(data: &[u8], dict: &[u8]) -> Vec<u8> {
    let op = Encoder::with_dictionary(3, dict).unwrap();
    let mut w = Writer::new(VecSink::new(), op);
    let mut piece = data;
    while !piece.is_empty() {
        let n = w.write(piece).unwrap();
        piece = &piece[n..];
    }
    w.finish().unwrap();
    w.into_inner().into_bytes()
}

fn decompress_with_dictionary(data: &[u8], dict: &[u8]) -> Result<Vec<u8>, Error> {
    let src = SliceSource::new(data.to_vec());
    let mut d = bufread::Decoder::with_dictionary(src, dict)?;
    let mut out = Vec::new();
    loop {
        let v = d.read(4096)?;
        if v.is_empty() {
            return Ok(out);
        }
        out.extend_from_slice(&v);
    }
}

#[test]
fn test_dictionary_round_trip() {
    let dict = trained_dictionary(1);
    let data = b"sample record 9999 with marker 1 and shared structure\n";
    let compressed = compress_with_dictionary(data, &dict);
    let decompressed = decompress_with_dictionary(&compressed, &dict).unwrap();
    assert_eq!(decompressed, data.to_vec());
}

#[test]
fn test_dictionary_mismatch_detected() {
    let dict_a = trained_dictionary(1);
    let dict_b = trained_dictionary(2);
    let data = b"sample record 9999 with marker 1 and shared structure\n";
    let compressed = compress_with_dictionary(data, &dict_a);
    let r = decompress_with_dictionary(&compressed, &dict_b);
    assert!(matches!(r, Err(Error::Codec(_))));
    let r2 = decompress_with_dictionary(&compressed, &[]);
    assert!(matches!(r2, Err(Error::Codec(_))));
}

#[test]
fn test_finish_idempotent() {
    let data = b"finish me twice";
    let mut w = Writer::new(VecSink::new(), Encoder::new(3).unwrap());
    let mut piece = &data[..];
    while !piece.is_empty() {
        let n = w.write(piece).unwrap();
        piece = &piece[n..];
    }
    w.finish().unwrap();
    let len_after_first = w.get_ref().bytes().len();
    // A second finish succeeds and writes nothing further.
    w.finish().unwrap();
    assert_eq!(w.get_ref().bytes().len(), len_after_first);
    let compressed = w.into_inner().into_bytes();
    assert_eq!(
        decode_all(SliceSource::new(compressed)).unwrap(),
        data.to_vec()
    );
}

#[test]
fn test_write_zero_sink() {
    let data = b"some data for a stalled sink";
    let mut w = Writer::new(VecSink::with_limit(0), Encoder::new(3).unwrap());
    let n = w.write(data).unwrap();
    assert!(n > 0);
    // Draining the staged frame into a sink that accepts nothing fails.
    assert_eq!(w.finish(), Err(Error::WriteZero));
}

#[test]
fn test_copy_encode_decode() {
    let data = sample_data();
    let sink = copy_encode(SliceSource::new(data.clone()), VecSink::new(), 3).unwrap();
    let compressed = sink.into_bytes();
    // Drain through a sink that accepts one byte per call.
    let sink2 = copy_decode(SliceSource::new(compressed), VecSink::with_limit(1)).unwrap();
    assert_eq!(sink2.into_bytes(), data);
}

#[test]
fn test_encode_all_decode_all() {
    let data = sample_data();
    let compressed = encode_all(SliceSource::new(data.clone()), 3).unwrap();
    let decompressed = decode_all(SliceSource::new(compressed)).unwrap();
    assert_eq!(decompressed, data);
}

#[test]
fn test_writer_flush() {
    let data = b"flush pushes everything produced so far to the sink";
    let mut w = Writer::new(VecSink::new(), Encoder::new(3).unwrap());
    let mut piece = &data[..];
    while !piece.is_empty() {
        let n = w.write(piece).unwrap();
        piece = &piece[n..];
    }
    w.flush().unwrap();
    // After a flush (and before finish), the sink already holds a decodable
    // prefix of the stream's blocks; finishing completes the frame.
    assert!(!w.get_ref().bytes().is_empty());
    w.finish().unwrap();
    let compressed = w.into_inner().into_bytes();
    assert_eq!(
        decode_all(SliceSource::new(compressed)).unwrap(),
        data.to_vec()
    );
}

#[test]
fn test_raw_decoder_buffers() {
    // decompress_buffers on a whole frame reports the frame end with a zero
    // hint and hands back the full content.
    let data = b"one whole frame in one call";
    let compressed = block::compress(data, 3).unwrap();
    let mut d = Decoder::new().unwrap();
    let (status, out) = d.decompress_buffers(&compressed, 1024).unwrap();
    assert_eq!(status.remaining, 0);
    assert_eq!(status.bytes_read, compressed.len());
    assert_eq!(out, data.to_vec());
}

#[test]
fn test_accessors() {
    let input = b"accessor check".to_vec();
    let mut r = Reader::new(SliceSource::new(input.clone()), NoOp::new());
    let _ = r.get_ref();
    let _ = r.get_mut();
    let _ = r.reader_mut();
    let _ = r.operation_mut();
    let v = r.read(1024).unwrap();
    assert_eq!(v, input);
    let _src = r.finish();

    let mut w = Writer::new(VecSink::new(), NoOp::new());
    let n = w.write(b"xyz").unwrap();
    assert_eq!(n, 3);
    assert_eq!(w.offset(), 0);
    assert_eq!(w.buffer(), b"xyz");
    let _ = w.get_mut();
    w.finish().unwrap();
    assert_eq!(w.get_ref().bytes().as_slice(), b"xyz");
    let sink = w.into_inner();
    assert_eq!(sink.into_bytes(), b"xyz".to_vec());
}

use zstd::block::{compress, compress_to_buffer, decompress, decompress_to_buffer};
use zstd::errors::Error;

#[test]
fn test_direct() {
    // Can we include_str!("assets/example.txt")?
    // It's excluded from the packaging step, so maybe not.
    let text = r#"
            ’Twas brillig, and the slithy toves
            Did gyre and gimble in the wade;
            All mimsy were the borogoves,
            And the mome raths outgrabe.


            "Beware the Jabberwock, my son!
            The jaws that bite, the claws that catch!
            Beware the Jubjub bird, and shun
            The frumious Bandersnatch!"


            He took his vorpal sword in hand:
            Long time the manxome foe he sought—
            So rested he by the Tumtum tree,
            And stood awhile in thought.


            And as in uffish thought he stood,
            The Jabberwock, with eyes of flame,
            Came whiffling through the tulgey wood,
            And burbled as it came!


            One, two! One, two! And through and through
            The vorpal blade went snicker-snack!
            He left it dead, and with its head
            He went galumphing back.


            "And hast thou slain the Jabberwock?
            Come to my arms, my beamish boy!
            O frabjous day! Callooh! Callay!"
            He chortled in his joy.


            ’Twas brillig, and the slithy toves
            Did gyre and gimble in the wabe;
            All mimsy were the borogoves,
            And the mome raths outgrabe.
        "#;
    let data = text.as_bytes();
    let compressed = compress(data, 1).unwrap();
    let decompressed = decompress(&compressed, text.len()).unwrap();
    assert_eq!(decompressed, data);
}

#[test]
fn test_round_trip_levels() {
    let data = b"A block of sample data, repeated a few times to compress well. \
                 A block of sample data, repeated a few times to compress well.";
    for level in [0, 1, 3, 9, 19] {
        let compressed = compress(data, level).unwrap();
        let decompressed = decompress(&compressed, data.len()).unwrap();
        assert_eq!(decompressed, data.to_vec());
    }
}

#[test]
fn test_round_trip_empty() {
    let compressed = compress(b"", 3).unwrap();
    let decompressed = decompress(&compressed, 0).unwrap();
    assert_eq!(decompressed, Vec::<u8>::new());
}

#[test]
fn test_compress_is_not_identity() {
    let data = b"some plain text that should not come back unchanged";
    let compressed = compress(data, 3).unwrap();
    assert_ne!(compressed, data.to_vec());
}

#[test]
fn test_decompress_buffer_too_small() {
    let data = b"0123456789 0123456789 0123456789";
    let compressed = compress(data, 3).unwrap();
    let r = decompress(&compressed, data.len() - 1);
    assert_eq!(r, Err(Error::BufferTooSmall));
}

#[test]
fn test_compress_to_buffer_round_trip() {
    let data = b"buffered block round trip";
    let mut buf: Vec<u8> = Vec::new();
    let n = compress_to_buffer(data, &mut buf, 1024, 3).unwrap();
    assert_eq!(n, buf.len());
    let mut out: Vec<u8> = Vec::new();
    let m = decompress_to_buffer(&buf, &mut out, data.len()).unwrap();
    assert_eq!(m, data.len());
    assert_eq!(out, data.to_vec());
}

#[test]
fn test_compress_to_buffer_too_small() {
    let data = b"0123456789 0123456789 0123456789";
    let mut buf: Vec<u8> = Vec::new();
    let r = compress_to_buffer(data, &mut buf, 3, 3);
    assert_eq!(r, Err(Error::BufferTooSmall));
}

#[test]
fn test_decompress_garbage_fails() {
    let garbage = b"this is not a compressed frame at all";
    let r = decompress(garbage, 1024);
    assert!(matches!(r, Err(Error::Codec(_))));
}

use zstream::bytes::{ByteSink, ByteSource, SliceSource, VecSink};
use zstream::{
    copy_decode, copy_encode, decode_all, encode_all, test_cycle, test_cycle_unwrap, Decoder,
    Encoder, Error,
};

fn roundtrip(data: &[u8], level: i32) {
    let compressed = encode_all(data, level).unwrap();
    assert!(!compressed.is_empty());
    let decoded = decode_all(&compressed).unwrap();
    assert_eq!(decoded, data);
}

fn patterned(len: usize) -> Vec<u8> {
    (0..len).map(|i| (i % 251) as u8).collect()
}

#[test]
fn round_trip_one_shot_various_levels() {
    for level in [-5, 0, 1, 3, 9, 19] {
        roundtrip(b"", level);
        roundtrip(b"a", level);
        roundtrip(b"hello hello hello", level);
        roundtrip(&patterned(10_000), level);
    }
}

#[test]
fn round_trip_incompressible_data() {
    // A pseudo-random buffer: compression cannot shrink it, but the cycle
    // must still reproduce it exactly.
    let mut state: u64 = 0x2545F4914F6CDD1D;
    let data: Vec<u8> = (0..4096)
        .map(|_| {
            state = state.wrapping_mul(6364136223846793005).wrapping_add(1442695040888963407);
            (state >> 33) as u8
        })
        .collect();
    roundtrip(&data, 3);
}

#[test]
fn concrete_hello_scenario() {
    // The frame format's fixed overhead (magic number and frame header)
    // outweighs what repetition saves on 17 bytes, so the compressed frame
    // is not shorter than the input here; the exact reproduction is the
    // point, and the shrink check lives in compression_shrinks_repetitive_data.
    let data = b"hello hello hello";
    assert_eq!(data.len(), 17);
    let compressed = encode_all(data, 3).unwrap();
    assert!(!compressed.is_empty());
    let decoded = decode_all(&compressed).unwrap();
    assert_eq!(decoded, data.to_vec());
}

#[test]
fn compression_shrinks_repetitive_data() {
    let data: Vec<u8> = b"hello ".iter().copied().cycle().take(6_000).collect();
    let compressed = encode_all(&data, 3).unwrap();
    assert!(!compressed.is_empty());
    assert!(compressed.len() < data.len());
    assert_eq!(decode_all(&compressed).unwrap(), data);
}

#[test]
fn level_zero_is_the_default_level() {
    let data: Vec<u8> = b"abcabcabc".iter().copied().cycle().take(2_000).collect();
    let implicit = encode_all(&data, 0).unwrap();
    let explicit = encode_all(&data, zstream::DEFAULT_COMPRESSION_LEVEL).unwrap();
    assert_eq!(implicit, explicit);
    assert_eq!(decode_all(&implicit).unwrap(), data);
}

#[test]
fn empty_input_is_not_an_error() {
    let compressed = encode_all(&[], 3).unwrap();
    assert!(!compressed.is_empty());
    let decoded = decode_all(&compressed).unwrap();
    assert!(decoded.is_empty());
}

fn write_all(enc: &mut Encoder<VecSink>, mut buf: &[u8]) {
    while !buf.is_empty() {
        let n = enc.write(buf).unwrap();
        buf = &buf[n..];
    }
}

#[test]
fn chunk_size_does_not_change_output() {
    let data = patterned(10_000);
    let whole = encode_all(&data, 3).unwrap();
    for chunk in [1usize, 7, 1024, 10_000] {
        let mut enc = Encoder::new(VecSink::new(), 3).unwrap();
        for piece in data.chunks(chunk) {
            write_all(&mut enc, piece);
        }
        enc.finish().unwrap();
        let compressed = enc.into_sink().into_vec();
        assert_eq!(compressed, whole);
    }
}

#[test]
fn streaming_decode_with_small_buffers() {
    let data = patterned(10_000);
    let compressed = encode_all(&data, 3).unwrap();
    let mut dec = Decoder::new(SliceSource::new(compressed)).unwrap();
    let mut out = Vec::new();
    let mut dest = vec![0u8; 97];
    loop {
        let n = dec.read(&mut dest).unwrap();
        if n == 0 {
            break;
        }
        out.extend_from_slice(&dest[..n]);
    }
    assert_eq!(out, data);
    // Once the frame has ended, further reads keep reporting a clean end.
    assert_eq!(dec.read(&mut dest).unwrap(), 0);
}

#[test]
fn finish_twice_is_misuse_not_silent_success() {
    let mut enc = Encoder::new(VecSink::new(), 3).unwrap();
    write_all(&mut enc, b"some data worth a frame");
    enc.finish().unwrap();
    assert_eq!(enc.finish(), Err(Error::Misuse));
    // The first finish still left a complete, readable frame behind.
    let compressed = enc.into_sink().into_vec();
    let decoded = decode_all(&compressed).unwrap();
    assert_eq!(decoded, b"some data worth a frame".to_vec());
}

#[test]
fn write_after_finish_is_misuse() {
    let mut enc = Encoder::new(VecSink::new(), 3).unwrap();
    write_all(&mut enc, b"abc");
    enc.finish().unwrap();
    assert_eq!(enc.write(b"more"), Err(Error::Misuse));
    assert_eq!(enc.flush(), Err(Error::Misuse));
}

#[test]
fn abandoned_encoder_leaves_incomplete_frame() {
    // Finishing is explicit: a writer given up without finish leaves bytes
    // that do not decode back to the input.
    let mut enc = Encoder::new(VecSink::new(), 3).unwrap();
    write_all(&mut enc, b"never finished");
    let partial = enc.into_sink().into_vec();
    match decode_all(&partial) {
        Ok(v) => assert_ne!(v, b"never finished".to_vec()),
        Err(_) => {}
    }
}

#[test]
fn flush_does_not_terminate_the_frame() {
    let mut enc = Encoder::new(VecSink::new(), 3).unwrap();
    write_all(&mut enc, b"first part, ");
    enc.flush().unwrap();
    write_all(&mut enc, b"second part");
    enc.flush().unwrap();
    write_all(&mut enc, b" and a tail");
    enc.finish().unwrap();
    let compressed = enc.into_sink().into_vec();
    let decoded = decode_all(&compressed).unwrap();
    assert_eq!(decoded, b"first part, second part and a tail".to_vec());
}

#[test]
fn byte_at_a_time_equals_whole_buffer() {
    let data = b"partial consumption must not change the compressed bytes";
    let whole = encode_all(data, 3).unwrap();
    let mut enc = Encoder::new(VecSink::new(), 3).unwrap();
    for b in data.iter() {
        write_all(&mut enc, std::slice::from_ref(b));
    }
    enc.finish().unwrap();
    assert_eq!(enc.into_sink().into_vec(), whole);
}

#[test]
fn truncated_stream_fails_not_shortens() {
    let data = patterned(5_000);
    let compressed = encode_all(&data, 3).unwrap();
    let cut = compressed.len() - 4;
    let err = decode_all(&compressed[..cut]).unwrap_err();
    assert!(matches!(err, Error::Truncated | Error::Engine(_)));
}

#[test]
fn truncated_mid_frame_is_truncated_error() {
    let data = patterned(50_000);
    let compressed = encode_all(&data, 3).unwrap();
    // Cut deep inside the frame: the engine is left waiting for input.
    let err = decode_all(&compressed[..compressed.len() / 2]).unwrap_err();
    assert!(matches!(err, Error::Truncated | Error::Engine(_)));
}

#[test]
fn decoding_nothing_is_truncated() {
    // No bytes at all means no frame: a truncated stream, not an empty result.
    assert!(matches!(decode_all(&[]).unwrap_err(), Error::Truncated));
}

#[test]
fn decode_stops_at_the_frame_end() {
    // The decoder reads one frame; bytes after it are left untouched.
    let data = patterned(1_000);
    let mut compressed = encode_all(&data, 3).unwrap();
    compressed.extend_from_slice(b"trailing bytes beyond the frame");
    assert_eq!(decode_all(&compressed).unwrap(), data);
}

#[test]
fn garbage_input_is_an_engine_error() {
    let garbage = b"this is not a zstd frame at all, not even close";
    let err = decode_all(garbage).unwrap_err();
    assert!(matches!(err, Error::Engine(_)));
    assert!(!err.message().is_empty());
}

#[test]
fn invalid_level_is_config_error() {
    assert_eq!(encode_all(b"abc", 23), Err(Error::Config));
    assert_eq!(encode_all(b"abc", -131073), Err(Error::Config));
    assert_eq!(encode_all(b"abc", i32::MIN), Err(Error::Config));
    assert!(matches!(Encoder::new(VecSink::new(), 100), Err(Error::Config)));
}

#[test]
fn negative_levels_are_fast_modes_not_errors() {
    let data = patterned(3_000);
    let compressed = encode_all(&data, -131072).unwrap();
    assert_eq!(decode_all(&compressed).unwrap(), data);
}

#[test]
fn window_limit_validation() {
    assert!(matches!(
        Decoder::with_window_log_max(SliceSource::new(vec![]), 5),
        Err(Error::Config)
    ));
    assert!(matches!(
        Decoder::with_window_log_max(SliceSource::new(vec![]), 32),
        Err(Error::Config)
    ));
    let data = patterned(2_000);
    let compressed = encode_all(&data, 3).unwrap();
    for log in [0u32, 27] {
        let mut dec = Decoder::with_window_log_max(SliceSource::new(compressed.clone()), log)
            .unwrap();
        let mut out = Vec::new();
        let mut dest = vec![0u8; 512];
        loop {
            let n = dec.read(&mut dest).unwrap();
            if n == 0 {
                break;
            }
            out.extend_from_slice(&dest[..n]);
        }
        assert_eq!(out, data);
    }
}

#[test]
fn window_limit_too_small_is_an_engine_error() {
    let data = patterned(200_000);
    let compressed = encode_all(&data, 3).unwrap();
    let mut dec =
        Decoder::with_window_log_max(SliceSource::new(compressed), 10).unwrap();
    let mut dest = vec![0u8; 512];
    let mut saw_error = false;
    for _ in 0..1_000 {
        match dec.read(&mut dest) {
            Ok(0) => break,
            Ok(_) => continue,
            Err(e) => {
                assert!(matches!(e, Error::Engine(_)));
                saw_error = true;
                break;
            }
        }
    }
    assert!(saw_error);
}

#[test]
fn decoder_gives_the_source_back() {
    let dec = Decoder::new(SliceSource::new(b"abc".to_vec())).unwrap();
    let mut src = dec.into_source();
    assert_eq!(src.read_some(10).unwrap(), b"abc".to_vec());
}

#[test]
fn copy_functions_round_trip() {
    let data = patterned(3_000);
    let sink = copy_encode(SliceSource::new(data.clone()), VecSink::new(), 3).unwrap();
    let compressed = sink.into_vec();
    assert!(!compressed.is_empty());
    let sink = copy_decode(SliceSource::new(compressed), VecSink::new()).unwrap();
    assert_eq!(sink.into_vec(), data);
}

#[test]
fn fallible_cycle_helper_propagates_errors() {
    let data = b"cycle me too";
    let ok = test_cycle_unwrap(
        data,
        |d: &[u8]| encode_all(d, 3),
        |d: &[u8]| decode_all(d),
    )
    .unwrap();
    assert!(ok);
    let err = test_cycle_unwrap(
        data,
        |d: &[u8]| encode_all(d, 99),
        |d: &[u8]| decode_all(d),
    )
    .unwrap_err();
    assert_eq!(err, Error::Config);
}

#[test]
fn cycle_helper_reports_round_trip() {
    let data = b"cycle me";
    let ok = test_cycle(
        data,
        |d: &[u8]| encode_all(d, 3).unwrap(),
        |d: &[u8]| decode_all(d).unwrap(),
    );
    assert!(ok);
    let not_ok = test_cycle(
        data,
        |d: &[u8]| encode_all(d, 3).unwrap(),
        |d: &[u8]| d.to_vec(),
    );
    assert!(!not_ok);
}

#[test]
fn vec_sink_accepts_everything_in_order() {
    let mut sink = VecSink::new();
    assert_eq!(sink.write_some(b"ab"), Ok(2));
    assert_eq!(sink.write_some(b""), Ok(0));
    assert_eq!(sink.write_some(b"cd"), Ok(2));
    assert_eq!(sink.into_vec(), b"abcd".to_vec());
}

#[test]
fn slice_source_hands_out_prefixes() {
    let mut src = SliceSource::new(b"abcdef".to_vec());
    assert_eq!(src.read_some(4).unwrap(), b"abcd".to_vec());
    assert_eq!(src.read_some(4).unwrap(), b"ef".to_vec());
    assert_eq!(src.read_some(4).unwrap(), Vec::<u8>::new());
}

#[test]
fn error_messages_are_not_empty() {
    for err in [
        Error::Config,
        Error::Alloc,
        Error::Engine(1),
        Error::Truncated,
        Error::Stalled,
        Error::Io(7),
        Error::Misuse,
    ] {
        assert!(!err.message().is_empty());
    }
}

use stegosaurusography::{
    decoder, encoder, get_properties, CorruptionType, ErrorContext, ErrorType, SupportedFileType,
    WhichDuplicates, HEADER_BYTES,
};

/// Builds a PNG with deterministic pixel contents for the given dimensions.
fn make_png(width: u32, height: u32) -> Vec<u8> {
    let n = (width as usize) * (height as usize) * 4;
    let mut data = vec![0u8; n];
    for (i, b) in data.iter_mut().enumerate() {
        *b = ((i * 31 + 7) % 251) as u8;
    }
    png_from_raw(width, height, data)
}

/// Serializes raw RGBA samples as a PNG using the image library directly.
fn png_from_raw(width: u32, height: u32, data: Vec<u8>) -> Vec<u8> {
    let img = image::RgbaImage::from_raw(width, height, data).unwrap();
    let mut cursor = std::io::Cursor::new(Vec::new());
    image::DynamicImage::ImageRgba8(img)
        .write_to(&mut cursor, image::ImageFormat::Png)
        .unwrap();
    cursor.into_inner()
}

/// Decodes a PNG back to raw RGBA samples using the image library directly.
fn raw_from_png(bytes: &[u8]) -> (u32, u32, Vec<u8>) {
    let img = image::load_from_memory_with_format(bytes, image::ImageFormat::Png)
        .unwrap()
        .to_rgba8();
    let (w, h) = (img.width(), img.height());
    (w, h, img.into_raw())
}

/// Deterministic pseudo-random bytes for test payloads.
fn pseudo_random_bytes(len: usize, mut state: u64) -> Vec<u8> {
    let mut out = Vec::with_capacity(len);
    for _ in 0..len {
        state = state.wrapping_mul(6364136223846793005).wrapping_add(1442695040888963407);
        out.push((state >> 33) as u8);
    }
    out
}

#[test]
fn size_of() {
    // A carrier of 512 x 256 pixels holds 512 * 256 * 6 / 8 = 98,304 payload
    // bytes, of which the header takes its fixed share.
    let base = make_png(512, 256);
    let available = stegosaurusography::base_file::available_size_of(&base).unwrap();
    assert_eq!(available, 98_304 - HEADER_BYTES);
}

#[test]
fn empty_secret_round_trip() {
    let base = make_png(128, 192);
    let props = get_properties("base.png", &base).unwrap();
    assert_eq!(props.available_space, 18_424);
    assert!(matches!(props.file_type, SupportedFileType::Png));

    let encoded = encoder::encode("base.png", &base, &vec![]).unwrap();
    let decoded = decoder::decode("encoded.png", &encoded).unwrap();
    assert_eq!(decoded.len(), 0);
}

#[test]
fn exact_fit_round_trip() {
    let base = make_png(128, 192);
    let secret = pseudo_random_bytes(18_424, 42);
    let encoded = encoder::encode("base.png", &base, &secret).unwrap();
    let decoded = decoder::decode("encoded.png", &encoded).unwrap();
    assert_eq!(decoded, secret);
}

#[test]
fn small_secret_round_trip() {
    let base = make_png(16, 16);
    let secret = b"attack at dawn".to_vec();
    let encoded = encoder::encode("base.png", &base, &secret).unwrap();
    let decoded = decoder::decode("encoded.png", &encoded).unwrap();
    assert_eq!(decoded, secret);
}

#[test]
fn overflow_rejected() {
    let base = make_png(128, 192);
    let secret = pseudo_random_bytes(18_425, 7);
    let err = encoder::encode("base.png", &base, &secret).unwrap_err();
    assert!(matches!(
        err.error_type,
        ErrorType::BaseFileNotBigEnough { available_size: 18_424, secret_file_size: 18_425 }
    ));
    assert_eq!(err.contexts, vec![ErrorContext::BaseFile]);
}

#[test]
fn encoded_image_preserves_alpha_and_high_bits() {
    let base = make_png(32, 24);
    let secret = pseudo_random_bytes(100, 3);
    let encoded = encoder::encode("base.png", &base, &secret).unwrap();

    let (bw, bh, base_raw) = raw_from_png(&base);
    let (ew, eh, enc_raw) = raw_from_png(&encoded);
    // Dimension preservation.
    assert_eq!((bw, bh), (ew, eh));
    assert_eq!(base_raw.len(), enc_raw.len());
    for off in 0..base_raw.len() {
        if off % 4 == 3 {
            // Alpha channels are never touched.
            assert_eq!(enc_raw[off], base_raw[off]);
        } else {
            // Non-alpha channels keep their upper six bits.
            assert_eq!(enc_raw[off] >> 2, base_raw[off] >> 2);
            let diff = (enc_raw[off] as i16 - base_raw[off] as i16).abs();
            assert!(diff <= 3);
        }
    }
}

#[test]
fn payload_laid_out_in_stream_order() {
    // The payload must occupy the channels in column-major (x, y, channel)
    // order, most-significant two bits of each byte first, and every channel
    // past the payload must keep the base's low bits.
    let width = 4u32;
    let height = 4u32;
    let base = make_png(width, height);
    let secret = vec![0b1101_0010u8];
    let encoded = encoder::encode("base.png", &base, &secret).unwrap();

    let (_, _, base_raw) = raw_from_png(&base);
    let (_, _, enc_raw) = raw_from_png(&encoded);

    // Expected byte stream: eight header bytes announcing one byte, then it.
    let mut payload = vec![0u8; 7];
    payload.push(1);
    payload.push(0b1101_0010);
    let mut expected_groups = Vec::new();
    for b in &payload {
        expected_groups.push((b >> 6) & 3);
        expected_groups.push((b >> 4) & 3);
        expected_groups.push((b >> 2) & 3);
        expected_groups.push(b & 3);
    }

    let mut stream = 0usize;
    for x in 0..width {
        for y in 0..height {
            for c in 0..3u32 {
                let off = ((y * width + x) * 4 + c) as usize;
                if stream < expected_groups.len() {
                    assert_eq!(enc_raw[off] & 3, expected_groups[stream]);
                } else {
                    // The residual keeps the carrier's own low bits.
                    assert_eq!(enc_raw[off], base_raw[off]);
                }
                stream += 1;
            }
        }
    }
}

#[test]
fn corrupted_file_too_small_for_header() {
    // 2 x 5 pixels give 30 non-alpha channels: fewer than the 32 a header needs.
    let tiny = make_png(2, 5);
    let err = decoder::decode("tiny.png", &tiny).unwrap_err();
    assert!(matches!(
        err.error_type,
        ErrorType::CorruptedFile(CorruptionType::FileTooSmallForHeader)
    ));
    assert_eq!(err.contexts, vec![ErrorContext::EncodedFile]);
}

#[test]
fn corrupted_incorrect_header() {
    // All-ones channels make the header announce far more bytes than the
    // carrier holds.
    let n = (4 * 4 * 4) as usize;
    let loud = png_from_raw(4, 4, vec![0xFF; n]);
    let err = decoder::decode("loud.png", &loud).unwrap_err();
    assert!(matches!(
        err.error_type,
        ErrorType::CorruptedFile(CorruptionType::IncorrectHeader)
    ));
    assert_eq!(err.contexts, vec![ErrorContext::EncodedFile]);
}

#[test]
fn duplicate_paths_rejected() {
    let e = encoder::check_for_duplicate_files("a.png", "a.png", "b.png").unwrap_err();
    assert!(matches!(
        e.error_type,
        ErrorType::DuplicateFiles(WhichDuplicates::BaseAndSecret)
    ));
    assert_eq!(e.contexts, vec![ErrorContext::BaseFile, ErrorContext::SecretFile]);

    let e = encoder::check_for_duplicate_files("a.png", "b.bin", "a.png").unwrap_err();
    assert!(matches!(
        e.error_type,
        ErrorType::DuplicateFiles(WhichDuplicates::BaseAndOutput)
    ));
    assert_eq!(e.contexts, vec![ErrorContext::BaseFile, ErrorContext::OutputFile]);

    let e = encoder::check_for_duplicate_files("a.png", "b.bin", "b.bin").unwrap_err();
    assert!(matches!(
        e.error_type,
        ErrorType::DuplicateFiles(WhichDuplicates::SecretAndOutput)
    ));
    assert_eq!(e.contexts, vec![ErrorContext::SecretFile, ErrorContext::OutputFile]);

    let e = encoder::check_for_duplicate_files("a.png", "a.png", "a.png").unwrap_err();
    assert!(matches!(e.error_type, ErrorType::DuplicateFiles(WhichDuplicates::All)));
    assert_eq!(
        e.contexts,
        vec![ErrorContext::BaseFile, ErrorContext::SecretFile, ErrorContext::OutputFile]
    );

    assert!(encoder::check_for_duplicate_files("a.png", "b.bin", "c.png").is_ok());

    let e = decoder::check_for_duplicate_files("a.png", "a.png").unwrap_err();
    assert!(matches!(e.error_type, ErrorType::DuplicateFiles(WhichDuplicates::All)));
    assert_eq!(e.contexts, vec![ErrorContext::EncodedFile, ErrorContext::OutputFile]);
    assert!(decoder::check_for_duplicate_files("a.png", "b.txt").is_ok());
}

#[test]
fn unsupported_type_rejected() {
    let base = make_png(8, 8);
    let err = encoder::encode("photo.jpg", &base, &vec![1, 2, 3]).unwrap_err();
    match err.error_type {
        ErrorType::UnsupportedFileType(p) => assert_eq!(p, "photo.jpg"),
        other => panic!("unexpected error: {other:?}"),
    }
    assert_eq!(err.contexts, vec![ErrorContext::BaseFile]);

    let err = decoder::decode("photo.jpg", &base).unwrap_err();
    assert!(matches!(err.error_type, ErrorType::UnsupportedFileType(_)));
    assert_eq!(err.contexts, vec![ErrorContext::EncodedFile]);

    let err = get_properties("notes.txt", &base).unwrap_err();
    assert!(matches!(err.error_type, ErrorType::UnsupportedFileType(_)));
    assert_eq!(err.contexts, vec![ErrorContext::BaseFile]);
}

#[test]
fn unreadable_image_reported() {
    let garbage = vec![0u8; 16];
    let err = encoder::encode("base.png", &garbage, &vec![]).unwrap_err();
    assert!(matches!(
        err.error_type,
        ErrorType::IOError(_) | ErrorType::ImageError(_)
    ));
    assert_eq!(err.contexts, vec![ErrorContext::BaseFile]);

    let err = decoder::decode("base.png", &garbage).unwrap_err();
    assert!(matches!(
        err.error_type,
        ErrorType::IOError(_) | ErrorType::ImageError(_)
    ));
    assert_eq!(err.contexts, vec![ErrorContext::EncodedFile]);
}

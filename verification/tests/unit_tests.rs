use stegosaurusography::codec::{decode_grid, encode_grid};
use stegosaurusography::geometry::coord_iter;
use stegosaurusography::grid::{available_space, fits_within, PixelGrid};
use stegosaurusography::header::{header_bytes, header_value};
use stegosaurusography::{ErrorContext, ErrorType, SupportedFileType};

#[test]
fn header_is_big_endian() {
    let h = header_bytes(18_424);
    assert_eq!(h, vec![0, 0, 0, 0, 0, 0, 0x47, 0xF8]);
    assert_eq!(header_value(&h), 18_424);

    let h = header_bytes(0);
    assert_eq!(h, vec![0; 8]);
    assert_eq!(header_value(&h), 0);

    let h = header_bytes(u64::MAX);
    assert_eq!(h, vec![0xFF; 8]);
    assert_eq!(header_value(&h), u64::MAX);

    let h = header_bytes(0x0102_0304_0506_0708);
    assert_eq!(h, vec![1, 2, 3, 4, 5, 6, 7, 8]);
    assert_eq!(header_value(&h), 0x0102_0304_0506_0708);
}

#[test]
fn coordinates_walk_columns_then_rows_then_channels() {
    // For a 2 x 3 image the stream holds 2 * 3 * 3 = 18 entries: x moves
    // outermost, then y, then the three non-alpha channels.
    let dims = (2u32, 3u32);
    let expected = [
        (0, 0, 0),
        (0, 0, 1),
        (0, 0, 2),
        (0, 1, 0),
        (0, 1, 1),
        (0, 1, 2),
        (0, 2, 0),
        (0, 2, 1),
        (0, 2, 2),
        (1, 0, 0),
        (1, 0, 1),
        (1, 0, 2),
        (1, 1, 0),
        (1, 1, 1),
        (1, 1, 2),
        (1, 2, 0),
        (1, 2, 1),
        (1, 2, 2),
    ];
    for (i, want) in expected.iter().enumerate() {
        assert_eq!(coord_iter(dims, i as u64), Some(*want));
    }
    assert_eq!(coord_iter(dims, 18), None);
    assert_eq!(coord_iter((0, 7), 0), None);
}

#[test]
fn available_space_formula() {
    // available = (width * height * 6) / 8 - 8, saturating at zero.
    assert_eq!(available_space(128, 192), 18_424);
    assert_eq!(available_space(512, 256), 98_296);
    assert_eq!(available_space(1, 2), 0);
    assert_eq!(available_space(0, 0), 0);
    // 4 x 4 pixels: 12 payload bytes in all, 4 once the header is paid.
    assert_eq!(available_space(4, 4), 4);

    assert!(fits_within(128, 192, 18_424));
    assert!(!fits_within(128, 192, 18_425));
    assert!(fits_within(4, 4, 4));
    assert!(!fits_within(4, 4, 5));
    // Too small even for the header: not even an empty secret fits.
    assert!(!fits_within(1, 2, 0));
}

#[test]
fn grid_level_round_trip() {
    let width = 4u32;
    let height = 4u32;
    let mut data = vec![0u8; 64];
    for (i, b) in data.iter_mut().enumerate() {
        *b = (17 * i % 256) as u8;
    }
    let mut grid = PixelGrid { width, height, data: data.clone() };
    let secret = vec![0xAB, 0xCD];
    encode_grid(&mut grid, &secret).unwrap();
    assert_eq!(grid.width, width);
    assert_eq!(grid.height, height);
    let decoded = decode_grid(&grid).unwrap();
    assert_eq!(decoded, secret);

    // One byte over the capacity of four is refused and leaves the grid alone.
    let mut grid2 = PixelGrid { width, height, data: data.clone() };
    let too_big = vec![0u8; 5];
    let err = encode_grid(&mut grid2, &too_big).unwrap_err();
    assert!(matches!(
        err.error_type,
        ErrorType::BaseFileNotBigEnough { available_size: 4, secret_file_size: 5 }
    ));
    assert_eq!(err.contexts, vec![ErrorContext::BaseFile]);
    assert_eq!(grid2.data, data);
}

#[test]
fn classification_by_extension() {
    let path = SupportedFileType::from_file_path;
    assert!(matches!(path("photo.png"), Some(SupportedFileType::Png)));
    assert!(matches!(path("photo.PNG"), Some(SupportedFileType::Png)));
    assert!(matches!(path("photo.Png"), Some(SupportedFileType::Png)));
    assert!(matches!(path("dir/photo.png"), Some(SupportedFileType::Png)));
    assert!(matches!(path("dir.png/photo.pNg"), Some(SupportedFileType::Png)));
    assert!(path("photo.jpg").is_none());
    assert!(path("photo").is_none());
    assert!(path(".png").is_none());
    assert!(path("dir/.png").is_none());
    assert!(path("photo.png.txt").is_none());
    assert!(path("").is_none());

    let name = |s: &str| SupportedFileType::from_file_name(s.to_string());
    assert!(matches!(name("photo.png"), Some(SupportedFileType::Png)));
    assert!(matches!(name("PHOTO.PNG"), Some(SupportedFileType::Png)));
    assert!(matches!(name(".png"), Some(SupportedFileType::Png)));
    assert!(name("photo.txt").is_none());
    assert!(name("png").is_none());
    assert!(name("").is_none());
}

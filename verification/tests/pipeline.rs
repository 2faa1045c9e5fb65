use dali::compose::{encode_parameters, plan_decode, plan_watermark, resize_target, EncodeParameters};
use dali::coordinator::{
    accumulate_chunk, amz_meta_key, classify_status, classify_storage_error, collect_fetches,
    is_reserved_header, passthrough_headers, ImageResponse,
};
use dali::errors::{CodecFailure, ImageProcessingError};
use dali::request::{
    HorizontalPosition, ImageFormat, Point, Rotation, Size, VerticalPosition, Watermark,
    DEFAULT_QUALITY, DEFAULT_WATERMARK_SIZE_MILLIPERCENT,
};

/// A minimal little-endian TIFF holding one EXIF entry: the orientation
/// tag with the given value.
fn tiff_with_orientation(value: u8) -> Vec<u8> {
    vec![
        0x49, 0x49, 42, 0, // little-endian TIFF preamble
        8, 0, 0, 0, // offset of the first IFD
        1, 0, // one entry
        0x12, 0x01, // the orientation tag
        3, 0, // 16-bit value
        1, 0, 0, 0, // one value
        value, 0, 0, 0, // the orientation itself
        0, 0, 0, 0, // no further IFD
    ]
}

fn watermark(address: &str) -> Watermark {
    Watermark {
        image_address: address.to_string(),
        position: Point::default(),
        alpha_permille: 500,
        size_millipercent: DEFAULT_WATERMARK_SIZE_MILLIPERCENT,
    }
}

fn response(payload: &[u8]) -> ImageResponse {
    ImageResponse { bytes: payload.to_vec(), response_headers: Vec::new() }
}

#[test]
fn decode_plan_reads_exif_orientation() {
    let rotated = tiff_with_orientation(6);
    let plan = plan_decode(None, &rotated);
    assert!(plan.needs_rotation);
    assert!(plan.autorotate);
    assert!(!plan.sequential_access);
    assert!(plan.extra_rotation.is_none());

    let upright = tiff_with_orientation(1);
    let plan = plan_decode(None, &upright);
    assert!(!plan.needs_rotation);
    assert!(!plan.autorotate);
    assert!(plan.sequential_access);
}

#[test]
fn decode_plan_without_exif_streams_sequentially() {
    let opaque = vec![0xde, 0xad, 0xbe, 0xef, 0, 1, 2, 3, 4, 5, 6, 7];
    let plan = plan_decode(None, &opaque);
    assert!(!plan.needs_rotation);
    assert!(plan.sequential_access);
}

#[test]
fn decode_plan_honors_requested_rotation() {
    let opaque = vec![0u8; 16];
    let plan = plan_decode(Some(Rotation::R180), &opaque);
    assert!(plan.needs_rotation);
    assert!(!plan.sequential_access);
    assert!(plan.autorotate);
    assert!(matches!(plan.extra_rotation, Some(Rotation::R180)));
}

#[test]
fn failed_watermark_is_dropped_others_keep_order() {
    let base = Ok(response(b"base"));
    let specs = vec![watermark("first"), watermark("second"), watermark("third")];
    let results = vec![
        Ok(response(b"one")),
        Err(ImageProcessingError::ImageDownloadFailed),
        Ok(response(b"three")),
    ];
    let out = collect_fetches(base, specs, results).unwrap();
    assert_eq!(out.base.bytes, b"base".to_vec());
    assert_eq!(out.dropped, 1);
    assert_eq!(out.watermarks.len(), 2);
    assert_eq!(out.watermarks[0].0.image_address, "first");
    assert_eq!(out.watermarks[0].1.bytes, b"one".to_vec());
    assert_eq!(out.watermarks[1].0.image_address, "third");
    assert_eq!(out.watermarks[1].1.bytes, b"three".to_vec());
}

#[test]
fn failed_base_fetch_aborts_before_composition() {
    let base = Err(ImageProcessingError::ImageDownloadTimedOut);
    let specs = vec![watermark("first")];
    let results = vec![Ok(response(b"one"))];
    let out = collect_fetches(base, specs, results);
    assert!(matches!(out, Err(ImageProcessingError::ImageDownloadTimedOut)));
}

#[test]
fn all_watermarks_surviving_nothing_dropped() {
    let base = Ok(response(b"base"));
    let specs = vec![watermark("a"), watermark("b")];
    let results = vec![Ok(response(b"a")), Ok(response(b"b"))];
    let out = collect_fetches(base, specs, results).unwrap();
    assert_eq!(out.dropped, 0);
    assert_eq!(out.watermarks.len(), 2);
}

#[test]
fn status_classification() {
    assert!(classify_status(200, "r".to_string()).is_ok());
    assert!(classify_status(299, "r".to_string()).is_ok());
    assert_eq!(
        classify_status(404, "missing".to_string()),
        Err(ImageProcessingError::ClientReturnedErrorStatusCode(404, "missing".to_string()))
    );
    assert_eq!(
        classify_status(503, "down".to_string()),
        Err(ImageProcessingError::ImageDownloadFailed)
    );
    assert_eq!(
        classify_status(301, "moved".to_string()),
        Err(ImageProcessingError::ImageDownloadFailed)
    );
}

#[test]
fn download_limit_crossing_chunk_fails() {
    let total = accumulate_chunk(0, 600, Some(1000)).unwrap();
    assert_eq!(total, 600);
    assert_eq!(
        accumulate_chunk(total, 500, Some(1000)),
        Err(ImageProcessingError::FileSizeExceeded(1000))
    );
    assert_eq!(accumulate_chunk(total, 400, Some(1000)), Ok(1000));
    assert_eq!(accumulate_chunk(0, 5_000_000, None), Ok(5_000_000));
}

#[test]
fn storage_error_codes_map_to_statuses() {
    let err = classify_storage_error(false, true, Some(b"NoSuchKey".to_vec()), "k".to_string());
    assert_eq!(err, ImageProcessingError::ClientReturnedErrorStatusCode(404, "k".to_string()));
    let err = classify_storage_error(false, true, Some(b"AccessDenied".to_vec()), "k".to_string());
    assert_eq!(err, ImageProcessingError::ClientReturnedErrorStatusCode(403, "k".to_string()));
    let err = classify_storage_error(
        false,
        true,
        Some(b"XMinioInvalidObjectName".to_vec()),
        "k".to_string(),
    );
    assert_eq!(err, ImageProcessingError::InvalidResourceUriProvided("k".to_string()));
    let err = classify_storage_error(false, true, Some(b"Throttled".to_vec()), "k".to_string());
    assert_eq!(err, ImageProcessingError::ImageDownloadFailed);
    let err = classify_storage_error(true, false, None, "k".to_string());
    assert_eq!(err, ImageProcessingError::ImageDownloadTimedOut);
    let err = classify_storage_error(false, false, None, "k".to_string());
    assert_eq!(err, ImageProcessingError::ImageDownloadFailed);
}

#[test]
fn reserved_headers_filtered_case_insensitively() {
    assert!(is_reserved_header(&b"Content-Type".to_vec()));
    assert!(is_reserved_header(&b"CONTENT-LENGTH".to_vec()));
    assert!(is_reserved_header(&b"content-type".to_vec()));
    assert!(!is_reserved_header(&b"x-amz-meta-user".to_vec()));
    let headers = vec![
        (b"Content-Type".to_vec(), b"image/png".to_vec()),
        (b"x-first".to_vec(), b"1".to_vec()),
        (b"CONTENT-LENGTH".to_vec(), b"17".to_vec()),
        (b"x-second".to_vec(), b"2".to_vec()),
    ];
    let kept = passthrough_headers(headers);
    assert_eq!(kept.len(), 2);
    assert_eq!(kept[0].0, b"x-first".to_vec());
    assert_eq!(kept[1].0, b"x-second".to_vec());
}

#[test]
fn error_statuses_follow_attribution() {
    assert_eq!(ImageProcessingError::InvalidResourceUriProvided("u".to_string()).status_code(), 400);
    assert_eq!(ImageProcessingError::ImageDownloadTimedOut.status_code(), 400);
    assert_eq!(
        ImageProcessingError::ClientReturnedErrorStatusCode(404, "r".to_string()).status_code(),
        404
    );
    assert_eq!(
        ImageProcessingError::ClientReturnedErrorStatusCode(7, "r".to_string()).status_code(),
        400
    );
    assert_eq!(ImageProcessingError::ImageDownloadFailed.status_code(), 500);
    assert_eq!(ImageProcessingError::ProcessingWorkerJoinError.status_code(), 500);
    assert_eq!(
        ImageProcessingError::ImageProcessingFailed(CodecFailure::DecodeFailed).status_code(),
        400
    );
    assert_eq!(
        ImageProcessingError::ImageProcessingFailed(CodecFailure::ProcessingFailed).status_code(),
        500
    );
    assert_eq!(ImageProcessingError::FileSizeExceeded(1000).status_code(), 400);
}

#[test]
fn watermark_plan_scales_and_places() {
    let wm = Watermark {
        image_address: "w".to_string(),
        position: Point { x: HorizontalPosition::Left(0), y: VerticalPosition::Top(0) },
        alpha_permille: 0,
        size_millipercent: 10_000,
    };
    let plan = plan_watermark(100, 100, 50, 50, &wm).unwrap();
    assert_eq!((plan.target_width, plan.target_height), (10, 10));
    assert!(plan.shrinks);
    assert_eq!((plan.left, plan.top, plan.right, plan.bottom), (0, 0, 90, 90));

    let centered = Watermark {
        image_address: "w".to_string(),
        position: Point { x: HorizontalPosition::Center, y: VerticalPosition::Center },
        alpha_permille: 0,
        size_millipercent: 20_000,
    };
    let plan = plan_watermark(100, 100, 5, 5, &centered).unwrap();
    assert_eq!((plan.target_width, plan.target_height), (20, 20));
    assert!(!plan.shrinks);
    assert_eq!((plan.left, plan.top, plan.right, plan.bottom), (40, 40, 40, 40));
}

#[test]
fn watermark_plan_rejects_bad_scale() {
    let mut wm = watermark("w");
    wm.size_millipercent = 0;
    assert!(plan_watermark(100, 100, 10, 10, &wm).is_err());
    wm.size_millipercent = 100_001;
    assert!(plan_watermark(100, 100, 10, 10, &wm).is_err());
}

#[test]
fn encode_parameters_by_format() {
    match encode_parameters(ImageFormat::Jpeg, 80) {
        EncodeParameters::Jpeg { quality, strip, optimize_coding, optimize_scans, interlace } => {
            assert_eq!(quality, 80);
            assert!(strip && optimize_coding && optimize_scans && interlace);
        },
        _ => panic!("wrong parameters for jpeg"),
    }
    match encode_parameters(ImageFormat::Webp, 10) {
        EncodeParameters::Webp { quality, strip, effort } => {
            assert_eq!((quality, strip, effort), (10, true, 2));
        },
        _ => panic!("wrong parameters for webp"),
    }
    match encode_parameters(ImageFormat::Png, 75) {
        EncodeParameters::Png { quality, strip, bitdepth } => {
            assert_eq!((quality, strip, bitdepth), (75, true, 8));
        },
        _ => panic!("wrong parameters for png"),
    }
    match encode_parameters(ImageFormat::Heic, 50) {
        EncodeParameters::Heic { quality, strip } => {
            assert_eq!((quality, strip), (50, true));
        },
        _ => panic!("wrong parameters for heic"),
    }
}

#[test]
fn request_defaults_and_names() {
    assert_eq!(DEFAULT_QUALITY, 75);
    assert_eq!(DEFAULT_WATERMARK_SIZE_MILLIPERCENT, 10_000);
    let size = Size::default();
    assert!(size.width.is_none() && size.height.is_none());
    let point = Point::default();
    assert!(matches!(point.x, HorizontalPosition::Left(0)));
    assert!(matches!(point.y, VerticalPosition::Top(0)));
    assert!(matches!(ImageFormat::default(), ImageFormat::Jpeg));
    assert_eq!(ImageFormat::Jpeg.name(), "jpeg");
    assert_eq!(ImageFormat::Png.name(), "png");
    assert_eq!(ImageFormat::Webp.name(), "webp");
    assert_eq!(ImageFormat::Heic.name(), "heic");
    assert_eq!(Rotation::R90.clockwise_degrees(), 270);
    assert_eq!(Rotation::R180.clockwise_degrees(), 180);
    assert_eq!(Rotation::R270.clockwise_degrees(), 90);
}

#[test]
fn resize_decision_skips_absent_size() {
    assert_eq!(resize_target(100, 100, &Size { width: None, height: None }).unwrap(), None);
    assert_eq!(
        resize_target(100, 150, &Size { width: Some(100), height: Some(100) }).unwrap(),
        Some((66, 100))
    );
    assert!(resize_target(100, 100, &Size { width: Some(0), height: None }).is_err());
}

#[test]
fn request_without_watermarks_composes_base_alone() {
    let out = collect_fetches(Ok(response(b"base")), Vec::new(), Vec::new()).unwrap();
    assert_eq!(out.dropped, 0);
    assert!(out.watermarks.is_empty());
    assert_eq!(out.base.bytes, b"base".to_vec());
}

#[test]
fn storage_metadata_keys_are_prefixed() {
    assert_eq!(amz_meta_key(&b"user".to_vec()), b"x-amz-meta-user".to_vec());
    assert_eq!(amz_meta_key(&b"".to_vec()), b"x-amz-meta-".to_vec());
}

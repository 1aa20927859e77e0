use ocr_intake::extract::BatteryReading;
use ocr_intake::recognize::{
    decode_image, decoded_or_error, ocr_decoded, ocr_image, process_image, readings_from_lines,
    recognize_lines, RecognitionError, Recognized, RgbPixels,
};

fn engine_without_models() -> ocrs::OcrEngine {
    ocrs::OcrEngine::new(ocrs::OcrEngineParams::default()).unwrap()
}

// A bitmap of two pixels in one row: the left one red, the right one blue.
fn two_pixel_bitmap() -> Vec<u8> {
    let mut file = vec![b'B', b'M'];
    file.extend_from_slice(&62u32.to_le_bytes());
    file.extend_from_slice(&[0, 0, 0, 0]);
    file.extend_from_slice(&54u32.to_le_bytes());
    file.extend_from_slice(&40u32.to_le_bytes());
    file.extend_from_slice(&2i32.to_le_bytes());
    file.extend_from_slice(&1i32.to_le_bytes());
    file.extend_from_slice(&1u16.to_le_bytes());
    file.extend_from_slice(&24u16.to_le_bytes());
    file.extend_from_slice(&0u32.to_le_bytes());
    file.extend_from_slice(&8u32.to_le_bytes());
    file.extend_from_slice(&2835i32.to_le_bytes());
    file.extend_from_slice(&2835i32.to_le_bytes());
    file.extend_from_slice(&0u32.to_le_bytes());
    file.extend_from_slice(&0u32.to_le_bytes());
    file.extend_from_slice(&[0, 0, 255, 255, 0, 0, 0, 0]);
    file
}

#[test]
fn bitmap_is_decoded_to_rgb() {
    let image = decode_image(&two_pixel_bitmap()).unwrap();
    assert_eq!(image.width, 2);
    assert_eq!(image.height, 1);
    assert_eq!(image.data, vec![255, 0, 0, 0, 0, 255]);
}

#[test]
fn bytes_that_are_no_image_fail_to_decode() {
    assert!(matches!(decode_image(b"not an image"), Err(RecognitionError::Decode)));
    assert!(matches!(decode_image(&[]), Err(RecognitionError::Decode)));
}

#[test]
fn corrupt_image_fails_to_decode() {
    let mut file = two_pixel_bitmap();
    file.truncate(30);
    assert!(matches!(decode_image(&file), Err(RecognitionError::Decode)));
}

#[test]
fn image_without_pixels_is_rejected_before_any_model_runs() {
    let engine = engine_without_models();
    let image = RgbPixels { width: 0, height: 0, data: Vec::new() };
    assert_eq!(recognize_lines(&engine, &image), Err(RecognitionError::Source));
    assert_eq!(ocr_image(&engine, &image), Err(RecognitionError::Source));
}

#[test]
fn image_with_inconsistent_data_is_rejected() {
    let engine = engine_without_models();
    let short = RgbPixels { width: 2, height: 2, data: vec![0; 11] };
    assert_eq!(ocr_image(&engine, &short), Err(RecognitionError::Source));
    let two_channels = RgbPixels { width: 2, height: 2, data: vec![0; 8] };
    assert_eq!(ocr_image(&engine, &two_channels), Err(RecognitionError::Source));
}

#[test]
fn image_with_too_many_pixels_is_rejected() {
    let engine = engine_without_models();
    let image = RgbPixels { width: 65536, height: 65536, data: Vec::new() };
    assert_eq!(ocr_image(&engine, &image), Err(RecognitionError::Source));
}

#[test]
fn engine_without_detection_model_fails_at_detection() {
    let engine = engine_without_models();
    let image = RgbPixels { width: 2, height: 2, data: vec![128; 12] };
    assert_eq!(recognize_lines(&engine, &image), Err(RecognitionError::Detection));
    assert_eq!(ocr_image(&engine, &image), Err(RecognitionError::Detection));
}

#[test]
fn process_image_reports_the_stage_that_failed() {
    let engine = engine_without_models();
    assert_eq!(process_image(&engine, b"garbage"), Err(RecognitionError::Decode));
    assert_eq!(
        process_image(&engine, &two_pixel_bitmap()),
        Err(RecognitionError::Detection)
    );
}

#[test]
fn readings_are_taken_from_the_lines() {
    let lines = vec![Some("x55%".to_string()), None, Some("nothing".to_string())];
    assert_eq!(
        readings_from_lines(Ok(lines.clone())),
        Ok(Recognized { lines, readings: vec![BatteryReading::new(55).unwrap()] })
    );
    assert_eq!(
        readings_from_lines(Err(RecognitionError::Recognition)),
        Err(RecognitionError::Recognition)
    );
}

#[test]
fn lines_without_readings_are_still_reported() {
    let lines = vec![Some("Battery".to_string()), Some("x150%".to_string())];
    assert_eq!(
        readings_from_lines(Ok(lines.clone())),
        Ok(Recognized { lines, readings: Vec::new() })
    );
}

#[test]
fn missing_pixels_are_a_failure_to_decode() {
    assert!(matches!(decoded_or_error(None), Err(RecognitionError::Decode)));
    let pixels = RgbPixels { width: 1, height: 1, data: vec![1, 2, 3] };
    let kept = decoded_or_error(Some(pixels)).unwrap();
    assert_eq!((kept.width, kept.height, kept.data), (1, 1, vec![1, 2, 3]));
}

#[test]
fn rest_of_the_pipeline_after_decoding() {
    let engine = engine_without_models();
    assert_eq!(ocr_decoded(&engine, None), Err(RecognitionError::Decode));
    let empty = RgbPixels { width: 0, height: 3, data: Vec::new() };
    assert_eq!(ocr_decoded(&engine, Some(empty)), Err(RecognitionError::Source));
    let grey = RgbPixels { width: 2, height: 2, data: vec![7; 12] };
    assert_eq!(ocr_decoded(&engine, Some(grey)), Err(RecognitionError::Detection));
}

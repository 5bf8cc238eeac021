use fastformat::Buffer;
use fastformat::Error;
use fastformat::arrow::builder::ArrowDataBuilder;
use fastformat::image::Image;

fn data_ptr(b: &Buffer<u8>) -> usize {
    match b {
        Buffer::Owned(v) => v.as_ptr() as usize,
        Buffer::Shared(rc) => (**rc).as_ptr() as usize,
    }
}

fn is_owned(b: &Buffer<u8>) -> bool {
    matches!(b, Buffer::Owned(_))
}

#[test]
fn test_rgb8_into_bgr8() {
    let flat_image = (0..27).collect::<Vec<u8>>();
    let image = Image::new_rgb8(flat_image, 3, 3, Some("camera.test")).unwrap();

    let final_image = image.into_bgr8().unwrap();
    let final_image_data = final_image.data.as_vec();

    let expected_image = vec![
        2, 1, 0, 5, 4, 3, 8, 7, 6, 11, 10, 9, 14, 13, 12, 17, 16, 15, 20, 19, 18, 23, 22, 21, 26,
        25, 24,
    ];

    assert_eq!(&expected_image, final_image_data);
}

#[test]
fn test_bgr8_into_rgb8() {
    let flat_image = (0..27).collect::<Vec<u8>>();
    let image = Image::new_bgr8(flat_image, 3, 3, Some("camera.test")).unwrap();

    let final_image = image.into_rgb8().unwrap();
    let final_image_data = final_image.data.as_vec();

    let expected_image = vec![
        2, 1, 0, 5, 4, 3, 8, 7, 6, 11, 10, 9, 14, 13, 12, 17, 16, 15, 20, 19, 18, 23, 22, 21, 26,
        25, 24,
    ];

    assert_eq!(&expected_image, final_image_data);
}

#[test]
fn test_bgr8_creation() {
    let flat_image = vec![0; 27];

    Image::new_bgr8(flat_image, 3, 3, Some("camera.test")).unwrap();
}

#[test]
fn test_rgb8_creation() {
    let flat_image = vec![0; 27];

    Image::new_rgb8(flat_image, 3, 3, Some("camera.test")).unwrap();
}

#[test]
fn test_gray8_creation() {
    let flat_image = vec![0; 10];

    Image::new_gray8(flat_image, 5, 2, Some("camera.test")).unwrap();
}

#[test]
fn test_image_creation_length_mismatch() {
    let flat_image = vec![0; 26];

    let r = Image::new_bgr8(flat_image, 3, 3, None);
    assert!(matches!(r, Err(Error::LengthMismatch)));
}

#[test]
fn test_gray8_unsupported_conversion() {
    let image = Image::new_gray8(vec![0; 9], 3, 3, None).unwrap();
    let r = image.into_rgb8();
    assert!(matches!(r, Err(Error::UnsupportedConversion)));
}

#[test]
fn image_test_arrow_zero_copy_conversion() {
    let flat_image = vec![0; 27];
    let original_buffer_address = flat_image.as_ptr() as usize;

    let bgr8_image = Image::new_bgr8(flat_image, 3, 3, None).unwrap();
    let image_buffer_address = data_ptr(&bgr8_image.data);

    let arrow_image = bgr8_image.into_arrow().unwrap();

    let bgr8_image = Image::from_arrow(arrow_image).unwrap();
    let bgr8_image_buffer = data_ptr(&bgr8_image.data);

    let rgb8_image = bgr8_image.into_rgb8().unwrap();
    let rgb8_image_buffer = data_ptr(&rgb8_image.data);

    assert_eq!(original_buffer_address, image_buffer_address);
    assert_eq!(image_buffer_address, bgr8_image_buffer);
    assert_eq!(bgr8_image_buffer, rgb8_image_buffer);
}

#[test]
fn image_test_arrow_zero_copy_read_only() {
    let flat_image = vec![7; 27];
    let original_buffer_address = flat_image.as_ptr() as usize;

    let bgr8_image = Image::new_bgr8(flat_image, 3, 3, None).unwrap();
    let image_buffer_address = data_ptr(&bgr8_image.data);

    let arrow_image = bgr8_image.into_arrow().unwrap();

    let viewer = Image::viewer(arrow_image).unwrap();
    let new_image = Image::view_arrow(&viewer).unwrap();

    let final_image_buffer = data_ptr(&new_image.data);

    assert_eq!(original_buffer_address, image_buffer_address);
    assert_eq!(image_buffer_address, final_image_buffer);
    assert!(!is_owned(&new_image.data));
    assert_eq!(new_image.data.as_vec(), &vec![7; 27]);
}

#[test]
fn image_test_arrow_zero_copy_copy_on_write() {
    let flat_image = (0..27).collect::<Vec<u8>>();
    let original_buffer_address = flat_image.as_ptr() as usize;

    let bgr8_image = Image::new_bgr8(flat_image, 3, 3, None).unwrap();
    let image_buffer_address = data_ptr(&bgr8_image.data);

    let arrow_image = bgr8_image.into_arrow().unwrap();

    let viewer = Image::viewer(arrow_image).unwrap();
    let bgr8_image = Image::view_arrow(&viewer).unwrap();
    let rgb8_image = bgr8_image.into_rgb8().unwrap();

    let final_image_buffer = data_ptr(&rgb8_image.data);

    assert_eq!(original_buffer_address, image_buffer_address);
    assert_ne!(image_buffer_address, final_image_buffer);

    // The viewed buffer is untouched by the conversion: a fresh view
    // still reads the original byte order.
    let again = Image::view_arrow(&viewer).unwrap();
    assert_eq!(again.data.as_vec(), &(0..27).collect::<Vec<u8>>());
}

#[test]
fn test_image_encode_decode_into_rgb8() {
    let flat_image = (0..27).collect::<Vec<u8>>();
    let image = Image::new_bgr8(flat_image, 3, 3, None).unwrap();

    let arrow_image = image.into_arrow().unwrap();
    let decoded = Image::from_arrow(arrow_image).unwrap();
    assert_eq!(decoded.width, 3);
    assert_eq!(decoded.height, 3);
    assert_eq!(decoded.name, None);

    let rgb8 = decoded.into_rgb8().unwrap();
    let expected = vec![
        2u8, 1, 0, 5, 4, 3, 8, 7, 6, 11, 10, 9, 14, 13, 12, 17, 16, 15, 20, 19, 18, 23, 22, 21,
        26, 25, 24,
    ];
    assert_eq!(rgb8.data.as_vec(), &expected);
}

#[test]
fn test_image_round_trip_fields() {
    let image = Image::new_rgb8((0..12).collect(), 2, 2, Some("cam.front")).unwrap();
    let rec = image.into_arrow().unwrap();
    let back = Image::from_arrow(rec).unwrap();

    assert_eq!(back.data.as_vec(), &(0..12).collect::<Vec<u8>>());
    assert_eq!(back.width, 2);
    assert_eq!(back.height, 2);
    assert_eq!(back.name.as_deref(), Some("cam.front"));
}

#[test]
fn test_image_decode_missing_field() {
    // A record without the shape singletons is rejected as incomplete.
    let rec = ArrowDataBuilder::new()
        .push_primitive_array::<u8>("data", vec![0; 27])
        .build()
        .unwrap();
    let r = Image::from_arrow(rec);
    assert!(matches!(r, Err(Error::FieldMissing(_))));
}

#[test]
fn test_image_decode_unknown_tag() {
    let rec = ArrowDataBuilder::new()
        .push_primitive_array::<u8>("data", vec![0; 27])
        .push_primitive_singleton::<u32>("width", 3)
        .push_primitive_singleton::<u32>("height", 3)
        .push_utf8_singleton("encoding", "JUNK".to_string())
        .push_utf8_singleton("name", String::new())
        .build()
        .unwrap();
    let r = Image::from_arrow(rec);
    assert!(matches!(r, Err(Error::MalformedRecord)));
}

#[test]
fn test_image_decode_length_mismatch() {
    let rec = ArrowDataBuilder::new()
        .push_primitive_array::<u8>("data", vec![0; 5])
        .push_primitive_singleton::<u32>("width", 3)
        .push_primitive_singleton::<u32>("height", 3)
        .push_utf8_singleton("encoding", "RGB8".to_string())
        .push_utf8_singleton("name", String::new())
        .build()
        .unwrap();
    let r = Image::from_arrow(rec);
    assert!(matches!(r, Err(Error::LengthMismatch)));
}

#[test]
fn test_image_viewer_missing_pixel_field() {
    let rec = ArrowDataBuilder::new()
        .push_primitive_singleton::<u32>("width", 3)
        .build()
        .unwrap();
    let r = Image::viewer(rec);
    assert!(matches!(r, Err(Error::FieldMissing(_))));
}

#[test]
fn test_image_decode_wrong_column_type() {
    // The pixel payload must be a byte column.
    let rec = ArrowDataBuilder::new()
        .push_primitive_array::<u32>("data", vec![0; 27])
        .push_primitive_singleton::<u32>("width", 3)
        .push_primitive_singleton::<u32>("height", 3)
        .push_utf8_singleton("encoding", "RGB8".to_string())
        .push_utf8_singleton("name", String::new())
        .build()
        .unwrap();
    let r = Image::from_arrow(rec);
    assert!(matches!(r, Err(Error::TypeMismatch { .. })));
}

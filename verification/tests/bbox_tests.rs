use fastformat::Buffer;
use fastformat::Error;
use fastformat::F32Bits;
use fastformat::bbox::BBox;

fn fb(x: f32) -> F32Bits {
    F32Bits::new(x.to_bits())
}

fn floats(b: &Buffer<F32Bits>) -> Vec<f32> {
    b.as_vec().iter().map(|v| f32::from_bits(v.bits)).collect()
}

fn fdata_ptr(b: &Buffer<F32Bits>) -> usize {
    match b {
        Buffer::Owned(v) => v.as_ptr() as usize,
        Buffer::Shared(rc) => (**rc).as_ptr() as usize,
    }
}

#[test]
fn test_xyxy_into_xywh() {
    let flat_bbox = vec![fb(1.0), fb(1.0), fb(2.0), fb(2.0)];
    let confidence = vec![fb(0.98)];
    let label = vec!["cat".to_string()];

    let bbox = BBox::new_xyxy(flat_bbox, confidence, label).unwrap();
    let final_bbox = bbox.into_xywh().unwrap();

    let expected_bbox = vec![1.0, 1.0, 1.0, 1.0];

    assert_eq!(expected_bbox, floats(&final_bbox.data));
}

#[test]
fn test_xywh_into_xyxy() {
    let flat_bbox = vec![fb(1.0), fb(1.0), fb(1.0), fb(1.0)];
    let confidence = vec![fb(0.98)];
    let label = vec!["cat".to_string()];

    let bbox = BBox::new_xywh(flat_bbox, confidence, label).unwrap();
    let final_bbox = bbox.into_xyxy().unwrap();

    let expected_bbox = vec![1.0, 1.0, 2.0, 2.0];

    assert_eq!(expected_bbox, floats(&final_bbox.data));
}

#[test]
fn test_xyxy_creation() {
    let flat_bbox = vec![fb(1.0), fb(1.0), fb(2.0), fb(2.0)];
    let confidence = vec![fb(0.98)];
    let label = vec!["cat".to_string()];

    BBox::new_xyxy(flat_bbox, confidence, label).unwrap();
}

#[test]
fn test_xywh_creation() {
    let flat_bbox = vec![fb(1.0), fb(1.0), fb(1.0), fb(1.0)];
    let confidence = vec![fb(0.98)];
    let label = vec!["cat".to_string()];

    BBox::new_xywh(flat_bbox, confidence, label).unwrap();
}

#[test]
fn test_bbox_label_length_mismatch() {
    let flat_bbox = vec![fb(1.0), fb(1.0), fb(2.0), fb(2.0)];
    let confidence = vec![fb(0.98)];
    let label = vec!["cat".to_string(), "dog".to_string()];

    let r = BBox::new_xyxy(flat_bbox, confidence, label);
    assert!(matches!(r, Err(Error::LengthMismatch)));
}

#[test]
fn test_bbox_data_length_mismatch() {
    let flat_bbox = vec![fb(1.0), fb(1.0), fb(2.0)];
    let confidence = vec![fb(0.98)];
    let label = vec!["cat".to_string()];

    let r = BBox::new_xyxy(flat_bbox, confidence, label);
    assert!(matches!(r, Err(Error::LengthMismatch)));
}

#[test]
fn test_bbox_round_trip_exact() {
    let flat_bbox = vec![fb(1.0), fb(1.0), fb(2.0), fb(2.0)];
    let confidence = vec![fb(0.98)];
    let label = vec!["cat".to_string()];

    let bbox = BBox::new_xyxy(flat_bbox, confidence, label).unwrap();
    let xywh = bbox.into_xywh().unwrap();
    assert_eq!(floats(&xywh.data), vec![1.0, 1.0, 1.0, 1.0]);

    let back = xywh.into_xyxy().unwrap();
    assert_eq!(floats(&back.data), vec![1.0, 1.0, 2.0, 2.0]);
    assert_eq!(floats(&back.confidence), vec![0.98]);
    assert_eq!(back.label, vec!["cat".to_string()]);
}

#[test]
fn test_bbox_conversion_idempotent() {
    let bbox = BBox::new_xyxy(
        vec![fb(1.0), fb(2.0), fb(5.0), fb(7.0)],
        vec![fb(0.5)],
        vec!["dog".to_string()],
    )
    .unwrap();
    let once = bbox.into_xywh().unwrap();
    let first = floats(&once.data);
    let twice = once.into_xywh().unwrap();
    assert_eq!(first, floats(&twice.data));
}

#[test]
fn test_arrow_zero_copy_conversion() {
    let flat_bbox = vec![fb(1.0), fb(1.0), fb(2.0), fb(2.0)];
    let original_buffer_address = flat_bbox.as_ptr() as usize;

    let confidence = vec![fb(0.98)];
    let label = vec!["cat".to_string()];

    let xyxy_bbox = BBox::new_xyxy(flat_bbox, confidence, label).unwrap();
    let bbox_buffer_address = fdata_ptr(&xyxy_bbox.data);

    let arrow_bbox = xyxy_bbox.into_arrow().unwrap();

    let xyxy_bbox = BBox::from_arrow(arrow_bbox).unwrap();
    let xyxy_bbox_buffer = fdata_ptr(&xyxy_bbox.data);

    let xywh_bbox = xyxy_bbox.into_xywh().unwrap();
    let xywh_bbox_buffer = fdata_ptr(&xywh_bbox.data);

    assert_eq!(original_buffer_address, bbox_buffer_address);
    assert_eq!(bbox_buffer_address, xyxy_bbox_buffer);
    assert_eq!(xyxy_bbox_buffer, xywh_bbox_buffer);
}

#[test]
fn test_arrow_zero_copy_read_only() {
    let flat_bbox = vec![fb(1.0), fb(1.0), fb(2.0), fb(2.0)];
    let original_buffer_address = flat_bbox.as_ptr() as usize;

    let confidence = vec![fb(0.98)];
    let label = vec!["cat".to_string()];

    let xyxy_bbox = BBox::new_xyxy(flat_bbox, confidence, label).unwrap();
    let bbox_buffer_address = fdata_ptr(&xyxy_bbox.data);

    let arrow_bbox = xyxy_bbox.into_arrow().unwrap();

    let raw_data = BBox::viewer(arrow_bbox).unwrap();
    let xyxy_bbox = BBox::view_arrow(&raw_data).unwrap();
    let xyxy_bbox_buffer = fdata_ptr(&xyxy_bbox.data);

    assert_eq!(original_buffer_address, bbox_buffer_address);
    assert_eq!(bbox_buffer_address, xyxy_bbox_buffer);
    assert_eq!(xyxy_bbox.label, vec!["cat".to_string()]);
}

#[test]
fn test_arrow_zero_copy_copy_on_write() {
    let flat_bbox = vec![fb(1.0), fb(1.0), fb(2.0), fb(2.0)];
    let original_buffer_address = flat_bbox.as_ptr() as usize;

    let confidence = vec![fb(0.98)];
    let label = vec!["cat".to_string()];

    let xyxy_bbox = BBox::new_xyxy(flat_bbox, confidence, label).unwrap();
    let bbox_buffer_address = fdata_ptr(&xyxy_bbox.data);

    let arrow_bbox = xyxy_bbox.into_arrow().unwrap();

    let raw_data = BBox::viewer(arrow_bbox).unwrap();
    let xyxy_bbox = BBox::view_arrow(&raw_data).unwrap();
    let xywh_bbox = xyxy_bbox.into_xywh().unwrap();

    let final_bbox_buffer = fdata_ptr(&xywh_bbox.data);

    assert_eq!(original_buffer_address, bbox_buffer_address);
    assert_ne!(bbox_buffer_address, final_bbox_buffer);

    // The viewed buffer is untouched by the conversion.
    let again = BBox::view_arrow(&raw_data).unwrap();
    assert_eq!(floats(&again.data), vec![1.0, 1.0, 2.0, 2.0]);
}

#[test]
fn test_bbox_encode_decode_labels() {
    let bbox = BBox::new_xyxy(
        vec![fb(1.0), fb(1.0), fb(2.0), fb(2.0), fb(3.0), fb(3.0), fb(4.0), fb(4.0)],
        vec![fb(0.9), fb(0.8)],
        vec!["cat".to_string(), "dog".to_string()],
    )
    .unwrap();
    let rec = bbox.into_arrow().unwrap();
    let back = BBox::from_arrow(rec).unwrap();
    assert_eq!(back.label, vec!["cat".to_string(), "dog".to_string()]);
    assert_eq!(floats(&back.confidence), vec![0.9, 0.8]);
}

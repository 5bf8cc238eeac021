use fastformat::Buffer;
use fastformat::Error;
use fastformat::F32Bits;
use fastformat::image_in_video::ImageInVideo;
use fastformat::joints_position::{Encoding as JointsEncoding, JointsPosition};
use fastformat::laser_scan_2d::LaserScan2D;
use fastformat::schema::{FieldDescriptor, FieldKind, Schema};

fn fb(x: f32) -> F32Bits {
    F32Bits::new(x.to_bits())
}

fn floats(b: &Buffer<F32Bits>) -> Vec<f32> {
    b.as_vec().iter().map(|v| f32::from_bits(v.bits)).collect()
}

#[test]
fn test_laser_scan_2d_creation() {
    let data = vec![fb(0.0); 10];
    let intensities = vec![fb(0.0); 10];

    LaserScan2D::new(data, intensities, 10, fb(0.0), fb(10.0), fb(0.1), fb(-1.0), fb(1.0))
        .unwrap();
}

#[test]
fn test_laser_scan_length_mismatch() {
    let r = LaserScan2D::new(
        vec![fb(0.0); 10],
        vec![fb(0.0); 9],
        10,
        fb(0.0),
        fb(10.0),
        fb(0.1),
        fb(-1.0),
        fb(1.0),
    );
    assert!(matches!(r, Err(Error::LengthMismatch)));
}

#[test]
fn test_laser_scan_round_trip() {
    let scan = LaserScan2D::new(
        vec![fb(1.5), fb(2.5)],
        vec![fb(0.1), fb(0.2)],
        2,
        fb(0.5),
        fb(30.0),
        fb(0.01),
        fb(-1.57),
        fb(1.57),
    )
    .unwrap();

    let rec = scan.into_arrow().unwrap();
    let back = LaserScan2D::from_arrow(rec).unwrap();

    assert_eq!(floats(&back.data), vec![1.5, 2.5]);
    assert_eq!(floats(&back.intensities), vec![0.1, 0.2]);
    assert_eq!(back.length, 2);
    assert_eq!(f32::from_bits(back.min_distance.bits), 0.5);
    assert_eq!(f32::from_bits(back.max_distance.bits), 30.0);
    assert_eq!(f32::from_bits(back.angle_increment.bits), 0.01);
    assert_eq!(f32::from_bits(back.angle_min.bits), -1.57);
    assert_eq!(f32::from_bits(back.angle_max.bits), 1.57);
}

#[test]
fn test_laser_scan_view() {
    let scan = LaserScan2D::new(
        vec![fb(1.5), fb(2.5)],
        vec![fb(0.1), fb(0.2)],
        2,
        fb(0.5),
        fb(30.0),
        fb(0.01),
        fb(-1.57),
        fb(1.57),
    )
    .unwrap();

    let rec = scan.into_arrow().unwrap();
    let raw = LaserScan2D::raw_data(rec).unwrap();
    let view = LaserScan2D::view_from_raw_data(&raw).unwrap();
    assert!(matches!(view.data, Buffer::Shared(_)));
    assert_eq!(floats(&view.data), vec![1.5, 2.5]);
    assert_eq!(view.length, 2);
}

#[test]
fn test_joints_position_round_trip() {
    let joints = vec!["a".to_string(), "bb".to_string(), "ccc".to_string()];
    let positions = vec![fb(0.25), fb(0.5), fb(0.75)];
    let jp = JointsPosition::new(joints.clone(), positions, JointsEncoding::Physical).unwrap();

    let rec = jp.into_arrow().unwrap();
    let back = JointsPosition::from_arrow(rec).unwrap();

    assert_eq!(back.joints, joints);
    assert_eq!(floats(&back.positions), vec![0.25, 0.5, 0.75]);
    assert!(matches!(back.encoding, JointsEncoding::Physical));
}

#[test]
fn test_joints_position_view() {
    let joints = vec!["shoulder".to_string(), "elbow".to_string()];
    let jp = JointsPosition::new(
        joints.clone(),
        vec![fb(1.0), fb(2.0)],
        JointsEncoding::Logical,
    )
    .unwrap();

    let rec = jp.into_arrow().unwrap();
    let viewer = JointsPosition::viewer(rec).unwrap();
    let view = JointsPosition::view_arrow(&viewer).unwrap();
    assert_eq!(view.joints, joints);
    assert!(matches!(view.positions, Buffer::Shared(_)));
    assert_eq!(floats(&view.positions), vec![1.0, 2.0]);
}

#[test]
fn test_image_in_video_round_trip() {
    let v = ImageInVideo::new("/videos/run1.mp4".to_string(), fb(12.5), fb(30.0), None).unwrap();
    let rec = v.into_arrow().unwrap();
    let back = ImageInVideo::from_arrow(rec).unwrap();

    assert_eq!(back.video_path, "/videos/run1.mp4");
    assert_eq!(f32::from_bits(back.timestamp.bits), 12.5);
    assert_eq!(f32::from_bits(back.framerate.bits), 30.0);
    assert_eq!(back.name, None);
}

#[test]
fn test_image_in_video_named_view() {
    let v = ImageInVideo::new(
        "/videos/run2.mp4".to_string(),
        fb(1.0),
        fb(24.0),
        Some("clip".to_string()),
    )
    .unwrap();
    let rec = v.into_arrow().unwrap();
    let raw = ImageInVideo::raw_data(rec).unwrap();
    let back = ImageInVideo::view_from_raw_data(&raw).unwrap();
    assert_eq!(back.name.as_deref(), Some("clip"));
    assert_eq!(back.video_path, "/videos/run2.mp4");
}

#[test]
fn test_schema_validation() {
    let fields = vec![
        FieldDescriptor { name: "data".to_string(), kind: FieldKind::PrimitiveArray(
            fastformat::arrow::ColumnType::U8,
        ) },
        FieldDescriptor { name: "width".to_string(), kind: FieldKind::PrimitiveSingleton(
            fastformat::arrow::ColumnType::U32,
        ) },
        FieldDescriptor { name: "encoding".to_string(), kind: FieldKind::Utf8Singleton },
    ];
    let schema = Schema::new(fields).unwrap();
    assert_eq!(schema.len(), 3);
    assert_eq!(schema.field(0).name, "data");
}

#[test]
fn test_schema_duplicate_field() {
    let fields = vec![
        FieldDescriptor { name: "data".to_string(), kind: FieldKind::Utf8Array },
        FieldDescriptor { name: "data".to_string(), kind: FieldKind::Utf8Singleton },
    ];
    match Schema::new(fields) {
        Err(Error::DuplicateField(n)) => assert_eq!(n, "data"),
        _ => panic!("expected a duplicate-field failure"),
    }
}

use std::rc::Rc;

use fastformat::Buffer;

use fastformat::Error;
use fastformat::arrow::builder::ArrowDataBuilder;
use fastformat::arrow::consumer::ArrowDataConsumer;
use fastformat::arrow::viewer::ArrowDataViewer;
use fastformat::arrow::{ArrowData, ColumnData, WireField};

#[test]
fn test_utf8_array_round_trip() {
    let strings = vec!["a".to_string(), "bb".to_string(), "ccc".to_string()];
    let builder = ArrowDataBuilder::new().push_utf8_array("label", strings.clone());
    let rec = builder.build().unwrap();

    let mut consumer = ArrowDataConsumer::new(rec).unwrap();
    let back = consumer.utf8_array("label").unwrap();
    assert_eq!(back, strings);
}

#[test]
fn test_slot_consumption() {
    let builder = ArrowDataBuilder::new().push_primitive_array::<u8>("data", vec![1, 2, 3]);
    let rec = builder.build().unwrap();

    let mut consumer = ArrowDataConsumer::new(rec).unwrap();
    let first = consumer.primitive_array::<u8>("data").unwrap();
    assert_eq!(first, vec![1, 2, 3]);

    let second = consumer.primitive_array::<u8>("data");
    assert!(matches!(second, Err(Error::FieldMissing(_))));
}

#[test]
fn test_primitive_singletons() {
    let builder = ArrowDataBuilder::new()
        .push_primitive_singleton::<u32>("width", 640)
        .push_primitive_singleton::<u64>("length", 360)
        .push_primitive_singleton::<u16>("depth", 16);
    let rec = builder.build().unwrap();

    let consumer = ArrowDataConsumer::new(rec).unwrap();
    assert_eq!(consumer.primitive_singleton::<u32>("width").unwrap(), 640);
    assert_eq!(consumer.primitive_singleton::<u64>("length").unwrap(), 360);
    assert_eq!(consumer.primitive_singleton::<u16>("depth").unwrap(), 16);

    // Reading a singleton does not consume its slot.
    assert_eq!(consumer.primitive_singleton::<u32>("width").unwrap(), 640);
}

#[test]
fn test_type_mismatch() {
    let builder = ArrowDataBuilder::new().push_primitive_singleton::<u32>("width", 640);
    let rec = builder.build().unwrap();

    let consumer = ArrowDataConsumer::new(rec).unwrap();
    let r = consumer.primitive_singleton::<u8>("width");
    assert!(matches!(r, Err(Error::TypeMismatch { .. })));
}

#[test]
fn test_field_missing() {
    let builder = ArrowDataBuilder::new().push_primitive_singleton::<u32>("width", 640);
    let rec = builder.build().unwrap();

    let consumer = ArrowDataConsumer::new(rec).unwrap();
    let r = consumer.primitive_singleton::<u32>("height");
    assert!(matches!(r, Err(Error::FieldMissing(_))));
}

#[test]
fn test_duplicate_field() {
    let builder = ArrowDataBuilder::new()
        .push_primitive_singleton::<u32>("width", 640)
        .push_primitive_singleton::<u32>("width", 480);
    let r = builder.build();
    match r {
        Err(Error::DuplicateField(n)) => assert_eq!(n, "width"),
        _ => panic!("expected a duplicate-field failure"),
    }
}

#[test]
fn test_malformed_record() {
    let fields = vec![
        WireField { name: "x".to_string(), column: ColumnData::U8(Rc::new(vec![1])) },
        WireField { name: "x".to_string(), column: ColumnData::U8(Rc::new(vec![2])) },
    ];
    let rec = ArrowData { fields };
    let r = ArrowDataConsumer::new(rec);
    assert!(matches!(r, Err(Error::MalformedRecord)));
}

#[test]
fn test_buffer_shared_reclaim() {
    let payload = Rc::new(vec![1u8, 2, 3]);
    let alias = Rc::clone(&payload);
    let rec = ArrowData {
        fields: vec![WireField { name: "data".to_string(), column: ColumnData::U8(payload) }],
    };
    let mut consumer = ArrowDataConsumer::new(rec).unwrap();
    let r = consumer.primitive_array::<u8>("data");
    assert!(matches!(r, Err(Error::BufferShared(_))));
    assert_eq!(*alias, vec![1, 2, 3]);
}

#[test]
fn test_malformed_offsets() {
    let rec = ArrowData {
        fields: vec![
            WireField {
                name: "label".to_string(),
                column: ColumnData::Utf8 {
                    bytes: Rc::new(vec![b'h', b'i']),
                    offsets: Rc::new(vec![0, 5]),
                },
            },
        ],
    };
    let mut consumer = ArrowDataConsumer::new(rec).unwrap();
    let r = consumer.utf8_array("label");
    assert!(matches!(r, Err(Error::MalformedOffsets(_))));
}

#[test]
fn test_invalid_utf8() {
    let rec = ArrowData {
        fields: vec![
            WireField {
                name: "label".to_string(),
                column: ColumnData::Utf8 {
                    bytes: Rc::new(vec![0xff, 0xfe]),
                    offsets: Rc::new(vec![0, 2]),
                },
            },
        ],
    };
    let mut consumer = ArrowDataConsumer::new(rec).unwrap();
    let r = consumer.utf8_array("label");
    assert!(matches!(r, Err(Error::InvalidUtf8(_))));
}

#[test]
fn test_viewer_loads_and_views() {
    let builder = ArrowDataBuilder::new()
        .push_primitive_array::<u32>("values", vec![10, 20, 30])
        .push_utf8_singleton("tag", "hello".to_string());
    let rec = builder.build().unwrap();

    let viewer = ArrowDataViewer::new(rec).unwrap();
    let viewer = viewer.load_primitive::<u32>("values").unwrap();

    // Loading is idempotent.
    let viewer = viewer.load_primitive::<u32>("values").unwrap();

    let view = viewer.primitive_array::<u32>("values").unwrap();
    assert_eq!(view.as_vec(), &vec![10, 20, 30]);

    // Viewing never consumes: a second view reads the same values.
    let view2 = viewer.primitive_array::<u32>("values").unwrap();
    assert_eq!(view2.as_vec(), &vec![10, 20, 30]);

    assert_eq!(viewer.utf8_singleton("tag").unwrap(), "hello");
}

#[test]
fn test_viewer_utf8_array() {
    let strings = vec!["a".to_string(), "bb".to_string(), "ccc".to_string()];
    let builder = ArrowDataBuilder::new().push_utf8_array("label", strings.clone());
    let rec = builder.build().unwrap();

    let viewer = ArrowDataViewer::new(rec).unwrap();
    let viewer = viewer.load_utf8("label").unwrap();
    assert_eq!(viewer.utf8_array("label").unwrap(), strings);
    // The loaded field stays in place.
    assert_eq!(viewer.utf8_array("label").unwrap(), strings);
}

#[test]
fn test_utf8_singleton_empty_string() {
    let builder = ArrowDataBuilder::new().push_utf8_singleton("name", String::new());
    let rec = builder.build().unwrap();
    let consumer = ArrowDataConsumer::new(rec).unwrap();
    assert_eq!(consumer.utf8_singleton("name").unwrap(), "");
}

#[test]
fn test_error_messages_nonempty() {
    let errors = vec![
        Error::FieldMissing("x".to_string()),
        Error::MalformedOffsets("x".to_string()),
        Error::InvalidUtf8("x".to_string()),
        Error::BufferShared("x".to_string()),
        Error::LengthMismatch,
        Error::UnsupportedConversion,
        Error::MalformedRecord,
        Error::BuildFailed,
        Error::DuplicateField("x".to_string()),
    ];
    for e in errors {
        assert!(!e.message().is_empty());
    }
}

#[test]
fn test_buffer_reclaim_rules() {
    // An owned buffer gives its allocation up as it stands.
    let b: Buffer<u8> = Buffer::from_vec(vec![1, 2, 3]);
    assert_eq!(b.try_into_vec().unwrap(), vec![1, 2, 3]);

    // A shared handle with no other holder is reclaimed without a copy.
    let sole = Rc::new(vec![4u8, 5]);
    let b = Buffer::from_rc(sole);
    assert_eq!(b.try_into_vec().unwrap(), vec![4, 5]);

    // A handle whose allocation another holder still aliases cannot be
    // reclaimed; it comes back unchanged.
    let shared = Rc::new(vec![6u8, 7]);
    let alias = Rc::clone(&shared);
    let b = Buffer::from_rc(shared);
    let b = match b.try_into_vec() {
        Ok(_) => panic!("an aliased buffer must not be reclaimed"),
        Err(b) => b,
    };
    assert_eq!(b.as_vec(), &vec![6, 7]);
    assert_eq!(*alias, vec![6, 7]);

    // The first mutation of an aliased handle pays for one copy.
    let mut b = b;
    b.make_owned();
    assert!(matches!(b, Buffer::Owned(_)));
    assert_eq!(b.as_vec(), &vec![6, 7]);
}

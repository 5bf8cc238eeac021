use vstd::prelude::*;

use crate::arrow::builder::ArrowDataBuilder;
use crate::arrow::consumer::ArrowDataConsumer;
use crate::arrow::viewer::ArrowDataViewer;
use crate::arrow::{ArrowData, ColumnModel, ColumnType, FieldModel, spec_field, spec_has_field};
use crate::error::Error;
use crate::float32::F32Bits;
use vstd::string::StringExecFns;

verus! {

/// The mathematical content of a video-frame reference.
pub struct ImageInVideoModel {
    pub video_path: Seq<char>,
    pub timestamp: F32Bits,
    pub framerate: F32Bits,
    pub name: Option<Seq<char>>,
}

/// A reference to one frame of a video file: the file's path, the
/// frame's timestamp, the video's framerate and an optional name.
#[derive(Debug)]
pub struct ImageInVideo {
    pub video_path: String,
    pub timestamp: F32Bits,
    pub framerate: F32Bits,
    pub name: Option<String>,
}

impl View for ImageInVideo {
    type V = ImageInVideoModel;

    open spec fn view(&self) -> ImageInVideoModel {
        ImageInVideoModel {
            video_path: self.video_path@,
            timestamp: self.timestamp,
            framerate: self.framerate,
            name: match self.name {
                Some(s) => Some(s@),
                None => None,
            },
        }
    }
}

/// The wire record a video-frame reference encodes to: its four named
/// fields in schema order.
pub open spec fn spec_video_record(m: ImageInVideoModel) -> Seq<FieldModel> {
    seq![
        FieldModel { name: "video_path"@, column: ColumnModel::Utf8(seq![m.video_path]) },
        FieldModel { name: "timestamp"@, column: ColumnModel::F32(seq![m.timestamp]) },
        FieldModel { name: "framerate"@, column: ColumnModel::F32(seq![m.framerate]) },
        FieldModel {
            name: "name"@,
            column: ColumnModel::Utf8(
                seq![
                    match m.name {
                        Some(s) => s,
                        None => Seq::empty(),
                    },
                ],
            ),
        },
    ]
}

/// The name singleton a record carries.
pub open spec fn spec_video_name(rec: &ArrowData) -> Seq<char> {
    vstd::utf8::decode_utf8(rec.col("name"@).utf8_first_slice())
}

/// The path singleton a record carries.
pub open spec fn spec_video_path(rec: &ArrowData) -> Seq<char> {
    vstd::utf8::decode_utf8(rec.col("video_path"@).utf8_first_slice())
}

/// When decoding a record as a video-frame reference succeeds.
pub open spec fn spec_video_rec_ok(rec: &ArrowData) -> bool {
    &&& crate::arrow::spec_names_unique(rec@)
    &&& spec_has_field(rec@, "video_path"@)
    &&& rec.col("video_path"@).utf8_first_delimited()
    &&& vstd::utf8::valid_utf8(rec.col("video_path"@).utf8_first_slice())
    &&& spec_has_field(rec@, "timestamp"@)
    &&& spec_field(rec@, "timestamp"@) matches ColumnModel::F32(ts) && ts.len() >= 1
    &&& spec_has_field(rec@, "framerate"@)
    &&& spec_field(rec@, "framerate"@) matches ColumnModel::F32(fs) && fs.len() >= 1
    &&& spec_has_field(rec@, "name"@)
    &&& rec.col("name"@).utf8_first_delimited()
    &&& vstd::utf8::valid_utf8(rec.col("name"@).utf8_first_slice())
}

/// The video-frame reference a decodable record denotes. An empty
/// name string stands for an absent name.
pub open spec fn spec_video_of(rec: &ArrowData) -> ImageInVideoModel {
    ImageInVideoModel {
        video_path: spec_video_path(rec),
        timestamp: <F32Bits as crate::arrow::Element>::seq_of(
            spec_field(rec@, "timestamp"@),
        )[0],
        framerate: <F32Bits as crate::arrow::Element>::seq_of(
            spec_field(rec@, "framerate"@),
        )[0],
        name: if spec_video_name(rec) == Seq::<char>::empty() {
            None
        } else {
            Some(spec_video_name(rec))
        },
    }
}

/// When reading a video-frame reference out of a decomposition
/// succeeds: all four singleton fields are present with the right
/// column types, the two string fields are delimited and valid UTF-8.
pub open spec fn spec_video_raw_ok(c: &ArrowDataConsumer) -> bool {
    &&& spec_has_field(c@, "video_path"@)
    &&& c.spec_col("video_path"@).utf8_first_delimited()
    &&& vstd::utf8::valid_utf8(c.spec_col("video_path"@).utf8_first_slice())
    &&& spec_has_field(c@, "timestamp"@)
    &&& spec_field(c@, "timestamp"@) matches ColumnModel::F32(ts) && ts.len() >= 1
    &&& spec_has_field(c@, "framerate"@)
    &&& spec_field(c@, "framerate"@) matches ColumnModel::F32(fs) && fs.len() >= 1
    &&& spec_has_field(c@, "name"@)
    &&& c.spec_col("name"@).utf8_first_delimited()
    &&& vstd::utf8::valid_utf8(c.spec_col("name"@).utf8_first_slice())
}

/// The video-frame reference a decodable decomposition denotes.
pub open spec fn spec_video_raw_of(c: &ArrowDataConsumer) -> ImageInVideoModel {
    ImageInVideoModel {
        video_path: vstd::utf8::decode_utf8(c.spec_col("video_path"@).utf8_first_slice()),
        timestamp: <F32Bits as crate::arrow::Element>::seq_of(spec_field(c@, "timestamp"@))[0],
        framerate: <F32Bits as crate::arrow::Element>::seq_of(spec_field(c@, "framerate"@))[0],
        name: {
            let n = vstd::utf8::decode_utf8(c.spec_col("name"@).utf8_first_slice());
            if n == Seq::<char>::empty() {
                None
            } else {
                Some(n)
            }
        },
    }
}

/// When reading a video-frame reference out of a viewer succeeds: the
/// same four singleton conditions, on the viewer's unloaded fields.
pub open spec fn spec_video_view_ok(v: &ArrowDataViewer) -> bool {
    &&& spec_has_field(v.unloaded(), "video_path"@)
    &&& v.spec_col("video_path"@).utf8_first_delimited()
    &&& vstd::utf8::valid_utf8(v.spec_col("video_path"@).utf8_first_slice())
    &&& spec_has_field(v.unloaded(), "timestamp"@)
    &&& spec_field(v.unloaded(), "timestamp"@) matches ColumnModel::F32(ts) && ts.len() >= 1
    &&& spec_has_field(v.unloaded(), "framerate"@)
    &&& spec_field(v.unloaded(), "framerate"@) matches ColumnModel::F32(fs) && fs.len() >= 1
    &&& spec_has_field(v.unloaded(), "name"@)
    &&& v.spec_col("name"@).utf8_first_delimited()
    &&& vstd::utf8::valid_utf8(v.spec_col("name"@).utf8_first_slice())
}

/// The video-frame reference a decodable viewer denotes.
pub open spec fn spec_video_view_of(v: &ArrowDataViewer) -> ImageInVideoModel {
    ImageInVideoModel {
        video_path: vstd::utf8::decode_utf8(v.spec_col("video_path"@).utf8_first_slice()),
        timestamp: <F32Bits as crate::arrow::Element>::seq_of(
            spec_field(v.unloaded(), "timestamp"@),
        )[0],
        framerate: <F32Bits as crate::arrow::Element>::seq_of(
            spec_field(v.unloaded(), "framerate"@),
        )[0],
        name: {
            let n = vstd::utf8::decode_utf8(v.spec_col("name"@).utf8_first_slice());
            if n == Seq::<char>::empty() {
                None
            } else {
                Some(n)
            }
        },
    }
}

/// Ties a decomposition's named column to its slot-list view, for
/// contracts that speak of both.
proof fn video_raw_col_bridge(c: &ArrowDataConsumer, name: Seq<char>)
    requires
        spec_has_field(c@, name),
    ensures
        c.spec_col(name)@ == spec_field(c@, name),
        c.spec_col(name)@.col_type() == c.spec_col(name).spec_col_type(),
{
    crate::arrow::lemma_field_index_bounds(c@, name);
    crate::arrow::lemma_col_type_view(c.spec_col(name));
}

/// Round trip: any wire record that carries exactly what encoding a
/// video-frame reference produces decodes back to it, field by field.
/// (A name that is present but empty is identified with an absent
/// name on the wire, so it is left out here.)
pub proof fn lemma_video_round_trip(m: ImageInVideoModel, rec: ArrowData)
    requires
        m.name matches Some(s) ==> s.len() > 0,
        rec@ == spec_video_record(m),
        rec.wf(),
    ensures
        spec_video_rec_ok(&rec),
        spec_video_of(&rec) == m,
{
    reveal_strlit("video_path");
    reveal_strlit("timestamp");
    reveal_strlit("framerate");
    reveal_strlit("name");
    assert("timestamp"@[0] != "framerate"@[0]);
    let fields = rec@;
    crate::arrow::lemma_field_index_at(fields, 0, "video_path"@);
    crate::arrow::lemma_field_index_at(fields, 1, "timestamp"@);
    crate::arrow::lemma_field_index_at(fields, 2, "framerate"@);
    crate::arrow::lemma_field_index_at(fields, 3, "name"@);
    assert(crate::arrow::spec_names_unique(fields)) by {
        crate::arrow::lemma_names_unique_4(fields);
    }
    assert(rec.fields@.len() == 4);
    let path_col = rec.col("video_path"@);
    assert(path_col@ == fields[0].column);
    assert(path_col@ matches ColumnModel::Utf8(strs) && strs.len() == 1);
    assert(path_col.spec_utf8_count() == 1);
    crate::arrow::lemma_utf8_first_of_wf(path_col);
    let name_col = rec.col("name"@);
    assert(name_col@ == fields[3].column);
    assert(name_col@ matches ColumnModel::Utf8(strs) && strs.len() == 1);
    assert(name_col.spec_utf8_count() == 1);
    crate::arrow::lemma_utf8_first_of_wf(name_col);
    assert(spec_video_name(&rec) == (match m.name {
        Some(s) => s,
        None => Seq::<char>::empty(),
    }));
    match m.name {
        Some(s) => {
            assert(spec_video_name(&rec) != Seq::<char>::empty());
        },
        None => {},
    }
    assert(spec_video_of(&rec) == m);
}

impl ImageInVideo {
    /// Packs a frame reference; there is no structural constraint, so
    /// this cannot fail.
    pub fn new(video_path: String, timestamp: F32Bits, framerate: F32Bits, name: Option<String>)
        -> (r: Result<ImageInVideo, Error>)
        ensures
            r matches Ok(v) && v@ == (ImageInVideoModel {
                video_path: video_path@,
                timestamp,
                framerate,
                name: match name {
                    Some(s) => Some(s@),
                    None => None,
                },
            }),
    {
        Ok(ImageInVideo { video_path, timestamp, framerate, name })
    }

    /// Serializes the reference into its four named wire fields (an
    /// absent name is written as the empty string); assembly itself
    /// cannot fail.
    pub fn into_arrow(self) -> (r: Result<ArrowData, Error>)
        ensures
            r matches Ok(rec) && rec@ == spec_video_record(self@) && rec.wf(),
    {
        let name = match self.name {
            Some(s) => s,
            None => String::new(),
        };
        let builder = ArrowDataBuilder::new()
            .push_utf8_singleton("video_path", self.video_path)
            .push_primitive_singleton::<F32Bits>("timestamp", self.timestamp)
            .push_primitive_singleton::<F32Bits>("framerate", self.framerate)
            .push_utf8_singleton("name", name);
        let ghost bm = builder@;
        proof {
            assert(bm =~= spec_video_record(self@));
            assert(crate::arrow::spec_names_unique(bm)) by {
                reveal_strlit("video_path");
                reveal_strlit("timestamp");
                reveal_strlit("framerate");
                reveal_strlit("name");
                assert(bm.len() == 4);
                assert(bm[0].name == "video_path"@);
                assert(bm[1].name == "timestamp"@);
                assert(bm[2].name == "framerate"@);
                assert(bm[3].name == "name"@);
                assert("timestamp"@[0] != "framerate"@[0]);
                crate::arrow::lemma_names_unique_4(bm);
            }
        }
        match builder.build() {
            Ok(rec) => Ok(rec),
            Err(_) => {
                proof {
                    assert(false);
                }
                Err(Error::BuildFailed)
            },
        }
    }

    /// Reads a frame reference out of a decomposition; every field is
    /// a singleton copy, so sharing never interferes: this succeeds
    /// exactly when the decomposition carries a valid reference.
    pub fn from_raw_data(raw_data: ArrowDataConsumer) -> (r: Result<ImageInVideo, Error>)
        ensures
            r matches Ok(_) <==> spec_video_raw_ok(&raw_data),
            r matches Ok(v) ==> v@ == spec_video_raw_of(&raw_data),
            r matches Err(e) ==> match e {
                Error::MalformedRecord => {
                    ||| (spec_field(raw_data@, "timestamp"@) matches ColumnModel::F32(ts)
                        && ts.len() == 0)
                    ||| (spec_field(raw_data@, "framerate"@) matches ColumnModel::F32(fs)
                        && fs.len() == 0)
                },
                Error::FieldMissing(n) => !spec_has_field(raw_data@, n@),
                Error::TypeMismatch { field, expected, actual } => {
                    &&& spec_has_field(raw_data@, field@)
                    &&& actual == spec_field(raw_data@, field@).col_type()
                    &&& actual != expected
                },
                Error::MalformedOffsets(n) => {
                    &&& (n@ == "video_path"@ || n@ == "name"@)
                    &&& spec_has_field(raw_data@, n@)
                    &&& raw_data.spec_col(n@).spec_col_type() == ColumnType::Utf8
                    &&& !raw_data.spec_col(n@).utf8_first_delimited()
                },
                Error::InvalidUtf8(n) => {
                    &&& (n@ == "video_path"@ || n@ == "name"@)
                    &&& raw_data.spec_col(n@).utf8_first_delimited()
                    &&& !vstd::utf8::valid_utf8(raw_data.spec_col(n@).utf8_first_slice())
                },
                _ => false,
            },
    {
        let video_path = match raw_data.utf8_singleton("video_path") {
            Ok(s) => s,
            Err(e) => {
                proof {
                    if spec_has_field(raw_data@, "video_path"@) {
                        video_raw_col_bridge(&raw_data, "video_path"@);
                    }
                }
                return Err(e);
            },
        };
        let timestamp = match raw_data.primitive_singleton::<F32Bits>("timestamp") {
            Ok(x) => x,
            Err(e) => {
                return Err(e);
            },
        };
        let framerate = match raw_data.primitive_singleton::<F32Bits>("framerate") {
            Ok(x) => x,
            Err(e) => {
                return Err(e);
            },
        };
        let name_s = match raw_data.utf8_singleton("name") {
            Ok(s) => s,
            Err(e) => {
                proof {
                    if spec_has_field(raw_data@, "name"@) {
                        video_raw_col_bridge(&raw_data, "name"@);
                    }
                }
                return Err(e);
            },
        };
        let name = if name_s.as_str().is_empty() {
            None
        } else {
            Some(name_s)
        };
        proof {
            if name_s@.len() == 0 {
                assert(name_s@ =~= Seq::<char>::empty());
            }
        }
        Ok(ImageInVideo { video_path, timestamp, framerate, name })
    }

    /// Decodes a wire record into a frame reference. Every field is a
    /// singleton copy, so sharing never interferes: this succeeds
    /// exactly on records that carry a valid reference.
    pub fn from_arrow(data: ArrowData) -> (r: Result<ImageInVideo, Error>)
        ensures
            r matches Ok(v) <==> spec_video_rec_ok(&data),
            r matches Ok(v) ==> v@ == spec_video_of(&data),
            r matches Err(e) ==> match e {
                Error::MalformedRecord => {
                    ||| !crate::arrow::spec_names_unique(data@)
                    ||| (spec_field(data@, "timestamp"@) matches ColumnModel::F32(ts)
                        && ts.len() == 0)
                    ||| (spec_field(data@, "framerate"@) matches ColumnModel::F32(fs)
                        && fs.len() == 0)
                },
                Error::FieldMissing(n) => !spec_has_field(data@, n@),
                Error::TypeMismatch { field, expected, actual } => {
                    &&& spec_has_field(data@, field@)
                    &&& actual == spec_field(data@, field@).col_type()
                    &&& actual != expected
                },
                Error::MalformedOffsets(n) => {
                    &&& (n@ == "video_path"@ || n@ == "name"@)
                    &&& spec_has_field(data@, n@)
                    &&& data.col(n@).spec_col_type() == ColumnType::Utf8
                    &&& !data.col(n@).utf8_first_delimited()
                },
                Error::InvalidUtf8(n) => {
                    &&& (n@ == "video_path"@ || n@ == "name"@)
                    &&& data.col(n@).utf8_first_delimited()
                    &&& !vstd::utf8::valid_utf8(data.col(n@).utf8_first_slice())
                },
                _ => false,
            },
    {
        let ghost gdata = data;
        let consumer = match ArrowDataConsumer::new(data) {
            Ok(c) => c,
            Err(e) => {
                return Err(e);
            },
        };
        let ghost c0 = consumer;
        let video_path = match consumer.utf8_singleton("video_path") {
            Ok(s) => s,
            Err(e) => {
                proof {
                    crate::arrow::lemma_field_index_bounds(gdata@, "video_path"@);
                    assert(c0.spec_col("video_path"@) == gdata.col("video_path"@));
                    crate::arrow::lemma_col_type_view(gdata.col("video_path"@));
                    if spec_has_field(gdata@, "video_path"@) {
                        assert(gdata.col("video_path"@)@ == spec_field(gdata@, "video_path"@));
                    }
                }
                return Err(e);
            },
        };
        let timestamp = match consumer.primitive_singleton::<F32Bits>("timestamp") {
            Ok(x) => x,
            Err(e) => {
                return Err(e);
            },
        };
        let framerate = match consumer.primitive_singleton::<F32Bits>("framerate") {
            Ok(x) => x,
            Err(e) => {
                return Err(e);
            },
        };
        let name_s = match consumer.utf8_singleton("name") {
            Ok(s) => s,
            Err(e) => {
                proof {
                    crate::arrow::lemma_field_index_bounds(gdata@, "name"@);
                    assert(c0.spec_col("name"@) == gdata.col("name"@));
                    crate::arrow::lemma_col_type_view(gdata.col("name"@));
                    if spec_has_field(gdata@, "name"@) {
                        assert(gdata.col("name"@)@ == spec_field(gdata@, "name"@));
                    }
                }
                return Err(e);
            },
        };
        let name = if name_s.as_str().is_empty() {
            None
        } else {
            Some(name_s)
        };
        proof {
            assert(c0.spec_col("video_path"@) == gdata.col("video_path"@));
            assert(c0.spec_col("name"@) == gdata.col("name"@));
            assert(video_path@ == spec_video_path(&gdata));
            assert(name_s@ == spec_video_name(&gdata));
            if name_s@.len() == 0 {
                assert(name_s@ =~= Seq::<char>::empty());
            }
        }
        Ok(ImageInVideo { video_path, timestamp, framerate, name })
    }

    /// Decomposes a record for reading; nothing needs to be registered
    /// for bulk access, since every field is a singleton. Fails
    /// exactly when two of the record's slots share a name.
    pub fn raw_data(array_data: ArrowData) -> (r: Result<ArrowDataViewer, Error>)
        ensures
            r matches Ok(_) <==> crate::arrow::spec_names_unique(array_data@),
            r matches Ok(v) ==> v.unloaded() == array_data@ && v.loaded() == Seq::<
                FieldModel,
            >::empty(),
    {
        ArrowDataViewer::new(array_data)
    }

    /// Reads a frame reference out of a viewer; every field is a
    /// singleton copy: this succeeds exactly when the viewer carries a
    /// valid reference among its unloaded fields.
    pub fn view_from_raw_data(raw_data: &ArrowDataViewer) -> (r: Result<ImageInVideo, Error>)
        ensures
            r matches Ok(_) <==> spec_video_view_ok(raw_data),
            r matches Ok(v) ==> v@ == spec_video_view_of(raw_data),
            r matches Err(e) ==> match e {
                Error::MalformedRecord => {
                    ||| (spec_field(raw_data.unloaded(), "timestamp"@)
                        matches ColumnModel::F32(ts) && ts.len() == 0)
                    ||| (spec_field(raw_data.unloaded(), "framerate"@)
                        matches ColumnModel::F32(fs) && fs.len() == 0)
                },
                Error::FieldMissing(n) => !spec_has_field(raw_data.unloaded(), n@),
                Error::TypeMismatch { field, expected, actual } => {
                    &&& spec_has_field(raw_data.unloaded(), field@)
                    &&& actual == spec_field(raw_data.unloaded(), field@).col_type()
                    &&& actual != expected
                },
                Error::MalformedOffsets(n) => {
                    &&& (n@ == "video_path"@ || n@ == "name"@)
                    &&& spec_has_field(raw_data.unloaded(), n@)
                    &&& raw_data.spec_col(n@).spec_col_type() == ColumnType::Utf8
                    &&& !raw_data.spec_col(n@).utf8_first_delimited()
                },
                Error::InvalidUtf8(n) => {
                    &&& (n@ == "video_path"@ || n@ == "name"@)
                    &&& raw_data.spec_col(n@).utf8_first_delimited()
                    &&& !vstd::utf8::valid_utf8(raw_data.spec_col(n@).utf8_first_slice())
                },
                _ => false,
            },
    {
        let video_path = match raw_data.utf8_singleton("video_path") {
            Ok(s) => s,
            Err(e) => {
                proof {
                    if spec_has_field(raw_data.unloaded(), "video_path"@) {
                        crate::arrow::viewer::lemma_unloaded_col_view(raw_data, "video_path"@);
                    }
                }
                return Err(e);
            },
        };
        let timestamp = match raw_data.primitive_singleton::<F32Bits>("timestamp") {
            Ok(x) => x,
            Err(e) => {
                return Err(e);
            },
        };
        let framerate = match raw_data.primitive_singleton::<F32Bits>("framerate") {
            Ok(x) => x,
            Err(e) => {
                return Err(e);
            },
        };
        let name_s = match raw_data.utf8_singleton("name") {
            Ok(s) => s,
            Err(e) => {
                proof {
                    if spec_has_field(raw_data.unloaded(), "name"@) {
                        crate::arrow::viewer::lemma_unloaded_col_view(raw_data, "name"@);
                    }
                }
                return Err(e);
            },
        };
        let name = if name_s.as_str().is_empty() {
            None
        } else {
            Some(name_s)
        };
        proof {
            if name_s@.len() == 0 {
                assert(name_s@ =~= Seq::<char>::empty());
            }
        }
        Ok(ImageInVideo { video_path, timestamp, framerate, name })
    }
}

} // verus!

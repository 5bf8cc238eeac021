use vstd::prelude::*;

use crate::arrow::builder::ArrowDataBuilder;
use crate::arrow::consumer::ArrowDataConsumer;
use crate::arrow::viewer::ArrowDataViewer;
use crate::arrow::{ArrowData, ColumnModel, ColumnType, FieldModel, spec_field, spec_has_field};
use crate::buffer::Buffer;
use crate::error::Error;
use crate::float32::F32Bits;

verus! {

/// The mathematical content of a two-dimensional laser scan.
pub struct LaserScanModel {
    pub data: Seq<F32Bits>,
    pub intensities: Seq<F32Bits>,
    pub length: u64,
    pub min_distance: F32Bits,
    pub max_distance: F32Bits,
    pub angle_increment: F32Bits,
    pub angle_min: F32Bits,
    pub angle_max: F32Bits,
}

impl LaserScanModel {
    /// Structural validity: one intensity per range reading.
    pub open spec fn wf(&self) -> bool {
        self.data.len() == self.intensities.len()
    }
}

/// A two-dimensional laser scan: range readings and their intensities
/// in flat buffers, plus the scan's scalar parameters. The bulk
/// buffers are owned or zero-copy views of a wire record.
#[derive(Debug)]
pub struct LaserScan2D {
    pub data: Buffer<F32Bits>,
    pub intensities: Buffer<F32Bits>,
    pub length: u64,
    pub min_distance: F32Bits,
    pub max_distance: F32Bits,
    pub angle_increment: F32Bits,
    pub angle_min: F32Bits,
    pub angle_max: F32Bits,
}

impl View for LaserScan2D {
    type V = LaserScanModel;

    open spec fn view(&self) -> LaserScanModel {
        LaserScanModel {
            data: self.data@,
            intensities: self.intensities@,
            length: self.length,
            min_distance: self.min_distance,
            max_distance: self.max_distance,
            angle_increment: self.angle_increment,
            angle_min: self.angle_min,
            angle_max: self.angle_max,
        }
    }
}

/// The wire record a laser scan encodes to: its eight named fields in
/// schema order.
pub open spec fn spec_scan_record(m: LaserScanModel) -> Seq<FieldModel> {
    seq![
        FieldModel { name: "data"@, column: ColumnModel::F32(m.data) },
        FieldModel { name: "intensities"@, column: ColumnModel::F32(m.intensities) },
        FieldModel { name: "length"@, column: ColumnModel::U64(seq![m.length]) },
        FieldModel { name: "min_distance"@, column: ColumnModel::F32(seq![m.min_distance]) },
        FieldModel { name: "max_distance"@, column: ColumnModel::F32(seq![m.max_distance]) },
        FieldModel { name: "angle_increment"@, column: ColumnModel::F32(seq![m.angle_increment]) },
        FieldModel { name: "angle_min"@, column: ColumnModel::F32(seq![m.angle_min]) },
        FieldModel { name: "angle_max"@, column: ColumnModel::F32(seq![m.angle_max]) },
    ]
}

/// A named field of a slot list holds a non-empty single-precision
/// singleton.
pub open spec fn spec_scan_f32_singleton_ok(fields: Seq<FieldModel>, name: Seq<char>) -> bool {
    &&& spec_has_field(fields, name)
    &&& spec_field(fields, name) matches ColumnModel::F32(s) && s.len() >= 1
}

/// The first single-precision value of a slot list's named field.
pub open spec fn spec_scan_f32_singleton(fields: Seq<FieldModel>, name: Seq<char>) -> F32Bits {
    <F32Bits as crate::arrow::Element>::seq_of(spec_field(fields, name))[0]
}

/// The scalar parameters of a scan are readable from a slot list: the
/// length and the five single-precision singletons are present, typed
/// and non-empty.
pub open spec fn spec_scan_scalars_ok(fields: Seq<FieldModel>) -> bool {
    &&& spec_has_field(fields, "length"@)
    &&& spec_field(fields, "length"@) matches ColumnModel::U64(s) && s.len() >= 1
    &&& spec_scan_f32_singleton_ok(fields, "min_distance"@)
    &&& spec_scan_f32_singleton_ok(fields, "max_distance"@)
    &&& spec_scan_f32_singleton_ok(fields, "angle_increment"@)
    &&& spec_scan_f32_singleton_ok(fields, "angle_min"@)
    &&& spec_scan_f32_singleton_ok(fields, "angle_max"@)
}

/// The two bulk buffers of a scan are readable from a slot list.
pub open spec fn spec_scan_arrays_ok(fields: Seq<FieldModel>) -> bool {
    &&& spec_has_field(fields, "data"@)
    &&& spec_field(fields, "data"@) matches ColumnModel::F32(_)
    &&& spec_has_field(fields, "intensities"@)
    &&& spec_field(fields, "intensities"@) matches ColumnModel::F32(_)
}

/// The range readings a slot list carries.
pub open spec fn spec_scan_data(fields: Seq<FieldModel>) -> Seq<F32Bits> {
    <F32Bits as crate::arrow::Element>::seq_of(spec_field(fields, "data"@))
}

/// The intensities a slot list carries.
pub open spec fn spec_scan_intensities(fields: Seq<FieldModel>) -> Seq<F32Bits> {
    <F32Bits as crate::arrow::Element>::seq_of(spec_field(fields, "intensities"@))
}

/// The laser scan whose bulk buffers stand in `arrays` and whose
/// scalars stand in `scalars`.
pub open spec fn spec_scan_of_fields(arrays: Seq<FieldModel>, scalars: Seq<FieldModel>)
    -> LaserScanModel {
    LaserScanModel {
        data: spec_scan_data(arrays),
        intensities: spec_scan_intensities(arrays),
        length: <u64 as crate::arrow::Element>::seq_of(spec_field(scalars, "length"@))[0],
        min_distance: spec_scan_f32_singleton(scalars, "min_distance"@),
        max_distance: spec_scan_f32_singleton(scalars, "max_distance"@),
        angle_increment: spec_scan_f32_singleton(scalars, "angle_increment"@),
        angle_min: spec_scan_f32_singleton(scalars, "angle_min"@),
        angle_max: spec_scan_f32_singleton(scalars, "angle_max"@),
    }
}

/// When decoding a record as a laser scan succeeds, aliasing of the
/// bulk buffers aside.
pub open spec fn spec_scan_rec_ok(rec: &ArrowData) -> bool {
    &&& crate::arrow::spec_names_unique(rec@)
    &&& spec_scan_scalars_ok(rec@)
    &&& spec_scan_arrays_ok(rec@)
    &&& spec_scan_of(rec).wf()
}

/// The laser scan a decodable record denotes.
pub open spec fn spec_scan_of(rec: &ArrowData) -> LaserScanModel {
    spec_scan_of_fields(rec@, rec@)
}

/// When reclaiming a scan out of a decomposition succeeds, aliasing of
/// the bulk buffers aside.
pub open spec fn spec_scan_raw_ok(c: &ArrowDataConsumer) -> bool {
    &&& spec_scan_scalars_ok(c@)
    &&& spec_scan_arrays_ok(c@)
    &&& spec_scan_data(c@).len() == spec_scan_intensities(c@).len()
}

/// The laser scan a decodable decomposition denotes.
pub open spec fn spec_scan_raw_of(c: &ArrowDataConsumer) -> LaserScanModel {
    spec_scan_of_fields(c@, c@)
}

/// When reading a scan out of a viewer succeeds: the scalars stand
/// unloaded, the two bulk buffers stand loaded, and their lengths
/// agree.
pub open spec fn spec_scan_view_ok(v: &ArrowDataViewer) -> bool {
    &&& spec_scan_scalars_ok(v.unloaded())
    &&& spec_scan_arrays_ok(v.loaded())
    &&& spec_scan_data(v.loaded()).len() == spec_scan_intensities(v.loaded()).len()
}

/// The laser scan a decodable viewer denotes.
pub open spec fn spec_scan_view_of(v: &ArrowDataViewer) -> LaserScanModel {
    spec_scan_of_fields(v.loaded(), v.unloaded())
}

/// Round trip: any wire record that carries exactly what encoding a
/// valid laser scan produces decodes back to that scan, field by
/// field.
pub proof fn lemma_scan_round_trip(m: LaserScanModel, rec: ArrowData)
    requires
        m.wf(),
        rec@ == spec_scan_record(m),
        rec.wf(),
    ensures
        spec_scan_rec_ok(&rec),
        spec_scan_of(&rec) == m,
{
    scan_reveal_names();
    let fields = rec@;
    crate::arrow::lemma_field_index_at(fields, 0, "data"@);
    crate::arrow::lemma_field_index_at(fields, 1, "intensities"@);
    crate::arrow::lemma_field_index_at(fields, 2, "length"@);
    crate::arrow::lemma_field_index_at(fields, 3, "min_distance"@);
    crate::arrow::lemma_field_index_at(fields, 4, "max_distance"@);
    crate::arrow::lemma_field_index_at(fields, 5, "angle_increment"@);
    crate::arrow::lemma_field_index_at(fields, 6, "angle_min"@);
    crate::arrow::lemma_field_index_at(fields, 7, "angle_max"@);
    crate::arrow::lemma_names_unique_8(fields);
    assert(spec_scan_of(&rec) == m);
}

/// Reveals the eight field-name literals and the character positions
/// that tell the equal-length ones apart.
proof fn scan_reveal_names()
    ensures
        "data"@.len() == 4,
        "intensities"@.len() == 11,
        "length"@.len() == 6,
        "min_distance"@.len() == 12,
        "max_distance"@.len() == 12,
        "angle_increment"@.len() == 15,
        "angle_min"@.len() == 9,
        "angle_max"@.len() == 9,
        "min_distance"@ != "max_distance"@,
        "angle_min"@ != "angle_max"@,
{
    reveal_strlit("data");
    reveal_strlit("intensities");
    reveal_strlit("length");
    reveal_strlit("min_distance");
    reveal_strlit("max_distance");
    reveal_strlit("angle_increment");
    reveal_strlit("angle_min");
    reveal_strlit("angle_max");
    assert("min_distance"@[1] != "max_distance"@[1]);
    assert("angle_min"@[7] != "angle_max"@[7]);
}

impl LaserScan2D {
    /// Validates that ranges and intensities agree in length, then
    /// takes ownership of the buffers without copying.
    pub fn new(
        data: Vec<F32Bits>,
        intensities: Vec<F32Bits>,
        length: u64,
        min_distance: F32Bits,
        max_distance: F32Bits,
        angle_increment: F32Bits,
        angle_min: F32Bits,
        angle_max: F32Bits,
    ) -> (r: Result<LaserScan2D, Error>)
        ensures
            r matches Ok(_) <==> data@.len() == intensities@.len(),
            match r {
                Ok(s) => {
                    &&& s@ == (LaserScanModel {
                        data: data@,
                        intensities: intensities@,
                        length,
                        min_distance,
                        max_distance,
                        angle_increment,
                        angle_min,
                        angle_max,
                    })
                    &&& s@.wf()
                    &&& s.data.is_owned()
                    &&& s.intensities.is_owned()
                },
                Err(e) => e == Error::LengthMismatch,
            },
    {
        if data.len() != intensities.len() {
            return Err(Error::LengthMismatch);
        }
        Ok(
            LaserScan2D {
                data: Buffer::from_vec(data),
                intensities: Buffer::from_vec(intensities),
                length,
                min_distance,
                max_distance,
                angle_increment,
                angle_min,
                angle_max,
            },
        )
    }

    /// Serializes the scan into a wire record holding its two bulk
    /// buffers and six scalar parameters. The bulk buffers move into
    /// the record without being copied when they are owned; assembly
    /// itself cannot fail.
    pub fn into_arrow(self) -> (r: Result<ArrowData, Error>)
        ensures
            r matches Ok(rec) && rec@ == spec_scan_record(self@) && rec.wf(),
    {
        let builder = ArrowDataBuilder::new()
            .push_primitive_array::<F32Bits>("data", self.data.into_owned_vec())
            .push_primitive_array::<F32Bits>("intensities", self.intensities.into_owned_vec())
            .push_primitive_singleton::<u64>("length", self.length)
            .push_primitive_singleton::<F32Bits>("min_distance", self.min_distance)
            .push_primitive_singleton::<F32Bits>("max_distance", self.max_distance)
            .push_primitive_singleton::<F32Bits>("angle_increment", self.angle_increment)
            .push_primitive_singleton::<F32Bits>("angle_min", self.angle_min)
            .push_primitive_singleton::<F32Bits>("angle_max", self.angle_max);
        let ghost bm = builder@;
        proof {
            assert(bm =~= spec_scan_record(self@));
            assert(crate::arrow::spec_names_unique(bm)) by {
                scan_reveal_names();
                assert(bm.len() == 8);
                assert(bm[0].name == "data"@);
                assert(bm[1].name == "intensities"@);
                assert(bm[2].name == "length"@);
                assert(bm[3].name == "min_distance"@);
                assert(bm[4].name == "max_distance"@);
                assert(bm[5].name == "angle_increment"@);
                assert(bm[6].name == "angle_min"@);
                assert(bm[7].name == "angle_max"@);
                crate::arrow::lemma_names_unique_8(bm);
            }
        }
        match builder.build() {
            Ok(rec) => Ok(rec),
            Err(_) => {
                proof {
                    assert(false);
                }
                Err(Error::BuildFailed)
            },
        }
    }

    /// Reclaims an owned scan from a decomposition, pulling the two
    /// bulk buffers out without copying them and the scalars by value.
    /// On any decomposition that carries a valid scan this succeeds,
    /// unless another holder still aliases one of the bulk buffers:
    /// then that buffer stays shared and the caller may fall back to
    /// the zero-copy view path. On any other decomposition it reports
    /// what is wrong.
    pub fn from_raw_data(raw_data: ArrowDataConsumer) -> (r: Result<LaserScan2D, Error>)
        ensures
            r matches Ok(s) ==> spec_scan_raw_ok(&raw_data) && s@ == spec_scan_raw_of(&raw_data)
                && s.data.is_owned() && s.intensities.is_owned() && s@.wf(),
            r matches Err(e) ==> ((spec_scan_raw_ok(&raw_data) && (e matches Error::BufferShared(
                n,
            ) && (n@ == "data"@ || n@ == "intensities"@))) || !spec_scan_raw_ok(&raw_data)),
            r matches Err(e) ==> match e {
                Error::MalformedRecord => {
                    ||| !crate::arrow::spec_names_unique(raw_data@)
                    ||| (spec_field(raw_data@, "length"@) matches ColumnModel::U64(s) && s.len()
                        == 0)
                    ||| (spec_field(raw_data@, "min_distance"@) matches ColumnModel::F32(s)
                        && s.len() == 0)
                    ||| (spec_field(raw_data@, "max_distance"@) matches ColumnModel::F32(s)
                        && s.len() == 0)
                    ||| (spec_field(raw_data@, "angle_increment"@) matches ColumnModel::F32(s)
                        && s.len() == 0)
                    ||| (spec_field(raw_data@, "angle_min"@) matches ColumnModel::F32(s) && s.len()
                        == 0)
                    ||| (spec_field(raw_data@, "angle_max"@) matches ColumnModel::F32(s) && s.len()
                        == 0)
                },
                Error::FieldMissing(n) => !spec_has_field(raw_data@, n@),
                Error::TypeMismatch { field, expected, actual } => {
                    &&& spec_has_field(raw_data@, field@)
                    &&& actual == spec_field(raw_data@, field@).col_type()
                    &&& actual != expected
                },
                Error::BufferShared(n) => {
                    &&& (n@ == "data"@ || n@ == "intensities"@)
                    &&& spec_has_field(raw_data@, n@)
                    &&& spec_field(raw_data@, n@).col_type() == ColumnType::F32
                },
                Error::LengthMismatch => spec_scan_data(raw_data@).len() != spec_scan_intensities(
                    raw_data@,
                ).len(),
                _ => false,
            },
    {
        let ghost c0 = raw_data;
        proof {
            scan_reveal_names();
        }
        let length = match raw_data.primitive_singleton::<u64>("length") {
            Ok(x) => x,
            Err(e) => {
                return Err(e);
            },
        };
        let min_distance = match raw_data.primitive_singleton::<F32Bits>("min_distance") {
            Ok(x) => x,
            Err(e) => {
                return Err(e);
            },
        };
        let max_distance = match raw_data.primitive_singleton::<F32Bits>("max_distance") {
            Ok(x) => x,
            Err(e) => {
                return Err(e);
            },
        };
        let angle_increment = match raw_data.primitive_singleton::<F32Bits>("angle_increment") {
            Ok(x) => x,
            Err(e) => {
                return Err(e);
            },
        };
        let angle_min = match raw_data.primitive_singleton::<F32Bits>("angle_min") {
            Ok(x) => x,
            Err(e) => {
                return Err(e);
            },
        };
        let angle_max = match raw_data.primitive_singleton::<F32Bits>("angle_max") {
            Ok(x) => x,
            Err(e) => {
                return Err(e);
            },
        };
        let mut raw_data = raw_data;
        let data = match raw_data.primitive_array::<F32Bits>("data") {
            Ok(v) => v,
            Err(e) => {
                return Err(e);
            },
        };
        let ghost c1 = raw_data;
        proof {
            scan_reveal_names();
            crate::arrow::lemma_field_index_bounds(c0@, "data"@);
            crate::arrow::lemma_field_index_remove(
                c0@,
                crate::arrow::spec_field_index(c0@, "data"@),
                "intensities"@,
            );
        }
        let intensities = match raw_data.primitive_array::<F32Bits>("intensities") {
            Ok(v) => v,
            Err(e) => {
                return Err(e);
            },
        };
        if data.len() != intensities.len() {
            return Err(Error::LengthMismatch);
        }
        Ok(
            LaserScan2D {
                data: Buffer::from_vec(data),
                intensities: Buffer::from_vec(intensities),
                length,
                min_distance,
                max_distance,
                angle_increment,
                angle_min,
                angle_max,
            },
        )
    }

    /// Decodes a wire record into an owned scan, reclaiming the bulk
    /// buffers without copying them. On any record that carries a
    /// valid scan this succeeds, unless another holder still aliases
    /// one of the bulk buffers: then that buffer stays shared and the
    /// caller may fall back to the zero-copy view path.
    pub fn from_arrow(data: ArrowData) -> (r: Result<LaserScan2D, Error>)
        ensures
            r matches Ok(s) ==> spec_scan_rec_ok(&data) && s@ == spec_scan_of(&data)
                && s.data.is_owned() && s.intensities.is_owned() && s@.wf(),
            r matches Err(e) ==> ((spec_scan_rec_ok(&data) && (e matches Error::BufferShared(n)
                && (n@ == "data"@ || n@ == "intensities"@))) || !spec_scan_rec_ok(&data)),
            r matches Err(e) ==> match e {
                Error::MalformedRecord => {
                    ||| !crate::arrow::spec_names_unique(data@)
                    ||| (spec_field(data@, "length"@) matches ColumnModel::U64(s) && s.len()
                        == 0)
                    ||| (spec_field(data@, "min_distance"@) matches ColumnModel::F32(s)
                        && s.len() == 0)
                    ||| (spec_field(data@, "max_distance"@) matches ColumnModel::F32(s)
                        && s.len() == 0)
                    ||| (spec_field(data@, "angle_increment"@) matches ColumnModel::F32(s)
                        && s.len() == 0)
                    ||| (spec_field(data@, "angle_min"@) matches ColumnModel::F32(s) && s.len()
                        == 0)
                    ||| (spec_field(data@, "angle_max"@) matches ColumnModel::F32(s) && s.len()
                        == 0)
                },
                Error::FieldMissing(n) => !spec_has_field(data@, n@),
                Error::TypeMismatch { field, expected, actual } => {
                    &&& spec_has_field(data@, field@)
                    &&& actual == spec_field(data@, field@).col_type()
                    &&& actual != expected
                },
                Error::BufferShared(n) => {
                    &&& (n@ == "data"@ || n@ == "intensities"@)
                    &&& spec_has_field(data@, n@)
                    &&& spec_field(data@, n@).col_type() == ColumnType::F32
                },
                Error::LengthMismatch => spec_scan_data(data@).len() != spec_scan_intensities(
                    data@,
                ).len(),
                _ => false,
            },
    {
        let ghost gdata = data;
        let consumer = match ArrowDataConsumer::new(data) {
            Ok(c) => c,
            Err(e) => {
                return Err(e);
            },
        };
        let ghost c0 = consumer;
        let length = match consumer.primitive_singleton::<u64>("length") {
            Ok(x) => x,
            Err(e) => {
                return Err(e);
            },
        };
        let min_distance = match consumer.primitive_singleton::<F32Bits>("min_distance") {
            Ok(x) => x,
            Err(e) => {
                return Err(e);
            },
        };
        let max_distance = match consumer.primitive_singleton::<F32Bits>("max_distance") {
            Ok(x) => x,
            Err(e) => {
                return Err(e);
            },
        };
        let angle_increment = match consumer.primitive_singleton::<F32Bits>("angle_increment") {
            Ok(x) => x,
            Err(e) => {
                return Err(e);
            },
        };
        let angle_min = match consumer.primitive_singleton::<F32Bits>("angle_min") {
            Ok(x) => x,
            Err(e) => {
                return Err(e);
            },
        };
        let angle_max = match consumer.primitive_singleton::<F32Bits>("angle_max") {
            Ok(x) => x,
            Err(e) => {
                return Err(e);
            },
        };
        let mut consumer = consumer;
        let data_v = match consumer.primitive_array::<F32Bits>("data") {
            Ok(v) => v,
            Err(e) => {
                return Err(e);
            },
        };
        let ghost c1 = consumer;
        proof {
            scan_reveal_names();
            crate::arrow::lemma_field_index_bounds(c0@, "data"@);
            crate::arrow::lemma_field_index_remove(
                c0@,
                crate::arrow::spec_field_index(c0@, "data"@),
                "intensities"@,
            );
        }
        let intensities_v = match consumer.primitive_array::<F32Bits>("intensities") {
            Ok(v) => v,
            Err(e) => {
                return Err(e);
            },
        };
        if data_v.len() != intensities_v.len() {
            return Err(Error::LengthMismatch);
        }
        Ok(
            LaserScan2D {
                data: Buffer::from_vec(data_v),
                intensities: Buffer::from_vec(intensities_v),
                length,
                min_distance,
                max_distance,
                angle_increment,
                angle_min,
                angle_max,
            },
        )
    }

    /// Decomposes a record for zero-copy viewing, registering the two
    /// bulk buffers for borrowed access; the scalars stay in the
    /// decomposition and are copied out at read time. On success both
    /// bulk fields stand in the viewer's loaded set with their record
    /// columns.
    pub fn raw_data(array_data: ArrowData) -> (r: Result<ArrowDataViewer, Error>)
        ensures
            r matches Ok(_) <==> {
                &&& crate::arrow::spec_names_unique(array_data@)
                &&& spec_has_field(array_data@, "data"@)
                &&& spec_field(array_data@, "data"@).col_type() == ColumnType::F32
                &&& spec_has_field(array_data@, "intensities"@)
                &&& spec_field(array_data@, "intensities"@).col_type() == ColumnType::F32
            },
            r matches Ok(v) ==> {
                &&& spec_has_field(v.loaded(), "data"@)
                &&& spec_field(v.loaded(), "data"@) == spec_field(array_data@, "data"@)
                &&& spec_has_field(v.loaded(), "intensities"@)
                &&& spec_field(v.loaded(), "intensities"@) == spec_field(
                    array_data@,
                    "intensities"@,
                )
                &&& v.unloaded() == array_data@.remove(
                    crate::arrow::spec_field_index(array_data@, "data"@),
                ).remove(
                    crate::arrow::spec_field_index(
                        array_data@.remove(crate::arrow::spec_field_index(array_data@, "data"@)),
                        "intensities"@,
                    ),
                )
            },
    {
        proof {
            reveal_strlit("data");
            reveal_strlit("intensities");
            assert("data"@.len() == 4 && "intensities"@.len() == 11);
        }
        let ghost gdata = array_data;
        let v0 = match ArrowDataViewer::new(array_data) {
            Ok(v) => v,
            Err(e) => {
                return Err(e);
            },
        };
        let ghost g0 = v0;
        proof {
            assert(g0.unloaded() == gdata@);
            assert(crate::arrow::spec_field_index(g0.loaded(), "data"@) == -1);
            assert(crate::arrow::spec_field_index(g0.loaded(), "intensities"@) == -1);
        }
        let v1 = match v0.load_primitive::<F32Bits>("data") {
            Ok(v) => v,
            Err(e) => {
                return Err(e);
            },
        };
        let ghost g1 = v1;
        proof {
            crate::arrow::lemma_field_index_bounds(g0.unloaded(), "data"@);
            crate::arrow::lemma_field_index_remove(
                g0.unloaded(),
                crate::arrow::spec_field_index(g0.unloaded(), "data"@),
                "intensities"@,
            );
            crate::arrow::lemma_field_index_push(
                g0.loaded(),
                crate::arrow::FieldModel {
                    name: "data"@,
                    column: spec_field(g0.unloaded(), "data"@),
                },
                "intensities"@,
            );
        }
        match v1.load_primitive::<F32Bits>("intensities") {
            Ok(v2) => {
                proof {
                    let ghost f = crate::arrow::FieldModel {
                        name: "intensities"@,
                        column: spec_field(g1.unloaded(), "intensities"@),
                    };
                    crate::arrow::lemma_field_index_push(g1.loaded(), f, "data"@);
                    crate::arrow::lemma_field_index_bounds(g1.loaded(), "data"@);
                    assert(spec_has_field(g1.unloaded(), "intensities"@));
                    assert(g1.unloaded() == g0.unloaded().remove(
                        crate::arrow::spec_field_index(g0.unloaded(), "data"@),
                    ));
                    assert(spec_has_field(g0.unloaded(), "intensities"@));
                }
                Ok(v2)
            },
            Err(e) => Err(e),
        }
    }

    /// Decodes a scan from a viewer without claiming ownership: the
    /// bulk buffers come back as zero-copy shared views, and sharing
    /// can never make the decode fail. This succeeds exactly when the
    /// viewer carries a valid scan: scalars unloaded, bulk buffers
    /// loaded, lengths agreeing.
    pub fn view_from_raw_data(raw_data: &ArrowDataViewer) -> (r: Result<LaserScan2D, Error>)
        ensures
            r matches Ok(_) <==> spec_scan_view_ok(raw_data),
            r matches Ok(s) ==> s@ == spec_scan_view_of(raw_data) && !s.data.is_owned()
                && !s.intensities.is_owned() && s@.wf(),
            r matches Err(e) ==> match e {
                Error::MalformedRecord => {
                    ||| (spec_field(raw_data.unloaded(), "length"@) matches ColumnModel::U64(s)
                        && s.len() == 0)
                    ||| (spec_field(raw_data.unloaded(), "min_distance"@)
                        matches ColumnModel::F32(s) && s.len() == 0)
                    ||| (spec_field(raw_data.unloaded(), "max_distance"@)
                        matches ColumnModel::F32(s) && s.len() == 0)
                    ||| (spec_field(raw_data.unloaded(), "angle_increment"@)
                        matches ColumnModel::F32(s) && s.len() == 0)
                    ||| (spec_field(raw_data.unloaded(), "angle_min"@)
                        matches ColumnModel::F32(s) && s.len() == 0)
                    ||| (spec_field(raw_data.unloaded(), "angle_max"@)
                        matches ColumnModel::F32(s) && s.len() == 0)
                },
                Error::FieldMissing(n) => (((n@ == "data"@ || n@ == "intensities"@)
                    && !spec_has_field(raw_data.loaded(), n@)) || (n@ != "data"@ && n@
                    != "intensities"@ && !spec_has_field(raw_data.unloaded(), n@))),
                Error::TypeMismatch { field, expected, actual } => {
                    &&& (((field@ == "data"@ || field@ == "intensities"@) && spec_has_field(
                        raw_data.loaded(),
                        field@,
                    ) && actual == spec_field(raw_data.loaded(), field@).col_type()) || (field@
                        != "data"@ && field@ != "intensities"@ && spec_has_field(
                        raw_data.unloaded(),
                        field@,
                    ) && actual == spec_field(raw_data.unloaded(), field@).col_type()))
                    &&& actual != expected
                },
                Error::LengthMismatch => spec_scan_data(raw_data.loaded()).len()
                    != spec_scan_intensities(raw_data.loaded()).len(),
                _ => false,
            },
    {
        proof {
            scan_reveal_names();
        }
        let length = match raw_data.primitive_singleton::<u64>("length") {
            Ok(x) => x,
            Err(e) => {
                return Err(e);
            },
        };
        let min_distance = match raw_data.primitive_singleton::<F32Bits>("min_distance") {
            Ok(x) => x,
            Err(e) => {
                return Err(e);
            },
        };
        let max_distance = match raw_data.primitive_singleton::<F32Bits>("max_distance") {
            Ok(x) => x,
            Err(e) => {
                return Err(e);
            },
        };
        let angle_increment = match raw_data.primitive_singleton::<F32Bits>("angle_increment") {
            Ok(x) => x,
            Err(e) => {
                return Err(e);
            },
        };
        let angle_min = match raw_data.primitive_singleton::<F32Bits>("angle_min") {
            Ok(x) => x,
            Err(e) => {
                return Err(e);
            },
        };
        let angle_max = match raw_data.primitive_singleton::<F32Bits>("angle_max") {
            Ok(x) => x,
            Err(e) => {
                return Err(e);
            },
        };
        let data = match raw_data.primitive_array::<F32Bits>("data") {
            Ok(b) => b,
            Err(e) => {
                return Err(e);
            },
        };
        let intensities = match raw_data.primitive_array::<F32Bits>("intensities") {
            Ok(b) => b,
            Err(e) => {
                return Err(e);
            },
        };
        if data.len() != intensities.len() {
            return Err(Error::LengthMismatch);
        }
        Ok(
            LaserScan2D {
                data,
                intensities,
                length,
                min_distance,
                max_distance,
                angle_increment,
                angle_min,
                angle_max,
            },
        )
    }
}

} // verus!

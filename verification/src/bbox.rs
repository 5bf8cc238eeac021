use vstd::prelude::*;

use crate::arrow::builder::ArrowDataBuilder;
use crate::arrow::consumer::ArrowDataConsumer;
use crate::arrow::viewer::ArrowDataViewer;
use crate::arrow::{ArrowData, ColumnModel, ColumnType, FieldModel, spec_field, spec_has_field};
use crate::buffer::Buffer;
use crate::error::Error;
use crate::float32::{F32Bits, f32_add, f32_add_bits, f32_sub, f32_sub_bits};
use vstd::string::StringExecFns;

verus! {

/// The coordinate convention a bounding box's values use: corner pairs
/// or corner plus extent.
#[derive(Debug, Clone, Copy, PartialEq, Eq, Structural)]
pub enum Encoding {
    XYXY,
    XYWH,
}

impl Encoding {
    /// The canonical tag string written into a wire record.
    pub open spec fn spec_name(&self) -> Seq<char> {
        match self {
            Encoding::XYXY => "XYXY"@,
            Encoding::XYWH => "XYWH"@,
        }
    }

    /// Exec counterpart of [`Self::spec_name`].
    pub fn as_str(&self) -> (r: &'static str)
        ensures
            r@ == self.spec_name(),
    {
        match self {
            Encoding::XYXY => "XYXY",
            Encoding::XYWH => "XYWH",
        }
    }

    /// Parses a decode-time tag. Succeeds exactly on the two canonical
    /// tag strings; any other tag leaves the record malformed.
    pub fn from_string(encoding: String) -> (r: Result<Encoding, Error>)
        ensures
            r matches Ok(_) <==> (encoding@ == "XYXY"@ || encoding@ == "XYWH"@),
            r matches Ok(e) ==> e.spec_name() == encoding@,
            r matches Err(e) ==> e == Error::MalformedRecord,
    {
        let xyxy = String::from_str("XYXY");
        let xywh = String::from_str("XYWH");
        if encoding == xyxy {
            Ok(Encoding::XYXY)
        } else if encoding == xywh {
            Ok(Encoding::XYWH)
        } else {
            Err(Error::MalformedRecord)
        }
    }
}

/// The mathematical content of a bounding-box set.
pub struct BBoxModel {
    pub data: Seq<F32Bits>,
    pub confidence: Seq<F32Bits>,
    pub label: Seq<Seq<char>>,
    pub encoding: Encoding,
}

impl BBoxModel {
    /// Structural validity: one confidence and one label per box, and
    /// four coordinates per box.
    pub open spec fn wf(&self) -> bool {
        &&& self.confidence.len() == self.label.len()
        &&& self.data.len() == 4 * self.confidence.len()
    }
}

/// A set of bounding boxes: four coordinates per box in a flat buffer,
/// one confidence and one label per box, and the coordinate
/// convention the values use. The numeric buffers are owned or
/// zero-copy views of a wire record; the first mutation of a view
/// pays for one copy.
#[derive(Debug)]
pub struct BBox {
    pub data: Buffer<F32Bits>,
    pub confidence: Buffer<F32Bits>,
    pub label: Vec<String>,
    pub encoding: Encoding,
}

impl View for BBox {
    type V = BBoxModel;

    open spec fn view(&self) -> BBoxModel {
        BBoxModel {
            data: self.data@,
            confidence: self.confidence@,
            label: self.label.deep_view(),
            encoding: self.encoding,
        }
    }
}

/// Corner-plus-extent coordinates turned into corner pairs: every
/// third and fourth slot of a box becomes the sum of it and the slot
/// two places earlier.
pub open spec fn spec_corners_of_extents(d: Seq<F32Bits>) -> Seq<F32Bits> {
    Seq::new(
        d.len(),
        |j: int|
            if j % 4 == 2 || j % 4 == 3 {
                F32Bits { bits: f32_add(d[j - 2].bits, d[j].bits) }
            } else {
                d[j]
            },
    )
}

/// Corner pairs turned into corner-plus-extent coordinates: every
/// third and fourth slot of a box becomes its difference from the
/// slot two places earlier.
pub open spec fn spec_extents_of_corners(d: Seq<F32Bits>) -> Seq<F32Bits> {
    Seq::new(
        d.len(),
        |j: int|
            if j % 4 == 2 || j % 4 == 3 {
                F32Bits { bits: f32_sub(d[j].bits, d[j - 2].bits) }
            } else {
                d[j]
            },
    )
}

/// What converting to corner pairs does: corner-plus-extent values
/// are recomputed and the tag moves to `XYXY`; values already in
/// corner pairs are left untouched.
pub open spec fn spec_into_xyxy(m: BBoxModel) -> BBoxModel {
    match m.encoding {
        Encoding::XYWH => BBoxModel {
            data: spec_corners_of_extents(m.data),
            confidence: m.confidence,
            label: m.label,
            encoding: Encoding::XYXY,
        },
        Encoding::XYXY => m,
    }
}

/// What converting to corner-plus-extent does, symmetrically.
pub open spec fn spec_into_xywh(m: BBoxModel) -> BBoxModel {
    match m.encoding {
        Encoding::XYXY => BBoxModel {
            data: spec_extents_of_corners(m.data),
            confidence: m.confidence,
            label: m.label,
            encoding: Encoding::XYWH,
        },
        Encoding::XYWH => m,
    }
}

/// Converting twice to the same convention changes nothing beyond the
/// first conversion, and conversion preserves validity.
pub proof fn lemma_box_conversion_idempotent(m: BBoxModel)
    requires
        m.wf(),
    ensures
        spec_into_xyxy(m).wf(),
        spec_into_xywh(m).wf(),
        spec_into_xyxy(spec_into_xyxy(m)) == spec_into_xyxy(m),
        spec_into_xywh(spec_into_xywh(m)) == spec_into_xywh(m),
{
}

/// Box-encoding round trip: corner-plus-extent to corner pairs and
/// back restores every coordinate exactly, whenever subtracting a
/// corner from the sum it entered gives the original extent back (in
/// particular for integral values; floating-point rounding can break
/// the symmetry for extreme magnitudes, and such inputs are left
/// out).
pub proof fn lemma_box_round_trip(m: BBoxModel)
    requires
        m.wf(),
        m.encoding == Encoding::XYWH,
        forall|j: int|
            0 <= j < m.data.len() && (j % 4 == 2 || j % 4 == 3) ==> f32_sub(
                f32_add(m.data[j - 2].bits, #[trigger] m.data[j].bits),
                m.data[j - 2].bits,
            ) == m.data[j].bits,
    ensures
        spec_into_xywh(spec_into_xyxy(m)) == m,
{
    let m2 = spec_into_xyxy(m);
    assert forall|j: int| 0 <= j < m.data.len() implies spec_extents_of_corners(m2.data)[j]
        == m.data[j] by {
        if j % 4 == 2 || j % 4 == 3 {
            assert((j - 2) % 4 == j % 4 - 2);
            assert(m2.data[j - 2] == m.data[j - 2]);
            assert(m2.data[j].bits == f32_add(m.data[j - 2].bits, m.data[j].bits));
        }
    }
    assert(spec_extents_of_corners(m2.data) =~= m.data);
}

impl BBox {
    /// Validates that confidences, labels and coordinates agree: one
    /// confidence per label and four coordinates per box; then takes
    /// ownership of the buffers without copying. The boxes are in
    /// corner-pair convention.
    pub fn new_xyxy(data: Vec<F32Bits>, confidence: Vec<F32Bits>, label: Vec<String>) -> (r:
        Result<BBox, Error>)
        ensures
            r matches Ok(_) <==> (confidence@.len() == label@.len() && data@.len() == 4
                * confidence@.len()),
            match r {
                Ok(b) => {
                    &&& b@ == (BBoxModel {
                        data: data@,
                        confidence: confidence@,
                        label: label.deep_view(),
                        encoding: Encoding::XYXY,
                    })
                    &&& b@.wf()
                    &&& b.data.is_owned()
                    &&& b.confidence.is_owned()
                },
                Err(e) => e == Error::LengthMismatch,
            },
    {
        Self::new_with_encoding(data, confidence, label, Encoding::XYXY)
    }

    /// Validates and takes ownership as [`Self::new_xyxy`] does, for
    /// boxes in corner-plus-extent convention.
    pub fn new_xywh(data: Vec<F32Bits>, confidence: Vec<F32Bits>, label: Vec<String>) -> (r:
        Result<BBox, Error>)
        ensures
            r matches Ok(_) <==> (confidence@.len() == label@.len() && data@.len() == 4
                * confidence@.len()),
            match r {
                Ok(b) => {
                    &&& b@ == (BBoxModel {
                        data: data@,
                        confidence: confidence@,
                        label: label.deep_view(),
                        encoding: Encoding::XYWH,
                    })
                    &&& b@.wf()
                    &&& b.data.is_owned()
                    &&& b.confidence.is_owned()
                },
                Err(e) => e == Error::LengthMismatch,
            },
    {
        Self::new_with_encoding(data, confidence, label, Encoding::XYWH)
    }

    /// The shared validation of the two constructors.
    fn new_with_encoding(
        data: Vec<F32Bits>,
        confidence: Vec<F32Bits>,
        label: Vec<String>,
        encoding: Encoding,
    ) -> (r: Result<BBox, Error>)
        ensures
            r matches Ok(_) <==> (confidence@.len() == label@.len() && data@.len() == 4
                * confidence@.len()),
            match r {
                Ok(b) => {
                    &&& b@ == (BBoxModel {
                        data: data@,
                        confidence: confidence@,
                        label: label.deep_view(),
                        encoding,
                    })
                    &&& b@.wf()
                    &&& b.data.is_owned()
                    &&& b.confidence.is_owned()
                },
                Err(e) => e == Error::LengthMismatch,
            },
    {
        if confidence.len() != label.len() {
            return Err(Error::LengthMismatch);
        }
        if (confidence.len() as u128) * 4 != (data.len() as u128) {
            return Err(Error::LengthMismatch);
        }
        Ok(
            BBox {
                data: Buffer::from_vec(data),
                confidence: Buffer::from_vec(confidence),
                label,
                encoding,
            },
        )
    }

    /// Converts the boxes to corner pairs. Corner-plus-extent values
    /// are rewritten in place, copying the coordinate buffer only when
    /// it is still shared; values already in corner pairs come back
    /// unchanged, buffer state included. The confidences and labels
    /// are never touched.
    pub fn into_xyxy(self) -> (r: Result<BBox, Error>)
        requires
            self@.wf(),
        ensures
            r matches Ok(b) && b@ == spec_into_xyxy(self@),
            self@.encoding == Encoding::XYXY ==> (r matches Ok(b) && b == self),
            self@.encoding == Encoding::XYWH ==> (r matches Ok(b) && b.data.is_owned()
                && b.confidence == self.confidence),
    {
        match self.encoding {
            Encoding::XYWH => {
                let data = convert_coords(self.data.into_owned_vec(), true);
                Ok(
                    BBox {
                        data: Buffer::from_vec(data),
                        confidence: self.confidence,
                        label: self.label,
                        encoding: Encoding::XYXY,
                    },
                )
            },
            Encoding::XYXY => Ok(self),
        }
    }

    /// Converts the boxes to corner-plus-extent, symmetrically to
    /// [`Self::into_xyxy`].
    pub fn into_xywh(self) -> (r: Result<BBox, Error>)
        requires
            self@.wf(),
        ensures
            r matches Ok(b) && b@ == spec_into_xywh(self@),
            self@.encoding == Encoding::XYWH ==> (r matches Ok(b) && b == self),
            self@.encoding == Encoding::XYXY ==> (r matches Ok(b) && b.data.is_owned()
                && b.confidence == self.confidence),
    {
        match self.encoding {
            Encoding::XYXY => {
                let data = convert_coords(self.data.into_owned_vec(), false);
                Ok(
                    BBox {
                        data: Buffer::from_vec(data),
                        confidence: self.confidence,
                        label: self.label,
                        encoding: Encoding::XYWH,
                    },
                )
            },
            Encoding::XYWH => Ok(self),
        }
    }
}

/// Rewrites every box's third and fourth slot: as a sum with the slot
/// two places earlier when `to_corners` holds, as a difference from it
/// otherwise.
fn convert_coords(data: Vec<F32Bits>, to_corners: bool) -> (r: Vec<F32Bits>)
    requires
        data@.len() % 4 == 0,
    ensures
        to_corners ==> r@ == spec_corners_of_extents(data@),
        !to_corners ==> r@ == spec_extents_of_corners(data@),
{
    let ghost orig = data@;
    let mut data = data;
    let n = data.len();
    let mut i: usize = 0;
    while i < n
        invariant
            n == data@.len() == orig.len(),
            n % 4 == 0,
            i % 4 == 0,
            i <= n,
            forall|j: int|
                0 <= j < i ==> data@[j] == (if to_corners {
                    spec_corners_of_extents(orig)
                } else {
                    spec_extents_of_corners(orig)
                })[j],
            forall|j: int| i <= j < n ==> data@[j] == orig[j],
        decreases n - i,
    {
        proof {
            assert((n - i) % 4 == 0) by (nonlinear_arith)
                requires
                    n % 4 == 0,
                    i % 4 == 0,
                    i <= n,
            ;
            assert(i + 3 < n);
        }
        let x = data[i];
        let y = data[i + 1];
        let w = data[i + 2];
        let h = data[i + 3];
        if to_corners {
            data[i + 2] = f32_add_bits(x, w);
            data[i + 3] = f32_add_bits(y, h);
        } else {
            data[i + 2] = f32_sub_bits(w, x);
            data[i + 3] = f32_sub_bits(h, y);
        }
        i = i + 4;
        proof {
            assert forall|j: int| 0 <= j < i implies data@[j] == (if to_corners {
                spec_corners_of_extents(orig)
            } else {
                spec_extents_of_corners(orig)
            })[j] by {
                if i - 4 <= j < i {
                    assert((j % 4 == 2 || j % 4 == 3) ==> j - 2 >= i - 4);
                }
            }
        }
    }
    proof {
        if to_corners {
            assert(data@ =~= spec_corners_of_extents(orig));
        } else {
            assert(data@ =~= spec_extents_of_corners(orig));
        }
    }
    data
}

/// The wire record a bounding-box set encodes to: its four named
/// fields in schema order.
pub open spec fn spec_bbox_record(m: BBoxModel) -> Seq<FieldModel> {
    seq![
        FieldModel { name: "data"@, column: ColumnModel::F32(m.data) },
        FieldModel { name: "confidence"@, column: ColumnModel::F32(m.confidence) },
        FieldModel { name: "label"@, column: ColumnModel::Utf8(m.label) },
        FieldModel { name: "encoding"@, column: ColumnModel::Utf8(seq![m.encoding.spec_name()]) },
    ]
}

/// The encoding tag string a record carries.
pub open spec fn spec_bbox_tag(rec: &ArrowData) -> Seq<char> {
    vstd::utf8::decode_utf8(rec.col("encoding"@).utf8_first_slice())
}

/// The convention a record's tag names.
pub open spec fn spec_bbox_encoding(rec: &ArrowData) -> Encoding {
    if spec_bbox_tag(rec) == "XYXY"@ {
        Encoding::XYXY
    } else {
        Encoding::XYWH
    }
}

/// When decoding a record as a bounding-box set succeeds, aliasing of
/// the numeric buffers aside.
pub open spec fn spec_bbox_rec_ok(rec: &ArrowData) -> bool {
    &&& crate::arrow::spec_names_unique(rec@)
    &&& spec_has_field(rec@, "encoding"@)
    &&& rec.col("encoding"@).utf8_first_delimited()
    &&& vstd::utf8::valid_utf8(rec.col("encoding"@).utf8_first_slice())
    &&& (spec_bbox_tag(rec) == "XYXY"@ || spec_bbox_tag(rec) == "XYWH"@)
    &&& spec_has_field(rec@, "label"@)
    &&& rec.col("label"@).wf()
    &&& rec.col("label"@).spec_col_type() == ColumnType::Utf8
    &&& spec_has_field(rec@, "data"@)
    &&& spec_field(rec@, "data"@) matches ColumnModel::F32(_)
    &&& spec_has_field(rec@, "confidence"@)
    &&& spec_field(rec@, "confidence"@) matches ColumnModel::F32(_)
    &&& spec_bbox_of(rec).wf()
}

/// The bounding-box set a decodable record denotes.
pub open spec fn spec_bbox_of(rec: &ArrowData) -> BBoxModel {
    BBoxModel {
        data: <F32Bits as crate::arrow::Element>::seq_of(spec_field(rec@, "data"@)),
        confidence: <F32Bits as crate::arrow::Element>::seq_of(
            spec_field(rec@, "confidence"@),
        ),
        label: match spec_field(rec@, "label"@) {
            ColumnModel::Utf8(strs) => strs,
            _ => Seq::empty(),
        },
        encoding: spec_bbox_encoding(rec),
    }
}

/// The tag string a viewer's unloaded fields carry.
pub open spec fn spec_bbox_view_tag(v: &ArrowDataViewer) -> Seq<char> {
    vstd::utf8::decode_utf8(v.spec_col("encoding"@).utf8_first_slice())
}

/// The bounding-box set a decodable viewer denotes.
pub open spec fn spec_bbox_view_of(v: &ArrowDataViewer) -> BBoxModel {
    BBoxModel {
        data: <F32Bits as crate::arrow::Element>::seq_of(spec_field(v.loaded(), "data"@)),
        confidence: <F32Bits as crate::arrow::Element>::seq_of(
            spec_field(v.loaded(), "confidence"@),
        ),
        label: match spec_field(v.loaded(), "label"@) {
            ColumnModel::Utf8(strs) => strs,
            _ => Seq::empty(),
        },
        encoding: if spec_bbox_view_tag(v) == "XYXY"@ {
            Encoding::XYXY
        } else {
            Encoding::XYWH
        },
    }
}

/// When reading a bounding-box set out of a viewer succeeds: the three
/// bulk fields stand loaded with the right column types (the label
/// column well formed), the unloaded tag field is delimited, valid
/// UTF-8 and one of the two canonical tags, and the lengths agree.
pub open spec fn spec_bbox_view_ok(v: &ArrowDataViewer) -> bool {
    &&& spec_has_field(v.loaded(), "data"@)
    &&& spec_field(v.loaded(), "data"@) matches ColumnModel::F32(_)
    &&& spec_has_field(v.loaded(), "confidence"@)
    &&& spec_field(v.loaded(), "confidence"@) matches ColumnModel::F32(_)
    &&& spec_has_field(v.loaded(), "label"@)
    &&& v.spec_loaded_col("label"@).spec_col_type() == ColumnType::Utf8
    &&& v.spec_loaded_col("label"@).wf()
    &&& spec_has_field(v.unloaded(), "encoding"@)
    &&& v.spec_col("encoding"@).utf8_first_delimited()
    &&& vstd::utf8::valid_utf8(v.spec_col("encoding"@).utf8_first_slice())
    &&& (spec_bbox_view_tag(v) == "XYXY"@ || spec_bbox_view_tag(v) == "XYWH"@)
    &&& spec_bbox_view_of(v).wf()
}

/// Round trip: any wire record that carries exactly what encoding a
/// valid bounding-box set produces decodes back to that set, field by
/// field.
pub proof fn lemma_bbox_round_trip(m: BBoxModel, rec: ArrowData)
    requires
        m.wf(),
        rec@ == spec_bbox_record(m),
        rec.wf(),
    ensures
        spec_bbox_rec_ok(&rec),
        spec_bbox_of(&rec) == m,
{
    reveal_strlit("data");
    reveal_strlit("confidence");
    reveal_strlit("label");
    reveal_strlit("encoding");
    reveal_strlit("XYXY");
    reveal_strlit("XYWH");
    assert("XYXY"@[2] != "XYWH"@[2]);
    let fields = rec@;
    crate::arrow::lemma_field_index_at(fields, 0, "data"@);
    crate::arrow::lemma_field_index_at(fields, 1, "confidence"@);
    crate::arrow::lemma_field_index_at(fields, 2, "label"@);
    crate::arrow::lemma_field_index_at(fields, 3, "encoding"@);
    assert(crate::arrow::spec_names_unique(fields)) by {
        crate::arrow::lemma_names_unique_4(fields);
    }
    assert(rec.fields@.len() == 4);
    let enc_col = rec.col("encoding"@);
    assert(enc_col@ == fields[3].column);
    assert(enc_col@ matches ColumnModel::Utf8(strs) && strs.len() == 1);
    assert(enc_col.spec_utf8_count() == 1);
    crate::arrow::lemma_utf8_first_of_wf(enc_col);
    assert(spec_bbox_tag(&rec) == m.encoding.spec_name());
    assert(spec_bbox_encoding(&rec) == m.encoding);
    assert(rec.col("label"@)@ == fields[2].column);
    assert(spec_bbox_of(&rec) == m);
}

impl BBox {
    /// Serializes the boxes into a wire record holding the coordinate
    /// buffer, the confidences, the labels and the convention tag. The
    /// numeric buffers move into the record without being copied when
    /// they are owned; assembly itself cannot fail.
    pub fn into_arrow(self) -> (r: Result<ArrowData, Error>)
        ensures
            r matches Ok(rec) && rec@ == spec_bbox_record(self@) && rec.wf(),
    {
        let builder = ArrowDataBuilder::new()
            .push_primitive_array::<F32Bits>("data", self.data.into_owned_vec())
            .push_primitive_array::<F32Bits>("confidence", self.confidence.into_owned_vec())
            .push_utf8_array("label", self.label)
            .push_utf8_singleton("encoding", String::from_str(self.encoding.as_str()));
        let ghost bm = builder@;
        proof {
            assert(bm =~= spec_bbox_record(self@));
            assert(crate::arrow::spec_names_unique(bm)) by {
                reveal_strlit("data");
                reveal_strlit("confidence");
                reveal_strlit("label");
                reveal_strlit("encoding");
                assert(bm.len() == 4);
                assert(bm[0].name == "data"@);
                assert(bm[1].name == "confidence"@);
                assert(bm[2].name == "label"@);
                assert(bm[3].name == "encoding"@);
                crate::arrow::lemma_names_unique_4(bm);
            }
        }
        match builder.build() {
            Ok(rec) => Ok(rec),
            Err(_) => {
                proof {
                    assert(false);
                }
                Err(Error::BuildFailed)
            },
        }
    }

    /// Decodes a wire record into owned boxes, reclaiming the numeric
    /// buffers without copying them. On any record that carries a
    /// valid bounding-box set this succeeds, unless another holder
    /// still aliases one of the numeric buffers: then that buffer
    /// stays shared and the caller may fall back to the zero-copy view
    /// path. On any other record it reports what is wrong.
    pub fn from_arrow(data: ArrowData) -> (r: Result<BBox, Error>)
        ensures
            r matches Ok(b) ==> spec_bbox_rec_ok(&data) && b@ == spec_bbox_of(&data)
                && b.data.is_owned() && b.confidence.is_owned() && b@.wf(),
            r matches Err(e) ==> ((spec_bbox_rec_ok(&data) && (e matches Error::BufferShared(n)
                && (n@ == "data"@ || n@ == "confidence"@))) || !spec_bbox_rec_ok(&data)),
            r matches Err(e) ==> match e {
                Error::MalformedRecord => {
                    ||| !crate::arrow::spec_names_unique(data@)
                    ||| (vstd::utf8::valid_utf8(data.col("encoding"@).utf8_first_slice())
                        && spec_bbox_tag(&data) != "XYXY"@ && spec_bbox_tag(&data) != "XYWH"@)
                },
                Error::FieldMissing(n) => !spec_has_field(data@, n@),
                Error::TypeMismatch { field, expected, actual } => {
                    &&& spec_has_field(data@, field@)
                    &&& actual == spec_field(data@, field@).col_type()
                    &&& actual != expected
                },
                Error::MalformedOffsets(n) => {
                    ||| (n@ == "label"@ && spec_has_field(data@, n@) && data.col(
                        n@,
                    ).spec_col_type() == ColumnType::Utf8 && !data.col(n@).utf8_offsets_ok())
                    ||| (n@ == "encoding"@ && spec_has_field(data@, n@) && data.col(
                        n@,
                    ).spec_col_type() == ColumnType::Utf8 && !data.col(
                        n@,
                    ).utf8_first_delimited())
                },
                Error::InvalidUtf8(n) => {
                    ||| (n@ == "label"@ && data.col(n@).utf8_offsets_ok() && !data.col(
                        n@,
                    ).utf8_all_valid())
                    ||| (n@ == "encoding"@ && data.col(n@).utf8_first_delimited()
                        && !vstd::utf8::valid_utf8(data.col(n@).utf8_first_slice()))
                },
                Error::BufferShared(n) => {
                    &&& (n@ == "data"@ || n@ == "confidence"@)
                    &&& spec_has_field(data@, n@)
                    &&& spec_field(data@, n@).col_type() == ColumnType::F32
                },
                Error::LengthMismatch => !spec_bbox_of(&data).wf(),
                _ => false,
            },
    {
        let ghost gdata = data;
        let consumer = match ArrowDataConsumer::new(data) {
            Ok(c) => c,
            Err(e) => {
                return Err(e);
            },
        };
        let ghost c0 = consumer;
        let encoding_s = match consumer.utf8_singleton("encoding") {
            Ok(s) => s,
            Err(e) => {
                proof {
                    crate::arrow::lemma_field_index_bounds(gdata@, "encoding"@);
                    assert(c0.spec_col("encoding"@) == gdata.col("encoding"@));
                    crate::arrow::lemma_col_type_view(gdata.col("encoding"@));
                    if spec_has_field(gdata@, "encoding"@) {
                        assert(gdata.col("encoding"@)@ == spec_field(gdata@, "encoding"@));
                    }
                }
                return Err(e);
            },
        };
        let encoding = match Encoding::from_string(encoding_s) {
            Ok(e) => e,
            Err(e) => {
                proof {
                    assert(c0.spec_col("encoding"@) == gdata.col("encoding"@));
                }
                return Err(e);
            },
        };
        let mut consumer = consumer;
        let label = match consumer.utf8_array("label") {
            Ok(v) => v,
            Err(e) => {
                proof {
                    crate::arrow::lemma_field_index_bounds(gdata@, "label"@);
                    assert(c0.spec_col("label"@) == gdata.col("label"@));
                    crate::arrow::lemma_col_type_view(gdata.col("label"@));
                    if spec_has_field(gdata@, "label"@) {
                        assert(gdata.col("label"@)@ == spec_field(gdata@, "label"@));
                    }
                }
                return Err(e);
            },
        };
        let ghost c1 = consumer;
        proof {
            reveal_strlit("data");
            reveal_strlit("confidence");
            reveal_strlit("label");
            reveal_strlit("encoding");
            assert("label"@.len() == 5 && "data"@.len() == 4 && "confidence"@.len() == 10);
            crate::arrow::lemma_field_index_bounds(c0@, "label"@);
            crate::arrow::lemma_field_index_remove(
                c0@,
                crate::arrow::spec_field_index(c0@, "label"@),
                "data"@,
            );
            crate::arrow::lemma_field_index_remove(
                c0@,
                crate::arrow::spec_field_index(c0@, "label"@),
                "confidence"@,
            );
        }
        let data_v = match consumer.primitive_array::<F32Bits>("data") {
            Ok(v) => v,
            Err(e) => {
                return Err(e);
            },
        };
        let ghost c2 = consumer;
        proof {
            reveal_strlit("data");
            reveal_strlit("confidence");
            assert("data"@.len() == 4 && "confidence"@.len() == 10);
            crate::arrow::lemma_field_index_bounds(c1@, "data"@);
            crate::arrow::lemma_field_index_remove(
                c1@,
                crate::arrow::spec_field_index(c1@, "data"@),
                "confidence"@,
            );
        }
        let confidence_v = match consumer.primitive_array::<F32Bits>("confidence") {
            Ok(v) => v,
            Err(e) => {
                return Err(e);
            },
        };
        if confidence_v.len() != label.len() {
            return Err(Error::LengthMismatch);
        }
        if (confidence_v.len() as u128) * 4 != (data_v.len() as u128) {
            return Err(Error::LengthMismatch);
        }
        proof {
            reveal_strlit("XYXY");
            reveal_strlit("XYWH");
            assert("XYXY"@[2] != "XYWH"@[2]);
            assert(c0.spec_col("encoding"@) == gdata.col("encoding"@));
            assert(encoding_s@ == spec_bbox_tag(&gdata));
            assert(encoding == spec_bbox_encoding(&gdata));
            assert(c0.spec_col("label"@) == gdata.col("label"@));
        }
        Ok(
            BBox {
                data: Buffer::from_vec(data_v),
                confidence: Buffer::from_vec(confidence_v),
                label,
                encoding,
            },
        )
    }

    /// Decomposes a record for zero-copy viewing, registering the
    /// coordinate and confidence buffers and the labels for borrowed
    /// access. Succeeds exactly when the record's names are unique and
    /// the three bulk fields are present with their column types; all
    /// three then stand in the viewer's loaded set with their record
    /// columns.
    pub fn viewer(data: ArrowData) -> (r: Result<ArrowDataViewer, Error>)
        ensures
            r matches Ok(_) <==> {
                &&& crate::arrow::spec_names_unique(data@)
                &&& spec_has_field(data@, "data"@)
                &&& spec_field(data@, "data"@).col_type() == ColumnType::F32
                &&& spec_has_field(data@, "confidence"@)
                &&& spec_field(data@, "confidence"@).col_type() == ColumnType::F32
                &&& spec_has_field(data@, "label"@)
                &&& spec_field(data@, "label"@).col_type() == ColumnType::Utf8
            },
            r matches Ok(v) ==> {
                &&& spec_has_field(v.loaded(), "data"@)
                &&& spec_field(v.loaded(), "data"@) == spec_field(data@, "data"@)
                &&& spec_has_field(v.loaded(), "confidence"@)
                &&& spec_field(v.loaded(), "confidence"@) == spec_field(data@, "confidence"@)
                &&& spec_has_field(v.loaded(), "label"@)
                &&& spec_field(v.loaded(), "label"@) == spec_field(data@, "label"@)
            },
    {
        proof {
            reveal_strlit("data");
            reveal_strlit("confidence");
            reveal_strlit("label");
            assert("data"@.len() == 4 && "confidence"@.len() == 10 && "label"@.len() == 5);
        }
        let ghost gdata = data;
        let v0 = match ArrowDataViewer::new(data) {
            Ok(v) => v,
            Err(e) => {
                return Err(e);
            },
        };
        let ghost g0 = v0;
        proof {
            assert(g0.unloaded() == gdata@);
            assert(crate::arrow::spec_field_index(g0.loaded(), "data"@) == -1);
            assert(crate::arrow::spec_field_index(g0.loaded(), "confidence"@) == -1);
            assert(crate::arrow::spec_field_index(g0.loaded(), "label"@) == -1);
        }
        let v1 = match v0.load_primitive::<F32Bits>("data") {
            Ok(v) => v,
            Err(e) => {
                return Err(e);
            },
        };
        let ghost g1 = v1;
        proof {
            crate::arrow::lemma_field_index_bounds(g0.unloaded(), "data"@);
            crate::arrow::lemma_field_index_remove(
                g0.unloaded(),
                crate::arrow::spec_field_index(g0.unloaded(), "data"@),
                "confidence"@,
            );
            crate::arrow::lemma_field_index_remove(
                g0.unloaded(),
                crate::arrow::spec_field_index(g0.unloaded(), "data"@),
                "label"@,
            );
            crate::arrow::lemma_field_index_push(
                g0.loaded(),
                crate::arrow::FieldModel {
                    name: "data"@,
                    column: spec_field(g0.unloaded(), "data"@),
                },
                "confidence"@,
            );
            crate::arrow::lemma_field_index_push(
                g0.loaded(),
                crate::arrow::FieldModel {
                    name: "data"@,
                    column: spec_field(g0.unloaded(), "data"@),
                },
                "label"@,
            );
        }
        let v2 = match v1.load_primitive::<F32Bits>("confidence") {
            Ok(v) => v,
            Err(e) => {
                return Err(e);
            },
        };
        let ghost g2 = v2;
        proof {
            crate::arrow::lemma_field_index_bounds(g1.loaded(), "data"@);
            crate::arrow::lemma_field_index_bounds(g1.unloaded(), "confidence"@);
            crate::arrow::lemma_field_index_remove(
                g1.unloaded(),
                crate::arrow::spec_field_index(g1.unloaded(), "confidence"@),
                "label"@,
            );
            crate::arrow::lemma_field_index_push(
                g1.loaded(),
                crate::arrow::FieldModel {
                    name: "confidence"@,
                    column: spec_field(g1.unloaded(), "confidence"@),
                },
                "data"@,
            );
            crate::arrow::lemma_field_index_push(
                g1.loaded(),
                crate::arrow::FieldModel {
                    name: "confidence"@,
                    column: spec_field(g1.unloaded(), "confidence"@),
                },
                "label"@,
            );
        }
        match v2.load_utf8("label") {
            Ok(v3) => {
                proof {
                    let ghost f = crate::arrow::FieldModel {
                        name: "label"@,
                        column: spec_field(g2.unloaded(), "label"@),
                    };
                    crate::arrow::lemma_field_index_push(g2.loaded(), f, "data"@);
                    crate::arrow::lemma_field_index_push(g2.loaded(), f, "confidence"@);
                    crate::arrow::lemma_field_index_bounds(g2.loaded(), "data"@);
                    crate::arrow::lemma_field_index_bounds(g2.loaded(), "confidence"@);
                    assert(spec_has_field(g2.loaded(), "confidence"@));
                    assert(spec_field(g2.loaded(), "confidence"@) == spec_field(
                        g1.unloaded(),
                        "confidence"@,
                    ));
                    assert(spec_field(g1.unloaded(), "confidence"@) == spec_field(
                        g0.unloaded(),
                        "confidence"@,
                    ));
                    assert(spec_field(v3.loaded(), "confidence"@) == spec_field(
                        g2.loaded(),
                        "confidence"@,
                    ));
                    assert(spec_field(g2.unloaded(), "label"@) == spec_field(
                        g0.unloaded(),
                        "label"@,
                    ));
                }
                Ok(v3)
            },
            Err(e) => Err(e),
        }
    }

    /// Decodes boxes from a viewer without claiming ownership: the
    /// numeric buffers come back as zero-copy shared views, and
    /// sharing can never make the decode fail. The labels and the tag
    /// are copied out as owned strings.
    pub fn view_arrow(viewer: &ArrowDataViewer) -> (r: Result<BBox, Error>)
        ensures
            r matches Ok(_) <==> spec_bbox_view_ok(viewer),
            r matches Ok(b) ==> b@ == spec_bbox_view_of(viewer) && !b.data.is_owned()
                && !b.confidence.is_owned() && b@.wf(),
            r matches Err(e) ==> match e {
                Error::MalformedRecord => {
                    &&& vstd::utf8::valid_utf8(viewer.spec_col("encoding"@).utf8_first_slice())
                    &&& spec_bbox_view_tag(viewer) != "XYXY"@
                    &&& spec_bbox_view_tag(viewer) != "XYWH"@
                },
                Error::FieldMissing(n) => ((n@ == "encoding"@ && !spec_has_field(
                    viewer.unloaded(),
                    n@,
                )) || (n@ != "encoding"@ && !spec_has_field(viewer.loaded(), n@))),
                Error::TypeMismatch { field, expected, actual } => {
                    &&& ((field@ == "encoding"@ && spec_has_field(viewer.unloaded(), field@)
                        && actual == spec_field(viewer.unloaded(), field@).col_type()) || (
                    field@ != "encoding"@ && spec_has_field(viewer.loaded(), field@) && actual
                        == spec_field(viewer.loaded(), field@).col_type()))
                    &&& actual != expected
                },
                Error::MalformedOffsets(n) => {
                    ||| (n@ == "label"@ && spec_has_field(viewer.loaded(), n@)
                        && viewer.spec_loaded_col(n@).spec_col_type() == ColumnType::Utf8
                        && !viewer.spec_loaded_col(n@).utf8_offsets_ok())
                    ||| (n@ == "encoding"@ && spec_has_field(viewer.unloaded(), n@)
                        && viewer.spec_col(n@).spec_col_type() == ColumnType::Utf8
                        && !viewer.spec_col(n@).utf8_first_delimited())
                },
                Error::InvalidUtf8(n) => {
                    ||| (n@ == "label"@ && viewer.spec_loaded_col(n@).utf8_offsets_ok()
                        && !viewer.spec_loaded_col(n@).utf8_all_valid())
                    ||| (n@ == "encoding"@ && viewer.spec_col(n@).utf8_first_delimited()
                        && !vstd::utf8::valid_utf8(viewer.spec_col(n@).utf8_first_slice()))
                },
                Error::LengthMismatch => !spec_bbox_view_of(viewer).wf(),
                _ => false,
            },
    {
        proof {
            reveal_strlit("XYXY");
            reveal_strlit("XYWH");
            reveal_strlit("data");
            reveal_strlit("confidence");
            reveal_strlit("label");
            reveal_strlit("encoding");
            assert("XYXY"@[2] != "XYWH"@[2]);
            assert("data"@.len() == 4 && "confidence"@.len() == 10 && "label"@.len() == 5
                && "encoding"@.len() == 8);
        }
        let data = match viewer.primitive_array::<F32Bits>("data") {
            Ok(b) => b,
            Err(e) => {
                return Err(e);
            },
        };
        let confidence = match viewer.primitive_array::<F32Bits>("confidence") {
            Ok(b) => b,
            Err(e) => {
                return Err(e);
            },
        };
        let label = match viewer.utf8_array("label") {
            Ok(v) => v,
            Err(e) => {
                proof {
                    if spec_has_field(viewer.loaded(), "label"@) {
                        crate::arrow::viewer::lemma_loaded_col_view(viewer, "label"@);
                    }
                }
                return Err(e);
            },
        };
        let encoding_s = match viewer.utf8_singleton("encoding") {
            Ok(s) => s,
            Err(e) => {
                proof {
                    if spec_has_field(viewer.unloaded(), "encoding"@) {
                        crate::arrow::viewer::lemma_unloaded_col_view(viewer, "encoding"@);
                    }
                }
                return Err(e);
            },
        };
        let encoding = match Encoding::from_string(encoding_s) {
            Ok(e) => e,
            Err(e) => {
                return Err(e);
            },
        };
        if confidence.len() != label.len() {
            return Err(Error::LengthMismatch);
        }
        if (confidence.len() as u128) * 4 != (data.len() as u128) {
            return Err(Error::LengthMismatch);
        }
        proof {
            crate::arrow::lemma_field_index_bounds(viewer.loaded(), "label"@);
            assert(viewer.spec_loaded_col("label"@)@ == spec_field(viewer.loaded(), "label"@));
            assert(viewer.spec_loaded_col("label"@)@ matches ColumnModel::Utf8(_));
            assert(viewer.spec_loaded_col("label"@).spec_col_type() == ColumnType::Utf8);
            assert(encoding_s@ == spec_bbox_view_tag(viewer));
            assert(encoding == spec_bbox_view_of(viewer).encoding);
        }
        Ok(BBox { data, confidence, label, encoding })
    }
}


impl crate::arrow::IntoArrow for BBox {
    fn into_arrow(self) -> Result<ArrowData, Error> {
        BBox::into_arrow(self)
    }

    fn from_arrow(array_data: ArrowData) -> Result<BBox, Error> {
        BBox::from_arrow(array_data)
    }
}

impl crate::arrow::ViewArrow for BBox {
    fn viewer(array_data: ArrowData) -> Result<ArrowDataViewer, Error> {
        BBox::viewer(array_data)
    }

    fn view_arrow(viewer: &ArrowDataViewer) -> Result<BBox, Error> {
        BBox::view_arrow(viewer)
    }
}


} // verus!

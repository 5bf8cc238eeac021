use vstd::prelude::*;

use crate::arrow::builder::ArrowDataBuilder;
use crate::arrow::consumer::ArrowDataConsumer;
use crate::arrow::viewer::ArrowDataViewer;
use crate::arrow::{ArrowData, ColumnModel, ColumnType, FieldModel, spec_field, spec_has_field};
use crate::buffer::Buffer;
use crate::error::Error;
use crate::float32::F32Bits;
use vstd::string::StringExecFns;

verus! {

/// The unit system a joint-position record's values use.
#[derive(Debug, Clone, Copy, PartialEq, Eq, Structural)]
pub enum Encoding {
    Logical,
    Physical,
}

impl Encoding {
    /// The canonical tag string written into a wire record.
    pub open spec fn spec_name(&self) -> Seq<char> {
        match self {
            Encoding::Logical => "Logical"@,
            Encoding::Physical => "Physical"@,
        }
    }

    /// Exec counterpart of [`Self::spec_name`].
    pub fn as_str(&self) -> (r: &'static str)
        ensures
            r@ == self.spec_name(),
    {
        match self {
            Encoding::Logical => "Logical",
            Encoding::Physical => "Physical",
        }
    }

    /// Parses a decode-time tag. Succeeds exactly on the two canonical
    /// tag strings; any other tag leaves the record malformed.
    pub fn from_string(encoding: String) -> (r: Result<Encoding, Error>)
        ensures
            r matches Ok(_) <==> (encoding@ == "Logical"@ || encoding@ == "Physical"@),
            r matches Ok(e) ==> e.spec_name() == encoding@,
            r matches Err(e) ==> e == Error::MalformedRecord,
    {
        let logical = String::from_str("Logical");
        let physical = String::from_str("Physical");
        if encoding == logical {
            Ok(Encoding::Logical)
        } else if encoding == physical {
            Ok(Encoding::Physical)
        } else {
            Err(Error::MalformedRecord)
        }
    }
}

/// The mathematical content of a joint-position record.
pub struct JointsPositionModel {
    pub joints: Seq<Seq<char>>,
    pub positions: Seq<F32Bits>,
    pub encoding: Encoding,
}

/// A joint-position record: joint names, one position value per
/// joint-space slot, and the unit system the values use. The position
/// buffer is owned or a zero-copy view of a wire record.
#[derive(Debug)]
pub struct JointsPosition {
    pub joints: Vec<String>,
    pub positions: Buffer<F32Bits>,
    pub encoding: Encoding,
}

impl View for JointsPosition {
    type V = JointsPositionModel;

    open spec fn view(&self) -> JointsPositionModel {
        JointsPositionModel {
            joints: self.joints.deep_view(),
            positions: self.positions@,
            encoding: self.encoding,
        }
    }
}

/// The wire record a joint-position record encodes to: its three named
/// fields in schema order.
pub open spec fn spec_joints_record(m: JointsPositionModel) -> Seq<FieldModel> {
    seq![
        FieldModel { name: "joints"@, column: ColumnModel::Utf8(m.joints) },
        FieldModel { name: "positions"@, column: ColumnModel::F32(m.positions) },
        FieldModel { name: "encoding"@, column: ColumnModel::Utf8(seq![m.encoding.spec_name()]) },
    ]
}

/// The encoding tag string a record carries.
pub open spec fn spec_joints_tag(rec: &ArrowData) -> Seq<char> {
    vstd::utf8::decode_utf8(rec.col("encoding"@).utf8_first_slice())
}

/// The unit system a record's tag names.
pub open spec fn spec_joints_encoding(rec: &ArrowData) -> Encoding {
    if spec_joints_tag(rec) == "Logical"@ {
        Encoding::Logical
    } else {
        Encoding::Physical
    }
}

/// When decoding a record as a joint-position record succeeds,
/// aliasing of the position buffer aside.
pub open spec fn spec_joints_rec_ok(rec: &ArrowData) -> bool {
    &&& crate::arrow::spec_names_unique(rec@)
    &&& spec_has_field(rec@, "encoding"@)
    &&& rec.col("encoding"@).utf8_first_delimited()
    &&& vstd::utf8::valid_utf8(rec.col("encoding"@).utf8_first_slice())
    &&& (spec_joints_tag(rec) == "Logical"@ || spec_joints_tag(rec) == "Physical"@)
    &&& spec_has_field(rec@, "joints"@)
    &&& rec.col("joints"@).wf()
    &&& rec.col("joints"@).spec_col_type() == ColumnType::Utf8
    &&& spec_has_field(rec@, "positions"@)
    &&& spec_field(rec@, "positions"@) matches ColumnModel::F32(_)
}

/// The joint-position record a decodable record denotes.
pub open spec fn spec_joints_of(rec: &ArrowData) -> JointsPositionModel {
    JointsPositionModel {
        joints: match spec_field(rec@, "joints"@) {
            ColumnModel::Utf8(strs) => strs,
            _ => Seq::empty(),
        },
        positions: <F32Bits as crate::arrow::Element>::seq_of(spec_field(rec@, "positions"@)),
        encoding: spec_joints_encoding(rec),
    }
}

/// When reading a joint-position record out of a viewer succeeds: the
/// position buffer and the joint names stand loaded with the right
/// column types (the joint-name column well formed), and the unloaded
/// tag field is delimited, valid UTF-8 and one of the two canonical
/// tags.
pub open spec fn spec_joints_view_ok(v: &ArrowDataViewer) -> bool {
    &&& spec_has_field(v.loaded(), "positions"@)
    &&& spec_field(v.loaded(), "positions"@) matches ColumnModel::F32(_)
    &&& spec_has_field(v.loaded(), "joints"@)
    &&& v.spec_loaded_col("joints"@).spec_col_type() == ColumnType::Utf8
    &&& v.spec_loaded_col("joints"@).wf()
    &&& spec_has_field(v.unloaded(), "encoding"@)
    &&& v.spec_col("encoding"@).utf8_first_delimited()
    &&& vstd::utf8::valid_utf8(v.spec_col("encoding"@).utf8_first_slice())
    &&& (spec_joints_view_tag(v) == "Logical"@ || spec_joints_view_tag(v) == "Physical"@)
}

/// The tag string a viewer's unloaded fields carry.
pub open spec fn spec_joints_view_tag(v: &ArrowDataViewer) -> Seq<char> {
    vstd::utf8::decode_utf8(v.spec_col("encoding"@).utf8_first_slice())
}

/// The joint-position record a decodable viewer denotes.
pub open spec fn spec_joints_view_of(v: &ArrowDataViewer) -> JointsPositionModel {
    JointsPositionModel {
        joints: match spec_field(v.loaded(), "joints"@) {
            ColumnModel::Utf8(strs) => strs,
            _ => Seq::empty(),
        },
        positions: <F32Bits as crate::arrow::Element>::seq_of(
            spec_field(v.loaded(), "positions"@),
        ),
        encoding: if spec_joints_view_tag(v) == "Logical"@ {
            Encoding::Logical
        } else {
            Encoding::Physical
        },
    }
}

/// Round trip: any wire record that carries exactly what encoding a
/// joint-position record produces decodes back to it, field by field.
pub proof fn lemma_joints_round_trip(m: JointsPositionModel, rec: ArrowData)
    requires
        rec@ == spec_joints_record(m),
        rec.wf(),
    ensures
        spec_joints_rec_ok(&rec),
        spec_joints_of(&rec) == m,
{
    reveal_strlit("joints");
    reveal_strlit("positions");
    reveal_strlit("encoding");
    reveal_strlit("Logical");
    reveal_strlit("Physical");
    let fields = rec@;
    crate::arrow::lemma_field_index_at(fields, 0, "joints"@);
    crate::arrow::lemma_field_index_at(fields, 1, "positions"@);
    crate::arrow::lemma_field_index_at(fields, 2, "encoding"@);
    assert(crate::arrow::spec_names_unique(fields)) by {
        crate::arrow::lemma_names_unique_3(fields);
    }
    assert(rec.fields@.len() == 3);
    let enc_col = rec.col("encoding"@);
    assert(enc_col@ == fields[2].column);
    assert(enc_col@ matches ColumnModel::Utf8(strs) && strs.len() == 1);
    assert(enc_col.spec_utf8_count() == 1);
    crate::arrow::lemma_utf8_first_of_wf(enc_col);
    assert(spec_joints_tag(&rec) == m.encoding.spec_name());
    assert(spec_joints_encoding(&rec) == m.encoding);
    assert(rec.col("joints"@)@ == fields[0].column);
    assert(spec_joints_of(&rec) == m);
}

impl JointsPosition {
    /// Packs joint names, positions and the unit system into a record;
    /// no structural constraint ties the two lists together, so this
    /// cannot fail.
    pub fn new(joints: Vec<String>, positions: Vec<F32Bits>, encoding: Encoding) -> (r: Result<
        JointsPosition,
        Error,
    >)
        ensures
            r matches Ok(j) && j@ == (JointsPositionModel {
                joints: joints.deep_view(),
                positions: positions@,
                encoding,
            }) && j.positions.is_owned(),
    {
        Ok(JointsPosition { joints, positions: Buffer::from_vec(positions), encoding })
    }

    /// Serializes the record into its three named wire fields. The
    /// position buffer moves into the record without being copied when
    /// it is owned; assembly itself cannot fail.
    pub fn into_arrow(self) -> (r: Result<ArrowData, Error>)
        ensures
            r matches Ok(rec) && rec@ == spec_joints_record(self@) && rec.wf(),
    {
        let builder = ArrowDataBuilder::new()
            .push_utf8_array("joints", self.joints)
            .push_primitive_array::<F32Bits>("positions", self.positions.into_owned_vec())
            .push_utf8_singleton("encoding", String::from_str(self.encoding.as_str()));
        let ghost bm = builder@;
        proof {
            assert(bm =~= spec_joints_record(self@));
            assert(crate::arrow::spec_names_unique(bm)) by {
                reveal_strlit("joints");
                reveal_strlit("positions");
                reveal_strlit("encoding");
                assert(bm.len() == 3);
                assert(bm[0].name == "joints"@);
                assert(bm[1].name == "positions"@);
                assert(bm[2].name == "encoding"@);
                crate::arrow::lemma_names_unique_3(bm);
            }
        }
        match builder.build() {
            Ok(rec) => Ok(rec),
            Err(_) => {
                proof {
                    assert(false);
                }
                Err(Error::BuildFailed)
            },
        }
    }

    /// Decodes a wire record into an owned joint-position record,
    /// reclaiming the position buffer without copying it. On any
    /// record that carries a valid joint-position record this
    /// succeeds, unless another holder still aliases the position
    /// buffer.
    pub fn from_arrow(data: ArrowData) -> (r: Result<JointsPosition, Error>)
        ensures
            r matches Ok(j) ==> spec_joints_rec_ok(&data) && j@ == spec_joints_of(&data)
                && j.positions.is_owned(),
            r matches Err(e) ==> ((spec_joints_rec_ok(&data) && (e matches Error::BufferShared(n)
                && n@ == "positions"@)) || !spec_joints_rec_ok(&data)),
            r matches Err(e) ==> match e {
                Error::MalformedRecord => {
                    ||| !crate::arrow::spec_names_unique(data@)
                    ||| (vstd::utf8::valid_utf8(data.col("encoding"@).utf8_first_slice())
                        && spec_joints_tag(&data) != "Logical"@ && spec_joints_tag(&data)
                        != "Physical"@)
                },
                Error::FieldMissing(n) => !spec_has_field(data@, n@),
                Error::TypeMismatch { field, expected, actual } => {
                    &&& spec_has_field(data@, field@)
                    &&& actual == spec_field(data@, field@).col_type()
                    &&& actual != expected
                },
                Error::MalformedOffsets(n) => {
                    ||| (n@ == "joints"@ && spec_has_field(data@, n@) && data.col(
                        n@,
                    ).spec_col_type() == ColumnType::Utf8 && !data.col(n@).utf8_offsets_ok())
                    ||| (n@ == "encoding"@ && spec_has_field(data@, n@) && data.col(
                        n@,
                    ).spec_col_type() == ColumnType::Utf8 && !data.col(
                        n@,
                    ).utf8_first_delimited())
                },
                Error::InvalidUtf8(n) => {
                    ||| (n@ == "joints"@ && data.col(n@).utf8_offsets_ok() && !data.col(
                        n@,
                    ).utf8_all_valid())
                    ||| (n@ == "encoding"@ && data.col(n@).utf8_first_delimited()
                        && !vstd::utf8::valid_utf8(data.col(n@).utf8_first_slice()))
                },
                Error::BufferShared(n) => {
                    &&& n@ == "positions"@
                    &&& spec_has_field(data@, n@)
                    &&& spec_field(data@, n@).col_type() == ColumnType::F32
                },
                _ => false,
            },
    {
        let ghost gdata = data;
        let consumer = match ArrowDataConsumer::new(data) {
            Ok(c) => c,
            Err(e) => {
                return Err(e);
            },
        };
        let ghost c0 = consumer;
        let encoding_s = match consumer.utf8_singleton("encoding") {
            Ok(s) => s,
            Err(e) => {
                proof {
                    crate::arrow::lemma_field_index_bounds(gdata@, "encoding"@);
                    assert(c0.spec_col("encoding"@) == gdata.col("encoding"@));
                    crate::arrow::lemma_col_type_view(gdata.col("encoding"@));
                    if spec_has_field(gdata@, "encoding"@) {
                        assert(gdata.col("encoding"@)@ == spec_field(gdata@, "encoding"@));
                    }
                }
                return Err(e);
            },
        };
        let encoding = match Encoding::from_string(encoding_s) {
            Ok(e) => e,
            Err(e) => {
                proof {
                    assert(c0.spec_col("encoding"@) == gdata.col("encoding"@));
                }
                return Err(e);
            },
        };
        let mut consumer = consumer;
        let joints = match consumer.utf8_array("joints") {
            Ok(v) => v,
            Err(e) => {
                proof {
                    crate::arrow::lemma_field_index_bounds(gdata@, "joints"@);
                    assert(c0.spec_col("joints"@) == gdata.col("joints"@));
                    crate::arrow::lemma_col_type_view(gdata.col("joints"@));
                    if spec_has_field(gdata@, "joints"@) {
                        assert(gdata.col("joints"@)@ == spec_field(gdata@, "joints"@));
                    }
                }
                return Err(e);
            },
        };
        let ghost c1 = consumer;
        proof {
            reveal_strlit("joints");
            reveal_strlit("positions");
            reveal_strlit("encoding");
            assert("joints"@.len() == 6 && "positions"@.len() == 9);
            crate::arrow::lemma_field_index_bounds(c0@, "joints"@);
            crate::arrow::lemma_field_index_remove(
                c0@,
                crate::arrow::spec_field_index(c0@, "joints"@),
                "positions"@,
            );
        }
        let positions = match consumer.primitive_array::<F32Bits>("positions") {
            Ok(v) => v,
            Err(e) => {
                return Err(e);
            },
        };
        proof {
            reveal_strlit("Logical");
            reveal_strlit("Physical");
            assert("Logical"@.len() == 7 && "Physical"@.len() == 8);
            assert(c0.spec_col("encoding"@) == gdata.col("encoding"@));
            assert(encoding_s@ == spec_joints_tag(&gdata));
            assert(encoding == spec_joints_encoding(&gdata));
            assert(c0.spec_col("joints"@) == gdata.col("joints"@));
        }
        Ok(JointsPosition { joints, positions: Buffer::from_vec(positions), encoding })
    }

    /// Decomposes a record for zero-copy viewing, registering the
    /// position buffer and the joint names for borrowed access. On
    /// success both bulk fields stand in the viewer's loaded set with
    /// their record columns.
    pub fn viewer(data: ArrowData) -> (r: Result<ArrowDataViewer, Error>)
        ensures
            r matches Ok(_) <==> {
                &&& crate::arrow::spec_names_unique(data@)
                &&& spec_has_field(data@, "positions"@)
                &&& spec_field(data@, "positions"@).col_type() == ColumnType::F32
                &&& spec_has_field(data@, "joints"@)
                &&& spec_field(data@, "joints"@).col_type() == ColumnType::Utf8
            },
            r matches Ok(v) ==> {
                &&& spec_has_field(v.loaded(), "positions"@)
                &&& spec_field(v.loaded(), "positions"@) == spec_field(data@, "positions"@)
                &&& spec_has_field(v.loaded(), "joints"@)
                &&& spec_field(v.loaded(), "joints"@) == spec_field(data@, "joints"@)
            },
    {
        proof {
            reveal_strlit("positions");
            reveal_strlit("joints");
            assert("positions"@.len() == 9 && "joints"@.len() == 6);
        }
        let ghost gdata = data;
        let v0 = match ArrowDataViewer::new(data) {
            Ok(v) => v,
            Err(e) => {
                return Err(e);
            },
        };
        let ghost g0 = v0;
        proof {
            assert(g0.unloaded() == gdata@);
            assert(crate::arrow::spec_field_index(g0.loaded(), "positions"@) == -1);
            assert(crate::arrow::spec_field_index(g0.loaded(), "joints"@) == -1);
        }
        let v1 = match v0.load_primitive::<F32Bits>("positions") {
            Ok(v) => v,
            Err(e) => {
                return Err(e);
            },
        };
        let ghost g1 = v1;
        proof {
            crate::arrow::lemma_field_index_bounds(g0.unloaded(), "positions"@);
            crate::arrow::lemma_field_index_remove(
                g0.unloaded(),
                crate::arrow::spec_field_index(g0.unloaded(), "positions"@),
                "joints"@,
            );
            crate::arrow::lemma_field_index_push(
                g0.loaded(),
                crate::arrow::FieldModel {
                    name: "positions"@,
                    column: spec_field(g0.unloaded(), "positions"@),
                },
                "joints"@,
            );
        }
        match v1.load_utf8("joints") {
            Ok(v2) => {
                proof {
                    let ghost f = crate::arrow::FieldModel {
                        name: "joints"@,
                        column: spec_field(g1.unloaded(), "joints"@),
                    };
                    crate::arrow::lemma_field_index_push(g1.loaded(), f, "positions"@);
                    crate::arrow::lemma_field_index_bounds(g1.loaded(), "positions"@);
                    assert(spec_has_field(g1.unloaded(), "joints"@));
                    assert(g1.unloaded() == g0.unloaded().remove(
                        crate::arrow::spec_field_index(g0.unloaded(), "positions"@),
                    ));
                    assert(spec_has_field(g0.unloaded(), "joints"@));
                }
                Ok(v2)
            },
            Err(e) => Err(e),
        }
    }

    /// Decodes a joint-position record from a viewer without claiming
    /// ownership: the position buffer comes back as a zero-copy shared
    /// view, and sharing can never make the decode fail. This succeeds
    /// exactly when the viewer carries a valid joint-position record.
    pub fn view_arrow(viewer: &ArrowDataViewer) -> (r: Result<JointsPosition, Error>)
        ensures
            r matches Ok(_) <==> spec_joints_view_ok(viewer),
            r matches Ok(j) ==> j@ == spec_joints_view_of(viewer) && !j.positions.is_owned(),
            r matches Err(e) ==> match e {
                Error::MalformedRecord => {
                    &&& vstd::utf8::valid_utf8(viewer.spec_col("encoding"@).utf8_first_slice())
                    &&& spec_joints_view_tag(viewer) != "Logical"@
                    &&& spec_joints_view_tag(viewer) != "Physical"@
                },
                Error::FieldMissing(n) => ((n@ == "encoding"@ && !spec_has_field(
                    viewer.unloaded(),
                    n@,
                )) || (n@ != "encoding"@ && !spec_has_field(viewer.loaded(), n@))),
                Error::TypeMismatch { field, expected, actual } => {
                    &&& ((field@ == "encoding"@ && spec_has_field(viewer.unloaded(), field@)
                        && actual == spec_field(viewer.unloaded(), field@).col_type()) || (
                    field@ != "encoding"@ && spec_has_field(viewer.loaded(), field@) && actual
                        == spec_field(viewer.loaded(), field@).col_type()))
                    &&& actual != expected
                },
                Error::MalformedOffsets(n) => {
                    ||| (n@ == "joints"@ && spec_has_field(viewer.loaded(), n@)
                        && viewer.spec_loaded_col(n@).spec_col_type() == ColumnType::Utf8
                        && !viewer.spec_loaded_col(n@).utf8_offsets_ok())
                    ||| (n@ == "encoding"@ && spec_has_field(viewer.unloaded(), n@)
                        && viewer.spec_col(n@).spec_col_type() == ColumnType::Utf8
                        && !viewer.spec_col(n@).utf8_first_delimited())
                },
                Error::InvalidUtf8(n) => {
                    ||| (n@ == "joints"@ && viewer.spec_loaded_col(n@).utf8_offsets_ok()
                        && !viewer.spec_loaded_col(n@).utf8_all_valid())
                    ||| (n@ == "encoding"@ && viewer.spec_col(n@).utf8_first_delimited()
                        && !vstd::utf8::valid_utf8(viewer.spec_col(n@).utf8_first_slice()))
                },
                _ => false,
            },
    {
        proof {
            reveal_strlit("Logical");
            reveal_strlit("Physical");
            reveal_strlit("positions");
            reveal_strlit("joints");
            reveal_strlit("encoding");
            assert("Logical"@.len() == 7 && "Physical"@.len() == 8);
            assert("positions"@.len() == 9 && "joints"@.len() == 6 && "encoding"@.len() == 8);
        }
        let positions = match viewer.primitive_array::<F32Bits>("positions") {
            Ok(b) => b,
            Err(e) => {
                return Err(e);
            },
        };
        let joints = match viewer.utf8_array("joints") {
            Ok(v) => v,
            Err(e) => {
                proof {
                    if spec_has_field(viewer.loaded(), "joints"@) {
                        crate::arrow::viewer::lemma_loaded_col_view(viewer, "joints"@);
                    }
                }
                return Err(e);
            },
        };
        let encoding_s = match viewer.utf8_singleton("encoding") {
            Ok(s) => s,
            Err(e) => {
                proof {
                    if spec_has_field(viewer.unloaded(), "encoding"@) {
                        crate::arrow::viewer::lemma_unloaded_col_view(viewer, "encoding"@);
                    }
                }
                return Err(e);
            },
        };
        let encoding = match Encoding::from_string(encoding_s) {
            Ok(e) => e,
            Err(e) => {
                return Err(e);
            },
        };
        proof {
            crate::arrow::lemma_field_index_bounds(viewer.loaded(), "joints"@);
            assert(viewer.spec_loaded_col("joints"@)@ == spec_field(viewer.loaded(), "joints"@));
            assert(viewer.spec_loaded_col("joints"@)@ matches ColumnModel::Utf8(_));
            assert(viewer.spec_loaded_col("joints"@).spec_col_type() == ColumnType::Utf8);
            assert(encoding_s@ == spec_joints_view_tag(viewer));
            assert(encoding == spec_joints_view_of(viewer).encoding);
        }
        Ok(JointsPosition { joints, positions, encoding })
    }
}

} // verus!

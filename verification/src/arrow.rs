use vstd::prelude::*;

use crate::buffer::rc_clone;
use std::rc::Rc;

pub mod builder;
pub(crate) mod utf8col;
pub mod consumer;
pub mod viewer;

use crate::float32::F32Bits;

verus! {

/// The type of the values one wire column holds.
#[derive(Debug, Clone, Copy, PartialEq, Eq, Structural)]
pub enum ColumnType {
    U8,
    U16,
    U32,
    U64,
    F32,
    Utf8,
}

/// One column of a wire record: a flat buffer of primitive values, or
/// a flat byte buffer delimited by cumulative offsets for UTF-8 data.
/// Buffers are reference counted and treated as immutable once the
/// column is published into a record.
#[derive(Debug)]
pub enum ColumnData {
    U8(Rc<Vec<u8>>),
    U16(Rc<Vec<u16>>),
    U32(Rc<Vec<u32>>),
    U64(Rc<Vec<u64>>),
    F32(Rc<Vec<F32Bits>>),
    Utf8 { bytes: Rc<Vec<u8>>, offsets: Rc<Vec<usize>> },
}

/// The mathematical content of a column: the sequence of values it
/// holds. A UTF-8 column is read at the character level.
pub enum ColumnModel {
    U8(Seq<u8>),
    U16(Seq<u16>),
    U32(Seq<u32>),
    U64(Seq<u64>),
    F32(Seq<F32Bits>),
    Utf8(Seq<Seq<char>>),
}

impl ColumnModel {
    /// The column type this model belongs to.
    pub open spec fn col_type(&self) -> ColumnType {
        match self {
            ColumnModel::U8(_) => ColumnType::U8,
            ColumnModel::U16(_) => ColumnType::U16,
            ColumnModel::U32(_) => ColumnType::U32,
            ColumnModel::U64(_) => ColumnType::U64,
            ColumnModel::F32(_) => ColumnType::F32,
            ColumnModel::Utf8(_) => ColumnType::Utf8,
        }
    }
}

impl ColumnData {
    /// The number of strings a UTF-8 column delimits.
    pub open spec fn spec_utf8_count(&self) -> nat {
        match self {
            ColumnData::Utf8 { bytes: _, offsets } => {
                if offsets@.len() >= 1 {
                    (offsets@.len() - 1) as nat
                } else {
                    0
                }
            },
            _ => 0,
        }
    }

    /// The character content of string `i` of a UTF-8 column.
    pub open spec fn spec_utf8_string(&self, i: int) -> Seq<char> {
        match self {
            ColumnData::Utf8 { bytes, offsets } => vstd::utf8::decode_utf8(
                bytes@.subrange(offsets@[i] as int, offsets@[i + 1] as int),
            ),
            _ => Seq::empty(),
        }
    }

    /// For a UTF-8 column: the offsets start at zero, never decrease,
    /// and end exactly at the byte buffer's length.
    pub open spec fn utf8_offsets_ok(&self) -> bool {
        match self {
            ColumnData::Utf8 { bytes, offsets } => {
                &&& offsets@.len() >= 1
                &&& offsets@[0] == 0
                &&& (forall|i: int, j: int|
                    0 <= i <= j < offsets@.len() ==> offsets@[i] <= offsets@[j])
                &&& offsets@[offsets@.len() - 1] == bytes@.len()
            },
            _ => false,
        }
    }

    /// For a UTF-8 column: every delimited slice is valid UTF-8.
    pub open spec fn utf8_all_valid(&self) -> bool {
        match self {
            ColumnData::Utf8 { bytes, offsets } => forall|i: int|
                0 <= i < self.spec_utf8_count() ==> vstd::utf8::valid_utf8(
                    bytes@.subrange(#[trigger] offsets@[i] as int, offsets@[i + 1] as int),
                ),
            _ => false,
        }
    }

    /// Well-formedness of a column. For a UTF-8 column: the offsets
    /// start at zero, never decrease, end exactly at the byte buffer's
    /// length, and every delimited slice is valid UTF-8.
    pub open spec fn wf(&self) -> bool {
        match self {
            ColumnData::Utf8 { .. } => self.utf8_offsets_ok() && self.utf8_all_valid(),
            _ => true,
        }
    }

    /// Whether the first string of a UTF-8 column can be read: there
    /// are at least two offsets and they delimit a range of the byte
    /// buffer starting at zero.
    pub open spec fn utf8_first_delimited(&self) -> bool {
        match self {
            ColumnData::Utf8 { bytes, offsets } => {
                &&& offsets@.len() >= 2
                &&& offsets@[0] == 0
                &&& offsets@[1] <= bytes@.len()
            },
            _ => false,
        }
    }

    /// The byte slice of the first string of a UTF-8 column.
    pub open spec fn utf8_first_slice(&self) -> Seq<u8> {
        match self {
            ColumnData::Utf8 { bytes, offsets } => bytes@.subrange(0, offsets@[1] as int),
            _ => Seq::empty(),
        }
    }

    /// The type of this column's values.
    pub open spec fn spec_col_type(&self) -> ColumnType {
        match self {
            ColumnData::U8(_) => ColumnType::U8,
            ColumnData::U16(_) => ColumnType::U16,
            ColumnData::U32(_) => ColumnType::U32,
            ColumnData::U64(_) => ColumnType::U64,
            ColumnData::F32(_) => ColumnType::F32,
            ColumnData::Utf8 { .. } => ColumnType::Utf8,
        }
    }

    /// Exec counterpart of [`Self::spec_col_type`].
    pub fn col_type(&self) -> (t: ColumnType)
        ensures
            t == self.spec_col_type(),
    {
        match self {
            ColumnData::U8(_) => ColumnType::U8,
            ColumnData::U16(_) => ColumnType::U16,
            ColumnData::U32(_) => ColumnType::U32,
            ColumnData::U64(_) => ColumnType::U64,
            ColumnData::F32(_) => ColumnType::F32,
            ColumnData::Utf8 { .. } => ColumnType::Utf8,
        }
    }
}

impl View for ColumnData {
    type V = ColumnModel;

    open spec fn view(&self) -> ColumnModel {
        match self {
            ColumnData::U8(rc) => ColumnModel::U8(rc@),
            ColumnData::U16(rc) => ColumnModel::U16(rc@),
            ColumnData::U32(rc) => ColumnModel::U32(rc@),
            ColumnData::U64(rc) => ColumnModel::U64(rc@),
            ColumnData::F32(rc) => ColumnModel::F32(rc@),
            ColumnData::Utf8 { .. } => ColumnModel::Utf8(
                Seq::new(self.spec_utf8_count(), |i: int| self.spec_utf8_string(i)),
            ),
        }
    }
}

/// Conversion between a value and its owned wire-record form: encode
/// by consuming the value, decode by consuming the record. Each
/// implementing type's inherent methods of the same names carry the
/// exact contracts.
pub trait IntoArrow: Sized {
    /// Serializes the value into a wire record.
    fn into_arrow(self) -> Result<ArrowData, crate::error::Error>;

    /// Decodes a wire record into an owned value.
    fn from_arrow(array_data: ArrowData) -> Result<Self, crate::error::Error>;
}

/// Zero-copy decoding through a viewer: decompose the record once,
/// then read borrowed views out of it any number of times. Each
/// implementing type's inherent methods of the same names carry the
/// exact contracts.
pub trait ViewArrow: Sized {
    /// Decomposes a record and registers the fields the view needs.
    fn viewer(array_data: ArrowData) -> Result<viewer::ArrowDataViewer, crate::error::Error>;

    /// Decodes a value whose bulk payloads are zero-copy shared views.
    fn view_arrow(viewer: &viewer::ArrowDataViewer) -> Result<Self, crate::error::Error>;
}

/// A failure to read one column, before a field name is attached.
pub enum ColumnError {
    /// The column holds values of the named type, not the requested one.
    WrongType(ColumnType),
    /// The column's buffer is aliased by another holder.
    Shared,
    /// The column is empty, so it has no first value.
    Empty,
}

/// A primitive value type the codec can store in a column.
pub trait Element: Sized + Copy {
    /// The column type that stores this value type.
    spec fn elem_type() -> ColumnType;

    /// The column content that a sequence of these values becomes.
    spec fn col_model(s: Seq<Self>) -> ColumnModel;

    /// Reading a column's content back gives the sequence it was made of.
    spec fn seq_of(m: ColumnModel) -> Seq<Self>;

    /// `col_model` tags its column with `elem_type` and `seq_of` inverts it.
    proof fn col_model_props(s: Seq<Self>)
        ensures
            Self::col_model(s).col_type() == Self::elem_type(),
            Self::seq_of(Self::col_model(s)) == s,
    ;

    /// Exec counterpart of [`Self::elem_type`].
    fn elem_type_exec() -> (t: ColumnType)
        ensures
            t == Self::elem_type(),
    ;

    /// Publishes owned values as a column, without copying them.
    fn to_column(v: Vec<Self>) -> (c: ColumnData)
        ensures
            c@ == Self::col_model(v@),
            c.wf(),
    ;

    /// Reclaims a column's values as an exclusively owned vector,
    /// without copying. `WrongType` comes exactly when the column
    /// holds another value type; otherwise the reclaim fails only
    /// with `Shared`, when another holder still aliases the buffer.
    fn from_column(c: ColumnData) -> (r: Result<Vec<Self>, ColumnError>)
        ensures
            match r {
                Ok(v) => c@ == Self::col_model(v@),
                Err(ColumnError::Shared) => c@.col_type() == Self::elem_type(),
                Err(ColumnError::WrongType(t)) => t == c@.col_type() && t != Self::elem_type(),
                Err(ColumnError::Empty) => false,
            },
            c@.col_type() != Self::elem_type() <==> r matches Err(ColumnError::WrongType(_)),
    ;

    /// Takes a second zero-copy handle onto a column's buffer.
    /// Succeeds exactly when the column holds this value type.
    fn share_column(c: &ColumnData) -> (r: Result<Rc<Vec<Self>>, ColumnError>)
        ensures
            match r {
                Ok(rc) => c@ == Self::col_model(rc@),
                Err(ColumnError::WrongType(t)) => t == c@.col_type() && t != Self::elem_type(),
                Err(_) => false,
            },
            r matches Ok(_) <==> c@.col_type() == Self::elem_type(),
    ;

    /// Reads the first value of a column. Succeeds exactly when the
    /// column holds this value type and is not empty.
    fn first_of_column(c: &ColumnData) -> (r: Result<Self, ColumnError>)
        ensures
            match r {
                Ok(x) => {
                    &&& c@.col_type() == Self::elem_type()
                    &&& Self::seq_of(c@).len() >= 1
                    &&& x == Self::seq_of(c@)[0]
                },
                Err(ColumnError::WrongType(t)) => t == c@.col_type() && t != Self::elem_type(),
                Err(ColumnError::Empty) => c@.col_type() == Self::elem_type() && Self::seq_of(
                    c@,
                ).len() == 0,
                Err(ColumnError::Shared) => false,
            },
    ;
}

impl Element for u8 {
    open spec fn elem_type() -> ColumnType {
        ColumnType::U8
    }

    open spec fn col_model(s: Seq<Self>) -> ColumnModel {
        ColumnModel::U8(s)
    }

    open spec fn seq_of(m: ColumnModel) -> Seq<Self> {
        match m {
            ColumnModel::U8(s) => s,
            _ => Seq::empty(),
        }
    }

    proof fn col_model_props(s: Seq<Self>) {
    }

    fn elem_type_exec() -> ColumnType {
        ColumnType::U8
    }

    fn to_column(v: Vec<Self>) -> ColumnData {
        ColumnData::U8(Rc::new(v))
    }

    fn from_column(c: ColumnData) -> Result<Vec<Self>, ColumnError> {
        match c {
            ColumnData::U8(rc) => match Rc::try_unwrap(rc) {
                Ok(v) => Ok(v),
                Err(_) => Err(ColumnError::Shared),
            },
            other => Err(ColumnError::WrongType(other.col_type())),
        }
    }

    fn share_column(c: &ColumnData) -> Result<Rc<Vec<Self>>, ColumnError> {
        match c {
            ColumnData::U8(rc) => Ok(rc_clone(rc)),
            other => Err(ColumnError::WrongType(other.col_type())),
        }
    }

    fn first_of_column(c: &ColumnData) -> Result<Self, ColumnError> {
        match c {
            ColumnData::U8(rc) => {
                let v: &Vec<u8> = &**rc;
                if v.len() >= 1 {
                    Ok(v[0])
                } else {
                    Err(ColumnError::Empty)
                }
            },
            other => Err(ColumnError::WrongType(other.col_type())),
        }
    }
}

impl Element for u16 {
    open spec fn elem_type() -> ColumnType {
        ColumnType::U16
    }

    open spec fn col_model(s: Seq<Self>) -> ColumnModel {
        ColumnModel::U16(s)
    }

    open spec fn seq_of(m: ColumnModel) -> Seq<Self> {
        match m {
            ColumnModel::U16(s) => s,
            _ => Seq::empty(),
        }
    }

    proof fn col_model_props(s: Seq<Self>) {
    }

    fn elem_type_exec() -> ColumnType {
        ColumnType::U16
    }

    fn to_column(v: Vec<Self>) -> ColumnData {
        ColumnData::U16(Rc::new(v))
    }

    fn from_column(c: ColumnData) -> Result<Vec<Self>, ColumnError> {
        match c {
            ColumnData::U16(rc) => match Rc::try_unwrap(rc) {
                Ok(v) => Ok(v),
                Err(_) => Err(ColumnError::Shared),
            },
            other => Err(ColumnError::WrongType(other.col_type())),
        }
    }

    fn share_column(c: &ColumnData) -> Result<Rc<Vec<Self>>, ColumnError> {
        match c {
            ColumnData::U16(rc) => Ok(rc_clone(rc)),
            other => Err(ColumnError::WrongType(other.col_type())),
        }
    }

    fn first_of_column(c: &ColumnData) -> Result<Self, ColumnError> {
        match c {
            ColumnData::U16(rc) => {
                let v: &Vec<u16> = &**rc;
                if v.len() >= 1 {
                    Ok(v[0])
                } else {
                    Err(ColumnError::Empty)
                }
            },
            other => Err(ColumnError::WrongType(other.col_type())),
        }
    }
}

impl Element for u32 {
    open spec fn elem_type() -> ColumnType {
        ColumnType::U32
    }

    open spec fn col_model(s: Seq<Self>) -> ColumnModel {
        ColumnModel::U32(s)
    }

    open spec fn seq_of(m: ColumnModel) -> Seq<Self> {
        match m {
            ColumnModel::U32(s) => s,
            _ => Seq::empty(),
        }
    }

    proof fn col_model_props(s: Seq<Self>) {
    }

    fn elem_type_exec() -> ColumnType {
        ColumnType::U32
    }

    fn to_column(v: Vec<Self>) -> ColumnData {
        ColumnData::U32(Rc::new(v))
    }

    fn from_column(c: ColumnData) -> Result<Vec<Self>, ColumnError> {
        match c {
            ColumnData::U32(rc) => match Rc::try_unwrap(rc) {
                Ok(v) => Ok(v),
                Err(_) => Err(ColumnError::Shared),
            },
            other => Err(ColumnError::WrongType(other.col_type())),
        }
    }

    fn share_column(c: &ColumnData) -> Result<Rc<Vec<Self>>, ColumnError> {
        match c {
            ColumnData::U32(rc) => Ok(rc_clone(rc)),
            other => Err(ColumnError::WrongType(other.col_type())),
        }
    }

    fn first_of_column(c: &ColumnData) -> Result<Self, ColumnError> {
        match c {
            ColumnData::U32(rc) => {
                let v: &Vec<u32> = &**rc;
                if v.len() >= 1 {
                    Ok(v[0])
                } else {
                    Err(ColumnError::Empty)
                }
            },
            other => Err(ColumnError::WrongType(other.col_type())),
        }
    }
}

impl Element for u64 {
    open spec fn elem_type() -> ColumnType {
        ColumnType::U64
    }

    open spec fn col_model(s: Seq<Self>) -> ColumnModel {
        ColumnModel::U64(s)
    }

    open spec fn seq_of(m: ColumnModel) -> Seq<Self> {
        match m {
            ColumnModel::U64(s) => s,
            _ => Seq::empty(),
        }
    }

    proof fn col_model_props(s: Seq<Self>) {
    }

    fn elem_type_exec() -> ColumnType {
        ColumnType::U64
    }

    fn to_column(v: Vec<Self>) -> ColumnData {
        ColumnData::U64(Rc::new(v))
    }

    fn from_column(c: ColumnData) -> Result<Vec<Self>, ColumnError> {
        match c {
            ColumnData::U64(rc) => match Rc::try_unwrap(rc) {
                Ok(v) => Ok(v),
                Err(_) => Err(ColumnError::Shared),
            },
            other => Err(ColumnError::WrongType(other.col_type())),
        }
    }

    fn share_column(c: &ColumnData) -> Result<Rc<Vec<Self>>, ColumnError> {
        match c {
            ColumnData::U64(rc) => Ok(rc_clone(rc)),
            other => Err(ColumnError::WrongType(other.col_type())),
        }
    }

    fn first_of_column(c: &ColumnData) -> Result<Self, ColumnError> {
        match c {
            ColumnData::U64(rc) => {
                let v: &Vec<u64> = &**rc;
                if v.len() >= 1 {
                    Ok(v[0])
                } else {
                    Err(ColumnError::Empty)
                }
            },
            other => Err(ColumnError::WrongType(other.col_type())),
        }
    }
}

impl Element for F32Bits {
    open spec fn elem_type() -> ColumnType {
        ColumnType::F32
    }

    open spec fn col_model(s: Seq<Self>) -> ColumnModel {
        ColumnModel::F32(s)
    }

    open spec fn seq_of(m: ColumnModel) -> Seq<Self> {
        match m {
            ColumnModel::F32(s) => s,
            _ => Seq::empty(),
        }
    }

    proof fn col_model_props(s: Seq<Self>) {
    }

    fn elem_type_exec() -> ColumnType {
        ColumnType::F32
    }

    fn to_column(v: Vec<Self>) -> ColumnData {
        ColumnData::F32(Rc::new(v))
    }

    fn from_column(c: ColumnData) -> Result<Vec<Self>, ColumnError> {
        match c {
            ColumnData::F32(rc) => match Rc::try_unwrap(rc) {
                Ok(v) => Ok(v),
                Err(_) => Err(ColumnError::Shared),
            },
            other => Err(ColumnError::WrongType(other.col_type())),
        }
    }

    fn share_column(c: &ColumnData) -> Result<Rc<Vec<Self>>, ColumnError> {
        match c {
            ColumnData::F32(rc) => Ok(rc_clone(rc)),
            other => Err(ColumnError::WrongType(other.col_type())),
        }
    }

    fn first_of_column(c: &ColumnData) -> Result<Self, ColumnError> {
        match c {
            ColumnData::F32(rc) => {
                let v: &Vec<F32Bits> = &**rc;
                if v.len() >= 1 {
                    Ok(v[0])
                } else {
                    Err(ColumnError::Empty)
                }
            },
            other => Err(ColumnError::WrongType(other.col_type())),
        }
    }
}

/// One named slot of a wire record.
#[derive(Debug)]
pub struct WireField {
    pub name: String,
    pub column: ColumnData,
}

/// The mathematical content of one named slot.
pub struct FieldModel {
    pub name: Seq<char>,
    pub column: ColumnModel,
}

impl View for WireField {
    type V = FieldModel;

    open spec fn view(&self) -> FieldModel {
        FieldModel { name: self.name@, column: self.column@ }
    }
}

impl DeepView for WireField {
    type V = FieldModel;

    open spec fn deep_view(&self) -> FieldModel {
        self.view()
    }
}

/// A wire record: an ordered set of named columns, created once by a
/// builder and immutable thereafter.
#[derive(Debug)]
pub struct ArrowData {
    pub fields: Vec<WireField>,
}

impl View for ArrowData {
    type V = Seq<FieldModel>;

    open spec fn view(&self) -> Seq<FieldModel> {
        self.fields.deep_view()
    }
}

/// The position of the first field of the given name, or `-1`.
pub open spec fn spec_field_index(fields: Seq<FieldModel>, name: Seq<char>) -> int
    decreases fields.len(),
{
    if fields.len() == 0 {
        -1
    } else if fields[0].name == name {
        0
    } else {
        let rest = spec_field_index(fields.drop_first(), name);
        if rest == -1 {
            -1
        } else {
            rest + 1
        }
    }
}

/// Whether a field of the given name is present.
pub open spec fn spec_has_field(fields: Seq<FieldModel>, name: Seq<char>) -> bool {
    spec_field_index(fields, name) >= 0
}

/// The content of the first field of the given name.
pub open spec fn spec_field(fields: Seq<FieldModel>, name: Seq<char>) -> ColumnModel {
    fields[spec_field_index(fields, name)].column
}

/// Whether all field names are pairwise distinct.
pub open spec fn spec_names_unique(fields: Seq<FieldModel>) -> bool {
    forall|i: int, j: int|
        0 <= i < j < fields.len() ==> fields[i].name != fields[j].name
}

impl ArrowData {
    /// A published record is well formed: every column is well formed
    /// and no field name repeats.
    pub open spec fn wf(&self) -> bool {
        &&& spec_names_unique(self@)
        &&& forall|i: int|
            0 <= i < self.fields@.len() ==> (#[trigger] self.fields@[i]).column.wf()
    }

    /// The number of fields.
    pub fn len(&self) -> (n: usize)
        ensures
            n == self@.len(),
    {
        self.fields.len()
    }

    /// Whether a field of the given name is present.
    pub open spec fn has(&self, name: Seq<char>) -> bool {
        spec_has_field(self@, name)
    }

    /// The column stored under the given name.
    pub open spec fn col(&self, name: Seq<char>) -> ColumnData {
        self.fields@[spec_field_index(self@, name)].column
    }
}

/// Pairwise-distinct names of a three-field record are unique.
pub proof fn lemma_names_unique_3(fields: Seq<FieldModel>)
    requires
        fields.len() == 3,
        fields[0].name != fields[1].name,
        fields[0].name != fields[2].name,
        fields[1].name != fields[2].name,
    ensures
        spec_names_unique(fields),
{
    assert forall|i: int, j: int| 0 <= i < j < fields.len() implies fields[i].name
        != fields[j].name by {
        assert(i == 0 || i == 1);
        assert(j == 1 || j == 2);
    }
}

/// Pairwise-distinct names of a four-field record are unique.
pub proof fn lemma_names_unique_4(fields: Seq<FieldModel>)
    requires
        fields.len() == 4,
        fields[0].name != fields[1].name,
        fields[0].name != fields[2].name,
        fields[0].name != fields[3].name,
        fields[1].name != fields[2].name,
        fields[1].name != fields[3].name,
        fields[2].name != fields[3].name,
    ensures
        spec_names_unique(fields),
{
    assert forall|i: int, j: int| 0 <= i < j < fields.len() implies fields[i].name
        != fields[j].name by {
        assert(i == 0 || i == 1 || i == 2);
        assert(j == 1 || j == 2 || j == 3);
    }
}

/// Pairwise-distinct names of a five-field record are unique.
pub proof fn lemma_names_unique_5(fields: Seq<FieldModel>)
    requires
        fields.len() == 5,
        fields[0].name != fields[1].name,
        fields[0].name != fields[2].name,
        fields[0].name != fields[3].name,
        fields[0].name != fields[4].name,
        fields[1].name != fields[2].name,
        fields[1].name != fields[3].name,
        fields[1].name != fields[4].name,
        fields[2].name != fields[3].name,
        fields[2].name != fields[4].name,
        fields[3].name != fields[4].name,
    ensures
        spec_names_unique(fields),
{
    assert forall|i: int, j: int| 0 <= i < j < fields.len() implies fields[i].name
        != fields[j].name by {
        assert(i == 0 || i == 1 || i == 2 || i == 3);
        assert(j == 1 || j == 2 || j == 3 || j == 4);
    }
}

/// Pairwise-distinct names of an eight-field record are unique.
pub proof fn lemma_names_unique_8(fields: Seq<FieldModel>)
    requires
        fields.len() == 8,
        fields[0].name != fields[1].name,
        fields[0].name != fields[2].name,
        fields[0].name != fields[3].name,
        fields[0].name != fields[4].name,
        fields[0].name != fields[5].name,
        fields[0].name != fields[6].name,
        fields[0].name != fields[7].name,
        fields[1].name != fields[2].name,
        fields[1].name != fields[3].name,
        fields[1].name != fields[4].name,
        fields[1].name != fields[5].name,
        fields[1].name != fields[6].name,
        fields[1].name != fields[7].name,
        fields[2].name != fields[3].name,
        fields[2].name != fields[4].name,
        fields[2].name != fields[5].name,
        fields[2].name != fields[6].name,
        fields[2].name != fields[7].name,
        fields[3].name != fields[4].name,
        fields[3].name != fields[5].name,
        fields[3].name != fields[6].name,
        fields[3].name != fields[7].name,
        fields[4].name != fields[5].name,
        fields[4].name != fields[6].name,
        fields[4].name != fields[7].name,
        fields[5].name != fields[6].name,
        fields[5].name != fields[7].name,
        fields[6].name != fields[7].name,
    ensures
        spec_names_unique(fields),
{
    assert forall|i: int, j: int| 0 <= i < j < fields.len() implies fields[i].name
        != fields[j].name by {
        assert(i == 0 || i == 1 || i == 2 || i == 3 || i == 4 || i == 5 || i == 6);
        assert(j == 1 || j == 2 || j == 3 || j == 4 || j == 5 || j == 6 || j == 7);
    }
}

/// A name whose first occurrence stands at position `k` is found there.
pub proof fn lemma_field_index_at(fields: Seq<FieldModel>, k: int, n: Seq<char>)
    requires
        0 <= k < fields.len(),
        fields[k].name == n,
        forall|j: int| 0 <= j < k ==> fields[j].name != n,
    ensures
        spec_field_index(fields, n) == k,
    decreases k,
{
    if k == 0 {
    } else {
        assert(fields.drop_first()[k - 1] == fields[k]);
        assert forall|j: int| 0 <= j < k - 1 implies fields.drop_first()[j].name != n by {
            assert(fields.drop_first()[j] == fields[j + 1]);
        }
        lemma_field_index_at(fields.drop_first(), k - 1, n);
    }
}

/// A well-formed UTF-8 column with at least one string lets its first
/// string be read, and that string is the column's first entry.
pub proof fn lemma_utf8_first_of_wf(c: ColumnData)
    requires
        c.wf(),
        c.spec_col_type() == ColumnType::Utf8,
        c.spec_utf8_count() >= 1,
    ensures
        c.utf8_first_delimited(),
        vstd::utf8::valid_utf8(c.utf8_first_slice()),
        c@ matches ColumnModel::Utf8(strs) && vstd::utf8::decode_utf8(c.utf8_first_slice())
            == strs[0],
{
    match c {
        ColumnData::Utf8 { bytes, offsets } => {
            assert(offsets@[1] <= offsets@[offsets@.len() - 1]);
            assert(c.utf8_first_slice() == bytes@.subrange(
                offsets@[0] as int,
                offsets@[1] as int,
            ));
            assert(vstd::utf8::valid_utf8(
                bytes@.subrange(offsets@[0] as int, offsets@[1] as int),
            ));
            assert(c.spec_utf8_string(0) == vstd::utf8::decode_utf8(c.utf8_first_slice()));
        },
        _ => {},
    }
}

/// A column's model carries the same type tag as the column itself.
pub proof fn lemma_col_type_view(c: ColumnData)
    ensures
        c@.col_type() == c.spec_col_type(),
{
}

/// Slot consumption: once a field of a record with unique names has
/// been extracted, so that its slot was removed from the
/// decomposition, looking the name up again finds nothing; a second
/// owned extraction therefore reports the field missing.
pub proof fn lemma_slot_consumed(fields: Seq<FieldModel>, name: Seq<char>)
    requires
        spec_names_unique(fields),
        spec_has_field(fields, name),
    ensures
        !spec_has_field(fields.remove(spec_field_index(fields, name)), name),
{
    lemma_field_index_bounds(fields, name);
    let i = spec_field_index(fields, name);
    let rem = fields.remove(i);
    if spec_has_field(rem, name) {
        lemma_field_index_bounds(rem, name);
        let k = spec_field_index(rem, name);
        if k < i {
            assert(rem[k] == fields[k]);
            assert(fields[k].name == fields[i].name);
        } else {
            assert(rem[k] == fields[k + 1]);
            assert(fields[i].name == fields[k + 1].name);
        }
    }
}

/// Removing a field of another name leaves a name's lookup untouched.
pub proof fn lemma_field_index_remove(fields: Seq<FieldModel>, i: int, n: Seq<char>)
    requires
        0 <= i < fields.len(),
        fields[i].name != n,
    ensures
        spec_has_field(fields.remove(i), n) == spec_has_field(fields, n),
        spec_has_field(fields, n) ==> fields.remove(i)[spec_field_index(fields.remove(i), n)]
            == fields[spec_field_index(fields, n)],
    decreases fields.len(),
{
    lemma_field_index_bounds(fields, n);
    lemma_field_index_bounds(fields.remove(i), n);
    if i == 0 {
        assert(fields.remove(0) =~= fields.drop_first());
    } else {
        if fields[0].name == n {
            assert(fields.remove(i)[0] == fields[0]);
        } else {
            assert(fields.remove(i).drop_first() =~= fields.drop_first().remove(i - 1));
            lemma_field_index_remove(fields.drop_first(), i - 1, n);
            lemma_field_index_bounds(fields.drop_first(), n);
            lemma_field_index_bounds(fields.drop_first().remove(i - 1), n);
            assert(fields.remove(i)[0] == fields[0]);
        }
    }
}

/// The position of the first field of `fields` named `name`.
pub(crate) fn find_field(fields: &Vec<WireField>, name: &String) -> (r: Option<usize>)
    ensures
        match r {
            Some(i) => {
                &&& 0 <= i < fields@.len()
                &&& i as int == spec_field_index(fields.deep_view(), name@)
            },
            None => spec_field_index(fields.deep_view(), name@) == -1,
        },
{
    let ghost model = fields.deep_view();
    proof {
        lemma_field_index_from_zero(model, name@);
    }
    let n = fields.len();
    for i in 0..n
        invariant
            n == fields@.len(),
            model == fields.deep_view(),
            spec_field_index_from(model, name@, i as int) == spec_field_index(model, name@),
    {
        proof {
            lemma_field_index_step(model, name@, i as int);
        }
        if fields[i].name == *name {
            return Some(i);
        }
    }
    proof {
        lemma_field_index_none(model, name@, n as int);
    }
    None
}

/// Helper for reasoning about a linear search from position `i` on.
pub open spec fn spec_field_index_from(fields: Seq<FieldModel>, name: Seq<char>, i: int) -> int
    decreases fields.len() - i,
{
    if i < 0 || i >= fields.len() {
        -1
    } else if fields[i].name == name {
        i
    } else {
        spec_field_index_from(fields, name, i + 1)
    }
}

proof fn lemma_field_index_from_zero(fields: Seq<FieldModel>, name: Seq<char>)
    ensures
        spec_field_index(fields, name) == spec_field_index_from(fields, name, 0),
    decreases fields.len(),
{
    if fields.len() == 0 {
    } else if fields[0].name == name {
    } else {
        lemma_field_index_from_zero(fields.drop_first(), name);
        lemma_field_index_from_shift(fields, name);
    }
}

proof fn lemma_field_index_from_shift(fields: Seq<FieldModel>, name: Seq<char>)
    requires
        fields.len() > 0,
        fields[0].name != name,
    ensures
        ({
            let rest = spec_field_index_from(fields.drop_first(), name, 0);
            spec_field_index_from(fields, name, 1) == if rest == -1 {
                -1
            } else {
                rest + 1
            }
        }),
    decreases fields.len(),
{
    lemma_field_index_from_shift_general(fields, name, 1);
}

proof fn lemma_field_index_from_shift_general(fields: Seq<FieldModel>, name: Seq<char>, i: int)
    requires
        fields.len() > 0,
        1 <= i,
    ensures
        ({
            let rest = spec_field_index_from(fields.drop_first(), name, i - 1);
            spec_field_index_from(fields, name, i) == if rest == -1 {
                -1
            } else {
                rest + 1
            }
        }),
    decreases fields.len() - i,
{
    if i >= fields.len() {
    } else {
        assert(fields.drop_first()[i - 1] == fields[i]);
        if fields[i].name == name {
        } else {
            lemma_field_index_from_shift_general(fields, name, i + 1);
        }
    }
}

proof fn lemma_field_index_step(fields: Seq<FieldModel>, name: Seq<char>, i: int)
    requires
        0 <= i < fields.len(),
    ensures
        fields[i].name == name ==> spec_field_index_from(fields, name, i) == i,
        fields[i].name != name ==> spec_field_index_from(fields, name, i)
            == spec_field_index_from(fields, name, i + 1),
{
}

proof fn lemma_field_index_none(fields: Seq<FieldModel>, name: Seq<char>, n: int)
    requires
        n == fields.len(),
    ensures
        spec_field_index_from(fields, name, n) == -1,
{
}

/// Ties the search helper to the recursive definition, for callers of
/// [`find_field`].
pub proof fn lemma_field_index_bounds(fields: Seq<FieldModel>, name: Seq<char>)
    ensures
        -1 <= spec_field_index(fields, name) < fields.len(),
        spec_has_field(fields, name) ==> fields[spec_field_index(fields, name)].name == name,
    decreases fields.len(),
{
    if fields.len() == 0 {
    } else {
        lemma_field_index_bounds(fields.drop_first(), name);
    }
}

/// How appending a field changes name lookup: an earlier slot of the
/// same name still wins; a fresh name is found at the end; other
/// names are unaffected.
pub proof fn lemma_field_index_push(fields: Seq<FieldModel>, f: FieldModel, n: Seq<char>)
    ensures
        spec_has_field(fields, n) ==> spec_field_index(fields.push(f), n) == spec_field_index(
            fields,
            n,
        ),
        !spec_has_field(fields, n) && f.name == n ==> spec_field_index(fields.push(f), n)
            == fields.len(),
        !spec_has_field(fields, n) && f.name != n ==> spec_field_index(fields.push(f), n) == -1,
    decreases fields.len(),
{
    if fields.len() == 0 {
        assert(fields.push(f).drop_first() =~= Seq::<FieldModel>::empty());
        assert(spec_field_index(Seq::<FieldModel>::empty(), n) == -1);
    } else {
        assert(fields.push(f).drop_first() =~= fields.drop_first().push(f));
        lemma_field_index_push(fields.drop_first(), f, n);
        if fields[0].name != n {
            lemma_field_index_bounds(fields.drop_first(), n);
            lemma_field_index_bounds(fields.drop_first().push(f), n);
            let rest = spec_field_index(fields.drop_first(), n);
            let rest_push = spec_field_index(fields.drop_first().push(f), n);
            assert(spec_field_index(fields, n) == if rest == -1 { -1 } else { rest + 1 });
            assert(fields.push(f)[0] == fields[0]);
            assert(spec_field_index(fields.push(f), n) == if rest_push == -1 { -1 } else {
                rest_push + 1
            });
        }
    }
}

/// The position of the first field whose name repeats an earlier
/// field's name, if any; `None` means all names are distinct.
pub(crate) fn find_duplicate(fields: &Vec<WireField>) -> (r: Option<usize>)
    ensures
        match r {
            Some(i) => 0 <= i < fields.deep_view().len() && exists|j: int|
                #![trigger fields.deep_view()[j]]
                0 <= j < i && fields.deep_view()[j].name == fields.deep_view()[i as int].name,
            None => spec_names_unique(fields.deep_view()),
        },
{
    let ghost model = fields.deep_view();
    let n = fields.len();
    for i in 0..n
        invariant
            n == fields@.len(),
            model == fields.deep_view(),
            forall|a: int, b: int| 0 <= a < b < i ==> model[a].name != model[b].name,
    {
        for j in 0..i
            invariant
                i < n == fields@.len(),
                model == fields.deep_view(),
                forall|a: int, b: int| 0 <= a < b < i ==> model[a].name != model[b].name,
                forall|a: int| 0 <= a < j ==> model[a].name != model[i as int].name,
        {
            if fields[j].name == fields[i].name {
                proof {
                    let ghost a = j as int;
                    assert(0 <= a < i && model[a].name == model[i as int].name);
                }
                return Some(i);
            }
        }
    }
    None
}

/// Copies the byte range `[a, b)` out of a vector.
pub(crate) fn bytes_range(v: &Vec<u8>, a: usize, b: usize) -> (r: Vec<u8>)
    requires
        a <= b <= v@.len(),
    ensures
        r@ == v@.subrange(a as int, b as int),
{
    let mut out: Vec<u8> = Vec::new();
    for k in a..b
        invariant
            a <= k <= b <= v@.len(),
            out@ == v@.subrange(a as int, k as int),
    {
        out.push(v[k]);
        proof {
            assert(out@ =~= v@.subrange(a as int, k + 1 as int));
        }
    }
    out
}

/// Relies on `String::from_utf8`: succeeds exactly on valid UTF-8
/// input, and then returns the string those bytes encode.
#[verifier::external_body]
pub(crate) fn string_from_utf8(bytes: Vec<u8>) -> (r: Option<String>)
    ensures
        match r {
            Some(s) => vstd::utf8::valid_utf8(bytes@) && s@ == vstd::utf8::decode_utf8(bytes@),
            None => !vstd::utf8::valid_utf8(bytes@),
        },
{
    String::from_utf8(bytes).ok()
}

} // verus!

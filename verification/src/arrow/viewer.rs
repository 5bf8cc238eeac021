use vstd::prelude::*;

use crate::arrow::{
    ArrowData, ColumnData, ColumnModel, ColumnType, Element, FieldModel,
    WireField, bytes_range, find_duplicate, find_field, spec_field,
    spec_field_index, spec_has_field, spec_names_unique, string_from_utf8,
};
use crate::buffer::Buffer;
use crate::arrow::utf8col::{Utf8ColumnFault, decode_utf8_strings};
use crate::error::Error;
use vstd::string::StringExecFns;

verus! {

/// Decomposes a wire record and exposes each field as a zero-copy
/// shared view, never claiming exclusive ownership. Fields meant for
/// bulk access are registered first with `load_primitive` or
/// `load_utf8`, which moves them from the decomposition into the
/// loaded set; singleton reads go straight to the decomposition.
#[derive(Debug)]
pub struct ArrowDataViewer {
    pub array_data: Vec<WireField>,
    pub buffers: Vec<WireField>,
}

impl ArrowDataViewer {
    /// The still-unloaded fields.
    pub open spec fn unloaded(&self) -> Seq<FieldModel> {
        self.array_data.deep_view()
    }

    /// The loaded fields.
    pub open spec fn loaded(&self) -> Seq<FieldModel> {
        self.buffers.deep_view()
    }

    /// The unloaded column currently stored under `name`.
    pub open spec fn spec_col(&self, name: Seq<char>) -> ColumnData {
        self.array_data@[spec_field_index(self.unloaded(), name)].column
    }

    /// The loaded column currently stored under `name`.
    pub open spec fn spec_loaded_col(&self, name: Seq<char>) -> ColumnData {
        self.buffers@[spec_field_index(self.loaded(), name)].column
    }

    /// Decomposes a record into its named slots. Fails exactly when
    /// the record's union tagging is malformed: two slots share a name.
    pub fn new(data: ArrowData) -> (r: Result<ArrowDataViewer, Error>)
        ensures
            r matches Ok(_) <==> spec_names_unique(data@),
            match r {
                Ok(v) => v.array_data@ == data.fields@ && v.loaded() == Seq::<FieldModel>::empty(),
                Err(e) => e == Error::MalformedRecord,
            },
    {
        match find_duplicate(&data.fields) {
            Some(_) => Err(Error::MalformedRecord),
            None => {
                let v = ArrowDataViewer { array_data: data.fields, buffers: Vec::new() };
                proof {
                    assert(v.loaded() =~= Seq::<FieldModel>::empty());
                }
                Ok(v)
            },
        }
    }

    /// What loading a column of type `t` does: already-loaded fields
    /// are left alone (loading is idempotent), an unloaded field of
    /// the right type moves into the loaded set, and anything else is
    /// an error.
    pub open spec fn load_ok(&self, name: Seq<char>, t: ColumnType, v: &Self) -> bool {
        if spec_has_field(self.loaded(), name) {
            &&& spec_field(self.loaded(), name).col_type() == t
            &&& v == self
        } else {
            &&& spec_has_field(self.unloaded(), name)
            &&& spec_field(self.unloaded(), name).col_type() == t
            &&& v.unloaded() == self.unloaded().remove(spec_field_index(self.unloaded(), name))
            &&& v.loaded() == self.loaded().push(
                FieldModel { name, column: spec_field(self.unloaded(), name) },
            )
            &&& spec_has_field(v.loaded(), name)
            &&& spec_field(v.loaded(), name) == spec_field(self.unloaded(), name)
        }
    }

    /// The column the named field holds, wherever it currently is:
    /// the loaded set shadows the unloaded one.
    pub open spec fn load_source(&self, name: Seq<char>) -> ColumnModel {
        if spec_has_field(self.loaded(), name) {
            spec_field(self.loaded(), name)
        } else {
            spec_field(self.unloaded(), name)
        }
    }

    /// Registers the named primitive field for borrowed access, moving
    /// it into the loaded set. Loading is idempotent; it fails exactly
    /// when the field is nowhere to be found or holds another type.
    pub fn load_primitive<T: Element>(self, field: &str) -> (r: Result<ArrowDataViewer, Error>)
        ensures
            match r {
                Ok(v) => self.load_ok(field@, T::elem_type(), &v),
                Err(Error::FieldMissing(n)) => {
                    &&& n@ == field@
                    &&& !spec_has_field(self.loaded(), field@)
                    &&& !spec_has_field(self.unloaded(), field@)
                },
                Err(Error::TypeMismatch { field: n, expected, actual }) => {
                    &&& n@ == field@
                    &&& spec_has_field(self.loaded(), field@) || spec_has_field(
                        self.unloaded(),
                        field@,
                    )
                    &&& expected == T::elem_type()
                    &&& actual == self.load_source(field@).col_type()
                    &&& actual != expected
                },
                Err(_) => false,
            },
    {
        self.load_field(field, T::elem_type_exec())
    }

    /// Registers the named UTF-8 field for borrowed access, moving it
    /// into the loaded set. Loading is idempotent; it fails exactly
    /// when the field is nowhere to be found or holds another type.
    pub fn load_utf8(self, field: &str) -> (r: Result<ArrowDataViewer, Error>)
        ensures
            match r {
                Ok(v) => self.load_ok(field@, ColumnType::Utf8, &v),
                Err(Error::FieldMissing(n)) => {
                    &&& n@ == field@
                    &&& !spec_has_field(self.loaded(), field@)
                    &&& !spec_has_field(self.unloaded(), field@)
                },
                Err(Error::TypeMismatch { field: n, expected, actual }) => {
                    &&& n@ == field@
                    &&& spec_has_field(self.loaded(), field@) || spec_has_field(
                        self.unloaded(),
                        field@,
                    )
                    &&& expected == ColumnType::Utf8
                    &&& actual == self.load_source(field@).col_type()
                    &&& actual != expected
                },
                Err(_) => false,
            },
    {
        self.load_field(field, ColumnType::Utf8)
    }

    /// The shared body of `load_primitive` and `load_utf8`.
    fn load_field(self, field: &str, expected: ColumnType) -> (r: Result<ArrowDataViewer, Error>)
        ensures
            match r {
                Ok(v) => self.load_ok(field@, expected, &v),
                Err(Error::FieldMissing(n)) => {
                    &&& n@ == field@
                    &&& !spec_has_field(self.loaded(), field@)
                    &&& !spec_has_field(self.unloaded(), field@)
                },
                Err(Error::TypeMismatch { field: n, expected: e, actual }) => {
                    &&& n@ == field@
                    &&& spec_has_field(self.loaded(), field@) || spec_has_field(
                        self.unloaded(),
                        field@,
                    )
                    &&& e == expected
                    &&& actual == self.load_source(field@).col_type()
                    &&& actual != expected
                },
                Err(_) => false,
            },
    {
        let ghost old_unloaded = self.unloaded();
        let ghost old_loaded = self.loaded();
        let name = String::from_str(field);
        if let Some(i) = find_field(&self.buffers, &name) {
            let t = self.buffers[i].column.col_type();
            if t != expected {
                return Err(Error::TypeMismatch { field: name, expected, actual: t });
            }
            return Ok(self);
        }
        let mut array_data = self.array_data;
        let buffers = self.buffers;
        let idx = match find_field(&array_data, &name) {
            None => {
                return Err(Error::FieldMissing(name));
            },
            Some(i) => i,
        };
        let t = array_data[idx].column.col_type();
        if t != expected {
            return Err(Error::TypeMismatch { field: name, expected, actual: t });
        }
        let slot = array_data.remove(idx);
        let mut buffers = buffers;
        buffers.push(WireField { name, column: slot.column });
        let v = ArrowDataViewer { array_data, buffers };
        proof {
            assert(v.unloaded() =~= old_unloaded.remove(idx as int));
            assert(v.loaded() =~= old_loaded.push(
                FieldModel { name: field@, column: old_unloaded[idx as int].column },
            ));
            crate::arrow::lemma_field_index_push(
                old_loaded,
                FieldModel { name: field@, column: old_unloaded[idx as int].column },
                field@,
            );
        }
        Ok(v)
    }

    /// Hands out a zero-copy shared handle onto the named loaded
    /// primitive field's buffer. Never copies and never requires
    /// exclusivity, so sharing cannot make it fail; it succeeds
    /// exactly when the field was loaded with the right type, and may
    /// be called any number of times.
    pub fn primitive_array<T: Element>(&self, field: &str) -> (r: Result<Buffer<T>, Error>)
        ensures
            match r {
                Ok(b) => {
                    &&& spec_has_field(self.loaded(), field@)
                    &&& spec_field(self.loaded(), field@) == T::col_model(b@)
                    &&& !b.is_owned()
                },
                Err(Error::FieldMissing(n)) => n@ == field@ && !spec_has_field(
                    self.loaded(),
                    field@,
                ),
                Err(Error::TypeMismatch { field: n, expected, actual }) => {
                    &&& n@ == field@
                    &&& spec_has_field(self.loaded(), field@)
                    &&& expected == T::elem_type()
                    &&& actual == spec_field(self.loaded(), field@).col_type()
                    &&& actual != expected
                },
                Err(_) => false,
            },
    {
        let name = String::from_str(field);
        let idx = match find_field(&self.buffers, &name) {
            None => {
                return Err(Error::FieldMissing(name));
            },
            Some(i) => i,
        };
        match T::share_column(&self.buffers[idx].column) {
            Ok(rc) => Ok(Buffer::from_rc(rc)),
            Err(crate::arrow::ColumnError::WrongType(t)) => Err(
                Error::TypeMismatch { field: name, expected: T::elem_type_exec(), actual: t },
            ),
            Err(_) => Err(Error::FieldMissing(name)),
        }
    }

    /// Reads the first value of the named unloaded primitive field.
    pub fn primitive_singleton<T: Element>(&self, field: &str) -> (r: Result<T, Error>)
        ensures
            match r {
                Ok(x) => {
                    &&& spec_has_field(self.unloaded(), field@)
                    &&& spec_field(self.unloaded(), field@).col_type() == T::elem_type()
                    &&& T::seq_of(spec_field(self.unloaded(), field@)).len() >= 1
                    &&& x == T::seq_of(spec_field(self.unloaded(), field@))[0]
                },
                Err(Error::FieldMissing(n)) => n@ == field@ && !spec_has_field(
                    self.unloaded(),
                    field@,
                ),
                Err(Error::TypeMismatch { field: n, expected, actual }) => {
                    &&& n@ == field@
                    &&& spec_has_field(self.unloaded(), field@)
                    &&& expected == T::elem_type()
                    &&& actual == spec_field(self.unloaded(), field@).col_type()
                    &&& actual != expected
                },
                Err(Error::MalformedRecord) => {
                    &&& spec_has_field(self.unloaded(), field@)
                    &&& spec_field(self.unloaded(), field@).col_type() == T::elem_type()
                    &&& T::seq_of(spec_field(self.unloaded(), field@)).len() == 0
                },
                Err(_) => false,
            },
    {
        let name = String::from_str(field);
        let idx = match find_field(&self.array_data, &name) {
            None => {
                return Err(Error::FieldMissing(name));
            },
            Some(i) => i,
        };
        match T::first_of_column(&self.array_data[idx].column) {
            Ok(x) => Ok(x),
            Err(crate::arrow::ColumnError::WrongType(t)) => Err(
                Error::TypeMismatch { field: name, expected: T::elem_type_exec(), actual: t },
            ),
            Err(_) => Err(Error::MalformedRecord),
        }
    }

    /// Reads the first string of the named unloaded UTF-8 field as an
    /// owned copy. A single short string is cheap to copy, so even the
    /// borrowed path returns it owned.
    pub fn utf8_singleton(&self, field: &str) -> (r: Result<String, Error>)
        ensures
            match r {
                Ok(s) => {
                    &&& spec_has_field(self.unloaded(), field@)
                    &&& self.spec_col(field@).utf8_first_delimited()
                    &&& vstd::utf8::valid_utf8(self.spec_col(field@).utf8_first_slice())
                    &&& s@ == vstd::utf8::decode_utf8(self.spec_col(field@).utf8_first_slice())
                },
                Err(Error::FieldMissing(n)) => n@ == field@ && !spec_has_field(
                    self.unloaded(),
                    field@,
                ),
                Err(Error::TypeMismatch { field: n, expected, actual }) => {
                    &&& n@ == field@
                    &&& spec_has_field(self.unloaded(), field@)
                    &&& expected == ColumnType::Utf8
                    &&& actual == self.spec_col(field@).spec_col_type()
                    &&& actual != expected
                },
                Err(Error::MalformedOffsets(n)) => {
                    &&& n@ == field@
                    &&& spec_has_field(self.unloaded(), field@)
                    &&& self.spec_col(field@).spec_col_type() == ColumnType::Utf8
                    &&& !self.spec_col(field@).utf8_first_delimited()
                },
                Err(Error::InvalidUtf8(n)) => {
                    &&& n@ == field@
                    &&& spec_has_field(self.unloaded(), field@)
                    &&& self.spec_col(field@).utf8_first_delimited()
                    &&& !vstd::utf8::valid_utf8(self.spec_col(field@).utf8_first_slice())
                },
                Err(_) => false,
            },
    {
        let name = String::from_str(field);
        let idx = match find_field(&self.array_data, &name) {
            None => {
                return Err(Error::FieldMissing(name));
            },
            Some(i) => i,
        };
        let (bytes, offsets) = match &self.array_data[idx].column {
            ColumnData::Utf8 { bytes, offsets } => (bytes, offsets),
            other => {
                return Err(
                    Error::TypeMismatch {
                        field: name,
                        expected: ColumnType::Utf8,
                        actual: other.col_type(),
                    },
                );
            },
        };
        let ob: &Vec<usize> = &**offsets;
        let bv: &Vec<u8> = &**bytes;
        if ob.len() < 2 || ob[0] != 0 || ob[1] > bv.len() {
            return Err(Error::MalformedOffsets(name));
        }
        let chunk = bytes_range(bv, 0, ob[1]);
        match string_from_utf8(chunk) {
            Some(s) => Ok(s),
            None => Err(Error::InvalidUtf8(name)),
        }
    }

    /// Returns the named loaded UTF-8 field's strings as owned copies.
    /// String boundaries leave no zero-copy representation, so this
    /// borrowed path deliberately allocates the same owned strings the
    /// owned extractor would; unlike that path it leaves the loaded
    /// field in place and may be called again.
    pub fn utf8_array(&self, field: &str) -> (r: Result<Vec<String>, Error>)
        ensures
            match r {
                Ok(v) => {
                    &&& spec_has_field(self.loaded(), field@)
                    &&& self.spec_loaded_col(field@).wf()
                    &&& spec_field(self.loaded(), field@) == ColumnModel::Utf8(v.deep_view())
                },
                Err(Error::FieldMissing(n)) => {
                    &&& n@ == field@
                    &&& !spec_has_field(self.loaded(), field@)
                },
                Err(Error::TypeMismatch { field: n, expected, actual }) => {
                    &&& n@ == field@
                    &&& spec_has_field(self.loaded(), field@)
                    &&& expected == ColumnType::Utf8
                    &&& actual == self.spec_loaded_col(field@).spec_col_type()
                    &&& actual != expected
                },
                Err(Error::MalformedOffsets(n)) => {
                    &&& n@ == field@
                    &&& spec_has_field(self.loaded(), field@)
                    &&& self.spec_loaded_col(field@).spec_col_type() == ColumnType::Utf8
                    &&& !self.spec_loaded_col(field@).utf8_offsets_ok()
                },
                Err(Error::InvalidUtf8(n)) => {
                    &&& n@ == field@
                    &&& spec_has_field(self.loaded(), field@)
                    &&& self.spec_loaded_col(field@).utf8_offsets_ok()
                    &&& !self.spec_loaded_col(field@).utf8_all_valid()
                },
                Err(_) => false,
            },
    {
        let name = String::from_str(field);
        let idx = match find_field(&self.buffers, &name) {
            None => {
                return Err(Error::FieldMissing(name));
            },
            Some(i) => i,
        };
        let ghost gcol = self.buffers@[idx as int].column;
        let (bytes, offsets) = match &self.buffers[idx].column {
            ColumnData::Utf8 { bytes, offsets } => (bytes, offsets),
            other => {
                return Err(
                    Error::TypeMismatch {
                        field: name,
                        expected: ColumnType::Utf8,
                        actual: other.col_type(),
                    },
                );
            },
        };
        let ob: &Vec<usize> = &**offsets;
        let bv: &Vec<u8> = &**bytes;
        match decode_utf8_strings(bv, ob) {
            Ok(out) => {
                proof {
                    assert(gcol.utf8_offsets_ok());
                    assert(gcol.utf8_all_valid());
                    assert(gcol@ matches ColumnModel::Utf8(strs) && out.deep_view() =~= strs);
                }
                Ok(out)
            },
            Err(Utf8ColumnFault::Offsets) => {
                proof {
                    assert(!gcol.utf8_offsets_ok());
                }
                Err(Error::MalformedOffsets(name))
            },
            Err(Utf8ColumnFault::Encoding) => {
                proof {
                    assert(gcol.utf8_offsets_ok());
                    assert(!gcol.utf8_all_valid());
                }
                Err(Error::InvalidUtf8(name))
            },
        }
    }
}

/// Ties a viewer's unloaded named column to its slot-list view, for
/// contracts that speak of both.
pub proof fn lemma_unloaded_col_view(v: &ArrowDataViewer, name: Seq<char>)
    requires
        spec_has_field(v.unloaded(), name),
    ensures
        v.spec_col(name)@ == spec_field(v.unloaded(), name),
        v.spec_col(name)@.col_type() == v.spec_col(name).spec_col_type(),
{
    crate::arrow::lemma_field_index_bounds(v.unloaded(), name);
    crate::arrow::lemma_col_type_view(v.spec_col(name));
}

/// Ties a viewer's loaded named column to its slot-list view.
pub proof fn lemma_loaded_col_view(v: &ArrowDataViewer, name: Seq<char>)
    requires
        spec_has_field(v.loaded(), name),
    ensures
        v.spec_loaded_col(name)@ == spec_field(v.loaded(), name),
        v.spec_loaded_col(name)@.col_type() == v.spec_loaded_col(name).spec_col_type(),
{
    crate::arrow::lemma_field_index_bounds(v.loaded(), name);
    crate::arrow::lemma_col_type_view(v.spec_loaded_col(name));
}

} // verus!
use vstd::prelude::*;

use crate::arrow::{
    ArrowData, ColumnData, ColumnModel, ColumnType, Element, FieldModel,
    WireField, bytes_range, find_duplicate, find_field, spec_field,
    spec_field_index, spec_has_field, spec_names_unique, string_from_utf8,
};
use crate::arrow::utf8col::{Utf8ColumnFault, decode_utf8_strings};
use crate::error::Error;
use vstd::string::StringExecFns;

verus! {

/// Decomposes a wire record and reclaims each field as an owned,
/// exclusively held value. Once a field has been extracted this way,
/// its slot is consumed: re-extracting it reports the field missing.
#[derive(Debug)]
pub struct ArrowDataConsumer {
    pub fields: Vec<WireField>,
}

impl View for ArrowDataConsumer {
    type V = Seq<FieldModel>;

    open spec fn view(&self) -> Seq<FieldModel> {
        self.fields.deep_view()
    }
}

impl ArrowDataConsumer {
    /// The column currently stored under `name`.
    pub open spec fn spec_col(&self, name: Seq<char>) -> ColumnData {
        self.fields@[spec_field_index(self@, name)].column
    }

    /// Decomposes a record into its named slots. Fails exactly when
    /// the record's union tagging is malformed: two slots share a name.
    pub fn new(data: ArrowData) -> (r: Result<ArrowDataConsumer, Error>)
        ensures
            r matches Ok(_) <==> spec_names_unique(data@),
            match r {
                Ok(c) => c.fields@ == data.fields@,
                Err(e) => e == Error::MalformedRecord,
            },
    {
        match find_duplicate(&data.fields) {
            Some(_) => Err(Error::MalformedRecord),
            None => Ok(ArrowDataConsumer { fields: data.fields }),
        }
    }

    /// Reads the first value of the named primitive field, leaving the
    /// slot in place. Succeeds exactly when the field is present, holds
    /// values of type `T`, and is not empty.
    pub fn primitive_singleton<T: Element>(&self, field: &str) -> (r: Result<T, Error>)
        ensures
            match r {
                Ok(x) => {
                    &&& spec_has_field(self@, field@)
                    &&& spec_field(self@, field@).col_type() == T::elem_type()
                    &&& T::seq_of(spec_field(self@, field@)).len() >= 1
                    &&& x == T::seq_of(spec_field(self@, field@))[0]
                },
                Err(Error::FieldMissing(n)) => n@ == field@ && !spec_has_field(self@, field@),
                Err(Error::TypeMismatch { field: n, expected, actual }) => {
                    &&& n@ == field@
                    &&& spec_has_field(self@, field@)
                    &&& expected == T::elem_type()
                    &&& actual == spec_field(self@, field@).col_type()
                    &&& actual != expected
                },
                Err(Error::MalformedRecord) => {
                    &&& spec_has_field(self@, field@)
                    &&& spec_field(self@, field@).col_type() == T::elem_type()
                    &&& T::seq_of(spec_field(self@, field@)).len() == 0
                },
                Err(_) => false,
            },
    {
        let name = String::from_str(field);
        let idx = match find_field(&self.fields, &name) {
            None => {
                return Err(Error::FieldMissing(name));
            },
            Some(i) => i,
        };
        match T::first_of_column(&self.fields[idx].column) {
            Ok(x) => Ok(x),
            Err(crate::arrow::ColumnError::WrongType(t)) => Err(
                Error::TypeMismatch { field: name, expected: T::elem_type_exec(), actual: t },
            ),
            Err(_) => Err(Error::MalformedRecord),
        }
    }

    /// Removes the named primitive field's slot and reclaims its buffer
    /// as an exclusively owned vector, without copying. The slot is
    /// consumed by the attempt. When another holder still aliases the
    /// buffer, the reclaim reports the buffer shared; viewing through
    /// `ArrowDataViewer` remains possible in that case.
    pub fn primitive_array<T: Element>(&mut self, field: &str) -> (r: Result<Vec<T>, Error>)
        ensures
            match r {
                Ok(v) => {
                    &&& spec_has_field(old(self)@, field@)
                    &&& spec_field(old(self)@, field@).col_type() == T::elem_type()
                    &&& spec_field(old(self)@, field@) == T::col_model(v@)
                    &&& final(self)@ == old(self)@.remove(
                        spec_field_index(old(self)@, field@),
                    )
                },
                Err(Error::FieldMissing(n)) => {
                    &&& n@ == field@
                    &&& !spec_has_field(old(self)@, field@)
                    &&& final(self)@ == old(self)@
                },
                Err(Error::TypeMismatch { field: n, expected, actual }) => {
                    &&& n@ == field@
                    &&& spec_has_field(old(self)@, field@)
                    &&& expected == T::elem_type()
                    &&& actual == spec_field(old(self)@, field@).col_type()
                    &&& actual != expected
                    &&& final(self)@ == old(self)@.remove(
                        spec_field_index(old(self)@, field@),
                    )
                },
                Err(Error::BufferShared(n)) => {
                    &&& n@ == field@
                    &&& spec_has_field(old(self)@, field@)
                    &&& spec_field(old(self)@, field@).col_type() == T::elem_type()
                    &&& final(self)@ == old(self)@.remove(
                        spec_field_index(old(self)@, field@),
                    )
                },
                Err(_) => false,
            },
    {
        let ghost old_model = self.fields.deep_view();
        let name = String::from_str(field);
        let idx = match find_field(&self.fields, &name) {
            None => {
                return Err(Error::FieldMissing(name));
            },
            Some(i) => i,
        };
        let slot = self.fields.remove(idx);
        proof {
            assert(self.fields.deep_view() =~= old_model.remove(idx as int));
        }
        match T::from_column(slot.column) {
            Ok(v) => Ok(v),
            Err(crate::arrow::ColumnError::WrongType(t)) => Err(
                Error::TypeMismatch { field: name, expected: T::elem_type_exec(), actual: t },
            ),
            Err(_) => Err(Error::BufferShared(name)),
        }
    }

    /// Reads the first string of the named UTF-8 field as an owned
    /// copy, leaving the slot in place. Succeeds exactly when the
    /// field is present, holds UTF-8 data, its first string is
    /// delimited by sane offsets, and that slice is valid UTF-8.
    pub fn utf8_singleton(&self, field: &str) -> (r: Result<String, Error>)
        ensures
            match r {
                Ok(s) => {
                    &&& spec_has_field(self@, field@)
                    &&& self.spec_col(field@).utf8_first_delimited()
                    &&& vstd::utf8::valid_utf8(self.spec_col(field@).utf8_first_slice())
                    &&& s@ == vstd::utf8::decode_utf8(self.spec_col(field@).utf8_first_slice())
                },
                Err(Error::FieldMissing(n)) => n@ == field@ && !spec_has_field(self@, field@),
                Err(Error::TypeMismatch { field: n, expected, actual }) => {
                    &&& n@ == field@
                    &&& spec_has_field(self@, field@)
                    &&& expected == ColumnType::Utf8
                    &&& actual == self.spec_col(field@).spec_col_type()
                    &&& actual != expected
                },
                Err(Error::MalformedOffsets(n)) => {
                    &&& n@ == field@
                    &&& spec_has_field(self@, field@)
                    &&& self.spec_col(field@).spec_col_type() == ColumnType::Utf8
                    &&& !self.spec_col(field@).utf8_first_delimited()
                },
                Err(Error::InvalidUtf8(n)) => {
                    &&& n@ == field@
                    &&& spec_has_field(self@, field@)
                    &&& self.spec_col(field@).utf8_first_delimited()
                    &&& !vstd::utf8::valid_utf8(self.spec_col(field@).utf8_first_slice())
                },
                Err(_) => false,
            },
    {
        let name = String::from_str(field);
        let idx = match find_field(&self.fields, &name) {
            None => {
                return Err(Error::FieldMissing(name));
            },
            Some(i) => i,
        };
        let (bytes, offsets) = match &self.fields[idx].column {
            ColumnData::Utf8 { bytes, offsets } => (bytes, offsets),
            other => {
                return Err(
                    Error::TypeMismatch {
                        field: name,
                        expected: ColumnType::Utf8,
                        actual: other.col_type(),
                    },
                );
            },
        };
        let ob: &Vec<usize> = &**offsets;
        let bv: &Vec<u8> = &**bytes;
        if ob.len() < 2 || ob[0] != 0 || ob[1] > bv.len() {
            return Err(Error::MalformedOffsets(name));
        }
        let chunk = bytes_range(bv, 0, ob[1]);
        match string_from_utf8(chunk) {
            Some(s) => Ok(s),
            None => Err(Error::InvalidUtf8(name)),
        }
    }

    /// Removes the named UTF-8 field's slot and returns its strings as
    /// owned copies, slicing the byte buffer at the offset boundaries.
    /// The slot is consumed by the attempt. Succeeds exactly when the
    /// field is present, holds UTF-8 data, its offsets are well
    /// formed, and every delimited slice is valid UTF-8.
    #[verifier::loop_isolation(false)]
    #[verifier::rlimit(100)]
    pub fn utf8_array(&mut self, field: &str) -> (r: Result<Vec<String>, Error>)
        ensures
            match r {
                Ok(v) => {
                    &&& spec_has_field(old(self)@, field@)
                    &&& old(self).spec_col(field@).wf()
                    &&& spec_field(old(self)@, field@) == ColumnModel::Utf8(v.deep_view())
                    &&& final(self)@ == old(self)@.remove(
                        spec_field_index(old(self)@, field@),
                    )
                },
                Err(Error::FieldMissing(n)) => {
                    &&& n@ == field@
                    &&& !spec_has_field(old(self)@, field@)
                    &&& final(self)@ == old(self)@
                },
                Err(Error::TypeMismatch { field: n, expected, actual }) => {
                    &&& n@ == field@
                    &&& spec_has_field(old(self)@, field@)
                    &&& expected == ColumnType::Utf8
                    &&& actual == old(self).spec_col(field@).spec_col_type()
                    &&& actual != expected
                    &&& final(self)@ == old(self)@.remove(
                        spec_field_index(old(self)@, field@),
                    )
                },
                Err(Error::MalformedOffsets(n)) => {
                    &&& n@ == field@
                    &&& spec_has_field(old(self)@, field@)
                    &&& old(self).spec_col(field@).spec_col_type() == ColumnType::Utf8
                    &&& !old(self).spec_col(field@).utf8_offsets_ok()
                    &&& final(self)@ == old(self)@.remove(
                        spec_field_index(old(self)@, field@),
                    )
                },
                Err(Error::InvalidUtf8(n)) => {
                    &&& n@ == field@
                    &&& spec_has_field(old(self)@, field@)
                    &&& old(self).spec_col(field@).utf8_offsets_ok()
                    &&& !old(self).spec_col(field@).utf8_all_valid()
                    &&& final(self)@ == old(self)@.remove(
                        spec_field_index(old(self)@, field@),
                    )
                },
                Err(_) => false,
            },
    {
        let ghost old_model = self.fields.deep_view();
        let name = String::from_str(field);
        let idx = match find_field(&self.fields, &name) {
            None => {
                return Err(Error::FieldMissing(name));
            },
            Some(i) => i,
        };
        let slot = self.fields.remove(idx);
        proof {
            assert(self.fields.deep_view() =~= old_model.remove(idx as int));
        }
        let ghost gcol = slot.column;
        let (bytes, offsets) = match slot.column {
            ColumnData::Utf8 { bytes, offsets } => (bytes, offsets),
            other => {
                return Err(
                    Error::TypeMismatch {
                        field: name,
                        expected: ColumnType::Utf8,
                        actual: other.col_type(),
                    },
                );
            },
        };
        let ob: &Vec<usize> = &*offsets;
        let bv: &Vec<u8> = &*bytes;
        match decode_utf8_strings(bv, ob) {
            Ok(out) => {
                proof {
                    assert(gcol.utf8_offsets_ok());
                    assert(gcol.utf8_all_valid());
                    assert(gcol@ matches ColumnModel::Utf8(strs) && out.deep_view() =~= strs);
                }
                Ok(out)
            },
            Err(Utf8ColumnFault::Offsets) => {
                proof {
                    assert(!gcol.utf8_offsets_ok());
                }
                Err(Error::MalformedOffsets(name))
            },
            Err(Utf8ColumnFault::Encoding) => {
                proof {
                    assert(gcol.utf8_offsets_ok());
                    assert(!gcol.utf8_all_valid());
                }
                Err(Error::InvalidUtf8(name))
            },
        }
    }
}

} // verus!

use vstd::prelude::*;

use crate::arrow::{
    ArrowData, ColumnData, ColumnModel, Element, FieldModel, WireField, spec_names_unique,
};
use crate::error::Error;
use std::rc::Rc;
use vstd::string::{StrSliceExecFns, StringExecFns};
use vstd::utf8::{encode_utf8, encode_utf8_decode_utf8, encode_utf8_valid_utf8};

verus! {

/// Assembles owned values into a wire record, one named field at a
/// time, in schema order. The accumulated fields are its view.
#[derive(Debug)]
pub struct ArrowDataBuilder {
    pub fields: Vec<WireField>,
}

impl View for ArrowDataBuilder {
    type V = Seq<FieldModel>;

    open spec fn view(&self) -> Seq<FieldModel> {
        self.fields.deep_view()
    }
}

impl Default for ArrowDataBuilder {
    /// An empty accumulator.
    fn default() -> (r: Self)
        ensures
            r@ == Seq::<FieldModel>::empty(),
            r.cols_wf(),
    {
        ArrowDataBuilder { fields: Vec::new() }
    }
}

impl ArrowDataBuilder {
    /// Every accumulated column is well formed. Each push keeps this,
    /// starting from the empty accumulator.
    pub open spec fn cols_wf(&self) -> bool {
        forall|i: int|
            0 <= i < self.fields@.len() ==> (#[trigger] self.fields@[i]).column.wf()
    }

    /// An empty accumulator.
    pub fn new() -> (r: Self)
        ensures
            r@ == Seq::<FieldModel>::empty(),
            r.cols_wf(),
    {
        ArrowDataBuilder { fields: Vec::new() }
    }

    /// Appends a field holding exactly one primitive value.
    pub fn push_primitive_singleton<T: Element>(self, field: &str, value: T) -> (r: Self)
        ensures
            r@ == self@.push(FieldModel { name: field@, column: T::col_model(seq![value]) }),
            self.cols_wf() ==> r.cols_wf(),
    {
        let mut values: Vec<T> = Vec::new();
        values.push(value);
        proof {
            assert(values@ =~= seq![value]);
        }
        self.push_primitive_array(field, values)
    }

    /// Appends a field holding a flat buffer of primitive values,
    /// taking ownership of the vector without copying it.
    pub fn push_primitive_array<T: Element>(self, field: &str, value: Vec<T>) -> (r: Self)
        ensures
            r@ == self@.push(FieldModel { name: field@, column: T::col_model(value@) }),
            self.cols_wf() ==> r.cols_wf(),
    {
        let column = T::to_column(value);
        let mut fields = self.fields;
        fields.push(WireField { name: String::from_str(field), column });
        let r = ArrowDataBuilder { fields };
        proof {
            assert(r@ =~= self@.push(
                FieldModel { name: field@, column: T::col_model(value@) },
            ));
        }
        r
    }

    /// Appends a field holding exactly one UTF-8 string.
    pub fn push_utf8_singleton(self, field: &str, value: String) -> (r: Self)
        ensures
            r@ == self@.push(FieldModel { name: field@, column: ColumnModel::Utf8(seq![value@]) }),
            self.cols_wf() ==> r.cols_wf(),
    {
        let ghost value_chars = value@;
        let mut values: Vec<String> = Vec::new();
        values.push(value);
        proof {
            assert(values.deep_view() =~= seq![value_chars]);
        }
        self.push_utf8_array(field, values)
    }

    /// Appends a field holding a UTF-8 string array: the strings'
    /// bytes concatenated into one buffer, delimited by cumulative
    /// byte offsets starting at zero.
    pub fn push_utf8_array(self, field: &str, value: Vec<String>) -> (r: Self)
        ensures
            r@ == self@.push(
                FieldModel { name: field@, column: ColumnModel::Utf8(value.deep_view()) },
            ),
            self.cols_wf() ==> r.cols_wf(),
    {
        broadcast use encode_utf8_valid_utf8, encode_utf8_decode_utf8;

        let column = build_utf8_column(&value);
        let mut fields = self.fields;
        fields.push(WireField { name: String::from_str(field), column });
        let r = ArrowDataBuilder { fields };
        proof {
            assert(r@ =~= self@.push(
                FieldModel { name: field@, column: ColumnModel::Utf8(value.deep_view()) },
            ));
        }
        r
    }

    /// Publishes the accumulated fields as an immutable wire record.
    /// Fails exactly when two fields share a name; the columnar
    /// assembly itself cannot go wrong.
    pub fn build(self) -> (r: Result<ArrowData, Error>)
        ensures
            r matches Ok(_) <==> spec_names_unique(self@),
            match r {
                Ok(rec) => rec@ == self@ && (self.cols_wf() ==> rec.wf()),
                Err(e) => match e {
                    Error::DuplicateField(n) => exists|i: int, j: int|
                        #![trigger self@[i], self@[j]]
                        0 <= i < j < self@.len() && self@[i].name == self@[j].name
                            && self@[j].name == n@,
                    _ => false,
                },
            },
    {
        let ghost model = self@;
        let n = self.fields.len();
        for i in 0..n
            invariant
                n == self.fields@.len(),
                model == self@,
                forall|a: int, b: int| 0 <= a < b < i ==> model[a].name != model[b].name,
        {
            for j in 0..i
                invariant
                    i < n == self.fields@.len(),
                    model == self@,
                    forall|a: int, b: int| 0 <= a < b < i ==> model[a].name != model[b].name,
                    forall|a: int| 0 <= a < j ==> model[a].name != model[i as int].name,
            {
                if self.fields[j].name == self.fields[i].name {
                    let dup = self.fields[i].name.clone();
                    proof {
                        let ghost a = j as int;
                        let ghost b = i as int;
                        assert(0 <= a < b < model.len() && model[a].name == model[b].name
                            && model[b].name == dup@);
                    }
                    return Err(Error::DuplicateField(dup));
                }
            }
        }
        Ok(ArrowData { fields: self.fields })
    }
}

/// Concatenates the strings' UTF-8 bytes and records `n + 1`
/// cumulative byte offsets, `offsets[0] == 0`.
#[verifier::rlimit(50)]
fn build_utf8_column(value: &Vec<String>) -> (c: ColumnData)
    ensures
        c@ == ColumnModel::Utf8(value.deep_view()),
        c.wf(),
{
    let ghost vals = value.deep_view();
    let mut bytes: Vec<u8> = Vec::new();
    let mut offsets: Vec<usize> = Vec::new();
    offsets.push(0);
    let n = value.len();
    for i in 0..n
        invariant
            n == value@.len(),
            vals == value.deep_view(),
            offsets@.len() == i + 1,
            offsets@[0] == 0,
            forall|a: int, b: int| 0 <= a <= b < offsets@.len() ==> offsets@[a] <= offsets@[b],
            offsets@[offsets@.len() - 1] == bytes@.len(),
            forall|j: int|
                0 <= j < i ==> bytes@.subrange(
                    #[trigger] offsets@[j] as int,
                    offsets@[j + 1] as int,
                ) == encode_utf8(vals[j]),
    {
        let ghost old_bytes = bytes@;
        let ghost old_offsets = offsets@;
        let mut s_bytes = value[i].as_str().as_bytes_vec();
        let ghost appended = s_bytes@;
        bytes.append(&mut s_bytes);
        offsets.push(bytes.len());
        proof {
            assert(appended == encode_utf8(vals[i as int]));
            assert(bytes@ == old_bytes + appended);
            assert forall|j: int| 0 <= j < i + 1 implies bytes@.subrange(
                #[trigger] offsets@[j] as int,
                offsets@[j + 1] as int,
            ) == encode_utf8(vals[j]) by {
                if j < i {
                    assert(offsets@[j] == old_offsets[j]);
                    assert(offsets@[j + 1] == old_offsets[j + 1]);
                    assert(old_offsets[j + 1] <= old_bytes.len());
                    assert(bytes@.subrange(offsets@[j] as int, offsets@[j + 1] as int)
                        =~= old_bytes.subrange(old_offsets[j] as int, old_offsets[j + 1] as int));
                } else {
                    assert(bytes@.subrange(offsets@[j] as int, offsets@[j + 1] as int)
                        =~= appended);
                }
            }
        }
    }
    let ghost gb = bytes@;
    let ghost go = offsets@;
    let c = ColumnData::Utf8 { bytes: Rc::new(bytes), offsets: Rc::new(offsets) };
    proof {
        broadcast use encode_utf8_valid_utf8, encode_utf8_decode_utf8;

        assert(c.spec_utf8_count() == vals.len());
        assert forall|j: int| 0 <= j < c.spec_utf8_count() implies c.spec_utf8_string(j)
            == vals[j] by {
            assert(gb.subrange(go[j] as int, go[j + 1] as int) == encode_utf8(vals[j]));
        }
        assert(c@ matches ColumnModel::Utf8(strs) && strs =~= vals);
        assert forall|j: int| 0 <= j < c.spec_utf8_count() implies vstd::utf8::valid_utf8(
            gb.subrange(#[trigger] go[j] as int, go[j + 1] as int),
        ) by {
            assert(gb.subrange(go[j] as int, go[j + 1] as int) == encode_utf8(vals[j]));
        }
        assert(c.wf());
    }
    c
}

} // verus!

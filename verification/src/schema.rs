use vstd::prelude::*;

use crate::arrow::ColumnType;
use crate::error::Error;

verus! {

/// The kind of one schema slot: how many values it holds and of what
/// type.
#[derive(Debug, Clone, Copy, PartialEq, Eq, Structural)]
pub enum FieldKind {
    PrimitiveSingleton(ColumnType),
    PrimitiveArray(ColumnType),
    Utf8Singleton,
    Utf8Array,
}

/// The static description of one named slot of a record.
#[derive(Debug)]
pub struct FieldDescriptor {
    pub name: String,
    pub kind: FieldKind,
}

/// The mathematical content of a field descriptor.
pub struct FieldDescModel {
    pub name: Seq<char>,
    pub kind: FieldKind,
}

impl View for FieldDescriptor {
    type V = FieldDescModel;

    open spec fn view(&self) -> FieldDescModel {
        FieldDescModel { name: self.name@, kind: self.kind }
    }
}

impl DeepView for FieldDescriptor {
    type V = FieldDescModel;

    open spec fn deep_view(&self) -> FieldDescModel {
        self.view()
    }
}

/// The fixed, ordered list of fields a record kind commits to.
/// Declaration order defines the slot index assigned at build time.
#[derive(Debug)]
pub struct Schema {
    pub fields: Vec<FieldDescriptor>,
}

impl View for Schema {
    type V = Seq<FieldDescModel>;

    open spec fn view(&self) -> Seq<FieldDescModel> {
        self.fields.deep_view()
    }
}

/// Whether all descriptor names are pairwise distinct.
pub open spec fn spec_desc_names_unique(fields: Seq<FieldDescModel>) -> bool {
    forall|i: int, j: int| 0 <= i < j < fields.len() ==> fields[i].name != fields[j].name
}

impl Schema {
    /// Validates that no two fields share a name and fixes the field
    /// list. Fails with the offending name otherwise.
    pub fn new(fields: Vec<FieldDescriptor>) -> (r: Result<Schema, Error>)
        ensures
            r matches Ok(_) <==> spec_desc_names_unique(fields.deep_view()),
            match r {
                Ok(s) => s@ == fields.deep_view(),
                Err(e) => match e {
                    Error::DuplicateField(n) => exists|i: int, j: int|
                        #![trigger fields.deep_view()[i], fields.deep_view()[j]]
                        0 <= i < j < fields.deep_view().len() && fields.deep_view()[i].name
                            == fields.deep_view()[j].name && fields.deep_view()[j].name == n@,
                    _ => false,
                },
            },
    {
        let ghost model = fields.deep_view();
        let n = fields.len();
        for i in 0..n
            invariant
                n == fields@.len(),
                model == fields.deep_view(),
                forall|a: int, b: int| 0 <= a < b < i ==> model[a].name != model[b].name,
        {
            for j in 0..i
                invariant
                    i < n == fields@.len(),
                    model == fields.deep_view(),
                    forall|a: int, b: int| 0 <= a < b < i ==> model[a].name != model[b].name,
                    forall|a: int| 0 <= a < j ==> model[a].name != model[i as int].name,
            {
                if fields[j].name == fields[i].name {
                    let dup = fields[i].name.clone();
                    proof {
                        let ghost a = j as int;
                        let ghost b = i as int;
                        assert(0 <= a < b < model.len() && model[a].name == model[b].name
                            && model[b].name == dup@);
                    }
                    return Err(Error::DuplicateField(dup));
                }
            }
        }
        Ok(Schema { fields })
    }

    /// The number of slots.
    pub fn len(&self) -> (n: usize)
        ensures
            n == self@.len(),
    {
        self.fields.len()
    }

    /// The descriptor at slot `i`.
    pub fn field(&self, i: usize) -> (r: &FieldDescriptor)
        requires
            i < self@.len(),
        ensures
            r@ == self@[i as int],
    {
        &self.fields[i]
    }
}

} // verus!

//! Table schemas.
use crate::collections::{find_first, lemma_find_first, position};
use crate::text::same_text;
use crate::types::{
    clone_fields, fields_ids, fields_model, greatest, greatest_in_fields, FieldView,
    NestedFieldRef,
};
use vstd::prelude::*;

verus! {

/// The columns of a table, under an id that is unique among the schemas of the table.
#[derive(Debug)]
pub struct Schema {
    schema_id: i32,
    fields: Vec<NestedFieldRef>,
    identifier_field_ids: Vec<i32>,
}

/// The model of a [`Schema`].
pub struct SchemaView {
    pub schema_id: i32,
    pub fields: Seq<FieldView>,
    pub identifier_field_ids: Seq<i32>,
}

impl SchemaView {
    /// The first top-level field with the given name.
    pub open spec fn field_named(self, name: Seq<char>) -> Option<FieldView> {
        match find_first(self.fields, |f: FieldView| f.name == name) {
            Some(i) => Some(self.fields[i]),
            None => None,
        }
    }

    /// The greatest field id that occurs in the schema, nested fields included; zero in a schema
    /// without fields.
    pub open spec fn highest_field_id(self) -> i32 {
        match greatest(fields_ids(self.fields)) {
            Some(id) => id,
            None => 0,
        }
    }

    /// No two top-level fields have the same name.
    pub open spec fn names_distinct(self) -> bool {
        forall|i: int, j: int|
            #![trigger self.fields[i], self.fields[j]]
            0 <= i < j < self.fields.len() ==> self.fields[i].name != self.fields[j].name
    }
}

impl DeepView for Schema {
    type V = SchemaView;

    closed spec fn deep_view(&self) -> SchemaView {
        SchemaView {
            schema_id: self.schema_id,
            fields: fields_model(self.fields@),
            identifier_field_ids: self.identifier_field_ids@,
        }
    }
}

impl Schema {
    /// A builder of a schema with id zero and without fields.
    pub fn builder() -> (builder: SchemaBuilder)
        ensures
            builder.deep_view() == (SchemaView {
                schema_id: 0,
                fields: Seq::empty(),
                identifier_field_ids: Seq::empty(),
            }),
    {
        let builder = SchemaBuilder {
            schema_id: 0,
            fields: Vec::new(),
            identifier_field_ids: Vec::new(),
        };
        assert(builder.deep_view().fields =~= Seq::empty());
        builder
    }

    /// The id of the schema.
    pub fn schema_id(&self) -> (id: i32)
        ensures
            id == self.deep_view().schema_id,
    {
        self.schema_id
    }

    /// The top-level fields of the schema.
    pub fn fields(&self) -> (fields: &Vec<NestedFieldRef>)
        ensures
            fields.deep_view() == self.deep_view().fields,
    {
        assert(self.fields.deep_view() =~= self.deep_view().fields);
        &self.fields
    }

    /// The ids of the fields that identify a row.
    pub fn identifier_field_ids(&self) -> (ids: &Vec<i32>)
        ensures
            ids@ == self.deep_view().identifier_field_ids,
    {
        &self.identifier_field_ids
    }

    /// The greatest field id that occurs in the schema, nested fields included.
    pub fn highest_field_id(&self) -> (id: i32)
        ensures
            id == self.deep_view().highest_field_id(),
    {
        match greatest_in_fields(&self.fields) {
            Some(id) => id,
            None => 0,
        }
    }

    /// The top-level field with the given name.
    pub fn field_by_name(&self, name: &str) -> (field: Option<&NestedFieldRef>)
        ensures
            match field {
                Some(f) => self.deep_view().field_named(name@) == Some(f.deep_view()),
                None => self.deep_view().field_named(name@) == None::<FieldView>,
            },
            match field {
                Some(f) => exists|i: int|
                    #![trigger self.deep_view().fields[i]]
                    0 <= i < self.deep_view().fields.len() && self.deep_view().fields[i]
                        == f.deep_view() && f.deep_view().name == name@ && forall|j: int|
                        0 <= j < i ==> (#[trigger] self.deep_view().fields[j]).name != name@,
                None => forall|i: int|
                    0 <= i < self.deep_view().fields.len() ==> (
                    #[trigger] self.deep_view().fields[i]).name != name@,
            },
    {
        let ghost p = |f: FieldView| f.name == name@;
        let test = |f: &NestedFieldRef| -> (same: bool)
            ensures
                same == (f.deep_view().name == name@),
            { same_text(f.name.as_str(), name) };
        assert(self.fields.deep_view() =~= self.deep_view().fields);
        proof {
            lemma_find_first(self.deep_view().fields, p);
        }
        match position(&self.fields, test, Ghost(p)) {
            Some(i) => Some(&self.fields[i]),
            None => None,
        }
    }
}

impl Clone for Schema {
    fn clone(&self) -> (copy: Self)
        ensures
            copy.deep_view() == self.deep_view(),
    {
        let copy = Schema {
            schema_id: self.schema_id,
            fields: clone_fields(&self.fields),
            identifier_field_ids: self.identifier_field_ids.clone(),
        };
        assert(copy.identifier_field_ids@ =~= self.identifier_field_ids@);
        copy
    }
}

/// Why a schema could not be built.
#[derive(Debug, PartialEq, Eq)]
pub enum SchemaError {
    /// More than one top-level field has this name.
    DuplicateFieldName(String),
}

/// Collects the parts of a schema.
#[derive(Debug)]
pub struct SchemaBuilder {
    schema_id: i32,
    fields: Vec<NestedFieldRef>,
    identifier_field_ids: Vec<i32>,
}

impl DeepView for SchemaBuilder {
    type V = SchemaView;

    closed spec fn deep_view(&self) -> SchemaView {
        SchemaView {
            schema_id: self.schema_id,
            fields: fields_model(self.fields@),
            identifier_field_ids: self.identifier_field_ids@,
        }
    }
}

impl SchemaBuilder {
    /// Sets the id of the schema.
    pub fn with_schema_id(self, schema_id: i32) -> (builder: SchemaBuilder)
        ensures
            builder.deep_view() == (SchemaView { schema_id, ..self.deep_view() }),
    {
        SchemaBuilder { schema_id, ..self }
    }

    /// Adds fields after those already there.
    pub fn with_fields(self, fields: Vec<NestedFieldRef>) -> (builder: SchemaBuilder)
        ensures
            builder.deep_view() == (SchemaView {
                fields: self.deep_view().fields + fields.deep_view(),
                ..self.deep_view()
            }),
    {
        let mut added = fields;
        let mut all = self.fields;
        all.append(&mut added);
        let builder = SchemaBuilder {
            schema_id: self.schema_id,
            fields: all,
            identifier_field_ids: self.identifier_field_ids,
        };
        assert(builder.deep_view().fields =~= self.deep_view().fields + fields.deep_view());
        builder
    }

    /// Sets the ids of the fields that identify a row.
    pub fn with_identifier_field_ids(self, ids: Vec<i32>) -> (builder: SchemaBuilder)
        ensures
            builder.deep_view() == (SchemaView {
                identifier_field_ids: ids@,
                ..self.deep_view()
            }),
    {
        SchemaBuilder { identifier_field_ids: ids, ..self }
    }

    /// The schema, if no two of its top-level fields have the same name; else the name of the
    /// first field that repeats an earlier one's.
    pub fn build(self) -> (result: Result<Schema, SchemaError>)
        ensures
            match result {
                Ok(schema) => self.deep_view().names_distinct() && schema.deep_view()
                    == self.deep_view(),
                Err(SchemaError::DuplicateFieldName(name)) => exists|j: int|
                    repeats_earlier(self.deep_view().fields, j) && name@
                        == self.deep_view().fields[j].name && forall|k: int|
                        0 <= k < j ==> !repeats_earlier(self.deep_view().fields, k),
            },
            match result {
                Ok(_) => forall|i: int, j: int|
                    #![trigger self.deep_view().fields[i], self.deep_view().fields[j]]
                    0 <= i < j < self.deep_view().fields.len() ==> self.deep_view().fields[i].name
                        != self.deep_view().fields[j].name,
                Err(SchemaError::DuplicateFieldName(name)) => exists|i: int, j: int|
                    #![trigger self.deep_view().fields[i], self.deep_view().fields[j]]
                    0 <= i < j < self.deep_view().fields.len() && self.deep_view().fields[i].name
                        == name@ && self.deep_view().fields[j].name == name@ && forall|
                        a: int,
                        b: int,
                    |
                        #![trigger self.deep_view().fields[a], self.deep_view().fields[b]]
                        0 <= a < b < j ==> self.deep_view().fields[a].name
                            != self.deep_view().fields[b].name,
            },
    {
        let ghost models = self.deep_view().fields;
        let n: usize = self.fields.len();
        let mut j: usize = 0;
        while j < n
            invariant
                j <= n,
                n == self.fields@.len(),
                models == fields_model(self.fields@),
                models == self.deep_view().fields,
                forall|k: int| 0 <= k < j ==> !repeats_earlier(models, k),
            decreases n - j,
        {
            let mut i: usize = 0;
            while i < j
                invariant
                    i <= j,
                    j < n,
                    n == self.fields@.len(),
                    models == fields_model(self.fields@),
                    models == self.deep_view().fields,
                    forall|k: int| 0 <= k < j ==> !repeats_earlier(models, k),
                    forall|k: int|
                        0 <= k < i ==> (#[trigger] models[k]).name != models[j as int].name,
                decreases j - i,
            {
                if self.fields[i].name == self.fields[j].name {
                    assert(models[i as int].name == models[j as int].name);
                    assert(repeats_earlier(models, j as int));
                    assert forall|a: int, b: int|
                        #![trigger models[a], models[b]]
                        0 <= a < b < j implies models[a].name != models[b].name by {
                        assert(!repeats_earlier(models, b));
                    }
                    return Err(SchemaError::DuplicateFieldName(self.fields[j].name.clone()));
                }
                i += 1;
            }
            assert(!repeats_earlier(models, j as int));
            j += 1;
        }
        assert(self.deep_view().names_distinct()) by {
            assert forall|a: int, b: int|
                #![trigger models[a], models[b]]
                0 <= a < b < models.len() implies models[a].name != models[b].name by {
                assert(!repeats_earlier(models, b));
            }
        }
        Ok(
            Schema {
                schema_id: self.schema_id,
                fields: self.fields,
                identifier_field_ids: self.identifier_field_ids,
            },
        )
    }
}

/// Whether the `j`-th field has the name of an earlier one.
pub open spec fn repeats_earlier(fields: Seq<FieldView>, j: int) -> bool {
    0 <= j < fields.len() && exists|i: int|
        0 <= i < j && (#[trigger] fields[i]).name == fields[j].name
}

} // verus!

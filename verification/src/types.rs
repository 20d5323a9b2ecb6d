//! Column types: primitives, structs, lists and maps, nested to any depth.
use crate::text::{append_unsigned, decimal};
use std::sync::Arc;
use vstd::prelude::*;

verus! {

/// A type without nested fields.
#[derive(Debug, Clone, Copy, PartialEq, Eq, Structural)]
pub enum PrimitiveType {
    Boolean,
    Int,
    Long,
    Float,
    Double,
    Decimal { precision: u32, scale: u32 },
    Date,
    Time,
    Timestamp,
    Timestamptz,
    TimestampNs,
    TimestamptzNs,
    String,
    Uuid,
    Fixed(u64),
    Binary,
}

/// A shared nested field.
pub type NestedFieldRef = Arc<NestedField>;

/// The type of a column or of a nested field.
#[derive(Debug)]
pub enum Type {
    Primitive(PrimitiveType),
    Struct(StructType),
    List(ListType),
    Mapping(MapType),
}

/// A sequence of named fields.
#[derive(Debug)]
pub struct StructType {
    pub fields: Vec<NestedFieldRef>,
}

/// A list, described by the field of its elements.
#[derive(Debug)]
pub struct ListType {
    pub element_field: NestedFieldRef,
}

/// A map, described by the fields of its keys and of its values.
#[derive(Debug)]
pub struct MapType {
    pub key_field: NestedFieldRef,
    pub value_field: NestedFieldRef,
}

/// A field of a schema or of a nested type. The default values are held in their JSON form.
#[derive(Debug)]
pub struct NestedField {
    pub id: i32,
    pub name: String,
    pub required: bool,
    pub field_type: Box<Type>,
    pub doc: Option<String>,
    pub initial_default: Option<String>,
    pub write_default: Option<String>,
}

/// The model of a [`Type`].
pub enum TypeView {
    Primitive(PrimitiveType),
    Struct(Seq<FieldView>),
    List(Box<FieldView>),
    Mapping(Box<FieldView>, Box<FieldView>),
}

/// The model of a [`NestedField`].
pub struct FieldView {
    pub id: i32,
    pub name: Seq<char>,
    pub required: bool,
    pub field_type: Box<TypeView>,
    pub doc: Option<Seq<char>>,
    pub initial_default: Option<Seq<char>>,
    pub write_default: Option<Seq<char>>,
}

pub open spec fn type_model(t: Type) -> TypeView
    decreases t,
{
    match t {
        Type::Primitive(p) => TypeView::Primitive(p),
        Type::Struct(s) => TypeView::Struct(
            Seq::new(
                s.fields@.len(),
                |i: int| if 0 <= i < s.fields@.len() { field_model(*s.fields@[i]) } else { arbitrary() },
            ),
        ),
        Type::List(l) => TypeView::List(Box::new(field_model(*l.element_field))),
        Type::Mapping(m) => TypeView::Mapping(
            Box::new(field_model(*m.key_field)),
            Box::new(field_model(*m.value_field)),
        ),
    }
}

pub open spec fn field_model(f: NestedField) -> FieldView
    decreases f,
{
    FieldView {
        id: f.id,
        name: f.name@,
        required: f.required,
        field_type: Box::new(type_model(*f.field_type)),
        doc: f.doc.deep_view(),
        initial_default: f.initial_default.deep_view(),
        write_default: f.write_default.deep_view(),
    }
}

/// The models of a sequence of fields.
pub open spec fn fields_model(fields: Seq<NestedFieldRef>) -> Seq<FieldView> {
    Seq::new(fields.len(), |i: int| field_model(*fields[i]))
}

/// The model of a struct type holds the models of its fields.
pub proof fn lemma_struct_model(s: StructType)
    ensures
        type_model(Type::Struct(s)) == TypeView::Struct(fields_model(s.fields@)),
{
    assert(type_model(Type::Struct(s))->Struct_0 =~= fields_model(s.fields@));
}

impl DeepView for Type {
    type V = TypeView;

    open spec fn deep_view(&self) -> TypeView {
        type_model(*self)
    }
}

impl DeepView for NestedField {
    type V = FieldView;

    open spec fn deep_view(&self) -> FieldView {
        field_model(*self)
    }
}


fn same_optional_text(a: &Option<String>, b: &Option<String>) -> (same: bool)
    ensures
        same == (a.deep_view() == b.deep_view()),
{
    match (a, b) {
        (Some(x), Some(y)) => *x == *y,
        (None, None) => true,
        _ => false,
    }
}

fn same_type(a: &Type, b: &Type) -> (same: bool)
    ensures
        same == (type_model(*a) == type_model(*b)),
    decreases a,
{
    match (a, b) {
        (Type::Primitive(p), Type::Primitive(q)) => *p == *q,
        (Type::Struct(s), Type::Struct(t)) => {
            proof {
                lemma_struct_model(*s);
                lemma_struct_model(*t);
            }
            same_fields(&s.fields, &t.fields)
        },
        (Type::List(l), Type::List(m)) => same_field(&*l.element_field, &*m.element_field),
        (Type::Mapping(l), Type::Mapping(m)) => same_field(&*l.key_field, &*m.key_field)
            && same_field(&*l.value_field, &*m.value_field),
        _ => false,
    }
}

fn same_fields(a: &Vec<NestedFieldRef>, b: &Vec<NestedFieldRef>) -> (same: bool)
    ensures
        same == (fields_model(a@) == fields_model(b@)),
    decreases a,
{
    let n: usize = a.len();
    if n != b.len() {
        assert(fields_model(a@).len() != fields_model(b@).len());
        return false;
    }
    let mut i: usize = 0;
    while i < n
        invariant
            i <= n,
            n == a@.len(),
            n == b@.len(),
            forall|j: int| 0 <= j < i ==> fields_model(a@)[j] == fields_model(b@)[j],
        decreases n - i,
    {
        if !same_field(&*a[i], &*b[i]) {
            assert(fields_model(a@)[i as int] != fields_model(b@)[i as int]);
            return false;
        }
        i += 1;
    }
    assert(fields_model(a@) =~= fields_model(b@));
    true
}

fn same_field(a: &NestedField, b: &NestedField) -> (same: bool)
    ensures
        same == (field_model(*a) == field_model(*b)),
    decreases a,
{
    a.id == b.id && a.name == b.name && a.required == b.required && same_type(
        &*a.field_type,
        &*b.field_type,
    ) && same_optional_text(&a.doc, &b.doc) && same_optional_text(
        &a.initial_default,
        &b.initial_default,
    ) && same_optional_text(&a.write_default, &b.write_default)
}

fn clone_type(t: &Type) -> (copy: Type)
    ensures
        type_model(copy) == type_model(*t),
    decreases t,
{
    match t {
        Type::Primitive(p) => Type::Primitive(*p),
        Type::Struct(s) => {
            let copy = StructType { fields: clone_fields(&s.fields) };
            proof {
                lemma_struct_model(copy);
                lemma_struct_model(*s);
            }
            Type::Struct(copy)
        },
        Type::List(l) => Type::List(
            ListType { element_field: Arc::new(clone_field(&*l.element_field)) },
        ),
        Type::Mapping(m) => Type::Mapping(
            MapType {
                key_field: Arc::new(clone_field(&*m.key_field)),
                value_field: Arc::new(clone_field(&*m.value_field)),
            },
        ),
    }
}

/// A copy of some fields.
pub fn clone_fields(fields: &Vec<NestedFieldRef>) -> (copy: Vec<NestedFieldRef>)
    ensures
        fields_model(copy@) == fields_model(fields@),
    decreases fields,
{
    let mut copy: Vec<NestedFieldRef> = Vec::new();
    let n: usize = fields.len();
    let mut i: usize = 0;
    while i < n
        invariant
            i <= n,
            n == fields@.len(),
            fields_model(copy@) =~= fields_model(fields@).take(i as int),
        decreases n - i,
    {
        let ghost before = copy@;
        copy.push(Arc::new(clone_field(&*fields[i])));
        assert(fields_model(copy@) =~= fields_model(before).push(fields_model(fields@)[i as int]));
        i += 1;
    }
    copy
}

fn clone_field(f: &NestedField) -> (copy: NestedField)
    ensures
        field_model(copy) == field_model(*f),
    decreases f,
{
    NestedField {
        id: f.id,
        name: f.name.clone(),
        required: f.required,
        field_type: Box::new(clone_type(&*f.field_type)),
        doc: f.doc.clone(),
        initial_default: f.initial_default.clone(),
        write_default: f.write_default.clone(),
    }
}

impl PartialEq for Type {
    /// Two types are equal when they have the same model.
    fn eq(&self, other: &Self) -> (same: bool) {
        same_type(self, other)
    }
}

impl vstd::std_specs::cmp::PartialEqSpecImpl for Type {
    open spec fn obeys_eq_spec() -> bool {
        true
    }

    open spec fn eq_spec(&self, other: &Self) -> bool {
        type_model(*self) == type_model(*other)
    }
}

impl Eq for Type {

}

impl Clone for Type {
    fn clone(&self) -> (copy: Self)
        ensures
            copy.deep_view() == self.deep_view(),
    {
        clone_type(self)
    }
}

impl Clone for NestedField {
    fn clone(&self) -> (copy: Self)
        ensures
            copy.deep_view() == self.deep_view(),
    {
        clone_field(self)
    }
}


impl NestedField {
    /// A field without documentation and default values.
    pub fn new(id: i32, name: &str, field_type: Type, required: bool) -> (field: NestedField)
        ensures
            field.deep_view() == new_field(id, name@, field_type.deep_view(), required),
            field.id == id,
            field.name@ == name@,
            field.required == required,
            *field.field_type == field_type,
            field.doc is None,
            field.initial_default is None,
            field.write_default is None,
    {
        NestedField {
            id,
            name: name.to_owned(),
            required,
            field_type: Box::new(field_type),
            doc: None,
            initial_default: None,
            write_default: None,
        }
    }

    /// A field that holds a value in every row.
    pub fn required(id: i32, name: &str, field_type: Type) -> (field: NestedField)
        ensures
            field.deep_view() == new_field(id, name@, field_type.deep_view(), true),
            field.id == id,
            field.name@ == name@,
            field.required == true,
            *field.field_type == field_type,
            field.doc is None,
            field.initial_default is None,
            field.write_default is None,
    {
        NestedField::new(id, name, field_type, true)
    }

    /// A field that may be null.
    pub fn optional(id: i32, name: &str, field_type: Type) -> (field: NestedField)
        ensures
            field.deep_view() == new_field(id, name@, field_type.deep_view(), false),
            field.id == id,
            field.name@ == name@,
            field.required == false,
            *field.field_type == field_type,
            field.doc is None,
            field.initial_default is None,
            field.write_default is None,
    {
        NestedField::new(id, name, field_type, false)
    }
}

/// A field without documentation and default values.
pub open spec fn new_field(
    id: i32,
    name: Seq<char>,
    field_type: TypeView,
    required: bool,
) -> FieldView {
    FieldView {
        id,
        name,
        required,
        field_type: Box::new(field_type),
        doc: None,
        initial_default: None,
        write_default: None,
    }
}

/// The text of a primitive type.
pub open spec fn primitive_text(p: PrimitiveType) -> Seq<char> {
    match p {
        PrimitiveType::Boolean => "boolean"@,
        PrimitiveType::Int => "int"@,
        PrimitiveType::Long => "long"@,
        PrimitiveType::Float => "float"@,
        PrimitiveType::Double => "double"@,
        PrimitiveType::Decimal { precision, scale } => "decimal("@ + decimal(precision as int)
            + ","@ + decimal(scale as int) + ")"@,
        PrimitiveType::Date => "date"@,
        PrimitiveType::Time => "time"@,
        PrimitiveType::Timestamp => "timestamp"@,
        PrimitiveType::Timestamptz => "timestamptz"@,
        PrimitiveType::TimestampNs => "timestamp_ns"@,
        PrimitiveType::TimestamptzNs => "timestamptz_ns"@,
        PrimitiveType::String => "string"@,
        PrimitiveType::Uuid => "uuid"@,
        PrimitiveType::Fixed(length) => "fixed("@ + decimal(length as int) + ")"@,
        PrimitiveType::Binary => "binary"@,
    }
}

/// The text of a type. A struct shows the types of its fields one after another; a list and a
/// map show no more than what they are.
pub open spec fn type_text(t: TypeView) -> Seq<char>
    decreases t,
{
    match t {
        TypeView::Primitive(p) => primitive_text(p),
        TypeView::Struct(fields) => "struct<"@ + field_types_text(fields) + ">"@,
        TypeView::List(_) => "list"@,
        TypeView::Mapping(_, _) => "map"@,
    }
}

/// The texts of the types of some fields, one after another.
pub open spec fn field_types_text(fields: Seq<FieldView>) -> Seq<char>
    decreases fields,
{
    if fields.len() == 0 {
        Seq::empty()
    } else {
        field_types_text(fields.drop_last()) + type_text(*fields.last().field_type)
    }
}

fn append_primitive(out: &mut String, p: PrimitiveType)
    ensures
        final(out)@ == old(out)@ + primitive_text(p),
{
    match p {
        PrimitiveType::Boolean => out.append("boolean"),
        PrimitiveType::Int => out.append("int"),
        PrimitiveType::Long => out.append("long"),
        PrimitiveType::Float => out.append("float"),
        PrimitiveType::Double => out.append("double"),
        PrimitiveType::Decimal { precision, scale } => {
            out.append("decimal(");
            append_unsigned(out, precision as u64);
            out.append(",");
            append_unsigned(out, scale as u64);
            out.append(")");
            assert(out@ =~= old(out)@ + primitive_text(p));
        },
        PrimitiveType::Date => out.append("date"),
        PrimitiveType::Time => out.append("time"),
        PrimitiveType::Timestamp => out.append("timestamp"),
        PrimitiveType::Timestamptz => out.append("timestamptz"),
        PrimitiveType::TimestampNs => out.append("timestamp_ns"),
        PrimitiveType::TimestamptzNs => out.append("timestamptz_ns"),
        PrimitiveType::String => out.append("string"),
        PrimitiveType::Uuid => out.append("uuid"),
        PrimitiveType::Fixed(length) => {
            out.append("fixed(");
            append_unsigned(out, length);
            out.append(")");
            assert(out@ =~= old(out)@ + primitive_text(p));
        },
        PrimitiveType::Binary => out.append("binary"),
    }
}

fn append_type(out: &mut String, t: &Type)
    ensures
        final(out)@ == old(out)@ + type_text(type_model(*t)),
    decreases t,
{
    match t {
        Type::Primitive(p) => append_primitive(out, *p),
        Type::Struct(s) => {
            let ghost models = fields_model(s.fields@);
            let ghost start = out@;
            proof {
                lemma_struct_model(*s);
            }
            out.append("struct<");
            let n: usize = s.fields.len();
            let mut i: usize = 0;
            assert(models.take(0) =~= Seq::empty());
            while i < n
                invariant
                    i <= n,
                    n == s.fields@.len(),
                    t matches Type::Struct(s0) && s0 == *s,
                    models == fields_model(s.fields@),
                    out@ =~= start + "struct<"@ + field_types_text(models.take(i as int)),
                decreases n - i,
            {
                append_type(out, &*s.fields[i].field_type);
                assert(models.take(i + 1).drop_last() =~= models.take(i as int));
                i += 1;
            }
            assert(models.take(n as int) =~= models);
            out.append(">");
            assert(out@ =~= start + type_text(type_model(*t)));
        },
        Type::List(_) => out.append("list"),
        Type::Mapping(_) => out.append("map"),
    }
}

impl Type {
    /// The text of the type.
    pub fn to_string(&self) -> (text: String)
        ensures
            text@ == type_text(self.deep_view()),
    {
        let mut text = String::new();
        append_type(&mut text, self);
        assert(text@ =~= type_text(self.deep_view()));
        text
    }
}

/// All field ids that occur in a type.
pub open spec fn type_ids(t: TypeView) -> Seq<i32>
    decreases t,
{
    match t {
        TypeView::Primitive(_) => Seq::empty(),
        TypeView::Struct(fields) => fields_ids(fields),
        TypeView::List(element) => seq![element.id] + type_ids(*element.field_type),
        TypeView::Mapping(key, value) => seq![key.id] + type_ids(*key.field_type) + (seq![value.id]
            + type_ids(*value.field_type)),
    }
}

/// All field ids that occur in some fields: their own and those nested in their types.
pub open spec fn fields_ids(fields: Seq<FieldView>) -> Seq<i32>
    decreases fields,
{
    if fields.len() == 0 {
        Seq::empty()
    } else {
        fields_ids(fields.drop_last()) + (seq![fields.last().id] + type_ids(
            *fields.last().field_type,
        ))
    }
}

/// The greater of two optional ids.
pub open spec fn greater(a: Option<i32>, b: Option<i32>) -> Option<i32> {
    match (a, b) {
        (None, _) => b,
        (_, None) => a,
        (Some(x), Some(y)) => Some(if x < y { y } else { x }),
    }
}

/// The greatest of some ids, if there are any.
pub open spec fn greatest(ids: Seq<i32>) -> Option<i32>
    decreases ids.len(),
{
    if ids.len() == 0 {
        None
    } else {
        greater(greatest(ids.drop_last()), Some(ids.last()))
    }
}

/// The greatest id is one of the ids and no id exceeds it.
pub proof fn lemma_greatest(ids: Seq<i32>)
    ensures
        greatest(ids) is None <==> ids.len() == 0,
        greatest(ids) matches Some(g) ==> ids.contains(g) && forall|i: int|
            0 <= i < ids.len() ==> ids[i] <= g,
    decreases ids.len(),
{
    if ids.len() > 0 {
        lemma_greatest(ids.drop_last());
        let rest = ids.drop_last();
        if let Some(g) = greatest(rest) {
            let k = choose|k: int| 0 <= k < rest.len() && rest[k] == g;
            assert(ids[k] == g);
        }
        assert(ids[ids.len() - 1] == ids.last());
        assert forall|i: int| 0 <= i < ids.len() implies ids[i] <= greatest(ids)->0 by {
            if i < rest.len() {
                assert(rest[i] == ids[i]);
            }
        }
    }
}

pub(crate) proof fn lemma_greatest_concat(a: Seq<i32>, b: Seq<i32>)
    ensures
        greatest(a + b) == greater(greatest(a), greatest(b)),
    decreases b.len(),
{
    if b.len() == 0 {
        assert(a + b =~= a);
    } else {
        lemma_greatest_concat(a, b.drop_last());
        assert((a + b).drop_last() =~= a + b.drop_last());
    }
}

fn greater_id(a: Option<i32>, b: Option<i32>) -> (r: Option<i32>)
    ensures
        r == greater(a, b),
{
    match (a, b) {
        (None, _) => b,
        (_, None) => a,
        (Some(x), Some(y)) => Some(
            if x < y {
                y
            } else {
                x
            },
        ),
    }
}

fn greatest_in_type(t: &Type) -> (r: Option<i32>)
    ensures
        r == greatest(type_ids(type_model(*t))),
    decreases t,
{
    match t {
        Type::Primitive(_) => None,
        Type::Struct(s) => {
            proof {
                lemma_struct_model(*s);
            }
            greatest_in_fields(&s.fields)
        },
        Type::List(l) => greatest_in_field(&*l.element_field),
        Type::Mapping(m) => {
            let key = greatest_in_field(&*m.key_field);
            let value = greatest_in_field(&*m.value_field);
            let ghost k = m.key_field.deep_view();
            let ghost v = m.value_field.deep_view();
            proof {
                lemma_greatest_concat(
                    seq![k.id] + type_ids(*k.field_type),
                    seq![v.id] + type_ids(*v.field_type),
                );
            }
            greater_id(key, value)
        },
    }
}

fn greatest_in_field(f: &NestedField) -> (r: Option<i32>)
    ensures
        r == greatest(seq![f.id] + type_ids(type_model(*f.field_type))),
    decreases f,
{
    let inner = greatest_in_type(&*f.field_type);
    proof {
        lemma_greatest_concat(seq![f.id], type_ids(type_model(*f.field_type)));
        assert(seq![f.id].drop_last() =~= Seq::<i32>::empty());
        assert(greatest(seq![f.id].drop_last()) is None);
        assert(greatest(seq![f.id]) == Some(f.id));
    }
    greater_id(Some(f.id), inner)
}

/// The greatest field id that occurs in `fields`, nested fields included.
pub fn greatest_in_fields(fields: &Vec<NestedFieldRef>) -> (r: Option<i32>)
    ensures
        r == greatest(fields_ids(fields_model(fields@))),
    decreases fields,
{
    let ghost models = fields_model(fields@);
    assert(models.take(0) =~= Seq::empty());
    let n: usize = fields.len();
    let mut best: Option<i32> = None;
    let mut i: usize = 0;
    while i < n
        invariant
            i <= n,
            n == fields@.len(),
            models == fields_model(fields@),
            best == greatest(fields_ids(models.take(i as int))),
        decreases n - i,
    {
        let here = greatest_in_field(&*fields[i]);
        proof {
            let ids = seq![models[i as int].id] + type_ids(*models[i as int].field_type);
            assert(models.take(i + 1).drop_last() =~= models.take(i as int));
            lemma_greatest_concat(fields_ids(models.take(i as int)), ids);
        }
        best = greater_id(best, here);
        i += 1;
    }
    assert(models.take(n as int) =~= models);
    best
}

} // verus!

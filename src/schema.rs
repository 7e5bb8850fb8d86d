//! The logical schema of a table: a typed tree of named, nullable fields.
use vstd::prelude::*;
use vstd::string::StrSliceExecFns;

use crate::error::Error;

verus! {

/// Leaf types of the schema.
#[derive(Clone, Copy, Debug, PartialEq, Eq, Structural)]
pub enum PrimitiveType {
    String,
    Long,
    Integer,
    Short,
    Byte,
    Float,
    Double,
    Boolean,
    Binary,
    Date,
    Timestamp,
    /// A decimal number with the given precision and scale.
    Decimal(u8, u8),
}

/// The type of a field.
#[derive(Debug)]
pub enum DataType {
    Primitive(PrimitiveType),
    Array(Box<ArrayType>),
    Struct(Box<StructType>),
    Mapping(Box<MapType>),
}

#[derive(Debug)]
pub struct ArrayType {
    pub element_type: DataType,
    pub contains_null: bool,
}

#[derive(Debug)]
pub struct MapType {
    pub key_type: DataType,
    pub value_type: DataType,
    pub value_contains_null: bool,
}

/// A named field; `name` is the name that appears on the wire.
#[derive(Debug)]
pub struct StructField {
    pub name: String,
    pub data_type: DataType,
    pub nullable: bool,
}

/// An ordered sequence of fields. Order is significant: it is the order of extraction.
#[derive(Debug)]
pub struct StructType {
    pub fields: Vec<StructField>,
}

/// Mathematical model of a `DataType`.
pub enum Ty {
    Prim(PrimitiveType),
    Array(Box<Ty>, bool),
    Mapping(Box<Ty>, Box<Ty>, bool),
    Struct(Seq<Field>),
}

/// Mathematical model of a `StructField`.
pub struct Field {
    pub name: Seq<char>,
    pub ty: Ty,
    pub nullable: bool,
}

impl DataType {
    pub open spec fn view(self) -> Ty
        decreases self, 0int,
    {
        match self {
            DataType::Primitive(p) => Ty::Prim(p),
            DataType::Array(a) => Ty::Array(Box::new(a.element_type.view()), a.contains_null),
            DataType::Mapping(m) => Ty::Mapping(
                Box::new(m.key_type.view()),
                Box::new(m.value_type.view()),
                m.value_contains_null,
            ),
            DataType::Struct(s) => Ty::Struct(fields_view(*s, s.fields.len() as int)),
        }
    }
}

/// The models of the first `n` fields of `s`.
pub open spec fn fields_view(s: StructType, n: int) -> Seq<Field>
    decreases s, n,
{
    if n <= 0 || n > s.fields.len() {
        Seq::empty()
    } else {
        let f = s.fields[n - 1];
        fields_view(s, n - 1).push(
            Field { name: f.name@, ty: f.data_type.view(), nullable: f.nullable },
        )
    }
}

impl StructField {
    pub open spec fn view(self) -> Field {
        Field { name: self.name@, ty: self.data_type@, nullable: self.nullable }
    }
}

impl StructType {
    pub open spec fn view(self) -> Seq<Field> {
        fields_view(self, self.fields.len() as int)
    }
}

/// The models of the fields in `fields`, one for one.
pub open spec fn field_views(fields: Seq<StructField>) -> Seq<Field> {
    fields.map_values(|f: StructField| f@)
}

pub proof fn lemma_fields_view(s: StructType, n: int)
    requires
        0 <= n <= s.fields.len(),
    ensures
        fields_view(s, n) == field_views(s.fields@.subrange(0, n)),
    decreases n,
{
    if n > 0 {
        lemma_fields_view(s, n - 1);
        assert(field_views(s.fields@.subrange(0, n)) =~= field_views(
            s.fields@.subrange(0, n - 1),
        ).push(s.fields@[n - 1]@));
    } else {
        assert(field_views(s.fields@.subrange(0, n)) =~= Seq::empty());
    }
}

pub proof fn lemma_struct_view(s: StructType)
    ensures
        s@ == field_views(s.fields@),
        s@.len() == s.fields@.len(),
        forall|i: int| 0 <= i < s.fields@.len() ==> #[trigger] s@[i] == s.fields@[i]@,
{
    lemma_fields_view(s, s.fields.len() as int);
    assert(s.fields@.subrange(0, s.fields.len() as int) =~= s.fields@);
}

/// The names of `fields` are pairwise distinct.
pub open spec fn names_unique(fields: Seq<Field>) -> bool {
    forall|i: int, j: int|
        0 <= i < j < fields.len() ==> #[trigger] fields[i].name != #[trigger] fields[j].name
}

/// Position of the first field named `name` at or after `i`, or -1.
pub open spec fn index_of_from(fields: Seq<Field>, name: Seq<char>, i: int) -> int
    decreases fields.len() - i,
{
    if i < 0 || i >= fields.len() {
        -1
    } else if fields[i].name == name {
        i
    } else {
        index_of_from(fields, name, i + 1)
    }
}

/// Position of the first field named `name`, or -1.
pub open spec fn index_of(fields: Seq<Field>, name: Seq<char>) -> int {
    index_of_from(fields, name, 0)
}

pub proof fn lemma_index_of_from(fields: Seq<Field>, name: Seq<char>, i: int)
    requires
        0 <= i,
    ensures
        index_of_from(fields, name, i) == -1 || (i <= index_of_from(fields, name, i)
            < fields.len() && fields[index_of_from(fields, name, i)].name == name),
        index_of_from(fields, name, i) == -1 <==> forall|k: int|
            i <= k < fields.len() ==> #[trigger] fields[k].name != name,
        index_of_from(fields, name, i) != -1 ==> forall|k: int|
            i <= k < index_of_from(fields, name, i) ==> #[trigger] fields[k].name != name,
    decreases fields.len() - i,
{
    if i < fields.len() && fields[i].name != name {
        lemma_index_of_from(fields, name, i + 1);
    }
}

/// The projection of `fields` onto `names`: the first field of each name, in the order of
/// `names`; `None` if some name has no field.
pub open spec fn project_spec(fields: Seq<Field>, names: Seq<Seq<char>>) -> Option<Seq<Field>> {
    if forall|i: int| 0 <= i < names.len() ==> index_of(fields, #[trigger] names[i]) != -1 {
        Some(names.map_values(|n: Seq<char>| fields[index_of(fields, n)]))
    } else {
        None
    }
}

impl Clone for DataType {
    fn clone(&self) -> (r: Self)
        ensures
            r@ == self@,
        decreases self, 0int,
    {
        match self {
            DataType::Primitive(p) => DataType::Primitive(*p),
            DataType::Array(a) => DataType::Array(
                Box::new(
                    ArrayType {
                        element_type: a.element_type.clone(),
                        contains_null: a.contains_null,
                    },
                ),
            ),
            DataType::Mapping(m) => DataType::Mapping(
                Box::new(
                    MapType {
                        key_type: m.key_type.clone(),
                        value_type: m.value_type.clone(),
                        value_contains_null: m.value_contains_null,
                    },
                ),
            ),
            DataType::Struct(s) => {
                let c: StructType = (**s).clone();
                DataType::Struct(Box::new(c))
            },
        }
    }
}

impl Clone for StructField {
    fn clone(&self) -> (r: Self)
        ensures
            r@ == self@,
        decreases self, 0int,
    {
        StructField {
            name: self.name.clone(),
            data_type: self.data_type.clone(),
            nullable: self.nullable,
        }
    }
}

impl Clone for StructType {
    fn clone(&self) -> (r: Self)
        ensures
            r@ == self@,
        decreases self, 0int,
    {
        let mut fields: Vec<StructField> = Vec::new();
        let mut i: usize = 0;
        while i < self.fields.len()
            invariant
                i <= self.fields.len(),
                fields@.len() == i,
                forall|k: int| 0 <= k < i ==> #[trigger] fields@[k]@ == self.fields@[k]@,
            decreases self.fields.len() - i,
        {
            let f = self.fields[i].clone();
            fields.push(f);
            i = i + 1;
        }
        let r = StructType { fields };
        proof {
            lemma_struct_view(r);
            lemma_struct_view(*self);
            assert(r@ =~= self@);
        }
        r
    }
}

impl ArrayType {
    pub fn new(element_type: DataType, contains_null: bool) -> (r: DataType)
        ensures
            r@ == Ty::Array(Box::new(element_type@), contains_null),
    {
        DataType::Array(Box::new(ArrayType { element_type, contains_null }))
    }
}

impl MapType {
    pub fn new(key_type: DataType, value_type: DataType, value_contains_null: bool) -> (r:
        DataType)
        ensures
            r@ == Ty::Mapping(Box::new(key_type@), Box::new(value_type@), value_contains_null),
    {
        DataType::Mapping(Box::new(MapType { key_type, value_type, value_contains_null }))
    }
}

impl StructField {
    pub fn new(name: &str, data_type: DataType, nullable: bool) -> (r: StructField)
        ensures
            r@ == (Field { name: name@, ty: data_type@, nullable }),
    {
        StructField { name: String::from_str(name), data_type, nullable }
    }

    pub fn is_nullable(&self) -> (r: bool)
        ensures
            r == self.nullable,
    {
        self.nullable
    }
}

impl StructType {
    /// Wraps `fields` as they are, in their order.
    pub fn new(fields: Vec<StructField>) -> (r: StructType)
        ensures
            r@ == field_views(fields@),
    {
        let r = StructType { fields };
        proof {
            lemma_struct_view(r);
        }
        r
    }

    /// Builds a struct from `fields`, refusing a list in which two fields share a name.
    pub fn try_new(fields: Vec<StructField>) -> (r: Result<StructType, Error>)
        ensures
            names_unique(field_views(fields@)) <==> r is Ok,
            r matches Ok(s) ==> s@ == field_views(fields@),
            r matches Err(e) ==> e is DuplicateField && exists|i: int, j: int|
                0 <= i < j < fields@.len() && fields@[i].name@ == fields@[j].name@
                    && e->DuplicateField_0@ == fields@[j].name@,
    {
        let n = fields.len();
        let mut j: usize = 1;
        while j < n
            invariant
                n == fields@.len(),
                1 <= j,
                forall|a: int, b: int|
                    0 <= a < b < j && b < n ==> #[trigger] fields@[a].name@
                        != #[trigger] fields@[b].name@,
            decreases n - j,
        {
            let mut i: usize = 0;
            while i < j
                invariant
                    n == fields@.len(),
                    1 <= j < n,
                    i <= j,
                    forall|a: int, b: int|
                        0 <= a < b < j ==> #[trigger] fields@[a].name@
                            != #[trigger] fields@[b].name@,
                    forall|a: int| 0 <= a < i ==> #[trigger] fields@[a].name@ != fields@[j as int].name@,
                decreases j - i,
            {
                if fields[i].name == fields[j].name {
                    proof {
                        let v = field_views(fields@);
                        assert(v[i as int].name == v[j as int].name);
                    }
                    return Err(Error::DuplicateField(fields[j].name.clone()));
                }
                i = i + 1;
            }
            j = j + 1;
        }
        proof {
            let v = field_views(fields@);
            assert forall|a: int, b: int| 0 <= a < b < v.len() implies #[trigger] v[a].name
                != #[trigger] v[b].name by {
                assert(v[a].name == fields@[a].name@);
                assert(v[b].name == fields@[b].name@);
            }
        }
        Ok(StructType::new(fields))
    }

    /// Position of the first field named `name`.
    pub fn index_of(&self, name: &str) -> (r: Option<usize>)
        ensures
            r matches Some(k) ==> index_of(self@, name@) == k as int && k < self.fields@.len(),
            r is None <==> index_of(self@, name@) == -1,
    {
        proof {
            lemma_struct_view(*self);
            lemma_index_of_from(self@, name@, 0);
        }
        let key = String::from_str(name);
        let mut i: usize = 0;
        while i < self.fields.len()
            invariant
                key@ == name@,
                i <= self.fields.len(),
                self@.len() == self.fields@.len(),
                forall|k: int| 0 <= k < self.fields@.len() ==> #[trigger] self@[k] == self.fields@[k]@,
                forall|k: int| 0 <= k < i ==> #[trigger] self@[k].name != name@,
            decreases self.fields.len() - i,
        {
            if self.fields[i].name == key {
                proof {
                    lemma_index_of_from(self@, name@, i as int);
                    reveal_with_fuel(index_of_from, 2);
                    index_of_skips(self@, name@, i as int);
                }
                return Some(i);
            }
            i = i + 1;
        }
        None
    }

    /// The field named `name`, if any.
    pub fn field(&self, name: &str) -> (r: Option<&StructField>)
        ensures
            r matches Some(f) ==> index_of(self@, name@) != -1 && f@ == self@[index_of(
                self@,
                name@,
            )],
            r is None <==> index_of(self@, name@) == -1,
    {
        proof {
            lemma_struct_view(*self);
        }
        match self.index_of(name) {
            Some(k) => Some(&self.fields[k]),
            None => None,
        }
    }

    /// A new struct holding, in the order of `names`, the field of each name; fails with
    /// `MissingField` naming the first name that has no field.
    pub fn project(&self, names: &[&str]) -> (r: Result<StructType, Error>)
        ensures
            project_spec(self@, names@.map_values(|n: &str| n@)) matches Some(p) ==> (r matches Ok(
                s,
            ) && s@ == p),
            project_spec(self@, names@.map_values(|n: &str| n@)) is None ==> (r matches Err(e)
                && e is MissingField && exists|i: int|
                0 <= i < names@.len() && index_of(self@, names@[i]@) == -1
                    && e->MissingField_0@ == names@[i]@),
    {
        let ghost ns = names@.map_values(|n: &str| n@);
        let mut fields: Vec<StructField> = Vec::new();
        let mut i: usize = 0;
        proof {
            lemma_struct_view(*self);
        }
        while i < names.len()
            invariant
                i <= names@.len(),
                ns == names@.map_values(|n: &str| n@),
                fields@.len() == i,
                forall|k: int| 0 <= k < i ==> index_of(self@, #[trigger] ns[k]) != -1,
                forall|k: int|
                    0 <= k < i ==> #[trigger] fields@[k]@ == self@[index_of(self@, ns[k])],
            decreases names@.len() - i,
        {
            match self.field(names[i]) {
                Some(f) => {
                    fields.push(f.clone());
                },
                None => {
                    proof {
                        assert(ns[i as int] == names@[i as int]@);
                        assert(index_of(self@, ns[i as int]) == -1);
                    }
                    return Err(Error::MissingField(String::from_str(names[i])));
                },
            }
            i = i + 1;
        }
        let r = StructType::new(fields);
        proof {
            assert(r@ =~= ns.map_values(|n: Seq<char>| self@[index_of(self@, n)]));
        }
        Ok(r)
    }
}

proof fn index_of_skips(fields: Seq<Field>, name: Seq<char>, i: int)
    requires
        0 <= i < fields.len(),
        fields[i].name == name,
        forall|k: int| 0 <= k < i ==> #[trigger] fields[k].name != name,
    ensures
        index_of(fields, name) == i,
    decreases i,
{
    skip_to(fields, name, 0, i);
}

proof fn skip_to(fields: Seq<Field>, name: Seq<char>, j: int, i: int)
    requires
        0 <= j <= i < fields.len(),
        fields[i].name == name,
        forall|k: int| 0 <= k < i ==> #[trigger] fields[k].name != name,
    ensures
        index_of_from(fields, name, j) == i,
    decreases i - j,
{
    if j < i {
        skip_to(fields, name, j + 1, i);
    }
}

} // verus!

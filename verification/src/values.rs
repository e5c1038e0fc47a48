//! The evaluated counterpart of the term model: values, type values and
//! records, parametrised by an extension payload `P` so that externally owned
//! values can flow through the core without it knowing their shape.

use vstd::prelude::*;

use crate::term::Key;
use crate::term::KeyV;
use crate::term::PrimType;
use crate::term::PrimV;
use crate::term::Primitive;
use crate::term::Term;
use crate::term::TermV;
use crate::term::view_term;

verus! {

/// A metavariable token minted by a session's arena; only meaningful within
/// the arena that created it.
#[derive(Debug, Clone, Copy, PartialEq, Eq, Hash, Structural)]
pub struct VarIdx(pub usize);

/// One named field of a record value.
#[derive(Debug, PartialEq, Eq)]
pub struct Field<P> {
    pub name: Key,
    pub value: Value<P>,
}

/// An ordered sequence of named fields. Insertion order is preserved and
/// names need not be unique; projection resolves by first match.
#[derive(Debug, PartialEq, Eq)]
pub struct Record<P> {
    pub fields: Vec<Field<P>>,
}

/// One named field of a record type.
#[derive(Debug, PartialEq, Eq)]
pub struct TypeField<P> {
    pub name: Key,
    pub typ: Value<P>,
}

/// A type in evaluated (normal) form. Record types keep their field types as
/// values, since field types may be arbitrary evaluated terms.
#[derive(Debug, PartialEq, Eq)]
pub enum TypeValue<P> {
    Prim(PrimType),
    Function { dom: Box<Value<P>>, codom: Box<Value<P>> },
    Record { fields: Vec<TypeField<P>> },
}

/// An evaluated term.
#[derive(Debug, PartialEq, Eq)]
pub enum Value<P> {
    Prim(Primitive),
    /// Types are first-class values.
    Type(TypeValue<P>),
    /// An unresolved type placeholder, owned by a checking session's arena.
    Variable(VarIdx),
    Record(Record<P>),
    /// A closure: evaluated domain type paired with the unevaluated body.
    Lambda { dom: Box<Value<P>>, body: Box<Term> },
    /// A deferred term paired with its captured context; evaluated only when
    /// explicitly forced.
    Boxed { context: Box<Value<P>>, term: Box<Term> },
    /// An opaque payload owned by an installed extension.
    External(P),
}

/// Mathematical view of a [`Field`].
pub struct FieldV<P> {
    pub name: KeyV,
    pub value: ValueV<P>,
}

/// Mathematical view of a [`TypeField`].
pub struct TypeFieldV<P> {
    pub name: KeyV,
    pub typ: ValueV<P>,
}

/// Mathematical view of a [`TypeValue`].
pub enum TypeValueV<P> {
    Prim(PrimType),
    Function { dom: Box<ValueV<P>>, codom: Box<ValueV<P>> },
    Record(Seq<TypeFieldV<P>>),
}

/// Mathematical view of a [`Value`].
pub enum ValueV<P> {
    Prim(PrimV),
    Type(TypeValueV<P>),
    Variable(VarIdx),
    Record(Seq<FieldV<P>>),
    Lambda { dom: Box<ValueV<P>>, body: TermV },
    Boxed { context: Box<ValueV<P>>, term: TermV },
    External(P),
}

/// View of a value.
pub open spec fn view_value<P>(v: Value<P>) -> ValueV<P>
    decreases v,
{
    match v {
        Value::Prim(p) => ValueV::Prim(p@),
        Value::Type(tv) => ValueV::Type(view_type_value(tv)),
        Value::Variable(x) => ValueV::Variable(x),
        Value::Record(r) => ValueV::Record(view_fields(r.fields@)),
        Value::Lambda { dom, body } => ValueV::Lambda {
            dom: Box::new(view_value(*dom)),
            body: view_term(*body),
        },
        Value::Boxed { context, term } => ValueV::Boxed {
            context: Box::new(view_value(*context)),
            term: view_term(*term),
        },
        Value::External(p) => ValueV::External(p),
    }
}

/// View of a sequence of record fields.
pub open spec fn view_fields<P>(s: Seq<Field<P>>) -> Seq<FieldV<P>>
    decreases s,
{
    if s.len() == 0 {
        Seq::empty()
    } else {
        seq![view_field(s[0])] + view_fields(s.drop_first())
    }
}

/// View of one record field.
pub open spec fn view_field<P>(f: Field<P>) -> FieldV<P>
    decreases f,
{
    FieldV { name: f.name@, value: view_value(f.value) }
}

/// View of a type value.
pub open spec fn view_type_value<P>(tv: TypeValue<P>) -> TypeValueV<P>
    decreases tv,
{
    match tv {
        TypeValue::Prim(p) => TypeValueV::Prim(p),
        TypeValue::Function { dom, codom } => TypeValueV::Function {
            dom: Box::new(view_value(*dom)),
            codom: Box::new(view_value(*codom)),
        },
        TypeValue::Record { fields } => TypeValueV::Record(view_type_fields(fields@)),
    }
}

/// View of a sequence of record-type fields.
pub open spec fn view_type_fields<P>(s: Seq<TypeField<P>>) -> Seq<TypeFieldV<P>>
    decreases s,
{
    if s.len() == 0 {
        Seq::empty()
    } else {
        seq![view_type_field(s[0])] + view_type_fields(s.drop_first())
    }
}

/// View of one record-type field.
pub open spec fn view_type_field<P>(f: TypeField<P>) -> TypeFieldV<P>
    decreases f,
{
    TypeFieldV { name: f.name@, typ: view_value(f.typ) }
}

impl<P> View for Value<P> {
    type V = ValueV<P>;

    open spec fn view(&self) -> ValueV<P> {
        view_value(*self)
    }
}

impl<P> View for Record<P> {
    type V = Seq<FieldV<P>>;

    open spec fn view(&self) -> Seq<FieldV<P>> {
        view_fields(self.fields@)
    }
}

impl<P> View for Field<P> {
    type V = FieldV<P>;

    open spec fn view(&self) -> FieldV<P> {
        view_field(*self)
    }
}

impl<P> View for TypeValue<P> {
    type V = TypeValueV<P>;

    open spec fn view(&self) -> TypeValueV<P> {
        view_type_value(*self)
    }
}

impl<P> View for TypeField<P> {
    type V = TypeFieldV<P>;

    open spec fn view(&self) -> TypeFieldV<P> {
        view_type_field(*self)
    }
}

/// The view of a field sequence is pointwise: same length, each element the
/// view of the corresponding field.
pub proof fn lemma_view_fields<P>(s: Seq<Field<P>>)
    ensures
        view_fields(s).len() == s.len(),
        forall|i: int| 0 <= i < s.len() ==> #[trigger] view_fields(s)[i] == view_field(s[i]),
    decreases s,
{
    if s.len() > 0 {
        lemma_view_fields(s.drop_first());
    }
}

/// The view of a type-field sequence is pointwise.
pub proof fn lemma_view_type_fields<P>(s: Seq<TypeField<P>>)
    ensures
        view_type_fields(s).len() == s.len(),
        forall|i: int|
            0 <= i < s.len() ==> #[trigger] view_type_fields(s)[i] == view_type_field(s[i]),
    decreases s,
{
    if s.len() > 0 {
        lemma_view_type_fields(s.drop_first());
    }
}

/// Field-sequence views distribute over concatenation.
pub proof fn lemma_view_fields_concat<P>(s1: Seq<Field<P>>, s2: Seq<Field<P>>)
    ensures
        view_fields(s1 + s2) == view_fields(s1) + view_fields(s2),
{
    lemma_view_fields(s1);
    lemma_view_fields(s2);
    lemma_view_fields(s1 + s2);
    assert(view_fields(s1 + s2) =~= view_fields(s1) + view_fields(s2));
}

impl<P: Copy> Clone for Field<P> {
    /// Cloning keeps the field's view.
    fn clone(&self) -> (r: Self)
        ensures
            r@ == self@,
        decreases self,
    {
        Field { name: self.name.clone(), value: self.value.clone() }
    }
}

impl<P: Copy> Clone for Record<P> {
    /// Cloning keeps the record's view.
    fn clone(&self) -> (r: Self)
        ensures
            r@ == self@,
        decreases self,
    {
        Record { fields: clone_fields(&self.fields) }
    }
}

/// Clones a field vector, keeping its view.
fn clone_fields<P: Copy>(fields: &Vec<Field<P>>) -> (r: Vec<Field<P>>)
    ensures
        view_fields(r@) == view_fields(fields@),
    decreases fields,
{
    let mut out: Vec<Field<P>> = Vec::new();
    let mut i: usize = 0;
    while i < fields.len()
        invariant
            i <= fields.len(),
            out@.len() == i,
            forall|j: int| 0 <= j < i ==> #[trigger] view_field(out@[j]) == view_field(fields@[j]),
        decreases fields@.len() - i,
    {
        proof {
            assert(decreases_to!(fields => fields@[i as int]));
        }
        let f = &fields[i];
        out.push(f.clone());
        i = i + 1;
    }
    proof {
        lemma_view_fields(out@);
        lemma_view_fields(fields@);
        assert(view_fields(out@) =~= view_fields(fields@));
    }
    out
}

/// Clones a type-field vector, keeping its view.
fn clone_type_fields<P: Copy>(fields: &Vec<TypeField<P>>) -> (r: Vec<TypeField<P>>)
    ensures
        view_type_fields(r@) == view_type_fields(fields@),
    decreases fields,
{
    let mut out: Vec<TypeField<P>> = Vec::new();
    let mut i: usize = 0;
    while i < fields.len()
        invariant
            i <= fields.len(),
            out@.len() == i,
            forall|j: int|
                0 <= j < i ==> #[trigger] view_type_field(out@[j]) == view_type_field(fields@[j]),
        decreases fields@.len() - i,
    {
        proof {
            assert(decreases_to!(fields => fields@[i as int]));
        }
        let f = &fields[i];
        out.push(f.clone());
        i = i + 1;
    }
    proof {
        lemma_view_type_fields(out@);
        lemma_view_type_fields(fields@);
        assert(view_type_fields(out@) =~= view_type_fields(fields@));
    }
    out
}

impl<P: Copy> Clone for TypeField<P> {
    /// Cloning keeps the field's view.
    fn clone(&self) -> (r: Self)
        ensures
            r@ == self@,
        decreases self,
    {
        TypeField { name: self.name.clone(), typ: self.typ.clone() }
    }
}

impl<P: Copy> Clone for TypeValue<P> {
    /// Cloning keeps the type value's view.
    fn clone(&self) -> (r: Self)
        ensures
            r@ == self@,
        decreases self,
    {
        match self {
            TypeValue::Prim(p) => TypeValue::Prim(*p),
            TypeValue::Function { dom, codom } => TypeValue::Function {
                dom: Box::new((**dom).clone()),
                codom: Box::new((**codom).clone()),
            },
            TypeValue::Record { fields } => TypeValue::Record {
                fields: clone_type_fields(fields),
            },
        }
    }
}

impl<P: Copy> Clone for Value<P> {
    /// Cloning keeps the value's view.
    fn clone(&self) -> (r: Self)
        ensures
            r@ == self@,
        decreases self,
    {
        match self {
            Value::Prim(p) => Value::Prim(p.clone()),
            Value::Type(tv) => Value::Type(tv.clone()),
            Value::Variable(x) => Value::Variable(*x),
            Value::Record(rec) => Value::Record(rec.clone()),
            Value::Lambda { dom, body } => Value::Lambda {
                dom: Box::new((**dom).clone()),
                body: Box::new((**body).clone()),
            },
            Value::Boxed { context, term } => Value::Boxed {
                context: Box::new((**context).clone()),
                term: Box::new((**term).clone()),
            },
            Value::External(p) => Value::External(*p),
        }
    }
}

/// Where a projection key resolves in a field sequence: a name key resolves
/// to the first field with that name, an index key to the field at that
/// position, whatever its name.
pub open spec fn lookup_spec<P>(fields: Seq<FieldV<P>>, k: KeyV) -> Option<ValueV<P>>
    decreases fields.len(),
{
    match k {
        KeyV::Index(i) => if 0 <= i < fields.len() {
            Some(fields[i].value)
        } else {
            None
        },
        KeyV::Name(_) => if fields.len() == 0 {
            None
        } else if Key::matches_spec(fields[0].name, k) {
            Some(fields[0].value)
        } else {
            lookup_spec(fields.drop_first(), k)
        },
    }
}

impl<P> Record<P> {
    /// A record with no fields.
    pub fn empty() -> (r: Self)
        ensures
            r@ == Seq::<FieldV<P>>::empty(),
    {
        Record { fields: Vec::new() }
    }

    /// Resolves a projection key: the first field with a matching name, or
    /// the field at the given position for an index key.
    pub fn get(&self, k: &Key) -> (r: Option<&Value<P>>)
        ensures
            match r {
                Some(v) => lookup_spec(self@, k@) == Some(v@),
                None => lookup_spec(self@, k@) is None,
            },
    {
        proof {
            lemma_view_fields(self.fields@);
        }
        match k {
            Key::Index(i) => {
                if *i < self.fields.len() {
                    Some(&self.fields[*i].value)
                } else {
                    None
                }
            },
            Key::Name(_) => {
                let mut j: usize = 0;
                while j < self.fields.len()
                    invariant
                        j <= self.fields@.len(),
                        view_fields(self.fields@).len() == self.fields@.len(),
                        forall|i: int|
                            0 <= i < self.fields@.len() ==> #[trigger] view_fields(
                                self.fields@,
                            )[i] == view_field(self.fields@[i]),
                        forall|i: int|
                            0 <= i < j ==> !Key::matches_spec(
                                #[trigger] view_fields(self.fields@)[i].name,
                                k@,
                            ),
                        k@ is Name,
                    decreases self.fields@.len() - j,
                {
                    if self.fields[j].name.matches(k) {
                        proof {
                            lemma_lookup_name(view_fields(self.fields@), k@, j as int);
                        }
                        return Some(&self.fields[j].value);
                    }
                    j = j + 1;
                }
                proof {
                    lemma_lookup_name(view_fields(self.fields@), k@, self.fields@.len() as int);
                }
                None
            },
        }
    }
}

/// Where the first `j` fields do not match a name key, lookup is decided by
/// what stands at position `j`.
pub proof fn lemma_lookup_name<P>(fields: Seq<FieldV<P>>, k: KeyV, j: int)
    requires
        k is Name,
        0 <= j <= fields.len(),
        forall|i: int| 0 <= i < j ==> !Key::matches_spec(#[trigger] fields[i].name, k),
    ensures
        j == fields.len() ==> lookup_spec(fields, k) is None,
        j < fields.len() && Key::matches_spec(fields[j].name, k) ==> lookup_spec(fields, k)
            == Some(fields[j].value),
    decreases j,
{
    if j == 0 {
    } else {
        assert(!Key::matches_spec(fields[0].name, k));
        lemma_lookup_name(fields.drop_first(), k, j - 1);
        assert(fields.drop_first().len() == fields.len() - 1);
        if j < fields.len() {
            assert(fields.drop_first()[j - 1] == fields[j]);
        }
    }
}

} // verus!

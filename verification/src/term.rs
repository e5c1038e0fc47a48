//! The term/type data model: the immutable AST consumed by checking and
//! evaluation, together with its mathematical view. Subtrees are uniquely
//! owned; cloning is structural and keeps the view, so callers may share
//! by cloning.

use vstd::prelude::*;

verus! {

/// Identifies a record field: by name, or by position for disambiguation.
#[derive(Debug, PartialEq, Eq, Hash)]
pub enum Key {
    Name(String),
    Index(usize),
}

/// Mathematical view of a [`Key`].
pub enum KeyV {
    Name(Seq<char>),
    Index(int),
}

impl View for Key {
    type V = KeyV;

    open spec fn view(&self) -> KeyV {
        match self {
            Key::Name(s) => KeyV::Name(s@),
            Key::Index(i) => KeyV::Index(*i as int),
        }
    }
}

impl Clone for Key {
    /// Cloning keeps the key's view.
    fn clone(&self) -> (r: Self)
        ensures
            r@ == self@,
    {
        match self {
            Key::Name(s) => Key::Name(s.clone()),
            Key::Index(i) => Key::Index(*i),
        }
    }
}

impl Key {
    /// Builds a name key from a string slice.
    pub fn name(s: &str) -> (r: Key)
        ensures
            r@ == KeyV::Name(s@),
    {
        Key::Name(s.to_string())
    }

    /// Whether two keys identify the same field.
    pub open spec fn matches_spec(a: KeyV, b: KeyV) -> bool {
        match (a, b) {
            (KeyV::Name(x), KeyV::Name(y)) => x == y,
            (KeyV::Index(x), KeyV::Index(y)) => x == y,
            _ => false,
        }
    }

    /// Decides whether two keys identify the same field.
    pub fn matches(&self, other: &Key) -> (r: bool)
        ensures
            r == Key::matches_spec(self@, other@),
    {
        match (self, other) {
            (Key::Name(x), Key::Name(y)) => *x == *y,
            (Key::Index(x), Key::Index(y)) => *x == *y,
            _ => false,
        }
    }
}

/// An atomic runtime datum.
#[derive(Debug, PartialEq, Eq, Hash)]
pub enum Primitive {
    Long(u64),
    Text(String),
}

/// Mathematical view of a [`Primitive`].
pub enum PrimV {
    Long(u64),
    Text(Seq<char>),
}

impl View for Primitive {
    type V = PrimV;

    open spec fn view(&self) -> PrimV {
        match self {
            Primitive::Long(n) => PrimV::Long(*n),
            Primitive::Text(s) => PrimV::Text(s@),
        }
    }
}

impl Clone for Primitive {
    /// Cloning keeps the primitive's view.
    fn clone(&self) -> (r: Self)
        ensures
            r@ == self@,
    {
        match self {
            Primitive::Long(n) => Primitive::Long(*n),
            Primitive::Text(s) => Primitive::Text(s.clone()),
        }
    }
}

/// The atomic type kinds.
#[derive(Debug, Clone, Copy, PartialEq, Eq, Hash, Structural)]
pub enum PrimType {
    Text,
    Long,
    Universe,
    Any,
}

/// The parametric type grammar. `GenType<Term>` is a syntactic type whose
/// sub-components are still terms needing evaluation.
#[derive(Debug, PartialEq, Eq, Hash)]
pub enum GenType<T> {
    Prim(PrimType),
    Field { name: Key, typ: Box<T> },
    Function { dom: Box<T>, codom: Box<T> },
    And { left: Box<T>, right: Box<T> },
}

/// A syntactic type: its domains, codomains and field types are terms.
pub type Type = GenType<Term>;

/// A type whose sub-components are themselves already types.
pub type NormalType = GenType<Type>;

/// The program AST. Terms are immutable once built.
#[derive(Debug, PartialEq, Eq, Hash)]
pub enum Term {
    /// Types are first-class terms.
    Type(Type),
    Prim(Primitive),
    /// The empty record.
    Empty,
    /// Record concatenation; both sides see the same context.
    Append { left: Box<Term>, right: Box<Term> },
    /// Singleton field binder.
    Bind { name: Key, value: Box<Term> },
    /// Field projection from the ambient context.
    Get(Key),
    /// Function abstraction: evaluated domain, lazy body.
    Lambda { dom: Box<Term>, body: Box<Term> },
    /// Function application marker, bound to its argument via `Then`.
    Unlambda(Box<Term>),
    /// Sequential context threading: `next` runs in `first`'s result.
    Then { first: Box<Term>, next: Box<Term> },
    /// Introspect the ambient context.
    Reflect,
    /// A deferred term, evaluated only when explicitly forced.
    Boxed(Box<Term>),
}

/// Mathematical view of a syntactic type.
pub enum TypeV {
    Prim(PrimType),
    Field { name: KeyV, typ: Box<TermV> },
    Function { dom: Box<TermV>, codom: Box<TermV> },
    And { left: Box<TermV>, right: Box<TermV> },
}

/// Mathematical view of a [`Term`].
pub enum TermV {
    Type(TypeV),
    Prim(PrimV),
    Empty,
    Append { left: Box<TermV>, right: Box<TermV> },
    Bind { name: KeyV, value: Box<TermV> },
    Get(KeyV),
    Lambda { dom: Box<TermV>, body: Box<TermV> },
    Unlambda(Box<TermV>),
    Then { first: Box<TermV>, next: Box<TermV> },
    Reflect,
    Boxed(Box<TermV>),
}

/// View of a syntactic type.
pub open spec fn view_type(t: Type) -> TypeV
    decreases t,
{
    match t {
        GenType::Prim(p) => TypeV::Prim(p),
        GenType::Field { name, typ } => TypeV::Field {
            name: name@,
            typ: Box::new(view_term(*typ)),
        },
        GenType::Function { dom, codom } => TypeV::Function {
            dom: Box::new(view_term(*dom)),
            codom: Box::new(view_term(*codom)),
        },
        GenType::And { left, right } => TypeV::And {
            left: Box::new(view_term(*left)),
            right: Box::new(view_term(*right)),
        },
    }
}

/// View of a term.
pub open spec fn view_term(t: Term) -> TermV
    decreases t,
{
    match t {
        Term::Type(ty) => TermV::Type(view_type(ty)),
        Term::Prim(p) => TermV::Prim(p@),
        Term::Empty => TermV::Empty,
        Term::Append { left, right } => TermV::Append {
            left: Box::new(view_term(*left)),
            right: Box::new(view_term(*right)),
        },
        Term::Bind { name, value } => TermV::Bind {
            name: name@,
            value: Box::new(view_term(*value)),
        },
        Term::Get(k) => TermV::Get(k@),
        Term::Lambda { dom, body } => TermV::Lambda {
            dom: Box::new(view_term(*dom)),
            body: Box::new(view_term(*body)),
        },
        Term::Unlambda(f) => TermV::Unlambda(Box::new(view_term(*f))),
        Term::Then { first, next } => TermV::Then {
            first: Box::new(view_term(*first)),
            next: Box::new(view_term(*next)),
        },
        Term::Reflect => TermV::Reflect,
        Term::Boxed(inner) => TermV::Boxed(Box::new(view_term(*inner))),
    }
}

impl View for Term {
    type V = TermV;

    open spec fn view(&self) -> TermV {
        view_term(*self)
    }
}

impl View for Type {
    type V = TypeV;

    open spec fn view(&self) -> TypeV {
        view_type(*self)
    }
}

impl Clone for Type {
    /// Cloning keeps the type's view.
    fn clone(&self) -> (r: Self)
        ensures
            r@ == self@,
        decreases self,
    {
        match self {
            GenType::Prim(p) => GenType::Prim(*p),
            GenType::Field { name, typ } => GenType::Field {
                name: name.clone(),
                typ: Box::new((**typ).clone()),
            },
            GenType::Function { dom, codom } => GenType::Function {
                dom: Box::new((**dom).clone()),
                codom: Box::new((**codom).clone()),
            },
            GenType::And { left, right } => GenType::And {
                left: Box::new((**left).clone()),
                right: Box::new((**right).clone()),
            },
        }
    }
}

impl Clone for Term {
    /// Cloning keeps the term's view.
    fn clone(&self) -> (r: Self)
        ensures
            r@ == self@,
        decreases self,
    {
        match self {
            Term::Type(ty) => Term::Type(ty.clone()),
            Term::Prim(p) => Term::Prim(p.clone()),
            Term::Empty => Term::Empty,
            Term::Append { left, right } => Term::Append {
                left: Box::new((**left).clone()),
                right: Box::new((**right).clone()),
            },
            Term::Bind { name, value } => Term::Bind {
                name: name.clone(),
                value: Box::new((**value).clone()),
            },
            Term::Get(k) => Term::Get(k.clone()),
            Term::Lambda { dom, body } => Term::Lambda {
                dom: Box::new((**dom).clone()),
                body: Box::new((**body).clone()),
            },
            Term::Unlambda(f) => Term::Unlambda(Box::new((**f).clone())),
            Term::Then { first, next } => Term::Then {
                first: Box::new((**first).clone()),
                next: Box::new((**next).clone()),
            },
            Term::Reflect => Term::Reflect,
            Term::Boxed(inner) => Term::Boxed(Box::new((**inner).clone())),
        }
    }
}

impl Default for Term {
    /// The default term is the empty record.
    fn default() -> (r: Self)
        ensures
            r@ == TermV::Empty,
    {
        Term::Empty
    }
}

impl Term {
    /// Projects the field `name` out of the ambient context.
    pub fn get(name: &str) -> (r: Term)
        ensures
            r@ == TermV::Get(KeyV::Name(name@)),
    {
        Term::Get(Key::name(name))
    }

    /// Applies `func` to `args`: the argument is evaluated first and becomes
    /// the context in which the function body runs.
    pub fn apply(func: Term, args: Term) -> (r: Term)
        ensures
            r@ == (TermV::Then {
                first: Box::new(args@),
                next: Box::new(TermV::Unlambda(Box::new(func@))),
            }),
    {
        let r = Term::Then {
            first: Box::new(args),
            next: Box::new(Term::Unlambda(Box::new(func))),
        };
        proof {
            assert(view_term(Term::Unlambda(Box::new(func))) == TermV::Unlambda(
                Box::new(view_term(func)),
            ));
        }
        r
    }
}

} // verus!

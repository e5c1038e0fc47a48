//! A small, embeddable term calculus: records, field projection, functions,
//! context-sequencing, and a composable extension mechanism.
//!
//! The crate is organised leaves-first:
//! - [`term`]: the immutable term/type syntax consumed by checking and evaluation.
//! - [`values`]: the evaluated counterpart, parametrised by an extension payload.
//! - [`eval`]: the context-threading interpreter, with its laws.
//! - [`checking`]: the bidirectional type checker with metavariable unification.
//! - [`prism`]: reversible partial embeddings between a tagged union and one case.
//! - [`plugins`]: the extension algebra built on prisms and pairwise unions.
//! - [`runtime`]: one checking/evaluation session owning the metavariable arena.
//! - [`to_term`]: construction helpers lifting plain data into terms.
//! - [`escape`]: decoding of the surface syntax's character tokens.

pub mod checking;
pub mod escape;
pub mod eval;
pub mod plugins;
pub mod prism;
pub mod runtime;
pub mod term;
pub mod to_term;
pub mod values;

pub use checking::TypeChecking;
pub use checking::TypeError;
pub use escape::decode_char;
pub use eval::EvalError;
pub use eval::evaluate;
pub use eval::force;
pub use plugins::CalcPlugin;
pub use plugins::Calculate;
pub use plugins::EmptyPlugin;
pub use plugins::NoValue;
pub use plugins::PairPlugin;
pub use plugins::Plugin;
pub use prism::Compose;
pub use prism::Prism;
pub use prism::ToLeft;
pub use prism::ToRight;
pub use prism::Union;
pub use runtime::Runtime;
pub use term::GenType;
pub use term::Key;
pub use term::PrimType;
pub use term::Primitive;
pub use term::Term;
pub use term::NormalType;
pub use term::Type;
pub use to_term::AsTyp;
pub use to_term::ToTerm;
pub use to_term::and_chain;
pub use to_term::append_chain;
pub use values::Field;
pub use values::Record;
pub use values::TypeField;
pub use values::TypeValue;
pub use values::Value;
pub use values::VarIdx;

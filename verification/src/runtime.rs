//! One checking/evaluation session: owns the metavariable arena and routes
//! extension-owned operations to the installed extension. A failed check
//! discards the whole arena, since a failed unification may have left
//! speculative bindings behind and there is no partial rollback.

use vstd::prelude::*;

use crate::checking::TypeChecking;
use crate::checking::TypeError;
use crate::checking::check_spec;
use crate::eval::EvalError;
use crate::eval::EvalErrorV;
use crate::eval::eval_spec;
use crate::eval::evaluate;
use crate::plugins::Plugin;
use crate::term::Term;
use crate::values::Value;
use crate::values::ValueV;
use crate::values::VarIdx;

verus! {

/// A session: checking state plus evaluation entry points.
#[derive(Debug)]
pub struct Runtime<P> {
    checking: TypeChecking<P>,
}

impl<P> View for Runtime<P> {
    type V = Seq<Option<ValueV<P>>>;

    closed spec fn view(&self) -> Seq<Option<ValueV<P>>> {
        self.checking@
    }
}

impl<P: Copy> Runtime<P> {
    /// Opens a session with an empty metavariable arena.
    pub fn new() -> (r: Self)
        ensures
            r@ == Seq::<Option<ValueV<P>>>::empty(),
    {
        Runtime { checking: TypeChecking::new() }
    }

    /// Mints a fresh metavariable scoped to this session.
    pub fn new_var(&mut self) -> (r: VarIdx)
        ensures
            final(self)@ == old(self)@.push(None),
            r.0 == old(self)@.len(),
    {
        self.checking.new_var()
    }

    /// Checks a term against an expected type. On success the arena keeps
    /// the bindings the check made; on failure the whole arena is
    /// discarded, so later checks never see speculative bindings.
    pub fn check(&mut self, term: &Term, context: &Value<P>, expected: &Value<P>, fuel: u64) -> (r:
        Result<Value<P>, TypeError<P>>)
        ensures
            ({
                let (ar2, rr) = check_spec(old(self)@, term@, context@, expected@, fuel as nat);
                match (r, rr) {
                    (Ok(v), Ok(w)) => v@ == w && final(self)@ == ar2,
                    (Err(e), Err(w)) => e@ == w && final(self)@ == Seq::<
                        Option<ValueV<P>>,
                    >::empty(),
                    _ => false,
                }
            }),
    {
        match self.checking.check(term, context, expected, fuel) {
            Ok(v) => Ok(v),
            Err(e) => {
                self.checking = TypeChecking::new();
                Err(e)
            },
        }
    }

    /// Evaluates a term under an ambient context.
    pub fn evaluate(&self, term: &Term, context: &Value<P>, fuel: u64) -> (r: Result<
        Value<P>,
        EvalError,
    >)
        ensures
            (match r {
                Ok(v) => eval_spec(term@, context@, fuel as nat) == Ok::<ValueV<P>, EvalErrorV>(
                    v@,
                ),
                Err(e) => eval_spec(term@, context@, fuel as nat) == Err::<ValueV<P>, EvalErrorV>(
                    e@,
                ),
            }),
    {
        evaluate(term, context, fuel)
    }

    /// Routes an extension-owned operation to the installed extension,
    /// surfacing inapplicability as an evaluation error.
    pub fn run_own<Pl: Plugin<Val = P>>(plugin: &mut Pl, context: Value<P>, op: Pl::Own) -> (r:
        Result<Value<P>, EvalError>)
        ensures
            ({
                let (s2, out) = old(plugin).dispatch_spec(context@, op);
                *final(plugin) == s2 && (match (r, out) {
                    (Ok(v), Ok(w)) => v@ == w,
                    (Err(e), Err(_)) => e@ == EvalErrorV::PluginInapplicable,
                    _ => false,
                })
            }),
    {
        match plugin.dispatch(context, op) {
            Ok(v) => Ok(v),
            Err(()) => Err(EvalError::PluginInapplicable),
        }
    }
}

} // verus!

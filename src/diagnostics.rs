use vstd::prelude::*;
use source_map::Span;
use crate::types::{FunctionId, TypeId, TypeStore};

verus! {

/// An advisory produced by a call that succeeded.
#[derive(Clone, Copy, Debug, PartialEq, Eq, Structural)]
pub enum InfoDiagnostic {
    /// The intrinsic function was evaluated at check time.
    IntrinsicEvaluated(FunctionId),
}

/// Why a call was rejected.
#[derive(Debug)]
pub enum FunctionCallingError {
    /// The callee has no function shape and no constraint that gives it one.
    NotCallable { calling: String, call_site: Span },
    /// The number of arguments differs from the number of parameters.
    MismatchedArgumentCount { expected: usize, found: usize, call_site: Span },
    /// The argument at `index` is not assignable to its parameter.
    InvalidArgumentType { index: usize, parameter_type: TypeId, argument_type: TypeId, position: Span },
    /// The callee's constraint is still being inferred and is not the universal type.
    UnsupportedConstraint { constraint: TypeId, call_site: Span },
}

/// The mathematical value of a [`FunctionCallingError`].
pub enum CallingErrorView {
    NotCallable { calling: Seq<char>, call_site: Span },
    MismatchedArgumentCount { expected: nat, found: nat, call_site: Span },
    InvalidArgumentType { index: nat, parameter_type: TypeId, argument_type: TypeId, position: Span },
    UnsupportedConstraint { constraint: TypeId, call_site: Span },
}

impl View for FunctionCallingError {
    type V = CallingErrorView;

    open spec fn view(&self) -> CallingErrorView {
        match self {
            FunctionCallingError::NotCallable { calling, call_site } => CallingErrorView::NotCallable {
                calling: calling@,
                call_site: *call_site,
            },
            FunctionCallingError::MismatchedArgumentCount { expected, found, call_site } =>
                CallingErrorView::MismatchedArgumentCount {
                expected: *expected as nat,
                found: *found as nat,
                call_site: *call_site,
            },
            FunctionCallingError::InvalidArgumentType { index, parameter_type, argument_type, position } =>
                CallingErrorView::InvalidArgumentType {
                index: *index as nat,
                parameter_type: *parameter_type,
                argument_type: *argument_type,
                position: *position,
            },
            FunctionCallingError::UnsupportedConstraint { constraint, call_site } =>
                CallingErrorView::UnsupportedConstraint { constraint: *constraint, call_site: *call_site },
        }
    }
}

/// The values of a batch of errors, in order.
pub open spec fn errors_view(errors: Seq<FunctionCallingError>) -> Seq<CallingErrorView> {
    errors.map_values(|e: FunctionCallingError| e@)
}

/// A positioned diagnostic.
#[derive(Debug)]
pub enum Diagnostic {
    Info { reason: InfoDiagnostic, position: Span },
    Error(FunctionCallingError),
}

/// The state of a checking pass that call resolution reports into: the type
/// arena, the diagnostics emitted so far and the set of functions actually invoked.
pub struct CheckingData {
    pub types: TypeStore,
    pub diagnostics: Vec<Diagnostic>,
    pub called_functions: Vec<FunctionId>,
}

impl CheckingData {
    pub open spec fn wf(&self) -> bool {
        self.called_functions@.no_duplicates()
    }

    /// The functions actually invoked, as a set.
    pub open spec fn called_set(&self) -> Set<FunctionId> {
        self.called_functions@.to_set()
    }

    pub fn new(types: TypeStore) -> (r: CheckingData)
        ensures
            r.wf(),
            r.types == types,
            r.diagnostics@.len() == 0,
            r.called_functions@.len() == 0,
    {
        CheckingData { types, diagnostics: Vec::new(), called_functions: Vec::new() }
    }

    pub fn has_called(&self, id: FunctionId) -> (r: bool)
        ensures
            r == self.called_functions@.contains(id),
    {
        let mut i: usize = 0;
        while i < self.called_functions.len()
            invariant
                i <= self.called_functions@.len(),
                forall|j: int| 0 <= j < i ==> self.called_functions@[j] != id,
            decreases self.called_functions@.len() - i,
        {
            if self.called_functions[i] == id {
                return true;
            }
            i += 1;
        }
        false
    }

    /// Records that `id` was invoked; the registry only ever grows.
    pub fn insert_called(&mut self, id: FunctionId)
        requires
            old(self).wf(),
        ensures
            final(self).wf(),
            final(self).called_set() == old(self).called_set().insert(id),
            final(self).types == old(self).types,
            final(self).diagnostics@ == old(self).diagnostics@,
    {
        if !self.has_called(id) {
            self.called_functions.push(id);
            assert(self.called_functions@.to_set() =~= old(self).called_functions@.to_set().insert(id)) by {
                assert(self.called_functions@ == old(self).called_functions@.push(id));
                old(self).called_functions@.lemma_push_to_set_commute(id)
            }
        } else {
            assert(old(self).called_set().insert(id) =~= old(self).called_set());
        }
    }
}

} // verus!

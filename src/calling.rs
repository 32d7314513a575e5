use vstd::prelude::*;
use source_map::Span;
use crate::context::{CalledWithNew, CallingTiming, Environment, Event, InferenceBoundary, PolyBase, fixed_rank, lemma_constraints_stay_within, ranked_by};
use crate::diagnostics::{CallingErrorView, CheckingData, Diagnostic, FunctionCallingError, InfoDiagnostic, errors_view};
use crate::types::{
    ANY_TYPE, Constructor, ERROR_TYPE, FunctionId, FunctionKind, FunctionNature, FunctionType,
    NULL_FUNCTION, SynthesizedArgument, SynthesizedParameter, Type, TypeId, TypeStore,
};

verus! {

/// The outcome of a call that succeeded.
#[derive(Debug)]
pub struct FunctionCallResult {
    pub returned_type: TypeId,
    pub warnings: Vec<InfoDiagnostic>,
    /// The function actually invoked, if the call reached one.
    pub called: Option<FunctionId>,
}

pub struct CallResultView {
    pub returned_type: TypeId,
    pub warnings: Seq<InfoDiagnostic>,
    pub called: Option<FunctionId>,
}

impl View for FunctionCallResult {
    type V = CallResultView;

    open spec fn view(&self) -> CallResultView {
        CallResultView { returned_type: self.returned_type, warnings: self.warnings@, called: self.called }
    }
}

pub type CallOutcome = Result<CallResultView, Seq<CallingErrorView>>;

pub open spec fn outcome_view(r: Result<FunctionCallResult, Vec<FunctionCallingError>>) -> CallOutcome {
    match r {
        Ok(c) => Ok(c@),
        Err(e) => Err(errors_view(e@)),
    }
}

/// A success with no warnings and no invoked function.
pub open spec fn plain_result(returned_type: TypeId) -> CallOutcome {
    Ok(CallResultView { returned_type, warnings: seq![], called: None })
}

/// An argument of type `argument` may be bound to a parameter of type `parameter`.
pub open spec fn assignable(parameter: TypeId, argument: TypeId) -> bool {
    parameter == ANY_TYPE || parameter == argument
}

/// The type errors of the first `n` arguments, in order.
pub open spec fn argument_errors(
    parameters: Seq<SynthesizedParameter>,
    arguments: Seq<SynthesizedArgument>,
    n: nat,
) -> Seq<CallingErrorView>
    decreases n,
{
    if n == 0 {
        seq![]
    } else {
        let i = (n - 1) as int;
        let before = argument_errors(parameters, arguments, (n - 1) as nat);
        if assignable(parameters[i].ty, arguments[i].spec_ty()) {
            before
        } else {
            before.push(
                CallingErrorView::InvalidArgumentType {
                    index: i as nat,
                    parameter_type: parameters[i].ty,
                    argument_type: arguments[i].spec_ty(),
                    position: arguments[i].spec_position(),
                },
            )
        }
    }
}

impl FunctionType {
    /// What binding `arguments` to this signature gives: an arity error, else one
    /// error per argument that its parameter does not accept, else the declared
    /// return type.
    pub open spec fn spec_call(&self, arguments: Seq<SynthesizedArgument>, call_site: Span) -> CallOutcome {
        let parameters = self.parameters@;
        if parameters.len() != arguments.len() {
            Err(
                seq![
                    CallingErrorView::MismatchedArgumentCount {
                        expected: parameters.len(),
                        found: arguments.len(),
                        call_site,
                    },
                ],
            )
        } else if argument_errors(parameters, arguments, arguments.len()).len() > 0 {
            Err(argument_errors(parameters, arguments, arguments.len()))
        } else {
            Ok(
                CallResultView {
                    returned_type: self.return_type,
                    warnings: if self.constant_id is Some {
                        seq![InfoDiagnostic::IntrinsicEvaluated(self.id)]
                    } else {
                        seq![]
                    },
                    called: if self.id == NULL_FUNCTION { None } else { Some(self.id) },
                },
            )
        }
    }

    /// Binds the arguments of a call to this signature. The receiver and explicit
    /// type arguments are accepted for the calling convention's sake; binding does
    /// not instantiate generics, so neither changes the outcome.
    pub fn call(
        &self,
        _called_with_new: CalledWithNew,
        _this_argument: Option<TypeId>,
        _call_site_type_arguments: &Option<Vec<(Span, TypeId)>>,
        arguments: &Vec<SynthesizedArgument>,
        call_site: Span,
    ) -> (r: Result<FunctionCallResult, Vec<FunctionCallingError>>)
        ensures
            outcome_view(r) == self.spec_call(arguments@, call_site),
    {
        if self.parameters.len() != arguments.len() {
            let mut errors: Vec<FunctionCallingError> = Vec::new();
            errors.push(
                FunctionCallingError::MismatchedArgumentCount {
                    expected: self.parameters.len(),
                    found: arguments.len(),
                    call_site,
                },
            );
            assert(errors_view(errors@) =~= self.spec_call(arguments@, call_site)->Err_0);
            return Err(errors);
        }
        let mut errors: Vec<FunctionCallingError> = Vec::new();
        let mut i: usize = 0;
        while i < arguments.len()
            invariant
                i <= arguments@.len(),
                arguments@.len() == self.parameters@.len(),
                errors_view(errors@) == argument_errors(self.parameters@, arguments@, i as nat),
            decreases arguments@.len() - i,
        {
            let parameter_type = self.parameters[i].ty;
            let argument_type = arguments[i].into_type();
            if !(parameter_type == ANY_TYPE || parameter_type == argument_type) {
                let position = match &arguments[i] {
                    SynthesizedArgument::NonSpread { position, .. } => *position,
                };
                errors.push(
                    FunctionCallingError::InvalidArgumentType { index: i, parameter_type, argument_type, position },
                );
            }
            assert(errors_view(errors@) =~= argument_errors(self.parameters@, arguments@, (i + 1) as nat));
            i += 1;
        }
        if errors.len() > 0 {
            return Err(errors);
        }
        let mut warnings: Vec<InfoDiagnostic> = Vec::new();
        if self.constant_id.is_some() {
            warnings.push(InfoDiagnostic::IntrinsicEvaluated(self.id));
        }
        let called = if self.id == NULL_FUNCTION { None } else { Some(self.id) };
        let r = FunctionCallResult { returned_type: self.return_type, warnings, called };
        assert(r@.warnings =~= self.spec_call(arguments@, call_site)->Ok_0.warnings);
        Ok(r)
    }
}

/// The digit `d`, below ten, as a character.
pub open spec fn digit_char(d: nat) -> char {
    if d == 0 { '0' }
    else if d == 1 { '1' }
    else if d == 2 { '2' }
    else if d == 3 { '3' }
    else if d == 4 { '4' }
    else if d == 5 { '5' }
    else if d == 6 { '6' }
    else if d == 7 { '7' }
    else if d == 8 { '8' }
    else { '9' }
}

/// `n` in decimal, without leading zeros.
pub open spec fn decimal(n: nat) -> Seq<char>
    decreases n,
{
    if n < 10 {
        seq![digit_char(n)]
    } else {
        decimal(n / 10).push(digit_char(n % 10))
    }
}

/// The name given to the inferred parameter at `index`: `i0`, `i1`, ...
pub open spec fn index_name(index: nat) -> Seq<char> {
    seq!['i'] + decimal(index)
}

/// Relies on `ToString` through std's `Display` for `usize`, which writes the
/// number in decimal with no sign, padding or separators.
#[verifier::external_body]
fn decimal_string(n: usize) -> (r: String)
    ensures
        r@ == decimal(n as nat),
{
    n.to_string()
}

/// The name of the inferred parameter at `index`.
fn parameter_name(index: usize) -> (r: String)
    ensures
        r@ == index_name(index as nat),
{
    let mut name = String::from_str("i");
    proof {
        reveal_strlit("i");
    }
    let digits = decimal_string(index);
    name.append(digits.as_str());
    assert(name@ =~= index_name(index as nat));
    name
}

/// A type that a call interns, described by its contents.
pub enum Interned {
    /// `Type::Constructor(Constructor::FunctionResult { on, with, result })`.
    FunctionResult { on: TypeId, with: Seq<SynthesizedArgument>, result: TypeId },
    /// A function signature inferred from the arguments `with` of a call.
    InferredFunction { with: Seq<SynthesizedArgument> },
}

/// An entry that a call appends to the effect log.
pub struct Logged {
    pub on: TypeId,
    pub with: Seq<SynthesizedArgument>,
    pub reflects_dependency: Option<TypeId>,
    pub called_with_new: CalledWithNew,
}

/// Everything a call resolution does: the types it interns and the log entries
/// it appends (each in order), the constraint it installs, and its outcome.
pub struct Resolution {
    pub interned: Seq<Interned>,
    pub logged: Seq<Logged>,
    /// The type variable, its inference boundary and its new constraint.
    pub installed: Option<(TypeId, InferenceBoundary, TypeId)>,
    pub outcome: CallOutcome,
}

/// A resolution with no side effects.
pub open spec fn pure_resolution(outcome: CallOutcome) -> Resolution {
    Resolution { interned: seq![], logged: seq![], installed: None, outcome }
}

/// Some argument has the error type.
pub open spec fn has_error_argument(arguments: Seq<SynthesizedArgument>) -> bool {
    exists|i: int| 0 <= i < arguments.len() && #[trigger] arguments[i].spec_ty() == ERROR_TYPE
}

/// Some argument has a type that depends on an unresolved type parameter.
pub open spec fn has_dependent_argument(types: Seq<Type>, arguments: Seq<SynthesizedArgument>) -> bool {
    exists|i: int| 0 <= i < arguments.len() && #[trigger] types[arguments[i].spec_ty() as int].spec_is_dependent()
}

/// The signature inferred for a variable called with `arguments`: one
/// parameter per argument, named `i<index>` and typed as the argument, returning
/// the universal type.
pub open spec fn is_inferred_signature(f: FunctionType, arguments: Seq<SynthesizedArgument>) -> bool {
    &&& f.type_parameters is None
    &&& f.parameters@.len() == arguments.len()
    &&& forall|i: int| 0 <= i < arguments.len() ==> {
        &&& (#[trigger] f.parameters@[i]).name@ == index_name(i as nat)
        &&& f.parameters@[i].ty == arguments[i].spec_ty()
        &&& f.parameters@[i].position == arguments[i].spec_position()
    }
    &&& f.return_type == ANY_TYPE
    &&& f.effects@.len() == 0
    &&& f.closed_over_references@.len() == 0
    &&& f.kind == FunctionKind::Arrow
    &&& f.constant_id is None
    &&& f.id == NULL_FUNCTION
}

/// The interned type `t` is the one that `d` describes.
pub open spec fn describes(t: Type, d: Interned) -> bool {
    match d {
        Interned::FunctionResult { on, with, result } => t matches Type::Constructor(
            Constructor::FunctionResult { on: o, with: w, result: r },
        ) && o == on && w@ == with && r == result,
        Interned::InferredFunction { with } => t matches Type::Function(f, nature) && is_inferred_signature(f, with)
            && nature == (FunctionNature::BehindPoly { function_id_if_open_poly: None, this_type: None }),
    }
}

/// The resolution of calling `on` with `arguments`, against the arena `types`
/// and the environment `env` as they stand before the call.
pub open spec fn resolve(
    types: Seq<Type>,
    env: Environment,
    on: TypeId,
    arguments: Seq<SynthesizedArgument>,
    called_with_new: CalledWithNew,
    call_site: Span,
) -> Resolution
    decreases fixed_rank(env.poly_bases@)(on)
        when env.wf()
{
    if on == ERROR_TYPE || has_error_argument(arguments) {
        pure_resolution(plain_result(ERROR_TYPE))
    } else if types[on as int] is Function {
        let f = types[on as int]->Function_0;
        if f.constant_id is Some && has_dependent_argument(types, arguments) {
            match f.spec_call(arguments, call_site) {
                Ok(placeholder) => Resolution {
                    interned: seq![
                        Interned::FunctionResult { on, with: arguments, result: placeholder.returned_type },
                    ],
                    logged: seq![
                        Logged { on, with: arguments, reflects_dependency: Some(types.len() as TypeId), called_with_new },
                    ],
                    installed: None,
                    outcome: plain_result(types.len() as TypeId),
                },
                Err(errors) => pure_resolution(Err(errors)),
            }
        } else {
            pure_resolution(f.spec_call(arguments, call_site))
        }
    } else {
        match env.spec_poly_base(on) {
            Some(PolyBase::Fixed { to, is_open_poly }) => {
                let inner = resolve(types, env, to, arguments, called_with_new, call_site);
                match inner.outcome {
                    Ok(result) => if is_open_poly {
                        Resolution {
                            logged: inner.logged.push(
                                Logged { on, with: arguments, reflects_dependency: None, called_with_new },
                            ),
                            ..inner
                        }
                    } else {
                        let wrapped = (types.len() + inner.interned.len()) as TypeId;
                        Resolution {
                            interned: inner.interned.push(
                                Interned::FunctionResult { on, with: arguments, result: result.returned_type },
                            ),
                            logged: inner.logged.push(
                                Logged { on, with: arguments, reflects_dependency: Some(wrapped), called_with_new },
                            ),
                            installed: inner.installed,
                            outcome: Ok(CallResultView { returned_type: wrapped, ..result }),
                        }
                    },
                    Err(_) => inner,
                }
            },
            Some(PolyBase::Dynamic { to, boundary }) => {
                if to == ANY_TYPE {
                    Resolution {
                        interned: seq![Interned::InferredFunction { with: arguments }],
                        logged: seq![],
                        installed: Some((on, boundary, types.len() as TypeId)),
                        outcome: plain_result(ANY_TYPE),
                    }
                } else {
                    pure_resolution(Err(seq![CallingErrorView::UnsupportedConstraint { constraint: to, call_site }]))
                }
            },
            None => pure_resolution(
                Err(seq![CallingErrorView::NotCallable { calling: types[on as int].printable(), call_site }]),
            ),
        }
    }
}

/// The arena and environment after a call are those before it with the
/// resolution's effects applied.
pub open spec fn applied(
    types_before: Seq<Type>,
    env_before: Environment,
    types_after: Seq<Type>,
    env_after: Environment,
    res: Resolution,
) -> bool {
    &&& types_after.len() == types_before.len() + res.interned.len()
    &&& types_after.take(types_before.len() as int) == types_before
    &&& forall|i: int| 0 <= i < res.interned.len() ==>
        describes(#[trigger] types_after[types_before.len() + i], res.interned[i])
    &&& env_after.events@.len() == env_before.events@.len() + res.logged.len()
    &&& env_after.events@.take(env_before.events@.len() as int) == env_before.events@
    &&& forall|i: int| 0 <= i < res.logged.len() ==> {
        let l = #[trigger] res.logged[i];
        env_after.events@[env_before.events@.len() + i].records_call(
            l.on,
            l.with,
            l.reflects_dependency,
            l.called_with_new,
        )
    }
    &&& env_after.poly_bases@ == match res.installed {
        Some((v, boundary, constraint)) => env_before.poly_bases@.update(
            v as int,
            Some(PolyBase::Dynamic { to: constraint, boundary }),
        ),
        None => env_before.poly_bases@,
    }
}

/// Every type that the call reads is in the arena.
pub open spec fn call_in_arena(types: Seq<Type>, on: TypeId, arguments: Seq<SynthesizedArgument>) -> bool {
    &&& on < types.len()
    &&& forall|i: int| 0 <= i < arguments.len() ==> #[trigger] arguments[i].spec_ty() < types.len()
}

fn copy_arguments(arguments: &Vec<SynthesizedArgument>) -> (r: Vec<SynthesizedArgument>)
    ensures
        r@ == arguments@,
{
    let mut r: Vec<SynthesizedArgument> = Vec::new();
    let mut i: usize = 0;
    while i < arguments.len()
        invariant
            i <= arguments@.len(),
            r@ == arguments@.take(i as int),
        decreases arguments@.len() - i,
    {
        r.push(arguments[i]);
        assert(arguments@.take(i + 1) == arguments@.take(i as int).push(arguments@[i as int]));
        i += 1;
    }
    assert(arguments@.take(arguments@.len() as int) == arguments@);
    r
}

fn any_error_argument(arguments: &Vec<SynthesizedArgument>) -> (r: bool)
    ensures
        r == has_error_argument(arguments@),
{
    let mut i: usize = 0;
    while i < arguments.len()
        invariant
            i <= arguments@.len(),
            forall|j: int| 0 <= j < i ==> #[trigger] arguments@[j].spec_ty() != ERROR_TYPE,
        decreases arguments@.len() - i,
    {
        if arguments[i].into_type() == ERROR_TYPE {
            return true;
        }
        i += 1;
    }
    false
}

fn any_dependent_argument(types: &TypeStore, arguments: &Vec<SynthesizedArgument>) -> (r: bool)
    requires
        forall|i: int| 0 <= i < arguments@.len() ==> #[trigger] arguments@[i].spec_ty() < types.types@.len(),
    ensures
        r == has_dependent_argument(types.types@, arguments@),
{
    let mut i: usize = 0;
    while i < arguments.len()
        invariant
            i <= arguments@.len(),
            forall|i: int| 0 <= i < arguments@.len() ==> #[trigger] arguments@[i].spec_ty() < types.types@.len(),
            forall|j: int|
                0 <= j < i ==> !(#[trigger] types.types@[arguments@[j].spec_ty() as int]).spec_is_dependent(),
        decreases arguments@.len() - i,
    {
        if types.get_type_by_id(arguments[i].into_type()).is_dependent() {
            return true;
        }
        i += 1;
    }
    false
}

/// The signature inferred for a type variable called with `arguments`.
fn inferred_signature(arguments: &Vec<SynthesizedArgument>) -> (r: FunctionType)
    ensures
        is_inferred_signature(r, arguments@),
{
    let mut parameters: Vec<SynthesizedParameter> = Vec::new();
    let mut i: usize = 0;
    while i < arguments.len()
        invariant
            i <= arguments@.len(),
            parameters@.len() == i,
            forall|j: int| 0 <= j < i ==> {
                &&& (#[trigger] parameters@[j]).name@ == index_name(j as nat)
                &&& parameters@[j].ty == arguments@[j].spec_ty()
                &&& parameters@[j].position == arguments@[j].spec_position()
            },
        decreases arguments@.len() - i,
    {
        match &arguments[i] {
            SynthesizedArgument::NonSpread { ty, position } => {
                parameters.push(SynthesizedParameter { name: parameter_name(i), ty: *ty, position: *position });
            },
        }
        i += 1;
    }
    FunctionType {
        type_parameters: None,
        parameters,
        return_type: ANY_TYPE,
        effects: Vec::new(),
        closed_over_references: Vec::new(),
        kind: FunctionKind::Arrow,
        constant_id: None,
        id: NULL_FUNCTION,
    }
}

/// Resolves calling the type `on` with `arguments`.
///
/// The error type absorbs: a call on it, or with an argument of it, gives it
/// back with nothing recorded. A function type is bound by [`FunctionType::call`],
/// except an intrinsic called with a dependent argument, whose result is
/// deferred: a `FunctionResult` of the call is interned and logged. A type
/// variable with a fixed constraint is called through that constraint; when the
/// constraint is closed, the result is wrapped in a `FunctionResult` on the
/// variable itself. A type variable whose constraint is being inferred and is
/// still the universal type gets a signature inferred from the arguments. Any
/// other callee is not callable.
pub fn call_type(
    on: TypeId,
    called_with_new: CalledWithNew,
    this_argument: Option<TypeId>,
    call_site_type_arguments: Option<Vec<(Span, TypeId)>>,
    arguments: Vec<SynthesizedArgument>,
    call_site: Span,
    environment: &mut Environment,
    types: &mut TypeStore,
) -> (r: Result<FunctionCallResult, Vec<FunctionCallingError>>)
    requires
        old(environment).wf(),
        old(environment).constraints_within(old(types).types@.len()),
        call_in_arena(old(types).types@, on, arguments@),
    ensures
        final(environment).wf(),
        final(environment).constraints_within(final(types).types@.len()),
        ({
            let res = resolve(old(types).types@, *old(environment), on, arguments@, called_with_new, call_site);
            &&& outcome_view(r) == res.outcome
            &&& applied(old(types).types@, *old(environment), final(types).types@, *final(environment), res)
        }),
    decreases fixed_rank(old(environment).poly_bases@)(on),
{
    let ghost types_before = types.types@;
    let ghost env_before = *environment;
    if on == ERROR_TYPE || any_error_argument(&arguments) {
        let r = FunctionCallResult { returned_type: ERROR_TYPE, warnings: Vec::new(), called: None };
        assert(r@.warnings =~= seq![]);
        assert(types.types@.take(types_before.len() as int) =~= types_before);
        assert(environment.events@.take(env_before.events@.len() as int) =~= env_before.events@);
        return Ok(r);
    }
    let callee = types.get_type_by_id(on);
    if let Type::Function(function_type, nature) = callee {
        // a function's own bound receiver takes precedence over the call site's
        let this_argument = match nature {
            FunctionNature::Source(Some(bound)) => Some(*bound),
            _ => this_argument,
        };
        if function_type.constant_id.is_some() && any_dependent_argument(types, &arguments) {
            let result = function_type.call(
                called_with_new,
                this_argument,
                &call_site_type_arguments,
                &arguments,
                call_site,
            );
            let placeholder = match result {
                Ok(result) => result.returned_type,
                Err(errors) => {
                    assert(types.types@.take(types_before.len() as int) =~= types_before);
                    assert(environment.events@.take(env_before.events@.len() as int) =~= env_before.events@);
                    return Err(errors);
                },
            };
            let with = copy_arguments(&arguments);
            let ty = types.register_type(
                Type::Constructor(Constructor::FunctionResult { on, with, result: placeholder }),
            );
            environment.log_event(
                Event::CallsType {
                    on,
                    with: arguments,
                    reflects_dependency: Some(ty),
                    timing: CallingTiming::Synchronous,
                    called_with_new,
                },
            );
            proof {
                lemma_constraints_stay_within(env_before, *environment, types_before.len(), types.types@.len());
            }
            let r = FunctionCallResult { returned_type: ty, warnings: Vec::new(), called: None };
            assert(r@.warnings =~= seq![]);
            assert(types.types@.take(types_before.len() as int) =~= types_before);
            assert(environment.events@.take(env_before.events@.len() as int) =~= env_before.events@);
            return Ok(r);
        }
        let r = function_type.call(called_with_new, this_argument, &call_site_type_arguments, &arguments, call_site);
        assert(types.types@.take(types_before.len() as int) =~= types_before);
        assert(environment.events@.take(env_before.events@.len() as int) =~= env_before.events@);
        return r;
    }
    match environment.get_poly_base(on) {
        Some(PolyBase::Fixed { to, is_open_poly }) => {
            assert(ranked_by(env_before.poly_bases@, fixed_rank(env_before.poly_bases@)));
            let with = copy_arguments(&arguments);
            let inner = call_type(
                to,
                called_with_new,
                this_argument,
                call_site_type_arguments,
                with,
                call_site,
                environment,
                types,
            );
            let ghost inner_res = resolve(types_before, env_before, to, arguments@, called_with_new, call_site);
            let ghost types_mid = types.types@;
            let ghost env_mid = *environment;
            let result = match inner {
                Ok(result) => result,
                Err(errors) => {
                    return Err(errors);
                },
            };
            let reflects_dependency = if !is_open_poly {
                let with = copy_arguments(&arguments);
                Some(
                    types.register_type(
                        Type::Constructor(
                            Constructor::FunctionResult { on, with, result: result.returned_type },
                        ),
                    ),
                )
            } else {
                None
            };
            environment.log_event(
                Event::CallsType {
                    on,
                    with: arguments,
                    reflects_dependency,
                    timing: CallingTiming::Synchronous,
                    called_with_new,
                },
            );
            let returned_type = match reflects_dependency {
                Some(wrapped) => wrapped,
                None => result.returned_type,
            };
            let ghost res = resolve(types_before, env_before, on, arguments@, called_with_new, call_site);
            assert(types.types@.take(types_before.len() as int) =~= types_before) by {
                assert(types_mid.take(types_before.len() as int) == types_before);
            }
            assert(environment.events@.take(env_before.events@.len() as int) =~= env_before.events@) by {
                assert(env_mid.events@.take(env_before.events@.len() as int) == env_before.events@);
            }
            assert forall|i: int| 0 <= i < res.interned.len() implies describes(
                #[trigger] types.types@[types_before.len() + i],
                res.interned[i],
            ) by {
                if i < inner_res.interned.len() {
                    assert(types.types@[types_before.len() + i] == types_mid[types_before.len() + i]);
                }
            }
            assert forall|i: int| 0 <= i < res.logged.len() implies {
                let l = #[trigger] res.logged[i];
                environment.events@[env_before.events@.len() + i].records_call(
                    l.on,
                    l.with,
                    l.reflects_dependency,
                    l.called_with_new,
                )
            } by {
                if i < inner_res.logged.len() {
                    assert(res.logged[i] == inner_res.logged[i]);
                    assert(environment.events@[env_before.events@.len() + i] == env_mid.events@[env_before.events@.len() + i]);
                }
            }
            proof {
                lemma_constraints_stay_within(env_mid, *environment, types_mid.len(), types.types@.len());
            }
            Ok(FunctionCallResult { called: result.called, returned_type, warnings: result.warnings })
        },
        Some(PolyBase::Dynamic { to, boundary }) => {
            if to == ANY_TYPE {
                let function_type = inferred_signature(&arguments);
                let new_constraint = types.register_type(
                    Type::Function(
                        function_type,
                        FunctionNature::BehindPoly { function_id_if_open_poly: None, this_type: None },
                    ),
                );
                environment.attempt_to_modify_base(on, boundary, new_constraint);
                proof {
                    assert forall|id: TypeId|
                        (#[trigger] environment.spec_poly_base(id) matches Some(PolyBase::Fixed { .. }))
                            implies environment.spec_poly_base(id) == env_before.spec_poly_base(id) by {
                        if id < environment.poly_bases@.len() {
                            assert(environment.poly_bases@[id as int] == env_before.poly_bases@[id as int]);
                        }
                    }
                    lemma_constraints_stay_within(env_before, *environment, types_before.len(), types.types@.len());
                }
                // the inferred signature takes exactly these arguments and returns the universal type
                let r = FunctionCallResult { returned_type: ANY_TYPE, warnings: Vec::new(), called: None };
                assert(r@.warnings =~= seq![]);
                assert(types.types@.take(types_before.len() as int) =~= types_before);
                assert(environment.events@.take(env_before.events@.len() as int) =~= env_before.events@);
                Ok(r)
            } else {
                let mut errors: Vec<FunctionCallingError> = Vec::new();
                errors.push(FunctionCallingError::UnsupportedConstraint { constraint: to, call_site });
                assert(errors_view(errors@) =~= seq![CallingErrorView::UnsupportedConstraint { constraint: to, call_site }]);
                assert(types.types@.take(types_before.len() as int) =~= types_before);
                assert(environment.events@.take(env_before.events@.len() as int) =~= env_before.events@);
                Err(errors)
            }
        },
        None => {
            let calling = types.get_type_by_id(on).to_printable();
            let mut errors: Vec<FunctionCallingError> = Vec::new();
            errors.push(FunctionCallingError::NotCallable { calling, call_site });
            assert(errors_view(errors@) =~= seq![CallingErrorView::NotCallable { calling: types_before[on as int].printable(), call_site }]);
            assert(types.types@.take(types_before.len() as int) =~= types_before);
            assert(environment.events@.take(env_before.events@.len() as int) =~= env_before.events@);
            Err(errors)
        },
    }
}

/// What reporting the outcome of a call does to a checking pass, and the type
/// it yields: every warning becomes an info diagnostic at the call site and the
/// invoked function joins the registry; every error becomes an error diagnostic
/// and the call has the error type.
pub open spec fn reported(
    before: CheckingData,
    after: CheckingData,
    outcome: CallOutcome,
    call_site: Span,
    r: TypeId,
) -> bool {
    let n = before.diagnostics@.len();
    &&& after.diagnostics@.take(n as int) == before.diagnostics@
    &&& match outcome {
        Ok(result) => {
            &&& r == result.returned_type
            &&& after.diagnostics@.len() == n + result.warnings.len()
            &&& forall|i: int| 0 <= i < result.warnings.len() ==> after.diagnostics@[n + i] == (
            Diagnostic::Info { reason: #[trigger] result.warnings[i], position: call_site })
            &&& after.called_set() == match result.called {
                Some(f) => before.called_set().insert(f),
                None => before.called_set(),
            }
        },
        Err(errors) => {
            &&& r == ERROR_TYPE
            &&& after.diagnostics@.len() == n + errors.len()
            &&& forall|i: int| 0 <= i < errors.len() ==> (#[trigger] after.diagnostics@[n + i] matches Diagnostic::Error(e)
                && e@ == errors[i])
            &&& after.called_set() == before.called_set()
        },
    }
}

/// Resolves a call as [`call_type`] does and reports its outcome into
/// `checking_data`; the type returned is always usable, the error type where
/// the call failed.
pub fn call_type_handle_errors(
    ty: TypeId,
    called_with_new: CalledWithNew,
    this_argument: Option<TypeId>,
    call_site_type_arguments: Option<Vec<(Span, TypeId)>>,
    arguments: Vec<SynthesizedArgument>,
    call_site: Span,
    environment: &mut Environment,
    checking_data: &mut CheckingData,
) -> (r: TypeId)
    requires
        old(environment).wf(),
        old(checking_data).wf(),
        old(environment).constraints_within(old(checking_data).types.types@.len()),
        call_in_arena(old(checking_data).types.types@, ty, arguments@),
    ensures
        final(environment).wf(),
        final(environment).constraints_within(final(checking_data).types.types@.len()),
        final(checking_data).wf(),
        ({
            let res = resolve(
                old(checking_data).types.types@,
                *old(environment),
                ty,
                arguments@,
                called_with_new,
                call_site,
            );
            &&& applied(
                old(checking_data).types.types@,
                *old(environment),
                final(checking_data).types.types@,
                *final(environment),
                res,
            )
            &&& reported(*old(checking_data), *final(checking_data), res.outcome, call_site, r)
        }),
{
    let result = call_type(
        ty,
        called_with_new,
        this_argument,
        call_site_type_arguments,
        arguments,
        call_site,
        environment,
        &mut checking_data.types,
    );
    let ghost start = *checking_data;
    let n = checking_data.diagnostics.len();
    match result {
        Ok(FunctionCallResult { returned_type, warnings, called }) => {
            let mut i: usize = 0;
            while i < warnings.len()
                invariant
                    checking_data.wf(),
                    checking_data.types == start.types,
                    checking_data.called_functions == start.called_functions,
                    n == start.diagnostics@.len(),
                    i <= warnings@.len(),
                    checking_data.diagnostics@.len() == n + i,
                    checking_data.diagnostics@.take(n as int) == start.diagnostics@,
                    forall|j: int| 0 <= j < i ==> checking_data.diagnostics@[n + j] == (
                    Diagnostic::Info { reason: #[trigger] warnings@[j], position: call_site }),
                decreases warnings@.len() - i,
            {
                checking_data.diagnostics.push(Diagnostic::Info { reason: warnings[i], position: call_site });
                assert(checking_data.diagnostics@.take(n as int) =~= start.diagnostics@);
                i += 1;
            }
            if let Some(called) = called {
                checking_data.insert_called(called);
            }
            returned_type
        },
        Err(errors) => {
            let ghost all = errors@;
            let mut errors = errors;
            let ghost mut i: int = 0;
            while errors.len() > 0
                invariant
                    checking_data.wf(),
                    checking_data.types == start.types,
                    checking_data.called_functions == start.called_functions,
                    n == start.diagnostics@.len(),
                    i <= all.len(),
                    0 <= i,
                    errors@ == all.subrange(i, all.len() as int),
                    checking_data.diagnostics@.len() == n + i,
                    checking_data.diagnostics@.take(n as int) == start.diagnostics@,
                    forall|j: int| 0 <= j < i ==> (#[trigger] checking_data.diagnostics@[n + j] matches Diagnostic::Error(e)
                        && e == all[j]),
                decreases errors@.len(),
            {
                let error = errors.remove(0);
                checking_data.diagnostics.push(Diagnostic::Error(error));
                assert(checking_data.diagnostics@.take(n as int) =~= start.diagnostics@);
                assert(errors@ =~= all.subrange(i + 1, all.len() as int));
                proof {
                    i = i + 1;
                }
            }
            assert forall|j: int| 0 <= j < all.len() implies (#[trigger] checking_data.diagnostics@[n + j] matches Diagnostic::Error(e)
                && e@ == errors_view(all)[j]) by {
                assert(checking_data.diagnostics@[n + j] matches Diagnostic::Error(e) && e == all[j]);
            }
            ERROR_TYPE
        },
    }
}

} // verus!

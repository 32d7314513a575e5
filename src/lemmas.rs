use vstd::prelude::*;
use source_map::Span;
use crate::calling::{
    CallResultView, Interned, Logged, applied, argument_errors, assignable, has_dependent_argument,
    has_error_argument, is_inferred_signature, plain_result, pure_resolution, reported, resolve,
};
use crate::context::{CalledWithNew, Environment, PolyBase, fixed_rank, ranked_by};
use crate::diagnostics::{CallingErrorView, CheckingData};
use crate::types::{ERROR_TYPE, FunctionType, NULL_FUNCTION, SynthesizedArgument, SynthesizedParameter, Type, TypeId};

verus! {

/// No argument error arises exactly when every argument is assignable to its parameter.
pub proof fn lemma_argument_errors_empty(
    parameters: Seq<SynthesizedParameter>,
    arguments: Seq<SynthesizedArgument>,
    n: nat,
)
    ensures
        argument_errors(parameters, arguments, n).len() == 0 <==> forall|i: int|
            0 <= i < n ==> #[trigger] assignable(parameters[i].ty, arguments[i].spec_ty()),
    decreases n,
{
    if n > 0 {
        lemma_argument_errors_empty(parameters, arguments, (n - 1) as nat);
        let i = n - 1;
        if !assignable(parameters[i].ty, arguments[i].spec_ty()) {
            assert(argument_errors(parameters, arguments, n).len() > 0);
        }
    }
}

/// A call on the error type, or with an argument of the error type, yields the
/// error type with no warning, no invoked function, nothing interned, logged or
/// installed; reporting it adds no diagnostic and no call-graph entry.
pub proof fn lemma_error_type_absorbs(
    types: Seq<Type>,
    env: Environment,
    types_after: Seq<Type>,
    env_after: Environment,
    before: CheckingData,
    after: CheckingData,
    on: TypeId,
    arguments: Seq<SynthesizedArgument>,
    called_with_new: CalledWithNew,
    call_site: Span,
    r: TypeId,
)
    requires
        env.wf(),
        on == ERROR_TYPE || has_error_argument(arguments),
        applied(types, env, types_after, env_after, resolve(types, env, on, arguments, called_with_new, call_site)),
        reported(before, after, resolve(types, env, on, arguments, called_with_new, call_site).outcome, call_site, r),
    ensures
        resolve(types, env, on, arguments, called_with_new, call_site) == pure_resolution(plain_result(ERROR_TYPE)),
        r == ERROR_TYPE,
        after.diagnostics@ == before.diagnostics@,
        after.called_set() == before.called_set(),
        types_after == types,
        env_after.events@ == env.events@,
        env_after.poly_bases@ == env.poly_bases@,
{
    assert(after.diagnostics@ =~= after.diagnostics@.take(before.diagnostics@.len() as int));
    assert(types_after =~= types_after.take(types.len() as int));
    assert(env_after.events@ =~= env_after.events@.take(env.events@.len() as int));
}

/// Calling a function that is not an intrinsic binds its arguments: with
/// compatible arguments it returns the declared return type and names the
/// function as invoked; otherwise it fails with at least one error. Either way
/// nothing is interned, logged or installed.
pub proof fn lemma_concrete_call(
    types: Seq<Type>,
    env: Environment,
    on: TypeId,
    f: FunctionType,
    arguments: Seq<SynthesizedArgument>,
    called_with_new: CalledWithNew,
    call_site: Span,
)
    requires
        env.wf(),
        on != ERROR_TYPE,
        !has_error_argument(arguments),
        on < types.len(),
        types[on as int] matches Type::Function(g, _) && g == f,
        f.constant_id is None,
    ensures
        ({
            let res = resolve(types, env, on, arguments, called_with_new, call_site);
            &&& res.interned.len() == 0
            &&& res.logged.len() == 0
            &&& res.installed is None
            &&& if f.parameters@.len() == arguments.len() && forall|i: int|
                0 <= i < arguments.len() ==> #[trigger] assignable(f.parameters@[i].ty, arguments[i].spec_ty()) {
                res.outcome == crate::calling::CallOutcome::Ok(
                    CallResultView {
                        returned_type: f.return_type,
                        warnings: seq![],
                        called: if f.id == NULL_FUNCTION { None } else { Some(f.id) },
                    },
                )
            } else {
                res.outcome matches Err(errors) && errors.len() >= 1
            }
        }),
{
    lemma_argument_errors_empty(f.parameters@, arguments, arguments.len());
}

/// An intrinsic called with no dependent argument is evaluated at once: no
/// deferred result is interned and nothing is logged.
pub proof fn lemma_intrinsic_concrete_arguments(
    types: Seq<Type>,
    env: Environment,
    on: TypeId,
    f: FunctionType,
    arguments: Seq<SynthesizedArgument>,
    called_with_new: CalledWithNew,
    call_site: Span,
)
    requires
        env.wf(),
        on != ERROR_TYPE,
        !has_error_argument(arguments),
        on < types.len(),
        types[on as int] matches Type::Function(g, _) && g == f,
        f.constant_id is Some,
        !has_dependent_argument(types, arguments),
    ensures
        resolve(types, env, on, arguments, called_with_new, call_site) == pure_resolution(
            f.spec_call(arguments, call_site),
        ),
{
}

/// An intrinsic called with a dependent argument, whose arguments bind, returns
/// a freshly interned `FunctionResult` on that callee and those arguments, and
/// logs exactly one call whose reflected dependency is that type.
pub proof fn lemma_intrinsic_dependent_argument(
    types: Seq<Type>,
    env: Environment,
    on: TypeId,
    f: FunctionType,
    arguments: Seq<SynthesizedArgument>,
    called_with_new: CalledWithNew,
    call_site: Span,
)
    requires
        env.wf(),
        on != ERROR_TYPE,
        !has_error_argument(arguments),
        on < types.len(),
        types[on as int] matches Type::Function(g, _) && g == f,
        f.constant_id is Some,
        has_dependent_argument(types, arguments),
        f.spec_call(arguments, call_site) is Ok,
    ensures
        ({
            let res = resolve(types, env, on, arguments, called_with_new, call_site);
            let fresh = types.len() as TypeId;
            &&& res.outcome == plain_result(fresh)
            &&& res.interned == seq![
                Interned::FunctionResult {
                    on,
                    with: arguments,
                    result: f.spec_call(arguments, call_site)->Ok_0.returned_type,
                },
            ]
            &&& res.logged == seq![Logged { on, with: arguments, reflects_dependency: Some(fresh), called_with_new }]
        }),
{
}

/// Calling a type variable through its fixed constraint `to`: a closed
/// constraint wraps the constraint's result in a `FunctionResult` on the
/// variable itself, an open one returns the constraint's result unwrapped.
/// Both log the call on the variable.
pub proof fn lemma_fixed_constraint(
    types: Seq<Type>,
    env: Environment,
    on: TypeId,
    to: TypeId,
    is_open_poly: bool,
    arguments: Seq<SynthesizedArgument>,
    called_with_new: CalledWithNew,
    call_site: Span,
)
    requires
        env.wf(),
        on != ERROR_TYPE,
        !has_error_argument(arguments),
        on < types.len(),
        !(types[on as int] is Function),
        env.spec_poly_base(on) == Some(PolyBase::Fixed { to, is_open_poly }),
        resolve(types, env, to, arguments, called_with_new, call_site).outcome is Ok,
    ensures
        ({
            let inner = resolve(types, env, to, arguments, called_with_new, call_site);
            let res = resolve(types, env, on, arguments, called_with_new, call_site);
            let inner_result = inner.outcome->Ok_0;
            let wrapped = (types.len() + inner.interned.len()) as TypeId;
            &&& is_open_poly ==> {
                &&& res.outcome == inner.outcome
                &&& res.interned == inner.interned
                &&& res.logged == inner.logged.push(
                    Logged { on, with: arguments, reflects_dependency: None, called_with_new },
                )
            }
            &&& !is_open_poly ==> {
                &&& res.outcome == crate::calling::CallOutcome::Ok(CallResultView { returned_type: wrapped, ..inner_result })
                &&& res.interned == inner.interned.push(
                    Interned::FunctionResult { on, with: arguments, result: inner_result.returned_type },
                )
                &&& res.logged == inner.logged.push(
                    Logged { on, with: arguments, reflects_dependency: Some(wrapped), called_with_new },
                )
            }
        }),
{
    assert(ranked_by(env.poly_bases@, fixed_rank(env.poly_bases@)));
}

/// Calling a type variable whose inferred constraint is still the universal
/// type installs, within its boundary, a signature with one parameter per
/// argument, named `i0, i1, ...` and typed as the arguments.
pub proof fn lemma_infers_signature(
    types: Seq<Type>,
    env: Environment,
    types_after: Seq<Type>,
    env_after: Environment,
    on: TypeId,
    boundary: u32,
    arguments: Seq<SynthesizedArgument>,
    called_with_new: CalledWithNew,
    call_site: Span,
)
    requires
        env.wf(),
        on != ERROR_TYPE,
        !has_error_argument(arguments),
        on < types.len(),
        !(types[on as int] is Function),
        env.spec_poly_base(on) == Some(PolyBase::Dynamic { to: crate::types::ANY_TYPE, boundary }),
        applied(types, env, types_after, env_after, resolve(types, env, on, arguments, called_with_new, call_site)),
    ensures
        env_after.spec_poly_base(on) == Some(PolyBase::Dynamic { to: types.len() as TypeId, boundary }),
        types_after[types.len() as int] matches Type::Function(f, _) && is_inferred_signature(f, arguments),
        resolve(types, env, on, arguments, called_with_new, call_site).outcome == plain_result(crate::types::ANY_TYPE),
{
    let res = resolve(types, env, on, arguments, called_with_new, call_site);
    assert(types_after[types.len() + 0int] == types_after[types.len() as int]);
    assert(res.interned[0] == Interned::InferredFunction { with: arguments });
}

/// Calling a value that is neither a function nor a type variable with a
/// constraint fails with exactly one `NotCallable` error naming its type and
/// the call site.
pub proof fn lemma_not_callable(
    types: Seq<Type>,
    env: Environment,
    on: TypeId,
    arguments: Seq<SynthesizedArgument>,
    called_with_new: CalledWithNew,
    call_site: Span,
)
    requires
        env.wf(),
        on != ERROR_TYPE,
        !has_error_argument(arguments),
        on < types.len(),
        !(types[on as int] is Function),
        env.spec_poly_base(on) is None,
    ensures
        resolve(types, env, on, arguments, called_with_new, call_site) == pure_resolution(
            Err(seq![CallingErrorView::NotCallable { calling: types[on as int].printable(), call_site }]),
        ),
{
}

/// Two calls in sequence append their log entries in call order after the
/// entries already there, which stay as they were.
pub proof fn lemma_log_order(
    types0: Seq<Type>,
    env0: Environment,
    types1: Seq<Type>,
    env1: Environment,
    types2: Seq<Type>,
    env2: Environment,
    first: crate::calling::Resolution,
    second: crate::calling::Resolution,
)
    requires
        applied(types0, env0, types1, env1, first),
        applied(types1, env1, types2, env2, second),
    ensures
        env2.events@.len() == env0.events@.len() + first.logged.len() + second.logged.len(),
        env2.events@.take(env0.events@.len() as int) == env0.events@,
        forall|i: int| 0 <= i < first.logged.len() ==> {
            let l = #[trigger] first.logged[i];
            env2.events@[env0.events@.len() + i].records_call(l.on, l.with, l.reflects_dependency, l.called_with_new)
        },
        forall|i: int| 0 <= i < second.logged.len() ==> {
            let l = #[trigger] second.logged[i];
            env2.events@[env0.events@.len() + first.logged.len() + i].records_call(
                l.on,
                l.with,
                l.reflects_dependency,
                l.called_with_new,
            )
        },
{
    let n0 = env0.events@.len();
    let n1 = env1.events@.len();
    assert forall|i: int| 0 <= i < n1 implies env2.events@[i] == env1.events@[i] by {
        assert(env2.events@.take(n1 as int)[i] == env1.events@[i]);
    }
    assert forall|i: int| 0 <= i < n0 implies env1.events@[i] == env0.events@[i] by {
        assert(env1.events@.take(n0 as int)[i] == env0.events@[i]);
    }
    assert(env2.events@.take(n0 as int) =~= env0.events@);
    assert forall|i: int| 0 <= i < first.logged.len() implies {
        let l = #[trigger] first.logged[i];
        env2.events@[n0 + i].records_call(l.on, l.with, l.reflects_dependency, l.called_with_new)
    } by {
        assert(env2.events@[n0 + i] == env1.events@[n0 + i]);
    }
}

/// Calling `on` with `arguments` defers its result: an intrinsic called with a
/// dependent argument, or a type variable called through its fixed constraint.
pub open spec fn defers(types: Seq<Type>, env: Environment, on: TypeId, arguments: Seq<SynthesizedArgument>) -> bool {
    &&& on != ERROR_TYPE
    &&& !has_error_argument(arguments)
    &&& on < types.len()
    &&& {
        ||| types[on as int] matches Type::Function(f, _) && f.constant_id is Some && has_dependent_argument(
            types,
            arguments,
        )
        ||| !(types[on as int] is Function) && env.spec_poly_base(on) matches Some(PolyBase::Fixed { .. })
    }
}

/// A deferring call that succeeds logs, as its last entry, the call of `on`
/// with `arguments`.
pub proof fn lemma_deferred_call_logged_last(
    types: Seq<Type>,
    env: Environment,
    on: TypeId,
    arguments: Seq<SynthesizedArgument>,
    called_with_new: CalledWithNew,
    call_site: Span,
)
    requires
        env.wf(),
        defers(types, env, on, arguments),
        resolve(types, env, on, arguments, called_with_new, call_site).outcome is Ok,
    ensures
        ({
            let res = resolve(types, env, on, arguments, called_with_new, call_site);
            &&& res.logged.len() >= 1
            &&& res.logged.last().on == on
            &&& res.logged.last().with == arguments
            &&& res.logged.last().called_with_new == called_with_new
        }),
{
    assert(ranked_by(env.poly_bases@, fixed_rank(env.poly_bases@)));
}

/// Two deferring calls made in sequence on one scope leave the earlier log
/// untouched and append the entry of the first call before that of the second.
pub proof fn lemma_deferred_calls_log_in_order(
    types0: Seq<Type>,
    env0: Environment,
    types1: Seq<Type>,
    env1: Environment,
    types2: Seq<Type>,
    env2: Environment,
    on1: TypeId,
    arguments1: Seq<SynthesizedArgument>,
    called_with_new1: CalledWithNew,
    call_site1: Span,
    on2: TypeId,
    arguments2: Seq<SynthesizedArgument>,
    called_with_new2: CalledWithNew,
    call_site2: Span,
)
    requires
        env0.wf(),
        env1.wf(),
        defers(types0, env0, on1, arguments1),
        defers(types1, env1, on2, arguments2),
        resolve(types0, env0, on1, arguments1, called_with_new1, call_site1).outcome is Ok,
        resolve(types1, env1, on2, arguments2, called_with_new2, call_site2).outcome is Ok,
        applied(types0, env0, types1, env1, resolve(types0, env0, on1, arguments1, called_with_new1, call_site1)),
        applied(types1, env1, types2, env2, resolve(types1, env1, on2, arguments2, called_with_new2, call_site2)),
    ensures
        env2.events@.take(env0.events@.len() as int) == env0.events@,
        ({
            let first = resolve(types0, env0, on1, arguments1, called_with_new1, call_site1);
            let second = resolve(types1, env1, on2, arguments2, called_with_new2, call_site2);
            let i = env0.events@.len() + first.logged.len() - 1;
            let j = env1.events@.len() + second.logged.len() - 1;
            &&& env0.events@.len() <= i < j < env2.events@.len()
            &&& env2.events@[i].records_call(on1, arguments1, first.logged.last().reflects_dependency, called_with_new1)
            &&& env2.events@[j].records_call(on2, arguments2, second.logged.last().reflects_dependency, called_with_new2)
        }),
{
    let first = resolve(types0, env0, on1, arguments1, called_with_new1, call_site1);
    let second = resolve(types1, env1, on2, arguments2, called_with_new2, call_site2);
    lemma_deferred_call_logged_last(types0, env0, on1, arguments1, called_with_new1, call_site1);
    lemma_deferred_call_logged_last(types1, env1, on2, arguments2, called_with_new2, call_site2);
    lemma_log_order(types0, env0, types1, env1, types2, env2, first, second);
    let k1 = first.logged.len() - 1;
    let k2 = second.logged.len() - 1;
    assert(first.logged[k1] == first.logged.last());
    assert(second.logged[k2] == second.logged.last());
}

} // verus!

use checker::calling::{call_type, call_type_handle_errors};
use checker::context::{CalledWithNew, CallingTiming, Environment, Event, PolyBase};
use checker::diagnostics::{CheckingData, Diagnostic, FunctionCallingError, InfoDiagnostic};
use checker::types::{
    Constructor, FunctionKind, FunctionNature, FunctionType, SynthesizedArgument, SynthesizedParameter, Type,
    TypeId, TypeStore, ANY_TYPE, BOOLEAN_TYPE, ERROR_TYPE, NUMBER_TYPE, STRING_TYPE,
};
use source_map::Span;

fn span(start: u32, end: u32) -> Span {
    Span { start, end, source: () }
}

fn argument(ty: TypeId, start: u32) -> SynthesizedArgument {
    SynthesizedArgument::NonSpread { ty, position: span(start, start + 1) }
}

fn signature(parameters: &[TypeId], return_type: TypeId, id: u32, intrinsic: Option<&str>) -> FunctionType {
    FunctionType {
        type_parameters: None,
        parameters: parameters
            .iter()
            .enumerate()
            .map(|(i, ty)| SynthesizedParameter {
                name: format!("p{}", i),
                ty: *ty,
                position: span(i as u32, i as u32 + 1),
            })
            .collect(),
        return_type,
        effects: Vec::new(),
        closed_over_references: Vec::new(),
        kind: FunctionKind::Function,
        constant_id: intrinsic.map(|s| s.to_owned()),
        id,
    }
}

fn source_function(types: &mut TypeStore, f: FunctionType) -> TypeId {
    types.register_type(Type::Function(f, FunctionNature::Source(None)))
}

fn resolve(
    data: &mut CheckingData,
    env: &mut Environment,
    on: TypeId,
    arguments: Vec<SynthesizedArgument>,
    call_site: Span,
) -> TypeId {
    call_type_handle_errors(on, CalledWithNew::Normal, None, None, arguments, call_site, env, data)
}

#[test]
fn error_callee_gives_error_type() {
    let mut data = CheckingData::new(TypeStore::new());
    let mut env = Environment::new();
    let r = resolve(&mut data, &mut env, ERROR_TYPE, vec![], span(0, 4));
    assert_eq!(r, ERROR_TYPE);
    assert!(data.diagnostics.is_empty());
    assert!(data.called_functions.is_empty());
    assert!(env.events.is_empty());
}

#[test]
fn error_argument_absorbs_the_call() {
    let mut types = TypeStore::new();
    let add = source_function(&mut types, signature(&[NUMBER_TYPE, NUMBER_TYPE], NUMBER_TYPE, 7, None));
    let mut data = CheckingData::new(types);
    let mut env = Environment::new();
    let r = resolve(&mut data, &mut env, add, vec![argument(NUMBER_TYPE, 1), argument(ERROR_TYPE, 3)], span(0, 5));
    assert_eq!(r, ERROR_TYPE);
    assert!(data.diagnostics.is_empty());
    assert!(data.called_functions.is_empty());
    assert!(env.events.is_empty());
    assert_eq!(data.types.types.len(), 6);
}

#[test]
fn concrete_add_returns_number() {
    let mut types = TypeStore::new();
    let add = source_function(&mut types, signature(&[NUMBER_TYPE, NUMBER_TYPE], NUMBER_TYPE, 7, None));
    let mut data = CheckingData::new(types);
    let mut env = Environment::new();
    let r = resolve(&mut data, &mut env, add, vec![argument(NUMBER_TYPE, 4), argument(NUMBER_TYPE, 7)], span(0, 9));
    assert_eq!(r, NUMBER_TYPE);
    assert_eq!(data.called_functions, vec![7]);
    assert!(data.diagnostics.is_empty());
    assert!(env.events.is_empty());
}

#[test]
fn repeated_call_registers_function_once() {
    let mut types = TypeStore::new();
    let add = source_function(&mut types, signature(&[NUMBER_TYPE], NUMBER_TYPE, 7, None));
    let mut data = CheckingData::new(types);
    let mut env = Environment::new();
    resolve(&mut data, &mut env, add, vec![argument(NUMBER_TYPE, 4)], span(0, 9));
    resolve(&mut data, &mut env, add, vec![argument(NUMBER_TYPE, 14)], span(10, 19));
    assert_eq!(data.called_functions, vec![7]);
}

#[test]
fn universal_parameter_accepts_any_argument() {
    let mut types = TypeStore::new();
    let log = source_function(&mut types, signature(&[ANY_TYPE], BOOLEAN_TYPE, 2, None));
    let mut data = CheckingData::new(types);
    let mut env = Environment::new();
    let r = resolve(&mut data, &mut env, log, vec![argument(STRING_TYPE, 4)], span(0, 6));
    assert_eq!(r, BOOLEAN_TYPE);
    assert_eq!(data.called_functions, vec![2]);
}

#[test]
fn incompatible_arguments_give_error_type() {
    let mut types = TypeStore::new();
    let add = source_function(&mut types, signature(&[NUMBER_TYPE, NUMBER_TYPE], NUMBER_TYPE, 7, None));
    let mut data = CheckingData::new(types);
    let mut env = Environment::new();
    let r = resolve(
        &mut data,
        &mut env,
        add,
        vec![argument(STRING_TYPE, 4), argument(NUMBER_TYPE, 7), ],
        span(0, 9),
    );
    assert_eq!(r, ERROR_TYPE);
    assert!(data.called_functions.is_empty());
    assert_eq!(data.diagnostics.len(), 1);
    assert!(matches!(
        data.diagnostics[0],
        Diagnostic::Error(FunctionCallingError::InvalidArgumentType {
            index: 0,
            parameter_type: NUMBER_TYPE,
            argument_type: STRING_TYPE,
            position,
        }) if position == span(4, 5)
    ));
}

#[test]
fn each_bad_argument_is_reported_in_order() {
    let mut types = TypeStore::new();
    let add = source_function(&mut types, signature(&[NUMBER_TYPE, NUMBER_TYPE], NUMBER_TYPE, 7, None));
    let mut data = CheckingData::new(types);
    let mut env = Environment::new();
    let r = resolve(&mut data, &mut env, add, vec![argument(STRING_TYPE, 4), argument(BOOLEAN_TYPE, 7)], span(0, 9));
    assert_eq!(r, ERROR_TYPE);
    assert_eq!(data.diagnostics.len(), 2);
    assert!(matches!(
        data.diagnostics[0],
        Diagnostic::Error(FunctionCallingError::InvalidArgumentType { index: 0, .. })
    ));
    assert!(matches!(
        data.diagnostics[1],
        Diagnostic::Error(FunctionCallingError::InvalidArgumentType { index: 1, argument_type: BOOLEAN_TYPE, .. })
    ));
}

#[test]
fn wrong_argument_count_is_reported() {
    let mut types = TypeStore::new();
    let add = source_function(&mut types, signature(&[NUMBER_TYPE, NUMBER_TYPE], NUMBER_TYPE, 7, None));
    let mut data = CheckingData::new(types);
    let mut env = Environment::new();
    let r = resolve(&mut data, &mut env, add, vec![argument(NUMBER_TYPE, 4)], span(0, 6));
    assert_eq!(r, ERROR_TYPE);
    assert_eq!(data.diagnostics.len(), 1);
    assert!(matches!(
        data.diagnostics[0],
        Diagnostic::Error(FunctionCallingError::MismatchedArgumentCount { expected: 2, found: 1, call_site })
            if call_site == span(0, 6)
    ));
}

#[test]
fn intrinsic_with_concrete_arguments_is_evaluated_eagerly() {
    let mut types = TypeStore::new();
    let abs = source_function(&mut types, signature(&[NUMBER_TYPE], NUMBER_TYPE, 9, Some("Math.abs")));
    let mut data = CheckingData::new(types);
    let mut env = Environment::new();
    let r = resolve(&mut data, &mut env, abs, vec![argument(NUMBER_TYPE, 9)], span(0, 12));
    assert_eq!(r, NUMBER_TYPE);
    assert_eq!(data.types.types.len(), 6);
    assert!(env.events.is_empty());
    assert_eq!(data.called_functions, vec![9]);
    assert_eq!(data.diagnostics.len(), 1);
    assert!(matches!(
        data.diagnostics[0],
        Diagnostic::Info { reason: InfoDiagnostic::IntrinsicEvaluated(9), position } if position == span(0, 12)
    ));
}

fn assert_logged(event: &Event, callee: TypeId, argument_types: &[TypeId], dependency: Option<TypeId>) {
    match event {
        Event::CallsType { on, with, reflects_dependency, timing, called_with_new } => {
            assert_eq!(*on, callee);
            let tys: Vec<TypeId> = with.iter().map(|a| a.into_type()).collect();
            assert_eq!(tys, argument_types);
            assert_eq!(*reflects_dependency, dependency);
            assert_eq!(*timing, CallingTiming::Synchronous);
            assert_eq!(*called_with_new, CalledWithNew::Normal);
        }
    }
}

fn assert_function_result(ty: &Type, callee: TypeId, argument_types: &[TypeId], placeholder: TypeId) {
    match ty {
        Type::Constructor(Constructor::FunctionResult { on, with, result }) => {
            assert_eq!(*on, callee);
            let tys: Vec<TypeId> = with.iter().map(|a| a.into_type()).collect();
            assert_eq!(tys, argument_types);
            assert_eq!(*result, placeholder);
        }
        other => panic!("expected a function result, found {:?}", other),
    }
}

#[test]
fn intrinsic_with_dependent_argument_is_deferred() {
    let mut types = TypeStore::new();
    let element = types.register_type(Type::RootPolyType("T".to_owned()));
    let array = types.register_type(Type::Named("Array<T>".to_owned()));
    let push = types.register_type(Type::Function(
        signature(&[element], NUMBER_TYPE, 11, Some("array_push")),
        FunctionNature::Source(Some(array)),
    ));
    let mut data = CheckingData::new(types);
    let mut env = Environment::new();
    let r = resolve(&mut data, &mut env, push, vec![argument(element, 3)], span(0, 8));
    assert_eq!(r, 8);
    assert_eq!(data.types.types.len(), 9);
    assert_function_result(&data.types.types[r], push, &[element], NUMBER_TYPE);
    assert_eq!(env.events.len(), 1);
    assert_logged(&env.events[0], push, &[element], Some(r));
    assert!(data.diagnostics.is_empty());
    assert!(data.called_functions.is_empty());
}

#[test]
fn deferred_intrinsic_still_checks_arguments() {
    let mut types = TypeStore::new();
    let element = types.register_type(Type::RootPolyType("T".to_owned()));
    let push = source_function(&mut types, signature(&[NUMBER_TYPE], NUMBER_TYPE, 11, Some("array_push")));
    let mut data = CheckingData::new(types);
    let mut env = Environment::new();
    let r = resolve(&mut data, &mut env, push, vec![argument(element, 3)], span(0, 8));
    assert_eq!(r, ERROR_TYPE);
    assert_eq!(data.types.types.len(), 7);
    assert!(env.events.is_empty());
    assert_eq!(data.diagnostics.len(), 1);
}

#[test]
fn closed_fixed_constraint_wraps_the_variable() {
    let mut types = TypeStore::new();
    let constraint = source_function(&mut types, signature(&[NUMBER_TYPE], STRING_TYPE, 3, None));
    let variable = types.register_type(Type::RootPolyType("V".to_owned()));
    let mut env = Environment::new();
    env.set_poly_base(variable, PolyBase::Fixed { to: constraint, is_open_poly: false });
    let mut data = CheckingData::new(types);
    let r = resolve(&mut data, &mut env, variable, vec![argument(NUMBER_TYPE, 2)], span(0, 4));
    assert_eq!(r, 7);
    assert_function_result(&data.types.types[r], variable, &[NUMBER_TYPE], STRING_TYPE);
    assert_eq!(env.events.len(), 1);
    assert_logged(&env.events[0], variable, &[NUMBER_TYPE], Some(r));
    assert_eq!(data.called_functions, vec![3]);
}

#[test]
fn open_fixed_constraint_returns_result_unwrapped() {
    let mut types = TypeStore::new();
    let constraint = source_function(&mut types, signature(&[NUMBER_TYPE], STRING_TYPE, 3, None));
    let variable = types.register_type(Type::RootPolyType("V".to_owned()));
    let mut env = Environment::new();
    env.set_poly_base(variable, PolyBase::Fixed { to: constraint, is_open_poly: true });
    let mut data = CheckingData::new(types);
    let r = resolve(&mut data, &mut env, variable, vec![argument(NUMBER_TYPE, 2)], span(0, 4));
    assert_eq!(r, STRING_TYPE);
    assert_eq!(data.types.types.len(), 7);
    assert_eq!(env.events.len(), 1);
    assert_logged(&env.events[0], variable, &[NUMBER_TYPE], None);
    assert_eq!(data.called_functions, vec![3]);
}

#[test]
fn fixed_constraint_passes_errors_through() {
    let mut types = TypeStore::new();
    let constraint = source_function(&mut types, signature(&[NUMBER_TYPE], STRING_TYPE, 3, None));
    let variable = types.register_type(Type::RootPolyType("V".to_owned()));
    let mut env = Environment::new();
    env.set_poly_base(variable, PolyBase::Fixed { to: constraint, is_open_poly: false });
    let mut data = CheckingData::new(types);
    let r = resolve(&mut data, &mut env, variable, vec![], span(0, 4));
    assert_eq!(r, ERROR_TYPE);
    assert_eq!(data.types.types.len(), 7);
    assert!(env.events.is_empty());
    assert!(matches!(
        data.diagnostics[0],
        Diagnostic::Error(FunctionCallingError::MismatchedArgumentCount { expected: 1, found: 0, .. })
    ));
}

#[test]
fn universal_dynamic_constraint_is_inferred_from_arguments() {
    let mut types = TypeStore::new();
    let variable = types.register_type(Type::RootPolyType("V".to_owned()));
    let mut env = Environment::new();
    env.set_poly_base(variable, PolyBase::Dynamic { to: ANY_TYPE, boundary: 1 });
    let mut data = CheckingData::new(types);
    let r = resolve(&mut data, &mut env, variable, vec![argument(STRING_TYPE, 2)], span(0, 5));
    assert_eq!(r, ANY_TYPE);
    assert_eq!(env.get_poly_base(variable), Some(PolyBase::Dynamic { to: 6, boundary: 1 }));
    match &data.types.types[6] {
        Type::Function(f, FunctionNature::BehindPoly { function_id_if_open_poly: None, this_type: None }) => {
            assert_eq!(f.parameters.len(), 1);
            assert_eq!(f.parameters[0].name, "i0");
            assert_eq!(f.parameters[0].ty, STRING_TYPE);
            assert_eq!(f.parameters[0].position, span(2, 3));
            assert_eq!(f.return_type, ANY_TYPE);
            assert_eq!(f.kind, FunctionKind::Arrow);
            assert!(f.constant_id.is_none());
            assert!(f.type_parameters.is_none());
        }
        other => panic!("expected an inferred function, found {:?}", other),
    }
    assert!(data.diagnostics.is_empty());
    assert!(env.events.is_empty());
}

#[test]
fn inferred_parameters_are_named_by_index() {
    let mut types = TypeStore::new();
    let variable = types.register_type(Type::RootPolyType("V".to_owned()));
    let mut env = Environment::new();
    env.set_poly_base(variable, PolyBase::Dynamic { to: ANY_TYPE, boundary: 0 });
    let mut data = CheckingData::new(types);
    let arguments: Vec<SynthesizedArgument> = (0..12).map(|i| argument(if i % 2 == 0 { NUMBER_TYPE } else { BOOLEAN_TYPE }, i)).collect();
    let r = resolve(&mut data, &mut env, variable, arguments, span(0, 40));
    assert_eq!(r, ANY_TYPE);
    match &data.types.types[6] {
        Type::Function(f, _) => {
            let names: Vec<&str> = f.parameters.iter().map(|p| p.name.as_str()).collect();
            assert_eq!(names, vec!["i0", "i1", "i2", "i3", "i4", "i5", "i6", "i7", "i8", "i9", "i10", "i11"]);
            assert_eq!(f.parameters[11].ty, BOOLEAN_TYPE);
        }
        other => panic!("expected an inferred function, found {:?}", other),
    }
}

#[test]
fn other_dynamic_constraint_is_unsupported() {
    let mut types = TypeStore::new();
    let variable = types.register_type(Type::RootPolyType("V".to_owned()));
    let mut env = Environment::new();
    env.set_poly_base(variable, PolyBase::Dynamic { to: NUMBER_TYPE, boundary: 0 });
    let mut data = CheckingData::new(types);
    let r = resolve(&mut data, &mut env, variable, vec![], span(3, 5));
    assert_eq!(r, ERROR_TYPE);
    assert_eq!(env.get_poly_base(variable), Some(PolyBase::Dynamic { to: NUMBER_TYPE, boundary: 0 }));
    assert!(matches!(
        data.diagnostics[0],
        Diagnostic::Error(FunctionCallingError::UnsupportedConstraint { constraint: NUMBER_TYPE, call_site })
            if call_site == span(3, 5)
    ));
}

#[test]
fn boolean_is_not_callable() {
    let mut types = TypeStore::new();
    let mut env = Environment::new();
    let r = call_type(BOOLEAN_TYPE, CalledWithNew::Normal, None, None, vec![], span(2, 9), &mut env, &mut types);
    match r {
        Err(errors) => {
            assert_eq!(errors.len(), 1);
            match &errors[0] {
                FunctionCallingError::NotCallable { calling, call_site } => {
                    assert_eq!(calling, "boolean");
                    assert_eq!(*call_site, span(2, 9));
                }
                other => panic!("unexpected error {:?}", other),
            }
        }
        Ok(result) => panic!("unexpected success {:?}", result),
    }
}

#[test]
fn not_callable_is_reported_with_error_type() {
    let mut types = TypeStore::new();
    let variable = types.register_type(Type::RootPolyType("U".to_owned()));
    let mut data = CheckingData::new(types);
    let mut env = Environment::new();
    let r = resolve(&mut data, &mut env, variable, vec![argument(NUMBER_TYPE, 1)], span(0, 3));
    assert_eq!(r, ERROR_TYPE);
    assert_eq!(data.diagnostics.len(), 1);
    assert!(matches!(
        &data.diagnostics[0],
        Diagnostic::Error(FunctionCallingError::NotCallable { calling, .. }) if calling == "U"
    ));
}

#[test]
fn sequential_deferred_calls_log_in_order() {
    let mut types = TypeStore::new();
    let element = types.register_type(Type::RootPolyType("T".to_owned()));
    let first = source_function(&mut types, signature(&[element], NUMBER_TYPE, 11, Some("first")));
    let second = source_function(&mut types, signature(&[ANY_TYPE, ANY_TYPE], STRING_TYPE, 12, Some("second")));
    let mut data = CheckingData::new(types);
    let mut env = Environment::new();
    let a = resolve(&mut data, &mut env, first, vec![argument(element, 1)], span(0, 4));
    let b = resolve(&mut data, &mut env, second, vec![argument(NUMBER_TYPE, 6), argument(a, 8)], span(5, 10));
    assert_eq!(a, 8);
    assert_eq!(b, 9);
    assert_eq!(env.events.len(), 2);
    assert_logged(&env.events[0], first, &[element], Some(a));
    assert_logged(&env.events[1], second, &[NUMBER_TYPE, a], Some(b));
}

#[test]
fn constraint_interned_after_its_variable_is_called_through() {
    let mut types = TypeStore::new();
    let variable = types.register_type(Type::RootPolyType("T".to_owned()));
    // T extends (x: T) => number
    let constraint = source_function(&mut types, signature(&[variable], NUMBER_TYPE, 4, None));
    assert!(constraint > variable);
    let mut env = Environment::new();
    env.set_poly_base(variable, PolyBase::Fixed { to: constraint, is_open_poly: false });
    let mut data = CheckingData::new(types);
    let r = resolve(&mut data, &mut env, variable, vec![argument(variable, 2)], span(0, 4));
    assert_eq!(r, 7);
    assert_function_result(&data.types.types[r], variable, &[variable], NUMBER_TYPE);
    assert_eq!(env.events.len(), 1);
    assert_logged(&env.events[0], variable, &[variable], Some(r));
    assert_eq!(data.called_functions, vec![4]);
    assert!(data.diagnostics.is_empty());
}

#[test]
fn chained_fixed_constraints_wrap_each_variable() {
    let mut types = TypeStore::new();
    let outer = types.register_type(Type::RootPolyType("U".to_owned()));
    let inner = types.register_type(Type::RootPolyType("V".to_owned()));
    let constraint = source_function(&mut types, signature(&[NUMBER_TYPE], STRING_TYPE, 5, None));
    let mut env = Environment::new();
    env.set_poly_base(outer, PolyBase::Fixed { to: inner, is_open_poly: false });
    env.set_poly_base(inner, PolyBase::Fixed { to: constraint, is_open_poly: false });
    let mut data = CheckingData::new(types);
    let r = resolve(&mut data, &mut env, outer, vec![argument(NUMBER_TYPE, 2)], span(0, 4));
    assert_eq!(r, 9);
    assert_function_result(&data.types.types[8], inner, &[NUMBER_TYPE], STRING_TYPE);
    assert_function_result(&data.types.types[9], outer, &[NUMBER_TYPE], 8);
    assert_eq!(env.events.len(), 2);
    assert_logged(&env.events[0], inner, &[NUMBER_TYPE], Some(8));
    assert_logged(&env.events[1], outer, &[NUMBER_TYPE], Some(9));
    assert_eq!(data.called_functions, vec![5]);
}

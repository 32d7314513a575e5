use vstd::prelude::*;
use source_map::Span;

verus! {

/// Identity of an interned type: its index in the [`TypeStore`].
pub type TypeId = usize;

/// The absorbing error type.
pub const ERROR_TYPE: TypeId = 0;

/// The universal type, to which every value is assignable.
pub const ANY_TYPE: TypeId = 1;

pub const BOOLEAN_TYPE: TypeId = 2;

pub const NUMBER_TYPE: TypeId = 3;

pub const STRING_TYPE: TypeId = 4;

/// Identity of a function declaration.
pub type FunctionId = u32;

/// The identity of a function that has no declaration (an inferred signature).
pub const NULL_FUNCTION: FunctionId = 0;

/// An argument at a call site, after its type has been synthesized.
#[derive(Clone, Copy, Debug, PartialEq, Eq)]
pub enum SynthesizedArgument {
    NonSpread { ty: TypeId, position: Span },
}

impl SynthesizedArgument {
    pub open spec fn spec_ty(self) -> TypeId {
        match self {
            SynthesizedArgument::NonSpread { ty, .. } => ty,
        }
    }

    pub open spec fn spec_position(self) -> Span {
        match self {
            SynthesizedArgument::NonSpread { position, .. } => position,
        }
    }

    pub fn into_type(&self) -> (r: TypeId)
        ensures
            r == self.spec_ty(),
    {
        match self {
            SynthesizedArgument::NonSpread { ty, .. } => *ty,
        }
    }
}

/// A parameter of a function signature.
#[derive(Debug)]
pub struct SynthesizedParameter {
    pub name: String,
    pub ty: TypeId,
    pub position: Span,
}

#[derive(Clone, Copy, Debug, PartialEq, Eq, Structural)]
pub enum FunctionKind {
    Function,
    Arrow,
    ClassConstructor,
}

/// A function signature.
#[derive(Debug)]
pub struct FunctionType {
    pub type_parameters: Option<Vec<TypeId>>,
    pub parameters: Vec<SynthesizedParameter>,
    pub return_type: TypeId,
    /// Identities of the calls made by the function body, as a summary of its effects.
    pub effects: Vec<TypeId>,
    /// Identities of the variables the function captures.
    pub closed_over_references: Vec<u32>,
    pub kind: FunctionKind,
    /// Present when the checker evaluates calls of this function itself.
    pub constant_id: Option<String>,
    pub id: FunctionId,
}

/// How a function value is reached.
#[derive(Clone, Copy, Debug, PartialEq, Eq)]
pub enum FunctionNature {
    /// A concrete, lexically bound function, with its bound receiver if any.
    Source(Option<TypeId>),
    /// A function reachable only through an unresolved type variable.
    BehindPoly { function_id_if_open_poly: Option<FunctionId>, this_type: Option<TypeId> },
}

/// Types built from other types.
#[derive(Debug)]
pub enum Constructor {
    /// The type produced by calling `on` with `with`; `result` stands in for it
    /// until `on` and `with` are concrete.
    FunctionResult { on: TypeId, with: Vec<SynthesizedArgument>, result: TypeId },
}

#[derive(Debug)]
pub enum Type {
    /// A concrete named type (`boolean`, `number`, an interface).
    Named(String),
    /// A type parameter whose value is not known yet.
    RootPolyType(String),
    Function(FunctionType, FunctionNature),
    Constructor(Constructor),
}

impl Type {
    /// Whether the value of the type depends on a type parameter not yet resolved.
    pub open spec fn spec_is_dependent(&self) -> bool {
        self is RootPolyType || self is Constructor
    }

    pub fn is_dependent(&self) -> (r: bool)
        ensures
            r == self.spec_is_dependent(),
    {
        match self {
            Type::RootPolyType(_) | Type::Constructor(_) => true,
            _ => false,
        }
    }

    /// How the type reads in a diagnostic.
    pub open spec fn printable(&self) -> Seq<char> {
        match self {
            Type::Named(name) => name@,
            Type::RootPolyType(name) => name@,
            Type::Function(..) => "function"@,
            Type::Constructor(..) => "call result"@,
        }
    }

    pub fn to_printable(&self) -> (r: String)
        ensures
            r@ == self.printable(),
    {
        match self {
            Type::Named(name) => name.clone(),
            Type::RootPolyType(name) => name.clone(),
            Type::Function(..) => "function".to_owned(),
            Type::Constructor(..) => "call result".to_owned(),
        }
    }
}

/// The arena that owns every interned type. A type's identity is its index.
pub struct TypeStore {
    pub types: Vec<Type>,
}

impl TypeStore {
    pub open spec fn contains(&self, id: TypeId) -> bool {
        id < self.types@.len()
    }

    /// A store holding the built-in types, at the identities of the constants above.
    pub fn new() -> (r: TypeStore)
        ensures
            r.types@.len() == 5,
            r.types@[ERROR_TYPE as int].printable() == "error"@,
            r.types@[ANY_TYPE as int].printable() == "any"@,
            r.types@[BOOLEAN_TYPE as int].printable() == "boolean"@,
            r.types@[NUMBER_TYPE as int].printable() == "number"@,
            r.types@[STRING_TYPE as int].printable() == "string"@,
            forall|i: int| 0 <= i < 5 ==> r.types@[i] is Named,
    {
        let mut types: Vec<Type> = Vec::new();
        types.push(Type::Named("error".to_owned()));
        types.push(Type::Named("any".to_owned()));
        types.push(Type::Named("boolean".to_owned()));
        types.push(Type::Named("number".to_owned()));
        types.push(Type::Named("string".to_owned()));
        TypeStore { types }
    }

    pub fn get_type_by_id(&self, id: TypeId) -> (r: &Type)
        requires
            self.contains(id),
        ensures
            *r == self.types@[id as int],
    {
        &self.types[id]
    }

    /// Interns `ty` under a fresh identity.
    pub fn register_type(&mut self, ty: Type) -> (r: TypeId)
        ensures
            r == old(self).types@.len(),
            final(self).types@ == old(self).types@.push(ty),
    {
        let id: TypeId = self.types.len();
        self.types.push(ty);
        id
    }
}

} // verus!

//! Call resolution for a static type checker: given a callee type and the
//! synthesized arguments of a call, decide the type the call produces, record
//! deferred ("pending") calls for later specialization, and report errors.

use vstd::prelude::*;

pub mod types;
pub mod context;
pub mod diagnostics;
pub mod calling;
pub mod lemmas;

verus! {

/// Declares `source_map::BaseSpan` (`source_map::Span` is `BaseSpan<()>`) as an
/// opaque type. Nothing is assumed of its contents: spans are only copied from
/// call sites and arguments into results and diagnostics.
#[verifier::external_type_specification]
#[verifier::external_body]
#[verifier::reject_recursive_types(T)]
pub struct ExBaseSpan<T: 'static>(source_map::BaseSpan<T>);

} // verus!

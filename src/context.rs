use vstd::prelude::*;
use crate::types::{SynthesizedArgument, TypeId};

verus! {

/// The calling convention of a call site.
#[derive(Clone, Copy, Debug, PartialEq, Eq, Structural)]
pub enum CalledWithNew {
    New,
    Normal,
}

/// When a recorded call takes place relative to the code around it.
#[derive(Clone, Copy, Debug, PartialEq, Eq, Structural)]
pub enum CallingTiming {
    Synchronous,
}

/// The scope within which an inferred constraint may be refined.
pub type InferenceBoundary = u32;

/// What is known of an unresolved type variable.
#[derive(Clone, Copy, Debug, PartialEq, Eq, Structural)]
pub enum PolyBase {
    /// The constraint is known; `is_open_poly` marks a constraint that is itself abstract.
    Fixed { to: TypeId, is_open_poly: bool },
    /// The constraint is still being inferred within `boundary`.
    Dynamic { to: TypeId, boundary: InferenceBoundary },
}

/// An entry of the effect log, replayed in order by later specialization.
#[derive(Debug)]
pub enum Event {
    CallsType {
        on: TypeId,
        with: Vec<SynthesizedArgument>,
        reflects_dependency: Option<TypeId>,
        timing: CallingTiming,
        called_with_new: CalledWithNew,
    },
}

impl Event {
    /// The event records a synchronous call of `on` with `with`.
    pub open spec fn records_call(
        &self,
        on: TypeId,
        with: Seq<SynthesizedArgument>,
        reflects_dependency: Option<TypeId>,
        called_with_new: CalledWithNew,
    ) -> bool {
        match self {
            Event::CallsType { on: o, with: w, reflects_dependency: d, timing, called_with_new: c } => {
                &&& *o == on
                &&& w@ == with
                &&& *d == reflects_dependency
                &&& *timing == CallingTiming::Synchronous
                &&& *c == called_with_new
            },
        }
    }
}

/// The checking environment of the active scope: the bases of its type
/// variables, by type identity, and its effect log.
#[derive(Debug)]
pub struct Environment {
    pub poly_bases: Vec<Option<PolyBase>>,
    pub events: Vec<Event>,
}

/// The base of `id` in a table of bases indexed by type identity.
pub open spec fn base_at(bases: Seq<Option<PolyBase>>, id: TypeId) -> Option<PolyBase> {
    if id < bases.len() {
        bases[id as int]
    } else {
        None
    }
}

/// `rank` strictly decreases from each type variable to its fixed constraint.
pub open spec fn ranked_by(bases: Seq<Option<PolyBase>>, rank: spec_fn(TypeId) -> nat) -> bool {
    forall|id: TypeId| #[trigger] base_at(bases, id) matches Some(PolyBase::Fixed { to, .. }) ==> rank(to) < rank(id)
}

/// Fixed constraints form no cycle, so every chain of them ends.
pub open spec fn acyclic(bases: Seq<Option<PolyBase>>) -> bool {
    exists|rank: spec_fn(TypeId) -> nat| ranked_by(bases, rank)
}

/// A rank witnessing that the fixed constraints of `bases` form no cycle.
pub open spec fn fixed_rank(bases: Seq<Option<PolyBase>>) -> spec_fn(TypeId) -> nat {
    choose|rank: spec_fn(TypeId) -> nat| ranked_by(bases, rank)
}

impl Environment {
    pub open spec fn spec_poly_base(&self, id: TypeId) -> Option<PolyBase> {
        base_at(self.poly_bases@, id)
    }

    pub open spec fn wf(&self) -> bool {
        acyclic(self.poly_bases@)
    }

    /// Every fixed constraint is a type of an arena holding `n` types.
    pub open spec fn constraints_within(&self, n: nat) -> bool {
        forall|id: TypeId| #[trigger] self.spec_poly_base(id) matches Some(PolyBase::Fixed { to, .. }) ==> to < n
    }

    /// The table of bases once the type variable `id` has the base `base`.
    pub open spec fn bases_with(&self, id: TypeId, base: PolyBase) -> Seq<Option<PolyBase>> {
        let len = if id < self.poly_bases@.len() { self.poly_bases@.len() as int } else { id + 1 };
        Seq::new(len as nat, |i: int| if i == id { Some(base) } else { self.spec_poly_base(i as TypeId) })
    }

    pub fn new() -> (r: Environment)
        ensures
            r.wf(),
            r.poly_bases@.len() == 0,
            r.events@.len() == 0,
    {
        let r = Environment { poly_bases: Vec::new(), events: Vec::new() };
        assert(ranked_by(r.poly_bases@, |id: TypeId| 0nat));
        r
    }

    pub fn get_poly_base(&self, id: TypeId) -> (r: Option<PolyBase>)
        ensures
            r == self.spec_poly_base(id),
    {
        if id < self.poly_bases.len() {
            self.poly_bases[id]
        } else {
            None
        }
    }

    /// Gives the type variable `id` the base `base`.
    pub fn set_poly_base(&mut self, id: TypeId, base: PolyBase)
        requires
            acyclic(old(self).bases_with(id, base)),
            id < usize::MAX,
        ensures
            final(self).wf(),
            final(self).events@ == old(self).events@,
            forall|other: TypeId|
                #[trigger] final(self).spec_poly_base(other)
                    == if other == id { Some(base) } else { old(self).spec_poly_base(other) },
    {
        while self.poly_bases.len() <= id
            invariant
                self.events@ == old(self).events@,
                self.poly_bases@.len() >= old(self).poly_bases@.len(),
                self.poly_bases@.len() == old(self).poly_bases@.len() || self.poly_bases@.len() <= id + 1,
                forall|other: TypeId| #[trigger] self.spec_poly_base(other) == old(self).spec_poly_base(other),
            decreases id + 1 - self.poly_bases.len(),
        {
            let ghost before = *self;
            self.poly_bases.push(None);
            assert forall|other: TypeId| #[trigger] self.spec_poly_base(other) == old(self).spec_poly_base(other) by {
                assert(before.spec_poly_base(other) == old(self).spec_poly_base(other));
                if other < before.poly_bases@.len() {
                    assert(self.poly_bases@[other as int] == before.poly_bases@[other as int]);
                }
            }
        }
        let ghost before = *self;
        self.poly_bases.set(id, Some(base));
        assert forall|other: TypeId|
            #[trigger] self.spec_poly_base(other)
                == if other == id { Some(base) } else { before.spec_poly_base(other) } by {}
        assert forall|i: int| 0 <= i < self.poly_bases@.len() implies self.poly_bases@[i] == old(self).bases_with(id, base)[i] by {
            assert(self.spec_poly_base(i as TypeId) == self.poly_bases@[i]);
            if i != id {
                assert(before.spec_poly_base(i as TypeId) == old(self).spec_poly_base(i as TypeId));
            }
        }
        assert(self.poly_bases@ =~= old(self).bases_with(id, base));
    }

    /// Appends `event` to the effect log.
    pub fn log_event(&mut self, event: Event)
        requires
            old(self).wf(),
        ensures
            final(self).wf(),
            final(self).events@ == old(self).events@.push(event),
            final(self).poly_bases@ == old(self).poly_bases@,
    {
        self.events.push(event);
    }

    /// Installs `constraint` as the inferred constraint of the type variable `on`.
    pub fn attempt_to_modify_base(&mut self, on: TypeId, boundary: InferenceBoundary, constraint: TypeId)
        requires
            old(self).wf(),
            on < old(self).poly_bases@.len(),
        ensures
            final(self).wf(),
            final(self).events@ == old(self).events@,
            final(self).poly_bases@
                == old(self).poly_bases@.update(on as int, Some(PolyBase::Dynamic { to: constraint, boundary })),
    {
        let ghost rank = fixed_rank(old(self).poly_bases@);
        self.poly_bases.set(on, Some(PolyBase::Dynamic { to: constraint, boundary }));
        assert forall|id: TypeId| #[trigger] base_at(self.poly_bases@, id)
            == if id == on { Some(PolyBase::Dynamic { to: constraint, boundary }) } else { base_at(old(self).poly_bases@, id) } by {}
        assert(ranked_by(self.poly_bases@, rank));
    }
}

/// Constraints that lie within an arena stay within it as the arena grows,
/// while the fixed constraints are left as they were.
pub proof fn lemma_constraints_stay_within(before: Environment, after: Environment, n: nat, m: nat)
    requires
        before.constraints_within(n),
        n <= m,
        forall|id: TypeId|
            (#[trigger] after.spec_poly_base(id) matches Some(PolyBase::Fixed { .. })) ==> after.spec_poly_base(id)
                == before.spec_poly_base(id),
    ensures
        after.constraints_within(m),
{
    assert forall|id: TypeId| #[trigger] after.spec_poly_base(id) matches Some(PolyBase::Fixed { .. }) implies
        after.spec_poly_base(id)->Some_0->Fixed_to < m by {
        assert(before.spec_poly_base(id) == after.spec_poly_base(id));
    }
}

} // verus!

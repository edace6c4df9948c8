use vstd::prelude::*;

use crate::value::ValueType;

verus! {

/// The index of one input, output or parameter slot within an interface.
pub type SpecId = usize;

/// A slot of an interface, seen through a reference.
pub trait RefRuntimeSpecifier {
    /// The number of slots of this kind of interface; ids run from `0` below it.
    spec fn spec_count() -> nat;

    spec fn spec_id(&self) -> nat;

    spec fn spec_value_type(&self) -> ValueType;

    fn id(&self) -> (r: SpecId)
        ensures
            r as nat == self.spec_id(),
    ;

    fn value_type(&self) -> (r: ValueType)
        ensures
            r == self.spec_value_type(),
    ;
}

/// A slot that can be rebuilt from its id.
pub trait RuntimeSpecifier: RefRuntimeSpecifier + Sized {
    /// The slot with id `id`.
    spec fn spec_from_id(id: nat) -> Self;

    /// The slot with id `id`; its id is `id` again.
    fn from_id(id: SpecId) -> (r: Self)
        requires
            (id as nat) < Self::spec_count(),
        ensures
            r == Self::spec_from_id(id as nat),
            r.spec_id() == id as nat,
    ;
}

/// A slot kind whose slots can all be listed.
pub trait EnumerateValues: RuntimeSpecifier {
    /// Every slot, in order of id: the `i`-th has id `i` and is the slot `from_id(i)`.
    fn values() -> (r: Vec<Self>)
        ensures
            r@.len() == Self::spec_count(),
            forall|i: int| 0 <= i < r@.len() ==> (#[trigger] r@[i]).spec_id() == i as nat,
            forall|i: int| 0 <= i < r@.len() ==> #[trigger] r@[i] == Self::spec_from_id(i as nat),
    ;
}

/// The interface of a component with no slots of some kind: it has no values, no valid
/// ids and an empty enumeration.
pub struct NoSpecifier {
    never: std::convert::Infallible,
}

impl RefRuntimeSpecifier for NoSpecifier {
    open spec fn spec_count() -> nat {
        0
    }

    open spec fn spec_id(&self) -> nat {
        0
    }

    open spec fn spec_value_type(&self) -> ValueType {
        ValueType { kind: crate::value::ValueKind::Discrete, channels: None }
    }

    fn id(&self) -> (r: SpecId) {
        0
    }

    fn value_type(&self) -> (r: ValueType) {
        ValueType::discrete()
    }
}

impl RuntimeSpecifier for NoSpecifier {
    open spec fn spec_from_id(id: nat) -> Self {
        vstd::pervasive::arbitrary()
    }

    fn from_id(id: SpecId) -> (r: Self)
        decreases id,
    {
        Self::from_id(id)
    }
}

impl EnumerateValues for NoSpecifier {
    fn values() -> (r: Vec<Self>) {
        Vec::new()
    }
}

/// The interface of a component with exactly one slot of some kind: one continuous
/// channel.
#[derive(Clone, Copy, Debug, PartialEq, Eq, Structural)]
pub enum SingleSpec {
    Main,
}

impl RefRuntimeSpecifier for SingleSpec {
    open spec fn spec_count() -> nat {
        1
    }

    open spec fn spec_id(&self) -> nat {
        0
    }

    open spec fn spec_value_type(&self) -> ValueType {
        ValueType { kind: crate::value::ValueKind::Continuous, channels: Some(1) }
    }

    fn id(&self) -> (r: SpecId) {
        0
    }

    fn value_type(&self) -> (r: ValueType) {
        ValueType::continuous(1)
    }
}

impl RuntimeSpecifier for SingleSpec {
    open spec fn spec_from_id(id: nat) -> Self {
        SingleSpec::Main
    }

    fn from_id(id: SpecId) -> (r: Self) {
        SingleSpec::Main
    }
}

impl EnumerateValues for SingleSpec {
    fn values() -> (r: Vec<Self>) {
        let mut v: Vec<SingleSpec> = Vec::new();
        v.push(SingleSpec::Main);
        v
    }
}

/// The interface of a component with two slots of some kind, each one continuous
/// channel.
#[derive(Clone, Copy, Debug, PartialEq, Eq, Structural)]
pub enum PairSpec {
    First,
    Second,
}

impl RefRuntimeSpecifier for PairSpec {
    open spec fn spec_count() -> nat {
        2
    }

    open spec fn spec_id(&self) -> nat {
        match self {
            PairSpec::First => 0,
            PairSpec::Second => 1,
        }
    }

    open spec fn spec_value_type(&self) -> ValueType {
        ValueType { kind: crate::value::ValueKind::Continuous, channels: Some(1) }
    }

    fn id(&self) -> (r: SpecId) {
        match self {
            PairSpec::First => 0,
            PairSpec::Second => 1,
        }
    }

    fn value_type(&self) -> (r: ValueType) {
        ValueType::continuous(1)
    }
}

impl RuntimeSpecifier for PairSpec {
    open spec fn spec_from_id(id: nat) -> Self {
        if id == 0 {
            PairSpec::First
        } else {
            PairSpec::Second
        }
    }

    fn from_id(id: SpecId) -> (r: Self) {
        if id == 0 {
            PairSpec::First
        } else {
            PairSpec::Second
        }
    }
}

impl EnumerateValues for PairSpec {
    fn values() -> (r: Vec<Self>) {
        let mut v: Vec<PairSpec> = Vec::new();
        v.push(PairSpec::First);
        v.push(PairSpec::Second);
        v
    }
}

/// A slot named by its index alone, for interfaces that are known only at run time.
#[derive(Clone, Copy, Debug, PartialEq, Eq, Structural)]
pub struct AnyInputSpec(pub SpecId);

/// An output slot named by its index alone.
#[derive(Clone, Copy, Debug, PartialEq, Eq, Structural)]
pub struct AnyOutputSpec(pub SpecId);

/// A parameter slot named by its index alone.
#[derive(Clone, Copy, Debug, PartialEq, Eq, Structural)]
pub struct AnyParamSpec(pub SpecId);

} // verus!

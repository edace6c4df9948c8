use vstd::prelude::*;

use crate::value::Value;
use nom_midi::MidiEventType;
use std::marker::PhantomData;

verus! {

/// A MIDI event is carried through the graph as it is; nothing here looks inside it.
#[verifier::external_type_specification]
#[verifier::external_body]
pub struct ExMidiEventType(MidiEventType);

/// The `Either` of itertools, read by Verus as the plain two-variant enum it is.
#[verifier::external_type_specification]
#[verifier::reject_recursive_types(L)]
#[verifier::reject_recursive_types(R)]
pub struct ExEither<L, R>(itertools::Either<L, R>);

/// A stream that cannot exist: it stands in the unused arm of an `AnyIter` whose kind is
/// fixed by its type, and takes no room there.
pub struct NoIter<T> {
    never: std::convert::Infallible,
    marker: PhantomData<T>,
}

/// How a value that may hold a sequence of `T` gives it up.
pub trait PossiblyIter<T>: Sized {
    type Iter;

    /// Whether this value holds a sequence of `T`.
    spec fn holds(&self) -> bool;

    /// The sequence held, where `holds`.
    spec fn payload(&self) -> Self::Iter;

    /// The sequence, or this value unchanged where it holds none.
    fn try_iter(self) -> (r: Result<Self::Iter, Self>)
        ensures
            self.holds() ==> r == Ok::<Self::Iter, Self>(self.payload()),
            !self.holds() ==> r == Err::<Self::Iter, Self>(self),
    ;
}

/// The stream that a wire carries: discrete events (`A`) or continuous samples (`B`).
pub enum AnyIterInner<A, B> {
    Midi(A),
    Analog(B),
}

pub struct AnyIter<A, B>(pub AnyIterInner<A, B>);

/// The stream kind used by the rack, which may hold either kind.
pub type Stream = AnyIter<Vec<MidiEventType>, Vec<Value>>;

impl<A, B> AnyIter<A, B> {
    pub fn from_midi(events: A) -> (r: Self)
        ensures
            r.0 == AnyIterInner::<A, B>::Midi(events),
    {
        AnyIter(AnyIterInner::Midi(events))
    }

    pub fn from_analog(samples: B) -> (r: Self)
        ensures
            r.0 == AnyIterInner::<A, B>::Analog(samples),
    {
        AnyIter(AnyIterInner::Analog(samples))
    }

    pub open spec fn is_analog(&self) -> bool {
        self.0 is Analog
    }

    pub fn analog(self) -> (r: Option<B>)
        ensures
            r == (match self.0 {
                AnyIterInner::Analog(b) => Some(b),
                AnyIterInner::Midi(_) => None::<B>,
            }),
    {
        match self.0 {
            AnyIterInner::Analog(b) => Some(b),
            AnyIterInner::Midi(_) => None,
        }
    }
}

impl<A, B> PossiblyIter<MidiEventType> for AnyIter<A, B> {
    type Iter = A;

    open spec fn holds(&self) -> bool {
        self.0 is Midi
    }

    open spec fn payload(&self) -> A {
        self.0->Midi_0
    }

    fn try_iter(self) -> (r: Result<A, Self>) {
        match self.0 {
            AnyIterInner::Midi(inner) => Ok(inner),
            AnyIterInner::Analog(b) => Err(AnyIter(AnyIterInner::Analog(b))),
        }
    }
}

impl<A, B> PossiblyIter<Value> for AnyIter<A, B> {
    type Iter = B;

    open spec fn holds(&self) -> bool {
        self.0 is Analog
    }

    open spec fn payload(&self) -> B {
        self.0->Analog_0
    }

    fn try_iter(self) -> (r: Result<B, Self>) {
        match self.0 {
            AnyIterInner::Analog(inner) => Ok(inner),
            AnyIterInner::Midi(a) => Err(AnyIter(AnyIterInner::Midi(a))),
        }
    }
}

impl<A: Default> Default for AnyIter<A, NoIter<Value>> {
    /// An empty event stream, where the stream can only hold events.
    fn default() -> (r: Self)
        ensures
            r.0 is Midi,
    {
        AnyIter(AnyIterInner::Midi(A::default()))
    }
}

impl<B: Default> Default for AnyIter<NoIter<MidiEventType>, B> {
    /// An empty sample stream, where the stream can only hold samples.
    fn default() -> (r: Self)
        ensures
            r.0 is Analog,
    {
        AnyIter(AnyIterInner::Analog(B::default()))
    }
}

/// One of two values that may each hold a sequence of `T`.
pub enum PossiblyEither<A, B> {
    Left(A),
    Right(B),
}

impl<A, B, T> PossiblyIter<T> for PossiblyEither<A, B> where A: PossiblyIter<T>, B: PossiblyIter<T> {
    type Iter = itertools::Either<A::Iter, B::Iter>;

    open spec fn holds(&self) -> bool {
        match self {
            PossiblyEither::Left(a) => a.holds(),
            PossiblyEither::Right(b) => b.holds(),
        }
    }

    open spec fn payload(&self) -> itertools::Either<A::Iter, B::Iter> {
        match self {
            PossiblyEither::Left(a) => itertools::Either::Left(a.payload()),
            PossiblyEither::Right(b) => itertools::Either::Right(b.payload()),
        }
    }

    fn try_iter(self) -> (r: Result<itertools::Either<A::Iter, B::Iter>, Self>) {
        match self {
            PossiblyEither::Left(val) => match val.try_iter() {
                Ok(it) => Ok(itertools::Either::Left(it)),
                Err(v) => Err(PossiblyEither::Left(v)),
            },
            PossiblyEither::Right(val) => match val.try_iter() {
                Ok(it) => Ok(itertools::Either::Right(it)),
                Err(v) => Err(PossiblyEither::Right(v)),
            },
        }
    }
}


/// A stream made from continuous samples is refused as discrete, unchanged, and then
/// gives up exactly those samples as continuous.
pub proof fn lemma_analog_round_trip<A, B>(samples: B)
    ensures
        !<AnyIter<A, B> as PossiblyIter<MidiEventType>>::holds(&AnyIter(AnyIterInner::Analog(samples))),
        <AnyIter<A, B> as PossiblyIter<Value>>::holds(&AnyIter(AnyIterInner::Analog(samples))),
        <AnyIter<A, B> as PossiblyIter<Value>>::payload(&AnyIter(AnyIterInner::Analog(samples))) == samples,
{
}

/// Likewise a stream made from discrete events keeps them through a refused continuous
/// extraction.
pub proof fn lemma_midi_round_trip<A, B>(events: A)
    ensures
        !<AnyIter<A, B> as PossiblyIter<Value>>::holds(&AnyIter(AnyIterInner::Midi(events))),
        <AnyIter<A, B> as PossiblyIter<MidiEventType>>::holds(&AnyIter(AnyIterInner::Midi(events))),
        <AnyIter<A, B> as PossiblyIter<MidiEventType>>::payload(&AnyIter(AnyIterInner::Midi(events))) == events,
{
}

} // verus!

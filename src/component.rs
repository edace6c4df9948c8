use vstd::prelude::*;

use crate::specifier::{RefRuntimeSpecifier, SingleSpec, SpecId};
use crate::stream::{AnyIter, AnyIterInner, Stream};
use crate::value::Value;
use nom_midi::MidiEventType;

verus! {

/// What a stream holds, as sequences.
pub type StreamView = AnyIterInner<Seq<MidiEventType>, Seq<Value>>;

pub open spec fn view_stream(s: Stream) -> StreamView {
    match s.0 {
        AnyIterInner::Midi(a) => AnyIterInner::Midi(a@),
        AnyIterInner::Analog(b) => AnyIterInner::Analog(b@),
    }
}

pub open spec fn view_opt_stream(o: Option<Stream>) -> Option<StreamView> {
    match o {
        Some(s) => Some(view_stream(s)),
        None => None,
    }
}

pub open spec fn view_inputs(v: Seq<Option<Stream>>) -> Seq<Option<StreamView>> {
    v.map_values(|o: Option<Stream>| view_opt_stream(o))
}

/// A copy of a stream.
pub fn copy_stream(s: &Stream) -> (r: Stream)
    ensures
        view_stream(r) == view_stream(*s),
{
    match &s.0 {
        AnyIterInner::Midi(events) => {
            let mut out: Vec<MidiEventType> = Vec::new();
            let mut i: usize = 0;
            while i < events.len()
                invariant
                    0 <= i <= events@.len(),
                    out@ =~= events@.take(i as int),
                decreases events@.len() - i,
            {
                out.push(events[i]);
                i = i + 1;
            }
            assert(events@.take(events@.len() as int) =~= events@);
            AnyIter::from_midi(out)
        },
        AnyIterInner::Analog(samples) => {
            let mut out: Vec<Value> = Vec::new();
            let mut i: usize = 0;
            while i < samples.len()
                invariant
                    0 <= i <= samples@.len(),
                    out@ =~= samples@.take(i as int),
                decreases samples@.len() - i,
            {
                out.push(samples[i]);
                i = i + 1;
            }
            assert(samples@.take(samples@.len() as int) =~= samples@);
            AnyIter::from_analog(out)
        },
    }
}

/// A single-channel continuous stream.
pub fn mono(v: Value) -> (r: Stream)
    ensures
        view_stream(r) == AnyIterInner::<Seq<MidiEventType>, Seq<Value>>::Analog(seq![v]),
{
    let mut out: Vec<Value> = Vec::new();
    out.push(v);
    assert(out@ =~= seq![v]);
    AnyIter::from_analog(out)
}

/// A unit of computation: a value whose next state and whose outputs depend on nothing
/// but itself, its inputs this tick and the effective values of its parameters.
pub trait Component: Sized {
    spec fn spec_input_count(&self) -> nat;

    spec fn spec_output_count(&self) -> nat;

    /// The natural value of each parameter of a new instance.
    spec fn spec_param_defaults(&self) -> Seq<Value>;

    spec fn spec_update(&self, inputs: Seq<Option<StreamView>>, params: Seq<Value>) -> Self;

    spec fn spec_output(
        &self,
        output: nat,
        inputs: Seq<Option<StreamView>>,
        params: Seq<Value>,
    ) -> StreamView;

    /// A new state has the same interface as the old one.
    proof fn lemma_update_keeps_shape(&self, inputs: Seq<Option<StreamView>>, params: Seq<Value>)
        ensures
            self.spec_update(inputs, params).spec_input_count() == self.spec_input_count(),
            self.spec_update(inputs, params).spec_output_count() == self.spec_output_count(),
            self.spec_update(inputs, params).spec_param_defaults().len()
                == self.spec_param_defaults().len(),
    ;

    fn input_count(&self) -> (r: usize)
        ensures
            r as nat == self.spec_input_count(),
    ;

    fn output_count(&self) -> (r: usize)
        ensures
            r as nat == self.spec_output_count(),
    ;

    fn param_defaults(&self) -> (r: Vec<Value>)
        ensures
            r@ == self.spec_param_defaults(),
    ;

    /// The state of the next tick.
    fn update(&self, inputs: &Vec<Option<Stream>>, params: &Vec<Value>) -> (r: Self)
        requires
            inputs@.len() == self.spec_input_count(),
            params@.len() == self.spec_param_defaults().len(),
        ensures
            r == self.spec_update(view_inputs(inputs@), params@),
    ;

    /// The stream on output `output` this tick.
    fn output(&self, output: SpecId, inputs: &Vec<Option<Stream>>, params: &Vec<Value>) -> (r:
        Stream)
        requires
            (output as nat) < self.spec_output_count(),
            inputs@.len() == self.spec_input_count(),
            params@.len() == self.spec_param_defaults().len(),
        ensures
            view_stream(r) == self.spec_output(output as nat, view_inputs(inputs@), params@),
    ;
}

/// A few elementary kinds of component, each with one output.
#[derive(Clone, Copy, Debug, PartialEq, Eq, Structural)]
pub enum BasicComponent {
    /// No inputs; always emits its value on one channel.
    Constant(Value),
    /// One input, copied to the output as it is; one zero sample while unwired.
    Passthrough,
    /// One input; keeps the first sample of a continuous input at each tick and emits the
    /// sample it kept at the previous tick.
    Latch(Value),
    /// One input and two outputs: keeps the first sample of a continuous input at each
    /// tick like a latch, emits the kept sample on output 0, and copies its input to
    /// output 1 as a passthrough does.
    Tap(Value),
    /// No inputs and one parameter, the step; adds the step to its value at each tick,
    /// saturating, and emits its value.
    Counter(Value),
}

/// The first sample of a continuous stream, if any.
pub open spec fn first_sample(o: Option<StreamView>) -> Option<Value> {
    match o {
        Some(AnyIterInner::Analog(s)) => if s.len() > 0 {
            Some(s[0])
        } else {
            None
        },
        _ => None,
    }
}

/// `a + b` on the raw sample, held within the range of samples.
pub open spec fn saturating_sum(a: Value, b: Value) -> Value {
    let s = a.bits as int + b.bits as int;
    Value {
        bits: if s > i32::MAX as int {
            i32::MAX
        } else if s < i32::MIN as int {
            i32::MIN
        } else {
            s as i32
        },
    }
}

impl Component for BasicComponent {
    open spec fn spec_input_count(&self) -> nat {
        match self {
            BasicComponent::Passthrough | BasicComponent::Latch(_) | BasicComponent::Tap(_) => 1,
            _ => 0,
        }
    }

    open spec fn spec_output_count(&self) -> nat {
        match self {
            BasicComponent::Tap(_) => 2,
            _ => 1,
        }
    }

    open spec fn spec_param_defaults(&self) -> Seq<Value> {
        match self {
            BasicComponent::Counter(_) => seq![Value { bits: 0 }],
            _ => Seq::empty(),
        }
    }

    open spec fn spec_update(&self, inputs: Seq<Option<StreamView>>, params: Seq<Value>) -> Self {
        match self {
            BasicComponent::Latch(held) => match first_sample(inputs[0]) {
                Some(v) => BasicComponent::Latch(v),
                None => BasicComponent::Latch(*held),
            },
            BasicComponent::Tap(held) => match first_sample(inputs[0]) {
                Some(v) => BasicComponent::Tap(v),
                None => BasicComponent::Tap(*held),
            },
            BasicComponent::Counter(v) => BasicComponent::Counter(saturating_sum(*v, params[0])),
            _ => *self,
        }
    }

    open spec fn spec_output(
        &self,
        output: nat,
        inputs: Seq<Option<StreamView>>,
        params: Seq<Value>,
    ) -> StreamView {
        match self {
            BasicComponent::Constant(v) => AnyIterInner::Analog(seq![*v]),
            BasicComponent::Passthrough => match inputs[0] {
                Some(s) => s,
                None => AnyIterInner::Analog(seq![Value { bits: 0 }]),
            },
            BasicComponent::Latch(v) => AnyIterInner::Analog(seq![*v]),
            BasicComponent::Tap(v) => if output == 0 {
                AnyIterInner::Analog(seq![*v])
            } else {
                match inputs[0] {
                    Some(s) => s,
                    None => AnyIterInner::Analog(seq![Value { bits: 0 }]),
                }
            },
            BasicComponent::Counter(v) => AnyIterInner::Analog(seq![*v]),
        }
    }

    proof fn lemma_update_keeps_shape(&self, inputs: Seq<Option<StreamView>>, params: Seq<Value>) {
    }

    fn input_count(&self) -> (r: usize) {
        match self {
            BasicComponent::Passthrough | BasicComponent::Latch(_) | BasicComponent::Tap(_) => 1,
            _ => 0,
        }
    }

    fn output_count(&self) -> (r: usize) {
        match self {
            BasicComponent::Tap(_) => 2,
            _ => 1,
        }
    }

    fn param_defaults(&self) -> (r: Vec<Value>) {
        let mut out: Vec<Value> = Vec::new();
        if let BasicComponent::Counter(_) = self {
            out.push(Value::zero());
        }
        assert(out@ =~= self.spec_param_defaults());
        out
    }

    fn update(&self, inputs: &Vec<Option<Stream>>, params: &Vec<Value>) -> (r: Self) {
        match self {
            BasicComponent::Latch(held) | BasicComponent::Tap(held) => {
                let kept = match &inputs[0] {
                    Some(s) => match &s.0 {
                        AnyIterInner::Analog(samples) => if samples.len() > 0 {
                            samples[0]
                        } else {
                            *held
                        },
                        AnyIterInner::Midi(_) => *held,
                    },
                    None => *held,
                };
                if let BasicComponent::Tap(_) = self {
                    BasicComponent::Tap(kept)
                } else {
                    BasicComponent::Latch(kept)
                }
            },
            BasicComponent::Counter(v) => {
                let s = v.bits as i64 + params[0].bits as i64;
                let bits = if s > i32::MAX as i64 {
                    i32::MAX
                } else if s < i32::MIN as i64 {
                    i32::MIN
                } else {
                    s as i32
                };
                BasicComponent::Counter(Value::from_bits(bits))
            },
            _ => *self,
        }
    }

    fn output(&self, output: SpecId, inputs: &Vec<Option<Stream>>, params: &Vec<Value>) -> (r:
        Stream) {
        match self {
            BasicComponent::Constant(v) => mono(*v),
            BasicComponent::Passthrough => match &inputs[0] {
                Some(s) => copy_stream(s),
                None => mono(Value::zero()),
            },
            BasicComponent::Latch(v) => mono(*v),
            BasicComponent::Tap(v) => if output == 0 {
                mono(*v)
            } else {
                match &inputs[0] {
                    Some(s) => copy_stream(s),
                    None => mono(Value::zero()),
                }
            },
            BasicComponent::Counter(v) => mono(*v),
        }
    }
}


/// The output of a component named by a specifier of its own kind.
pub trait GetOutput<Spec: RefRuntimeSpecifier>: Component {
    fn output_of(&self, spec: &Spec, inputs: &Vec<Option<Stream>>, params: &Vec<Value>) -> (r: Stream)
        requires
            spec.spec_id() < self.spec_output_count(),
            inputs@.len() == self.spec_input_count(),
            params@.len() == self.spec_param_defaults().len(),
        ensures
            view_stream(r) == self.spec_output(spec.spec_id(), view_inputs(inputs@), params@),
    ;
}

impl GetOutput<SingleSpec> for BasicComponent {
    fn output_of(&self, spec: &SingleSpec, inputs: &Vec<Option<Stream>>, params: &Vec<Value>) -> (r: Stream) {
        self.output(spec.id(), inputs, params)
    }
}

} // verus!

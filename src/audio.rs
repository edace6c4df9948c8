use vstd::prelude::*;

use crate::component::{view_opt_stream, StreamView};
use crate::stream::{AnyIterInner, Stream};
use crate::value::{Value, ValueKind, ValueType};
use fixed::types::{I1F15, I1F31};

verus! {

/// Relies on fixed's `from_num` between fixed-point types: `I1F15` to `I1F31` adds
/// fractional bits only, so the value is kept exactly and the raw bits move up by 16.
#[verifier::external_body]
fn widen_pcm(sample: i16) -> (r: i32)
    ensures
        r as int == sample as int * 65536,
{
    I1F31::from_num(I1F15::from_bits(sample)).to_bits()
}

/// Relies on fixed's `from_num` between fixed-point types: `I1F31` to `I1F15` discards the
/// 16 extra fractional bits, which rounds towards minus infinity.
#[verifier::external_body]
fn narrow_pcm(bits: i32) -> (r: i16)
    ensures
        r as int == bits as int / 65536,
{
    I1F15::from_num(I1F31::from_bits(bits)).to_bits()
}

impl Value {
    /// The sample that a signed 16-bit PCM sample stands for (`sample / 2^15`).
    pub fn from_pcm(sample: i16) -> (r: Value)
        ensures
            r.bits as int == sample as int * 65536,
    {
        Value::from_bits(widen_pcm(sample))
    }

    /// The signed 16-bit PCM sample for this sample, rounded down.
    pub fn to_pcm(self) -> (r: i16)
        ensures
            r as int == self.bits as int / 65536,
    {
        narrow_pcm(self.bits)
    }
}

/// The channels that the continuous slots among `types` carry in all.
pub open spec fn audio_channels(types: Seq<ValueType>) -> nat
    decreases types.len(),
{
    if types.len() == 0 {
        0
    } else {
        audio_channels(types.drop_last()) + match types.last() {
            ValueType { kind: ValueKind::Continuous, channels: Some(c) } => c as nat,
            _ => 0,
        }
    }
}

proof fn lemma_audio_channels_grow(types: Seq<ValueType>, j: int, k: int)
    requires
        0 <= j <= k <= types.len(),
    ensures
        audio_channels(types.take(j)) <= audio_channels(types.take(k)),
    decreases k - j,
{
    if j < k {
        lemma_audio_channels_grow(types, j, k - 1);
        assert(types.take(k).drop_last() =~= types.take(k - 1));
    }
}

/// The number of audio channels of an interface whose slots have types `types`.
pub fn num_audio_channels(types: &[ValueType]) -> (r: u8)
    requires
        audio_channels(types@) <= u8::MAX,
    ensures
        r as nat == audio_channels(types@),
{
    assert(types@.take(types@.len() as int) =~= types@);
    channels_before(types, types.len())
}

/// The first audio channel of slot `id`: the channels of the continuous slots before it.
pub fn channels_before(types: &[ValueType], id: usize) -> (r: u8)
    requires
        id <= types@.len(),
        audio_channels(types@) <= u8::MAX,
    ensures
        r as nat == audio_channels(types@.take(id as int)),
{
    let mut out: u8 = 0;
    let mut i: usize = 0;
    while i < id
        invariant
            0 <= i <= id <= types@.len(),
            audio_channels(types@) <= u8::MAX,
            out as nat == audio_channels(types@.take(i as int)),
        decreases id - i,
    {
        proof {
            lemma_audio_channels_grow(types@, i + 1, types@.len() as int);
            assert(types@.take(types@.len() as int) =~= types@);
            assert(types@.take(i + 1).drop_last() =~= types@.take(i as int));
        }
        let ty = types[i];
        if let ValueKind::Continuous = ty.kind {
            if let Some(c) = ty.channels {
                out = out + c;
            }
        }
        i = i + 1;
    }
    out
}

/// The smallest id at or after `from` of a continuous slot, if any.
pub fn next_continuous_output(types: &[ValueType], from: usize) -> (r: Option<usize>)
    ensures
        match r {
            Some(id) => from <= id < types@.len() && types@[id as int].kind == ValueKind::Continuous
                && forall|j: int| from <= j < id ==> (#[trigger] types@[j]).kind != ValueKind::Continuous,
            None => forall|j: int| from <= j < types@.len() ==> (#[trigger] types@[j]).kind != ValueKind::Continuous,
        },
{
    let mut id = from;
    while id < types.len()
        invariant
            from <= id,
            forall|j: int| from <= j < id && j < types@.len() ==> (#[trigger] types@[j]).kind != ValueKind::Continuous,
        decreases types@.len() - id,
    {
        if let ValueKind::Continuous = types[id].kind {
            return Some(id);
        }
        id = id + 1;
    }
    None
}

/// What an audio adapter does next, given the slot types of the rack's outputs and the id
/// from which it looks for the next continuous output.
#[derive(Clone, Copy, Debug, PartialEq, Eq, Structural)]
pub enum AudioStep {
    /// Emit output `output`, after advancing the rack by one tick if `update_first`; then
    /// look on from `output + 1`.
    Emit { update_first: bool, output: usize },
    /// The rack has no continuous output: there is nothing to emit.
    Idle,
}

/// The adapter's next step: the next continuous output at or after `cursor`, where a new
/// tick begins at `cursor == 0` and again when the outputs have run out.
pub fn plan_audio_step(types: &[ValueType], cursor: usize) -> (r: AudioStep)
    ensures
        match r {
            AudioStep::Emit { update_first, output } => {
                &&& output < types@.len()
                &&& types@[output as int].kind == ValueKind::Continuous
                &&& if update_first {
                    (cursor == 0 || forall|j: int| cursor <= j < types@.len() ==> (#[trigger] types@[j]).kind != ValueKind::Continuous)
                        && forall|j: int| 0 <= j < output ==> (#[trigger] types@[j]).kind != ValueKind::Continuous
                } else {
                    cursor != 0 && cursor <= output && forall|j: int| cursor <= j < output ==> (#[trigger] types@[j]).kind != ValueKind::Continuous
                }
            },
            AudioStep::Idle => forall|j: int| 0 <= j < types@.len() ==> (#[trigger] types@[j]).kind != ValueKind::Continuous,
        },
{
    match next_continuous_output(types, cursor) {
        Some(output) => AudioStep::Emit { update_first: cursor == 0, output },
        None => match next_continuous_output(types, 0) {
            Some(output) => AudioStep::Emit { update_first: true, output },
            None => AudioStep::Idle,
        },
    }
}

/// The PCM samples that one output gives this tick: the samples of a continuous stream,
/// converted, then zeros up to `min_len`. An absent or discrete stream gives zeros only.
pub open spec fn pcm_frame(stream: Option<StreamView>, min_len: nat) -> Seq<i16> {
    let samples = match stream {
        Some(AnyIterInner::Analog(s)) => s.map_values(|v: Value| (v.bits as int / 65536) as i16),
        _ => Seq::<i16>::empty(),
    };
    if samples.len() >= min_len {
        samples
    } else {
        samples + Seq::new((min_len - samples.len()) as nat, |_i: int| 0i16)
    }
}

/// The PCM samples of one output for this tick; see `pcm_frame`.
pub fn output_to_pcm(stream: Option<Stream>, min_len: usize) -> (r: Vec<i16>)
    ensures
        r@ == pcm_frame(view_opt_stream(stream), min_len as nat),
{
    let mut out: Vec<i16> = Vec::new();
    if let Some(s) = stream {
        if let AnyIterInner::Analog(samples) = s.0 {
            let mut i: usize = 0;
            while i < samples.len()
                invariant
                    0 <= i <= samples@.len(),
                    out@ =~= samples@.take(i as int).map_values(|v: Value| (v.bits as int / 65536) as i16),
                decreases samples@.len() - i,
            {
                out.push(samples[i].to_pcm());
                i = i + 1;
            }
            assert(samples@.take(samples@.len() as int) =~= samples@);
        }
    }
    let ghost head = out@;
    while out.len() < min_len
        invariant
            out@.len() <= head.len() || out@.len() <= min_len,
            out@.take(head.len() as int) == head,
            out@.len() >= head.len(),
            forall|j: int| head.len() <= j < out@.len() ==> out@[j] == 0i16,
        decreases min_len - out@.len(),
    {
        out.push(0);
        assert(out@.take(head.len() as int) =~= head);
    }
    assert(out@ =~= pcm_frame(view_opt_stream(stream), min_len as nat));
    out
}

/// The frame of PCM samples that feeds slot `id` of the rack's inputs, out of one
/// interleaved frame `frame` that holds the channels of every continuous input in order.
pub fn input_from_pcm(types: &[ValueType], frame: &[i16], id: usize) -> (r: Option<Stream>)
    requires
        id < types@.len(),
        audio_channels(types@) <= u8::MAX,
        frame@.len() == audio_channels(types@),
    ensures
        match r {
            Some(s) => types@[id as int].kind == ValueKind::Continuous && view_opt_stream(r) == Some(
                AnyIterInner::<Seq<nom_midi::MidiEventType>, Seq<Value>>::Analog(
                    frame@.subrange(
                        audio_channels(types@.take(id as int)) as int,
                        audio_channels(types@.take(id as int + 1)) as int,
                    ).map_values(|x: i16| Value { bits: (x as int * 65536) as i32 }),
                ),
            ),
            None => types@[id as int].kind != ValueKind::Continuous,
        },
{
    if let ValueKind::Discrete = types[id].kind {
        return None;
    }
    let start = channels_before(types, id) as usize;
    let end = channels_before(types, id + 1) as usize;
    proof {
        lemma_audio_channels_grow(types@, id as int, id + 1);
        lemma_audio_channels_grow(types@, id + 1, types@.len() as int);
        assert(types@.take(types@.len() as int) =~= types@);
    }
    let mut samples: Vec<Value> = Vec::new();
    let mut i = start;
    while i < end
        invariant
            start <= i <= end <= frame@.len(),
            samples@ =~= frame@.subrange(start as int, i as int).map_values(|x: i16| Value { bits: (x as int * 65536) as i32 }),
        decreases end - i,
    {
        samples.push(Value::from_pcm(frame[i]));
        i = i + 1;
    }
    Some(crate::stream::AnyIter::from_analog(samples))
}

} // verus!

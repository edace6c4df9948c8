use patchbay::audio::{
    channels_before, input_from_pcm, next_continuous_output, num_audio_channels, output_to_pcm, plan_audio_step,
    AudioStep,
};
use patchbay::stream::{AnyIter, AnyIterInner};
use patchbay::value::{Value, ValueType};

fn types() -> Vec<ValueType> {
    vec![ValueType::continuous(2), ValueType::discrete(), ValueType::continuous(1)]
}

#[test]
fn channel_counts() {
    assert_eq!(num_audio_channels(&types()), 3);
    assert_eq!(num_audio_channels(&[]), 0);
    assert_eq!(channels_before(&types(), 2), 2);
}

#[test]
fn continuous_outputs_are_found_in_order() {
    assert_eq!(next_continuous_output(&types(), 0), Some(0));
    assert_eq!(next_continuous_output(&types(), 1), Some(2));
    assert_eq!(next_continuous_output(&types(), 3), None);
}

#[test]
fn audio_steps_cycle_through_continuous_outputs() {
    assert_eq!(plan_audio_step(&types(), 0), AudioStep::Emit { update_first: true, output: 0 });
    assert_eq!(plan_audio_step(&types(), 1), AudioStep::Emit { update_first: false, output: 2 });
    assert_eq!(plan_audio_step(&types(), 3), AudioStep::Emit { update_first: true, output: 0 });
    assert_eq!(plan_audio_step(&[ValueType::discrete()], 0), AudioStep::Idle);
}

#[test]
fn pcm_conversion_is_exact_and_rounds_down() {
    assert_eq!(Value::from_pcm(1).to_bits(), 65536);
    assert_eq!(Value::from_pcm(-32768).to_bits(), i32::MIN);
    assert_eq!(Value::from_bits(65536 * 3 + 5).to_pcm(), 3);
    assert_eq!(Value::from_bits(-1).to_pcm(), -1);
}

#[test]
fn output_frames_are_padded_with_zeros() {
    let s = AnyIter::from_analog(vec![Value::from_bits(65536 * 2)]);
    assert_eq!(output_to_pcm(Some(s), 3), vec![2, 0, 0]);
    assert_eq!(output_to_pcm(None, 2), vec![0, 0]);
    let long = AnyIter::from_analog(vec![Value::from_bits(0); 4]);
    assert_eq!(output_to_pcm(Some(long), 2).len(), 4);
}

#[test]
fn input_frames_are_split_by_channel() {
    let frame = [1i16, 2, 3];
    match input_from_pcm(&types(), &frame, 2).unwrap().0 {
        AnyIterInner::Analog(v) => assert_eq!(v, vec![Value::from_pcm(3)]),
        AnyIterInner::Midi(_) => panic!("expected samples"),
    }
    match input_from_pcm(&types(), &frame, 0).unwrap().0 {
        AnyIterInner::Analog(v) => assert_eq!(v, vec![Value::from_pcm(1), Value::from_pcm(2)]),
        AnyIterInner::Midi(_) => panic!("expected samples"),
    }
    assert!(input_from_pcm(&types(), &frame, 1).is_none());
}

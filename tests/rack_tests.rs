use patchbay::component::BasicComponent;
use patchbay::rack::{Rack, RackError, WireDst, WireSrc};
use patchbay::specifier::{EnumerateValues, NoSpecifier, PairSpec, RefRuntimeSpecifier, RuntimeSpecifier, SingleSpec};
use patchbay::stream::{AnyIterInner, Stream};
use patchbay::value::Value;

type TestRack = Rack<BasicComponent, NoSpecifier, SingleSpec>;

fn samples(out: Result<Option<Stream>, RackError>) -> Vec<i32> {
    match out.expect("modulation is usable").expect("output is wired").0 {
        AnyIterInner::Analog(v) => v.into_iter().map(|x| x.bits).collect(),
        AnyIterInner::Midi(_) => panic!("expected a continuous stream"),
    }
}

#[test]
fn constant_source_reaches_sink_in_one_tick() {
    let mut rack = TestRack::new();
    let src = rack.new_component(BasicComponent::Constant(Value::from_bits(12345)));
    let sink = rack.new_component(BasicComponent::Passthrough);
    assert_eq!((src, sink), (0, 1));
    rack.wire(WireSrc::component_output(src, SingleSpec::Main), WireDst::component_input(sink, SingleSpec::Main)).unwrap();
    rack.wire(WireSrc::component_output(sink, SingleSpec::Main), WireDst::rack_output(SingleSpec::Main)).unwrap();
    let globals = vec![];
    rack.update(&globals).unwrap();
    assert_eq!(samples(rack.output(SingleSpec::Main, &globals)), vec![12345]);
}

#[test]
fn unwired_rack_output_is_absent() {
    let mut rack = TestRack::new();
    rack.new_component(BasicComponent::Constant(Value::from_bits(7)));
    let globals = vec![];
    rack.update(&globals).unwrap();
    assert!(rack.output(SingleSpec::Main, &globals).unwrap().is_none());
}

#[test]
fn unwired_input_gives_one_zero_sample() {
    let mut rack = TestRack::new();
    let sink = rack.new_component(BasicComponent::Passthrough);
    rack.wire(WireSrc::component_output(sink, SingleSpec::Main), WireDst::rack_output(SingleSpec::Main)).unwrap();
    let globals = vec![];
    rack.update(&globals).unwrap();
    assert_eq!(samples(rack.output(SingleSpec::Main, &globals)), vec![0]);
}

fn counter_with_step(rack: &mut TestRack, step: i32) -> usize {
    let c = rack.new_component(BasicComponent::Counter(Value::zero()));
    rack.set_param(c, SingleSpec::Main, Value::from_bits(step)).unwrap();
    c
}

#[test]
fn forward_wire_reads_this_tick() {
    let mut rack = TestRack::new();
    let counter = counter_with_step(&mut rack, 10);
    let latch = rack.new_component(BasicComponent::Latch(Value::zero()));
    rack.wire(WireSrc::component_output(counter, SingleSpec::Main), WireDst::component_input(latch, SingleSpec::Main)).unwrap();
    rack.wire(WireSrc::component_output(latch, SingleSpec::Main), WireDst::rack_output(SingleSpec::Main)).unwrap();
    let globals = vec![];
    rack.update(&globals).unwrap();
    assert_eq!(samples(rack.output(SingleSpec::Main, &globals)), vec![10]);
    rack.update(&globals).unwrap();
    assert_eq!(samples(rack.output(SingleSpec::Main, &globals)), vec![20]);
}

#[test]
fn backward_wire_reads_previous_tick() {
    let mut rack = TestRack::new();
    let latch = rack.new_component(BasicComponent::Latch(Value::zero()));
    let counter = counter_with_step(&mut rack, 10);
    rack.wire(WireSrc::component_output(counter, SingleSpec::Main), WireDst::component_input(latch, SingleSpec::Main)).unwrap();
    rack.wire(WireSrc::component_output(latch, SingleSpec::Main), WireDst::rack_output(SingleSpec::Main)).unwrap();
    let globals = vec![];
    rack.update(&globals).unwrap();
    assert_eq!(samples(rack.output(SingleSpec::Main, &globals)), vec![0]);
    rack.update(&globals).unwrap();
    assert_eq!(samples(rack.output(SingleSpec::Main, &globals)), vec![10]);
}

#[test]
fn self_wired_latch_keeps_its_value() {
    let mut rack = TestRack::new();
    let latch = rack.new_component(BasicComponent::Latch(Value::from_bits(-5)));
    rack.wire(WireSrc::component_output(latch, SingleSpec::Main), WireDst::component_input(latch, SingleSpec::Main)).unwrap();
    rack.wire(WireSrc::component_output(latch, SingleSpec::Main), WireDst::rack_output(SingleSpec::Main)).unwrap();
    let globals = vec![];
    rack.update(&globals).unwrap();
    rack.update(&globals).unwrap();
    assert_eq!(samples(rack.output(SingleSpec::Main, &globals)), vec![-5]);
}

#[test]
fn wired_param_at_full_modulation_takes_wire_value() {
    let mut rack = TestRack::new();
    let full = rack.new_component(BasicComponent::Constant(Value::from_bits(i32::MAX)));
    let counter = counter_with_step(&mut rack, 1);
    rack.wire(
        WireSrc::component_output(full, SingleSpec::Main),
        WireDst::component_param(counter, SingleSpec::Main, Value::from_bits(1000)),
    )
    .unwrap();
    rack.wire(WireSrc::component_output(counter, SingleSpec::Main), WireDst::rack_output(SingleSpec::Main)).unwrap();
    let globals = vec![];
    rack.update(&globals).unwrap();
    assert_eq!(samples(rack.output(SingleSpec::Main, &globals)), vec![1000]);
}

#[test]
fn wired_param_at_zero_modulation_keeps_natural_value() {
    let mut rack = TestRack::new();
    let none = rack.new_component(BasicComponent::Constant(Value::from_bits(i32::MIN)));
    let counter = counter_with_step(&mut rack, 3);
    rack.wire(
        WireSrc::component_output(none, SingleSpec::Main),
        WireDst::component_param(counter, SingleSpec::Main, Value::from_bits(1000)),
    )
    .unwrap();
    rack.wire(WireSrc::component_output(counter, SingleSpec::Main), WireDst::rack_output(SingleSpec::Main)).unwrap();
    let globals = vec![];
    rack.update(&globals).unwrap();
    rack.update(&globals).unwrap();
    assert_eq!(samples(rack.output(SingleSpec::Main, &globals)), vec![6]);
}

#[test]
fn rack_input_feeds_component() {
    let mut rack = TestRack::new();
    let sink = rack.new_component(BasicComponent::Passthrough);
    rack.wire(WireSrc::rack_input(SingleSpec::Main), WireDst::component_input(sink, SingleSpec::Main)).unwrap();
    rack.wire(WireSrc::component_output(sink, SingleSpec::Main), WireDst::rack_output(SingleSpec::Main)).unwrap();
    let globals = vec![Some(Stream::from_analog(vec![Value::from_bits(4), Value::from_bits(-4)]))];
    rack.update(&globals).unwrap();
    assert_eq!(samples(rack.output(SingleSpec::Main, &globals)), vec![4, -4]);
}

#[test]
fn wiring_errors_are_reported() {
    let mut rack = TestRack::new();
    let c = rack.new_component(BasicComponent::Constant(Value::zero()));
    let p = rack.new_component(BasicComponent::Passthrough);
    assert_eq!(
        rack.wire(WireSrc::component_output(5, SingleSpec::Main), WireDst::component_input(p, SingleSpec::Main)),
        Err(RackError::NoSuchComponent)
    );
    assert_eq!(
        rack.wire(WireSrc::component_output(c, SingleSpec::Main), WireDst::component_input(9, SingleSpec::Main)),
        Err(RackError::NoSuchComponent)
    );
    assert_eq!(
        rack.wire(WireSrc::component_output(c, SingleSpec::Main), WireDst::component_input(c, SingleSpec::Main)),
        Err(RackError::NoSuchSlot)
    );
    assert_eq!(
        rack.wire(WireSrc::component_output(c, SingleSpec::Main), WireDst::component_param(p, SingleSpec::Main, Value::zero())),
        Err(RackError::NoSuchSlot)
    );
    let mut rack_param = WireDst::component_param(p, SingleSpec::Main, Value::zero());
    if let patchbay::rack::WireDstInner::Param(_, ref mut w) = rack_param.0 {
        w.element = patchbay::rack::ElementSpecifier::Rack;
    }
    assert_eq!(rack.wire(WireSrc::component_output(c, SingleSpec::Main), rack_param), Err(RackError::ParamOnRack));
}

#[test]
fn set_param_errors_are_reported() {
    let mut rack = TestRack::new();
    let c = rack.new_component(BasicComponent::Constant(Value::zero()));
    assert_eq!(rack.set_param(3, SingleSpec::Main, Value::zero()), Err(RackError::NoSuchComponent));
    assert_eq!(rack.set_param(c, SingleSpec::Main, Value::zero()), Err(RackError::NoSuchSlot));
}

#[test]
fn modulation_beyond_averaging_bound_is_reported() {
    let mut rack = TestRack::new();
    let counter = counter_with_step(&mut rack, 1);
    rack.wire(WireSrc::rack_input(SingleSpec::Main), WireDst::component_param(counter, SingleSpec::Main, Value::from_bits(5)))
        .unwrap();
    rack.wire(WireSrc::component_output(counter, SingleSpec::Main), WireDst::rack_output(SingleSpec::Main)).unwrap();
    let too_many = vec![Some(Stream::from_analog(vec![Value::from_bits(i32::MAX); 6]))];
    assert_eq!(rack.update(&too_many), Err(RackError::ModulationOutOfRange));
    let empty = vec![Some(Stream::from_analog(vec![]))];
    assert_eq!(rack.update(&empty), Err(RackError::ModulationOutOfRange));
    let five = vec![Some(Stream::from_analog(vec![Value::from_bits(i32::MAX); 5]))];
    rack.update(&five).unwrap();
    assert_eq!(samples(rack.output(SingleSpec::Main, &five)), vec![5]);
}

#[test]
fn set_param_on_valid_slot_stores_natural_value() {
    let mut rack = TestRack::new();
    let counter = counter_with_step(&mut rack, 0);
    rack.wire(WireSrc::component_output(counter, SingleSpec::Main), WireDst::rack_output(SingleSpec::Main)).unwrap();
    assert_eq!(rack.set_param(counter, SingleSpec::Main, Value::from_bits(42)), Ok(()));
    let globals = vec![];
    rack.update(&globals).unwrap();
    assert_eq!(samples(rack.output(SingleSpec::Main, &globals)), vec![42]);
}

#[test]
fn self_wired_tap_reads_its_own_state_through_second_output() {
    let mut rack = TestRack::new();
    let tap = rack.new_component(BasicComponent::Tap(Value::from_bits(9)));
    rack.wire(WireSrc::component_output(tap, PairSpec::First), WireDst::component_input(tap, SingleSpec::Main)).unwrap();
    rack.wire(WireSrc::component_output(tap, PairSpec::Second), WireDst::rack_output(SingleSpec::Main)).unwrap();
    let globals = vec![];
    assert_eq!(samples(rack.output(SingleSpec::Main, &globals)), vec![9]);
    rack.update(&globals).unwrap();
    assert_eq!(samples(rack.output(SingleSpec::Main, &globals)), vec![9]);
}

#[test]
fn loop_through_two_components_reaches_first_output() {
    let mut rack = TestRack::new();
    let tap = rack.new_component(BasicComponent::Tap(Value::from_bits(-3)));
    let pass = rack.new_component(BasicComponent::Passthrough);
    rack.wire(WireSrc::component_output(pass, SingleSpec::Main), WireDst::component_input(tap, SingleSpec::Main)).unwrap();
    rack.wire(WireSrc::component_output(tap, PairSpec::First), WireDst::component_input(pass, SingleSpec::Main)).unwrap();
    rack.wire(WireSrc::component_output(tap, PairSpec::Second), WireDst::rack_output(SingleSpec::Main)).unwrap();
    let globals = vec![];
    assert_eq!(samples(rack.output(SingleSpec::Main, &globals)), vec![-3]);
    rack.update(&globals).unwrap();
    assert_eq!(samples(rack.output(SingleSpec::Main, &globals)), vec![-3]);
}

#[test]
fn pair_specifier_ids_round_trip() {
    let all = PairSpec::values();
    assert_eq!(all.iter().map(|s| s.id()).collect::<Vec<_>>(), vec![0, 1]);
    for (i, s) in all.iter().enumerate() {
        assert_eq!(PairSpec::from_id(i), *s);
    }
}

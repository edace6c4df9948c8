use patchbay::modulation::{average_fixed, averageable, modulation_fits, Lerp};
use patchbay::specifier::{EnumerateValues, NoSpecifier, RefRuntimeSpecifier, RuntimeSpecifier, SingleSpec};
use patchbay::stream::{AnyIter, AnyIterInner, NoIter, PossiblyEither, PossiblyIter};
use patchbay::value::Value;
use patchbay::cow::SimpleCow;
use patchbay::context::{GetInput, QuickContext};
use nom_midi::MidiEventType;

type Mixed = AnyIter<Vec<MidiEventType>, Vec<Value>>;

#[test]
fn continuous_stream_survives_refused_discrete_extraction() {
    let s: Mixed = AnyIter::from_analog(vec![Value::from_bits(1), Value::from_bits(2)]);
    let back = match PossiblyIter::<MidiEventType>::try_iter(s) {
        Ok(_) => panic!("a continuous stream holds no events"),
        Err(s) => s,
    };
    let got = PossiblyIter::<Value>::try_iter(back).ok().unwrap();
    assert_eq!(got, vec![Value::from_bits(1), Value::from_bits(2)]);
}

#[test]
fn discrete_stream_refuses_continuous_extraction() {
    let s: Mixed = AnyIter::from_midi(vec![]);
    let back = PossiblyIter::<Value>::try_iter(s).err().unwrap();
    assert!(PossiblyIter::<MidiEventType>::try_iter(back).is_ok());
}

#[test]
fn possibly_either_passes_extraction_through() {
    let e: PossiblyEither<Mixed, Mixed> = PossiblyEither::Right(AnyIter::from_analog(vec![Value::from_bits(9)]));
    match PossiblyIter::<Value>::try_iter(e) {
        Ok(itertools::Either::Right(v)) => assert_eq!(v, vec![Value::from_bits(9)]),
        _ => panic!("expected the right arm's samples"),
    }
}

enum WithImpossibleArm {
    _Unit,
    _Never(NoIter<()>),
}

#[test]
fn single_kind_streams_default_to_empty() {
    let a: AnyIter<NoIter<MidiEventType>, Vec<Value>> = Default::default();
    assert_eq!(PossiblyIter::<Value>::try_iter(a).ok().unwrap(), vec![]);
    let b: AnyIter<Vec<MidiEventType>, NoIter<Value>> = Default::default();
    assert_eq!(PossiblyIter::<MidiEventType>::try_iter(b).ok().unwrap().len(), 0);
}

#[test]
fn impossible_stream_takes_no_room() {
    assert_eq!(std::mem::size_of::<WithImpossibleArm>(), 0);
    assert_eq!(
        std::mem::size_of::<AnyIter<NoIter<MidiEventType>, Vec<Value>>>(),
        std::mem::size_of::<Vec<Value>>()
    );
}

#[test]
fn specifier_ids_round_trip() {
    let all = SingleSpec::values();
    assert_eq!(all.len(), 1);
    for (i, s) in all.iter().enumerate() {
        assert_eq!(s.id(), i);
        assert_eq!(SingleSpec::from_id(i).id(), i);
        assert_eq!(SingleSpec::from_id(i), *s);
    }
    assert!(NoSpecifier::values().is_empty());
}

#[test]
fn average_of_small_values_is_exact() {
    assert_eq!(average_fixed(&[1, 2, 3, 4]), 2);
    assert_eq!(average_fixed(&[7]), 7);
    assert!(!averageable(&[]));
}

#[test]
fn average_near_maximum_does_not_wrap() {
    let m = u32::MAX;
    assert_eq!(average_fixed(&[m, m, m, m]), m);
    assert_eq!(average_fixed(&[m, m, 1]), ((2 * m as u64 + 1) / 3) as u32);
    assert!(averageable(&[m, m, m, m, m]));
    assert_eq!(average_fixed(&[m, m, m, m, m]), m);
}

#[test]
fn average_beyond_carry_bound_is_refused() {
    let m = u32::MAX;
    assert!(!averageable(&[m, m, m, m, m, m]));
    assert!(averageable(&[1, 2, 3, 4, 5, 6, 7]));
}

#[test]
fn lerp_boundaries_and_midpoint() {
    let natural = Value::from_bits(-1000);
    let target = Value::from_bits(3000);
    assert_eq!(natural.lerp(&target, None), natural);
    assert_eq!(natural.lerp(&target, Some(&vec![Value::from_bits(i32::MIN)])), natural);
    assert_eq!(natural.lerp(&target, Some(&vec![Value::from_bits(i32::MAX)])), target);
    assert!(!modulation_fits(&vec![]));
    assert!(!modulation_fits(&vec![Value::from_bits(i32::MAX); 6]));
    let half = Value::from_bits(i32::MIN).lerp(&Value::from_bits(i32::MAX), Some(&vec![Value::from_bits(0)]));
    assert_eq!(half.to_u(), ((0xffff_ffffu64 * 0x8000_0000u64) / 0xffff_ffffu64) as u32);
}

#[test]
fn unsigned_form_shifts_by_half_range() {
    assert_eq!(Value::from_bits(i32::MIN).to_u(), 0);
    assert_eq!(Value::from_bits(0).to_u(), 0x8000_0000);
    assert_eq!(Value::from_u(u32::MAX).to_bits(), i32::MAX);
}

#[test]
fn simple_cow_gives_the_value() {
    let x = 5u8;
    let b = SimpleCow::Borrowed(&x);
    assert_eq!(*b.as_ref(), 5);
    assert_eq!(b.to_owned(), 5);
    let o: SimpleCow<u8> = SimpleCow::Owned(6);
    assert_eq!(o.to_owned(), 6);
    let from_value: SimpleCow<'static, u8> = SimpleCow::from(7u8);
    assert_eq!(*from_value.as_ref(), 7);
    let from_ref: SimpleCow<u8> = SimpleCow::from(&x);
    assert!(matches!(from_ref, SimpleCow::Borrowed(_)));
}

#[test]
fn quick_context_reads_through_its_function() {
    let ctx = QuickContext::new(10usize, |c: &usize, s: usize| Some(*c + s), ());
    assert_eq!(GetInput::<usize>::input(&ctx, 5), Some(15));
    let only = QuickContext::input(|_: &(), _s: u8| None::<u8>);
    assert_eq!(GetInput::<u8>::input(&only, 1), None);
}

use fuzz_input::entropy::{Entropy, GenError};
use fuzz_input::float_bits::{FiniteF32, F32_MAX_BITS, F32_MIN_BITS};
use fuzz_input::generate::{bounded_string, byte_sequence};
use fuzz_input::input::{
    fuzz_input, generate_input, generate_test_case, number_input, sized_i128, sized_u128,
    ByteVecInput, FuzzInput, NumberInput,
};
use fuzz_input::numbers::{i128_to_decimal, u128_to_decimal, SizedI128, SizedU128};

fn text(bytes: &[u8]) -> String {
    String::from_utf8(bytes.to_vec()).unwrap()
}

#[test]
fn take_be_reads_big_endian_and_advances() {
    let mut u = Entropy::new(vec![0x12, 0x34, 0x56]);
    assert_eq!(u.take_be(2), Ok(0x1234));
    assert_eq!(u.remaining(), 1);
    assert_eq!(u.take_be(2), Err(GenError::EntropyExhausted));
    assert_eq!(u.remaining(), 1);
    assert_eq!(u.take_u8(), Ok(0x56));
    assert_eq!(u.take_u8(), Err(GenError::EntropyExhausted));
}

#[test]
fn int_in_range_reads_only_the_bytes_the_span_needs() {
    let mut u = Entropy::new(vec![0x01, 0x02, 200]);
    assert_eq!(u.int_in_range(0, 1024), Ok(258));
    assert_eq!(u.remaining(), 1);
    assert_eq!(u.int_in_range(7, 7), Ok(7));
    assert_eq!(u.remaining(), 1);
    assert_eq!(u.int_in_range(5, 100), Ok(13));
    assert_eq!(u.remaining(), 0);
    assert_eq!(u.int_in_range(5, 100), Err(GenError::EntropyExhausted));
}

#[test]
fn stress_string_is_printable_and_in_upper_half() {
    let mut u = Entropy::new(vec![3, 0, 1, 94, 95, 200, 65, 33, 127]);
    let s = bounded_string(&mut u, 10, true).unwrap();
    assert_eq!(text(&s.bytes), " !~ *aA@");
    assert_eq!(u.remaining(), 0);
}

#[test]
fn string_lengths_stay_within_bounds() {
    for first in 0u8..=255 {
        let mut data = vec![first, first];
        data.extend(std::iter::repeat(77u8).take(300));
        let mut u = Entropy::new(data.clone());
        let s = bounded_string(&mut u, 200, true).unwrap();
        assert!(s.bytes.len() >= 100 && s.bytes.len() <= 200);
        assert!(s.bytes.iter().all(|b| (32..=126).contains(b)));
        let mut u = Entropy::new(data);
        let s = bounded_string(&mut u, 200, false).unwrap();
        assert!(s.bytes.len() <= 200);
    }
}

#[test]
fn short_entropy_gives_exhaustion_not_a_truncated_string() {
    assert_eq!(
        generate_test_case(vec![1, 0, 0, 65, 66], 1024),
        Err(GenError::EntropyExhausted)
    );
    let mut u = Entropy::new(vec![0, 0, 65, 66]);
    assert_eq!(bounded_string(&mut u, 1024, true), Err(GenError::EntropyExhausted));
}

#[test]
fn plain_string_may_be_empty() {
    match generate_input(vec![1, 0], 10) {
        Ok(FuzzInput::String(s)) => assert!(s.bytes.is_empty()),
        other => panic!("unexpected {:?}", other),
    }
    assert_eq!(generate_input(vec![1, 3, 65], 10), Err(GenError::EntropyExhausted));
    assert_eq!(generate_input(vec![], 10), Err(GenError::EntropyExhausted));
}

#[test]
fn byte_sequence_lengths_are_between_five_and_a_hundred() {
    let mut data = vec![96u8];
    data.extend(1..=5u8);
    let mut u = Entropy::new(data);
    assert_eq!(byte_sequence(&mut u), Ok(vec![1, 2, 3, 4, 5]));

    let mut data = vec![95u8];
    data.extend(std::iter::repeat(9u8).take(100));
    let mut u = Entropy::new(data);
    assert_eq!(byte_sequence(&mut u).unwrap().len(), 100);

    for first in 0u8..=255 {
        let mut data = vec![first];
        data.extend(std::iter::repeat(1u8).take(100));
        let len = byte_sequence(&mut Entropy::new(data)).unwrap().len();
        assert!((5..=100).contains(&len));
    }

    let mut u = Entropy::new(vec![96, 1, 2, 3, 4]);
    assert_eq!(byte_sequence(&mut u), Err(GenError::EntropyExhausted));
}

#[test]
fn unsigned_boundary_switches_to_text() {
    assert_eq!(
        SizedU128::from_value(9007199254740991),
        SizedU128::Small(9007199254740991)
    );
    assert_eq!(
        SizedU128::from_value(9007199254740992),
        SizedU128::Large(b"9007199254740992".to_vec())
    );
    assert_eq!(SizedU128::from_value(0), SizedU128::Small(0));
}

#[test]
fn unsigned_text_round_trips_through_parse() {
    for v in [9007199254740992u128, 10u128.pow(20), u128::MAX, 12345678901234567890123] {
        match SizedU128::from_value(v) {
            SizedU128::Large(s) => {
                assert_ne!(s[0], b'0');
                assert_eq!(text(&s).parse::<u128>().unwrap(), v);
            }
            other => panic!("unexpected {:?}", other),
        }
    }
    assert_eq!(u128_to_decimal(0), b"0".to_vec());
    assert_eq!(u128_to_decimal(1200), b"1200".to_vec());
}

#[test]
fn signed_boundary_switches_to_text() {
    let max = 9007199254740991i128;
    assert_eq!(SizedI128::from_value(max), SizedI128::Small(max));
    assert_eq!(SizedI128::from_value(-max), SizedI128::Small(-max));
    assert_eq!(
        SizedI128::from_value(max + 1),
        SizedI128::Large(b"9007199254740992".to_vec())
    );
    assert_eq!(
        SizedI128::from_value(-max - 1),
        SizedI128::Large(b"-9007199254740992".to_vec())
    );
    assert_eq!(SizedI128::from_value(0), SizedI128::Small(0));
    assert_eq!(
        i128_to_decimal(i128::MIN),
        b"-170141183460469231731687303715884105728".to_vec()
    );
    for v in [i128::MIN, i128::MAX, -max - 1, max + 1] {
        match SizedI128::from_value(v) {
            SizedI128::Large(s) => assert_eq!(text(&s).parse::<i128>().unwrap(), v),
            other => panic!("unexpected {:?}", other),
        }
    }
}

#[test]
fn positive_infinity_becomes_max() {
    let r = FiniteF32::normalize(f32::INFINITY.to_bits());
    assert_eq!(r.bits, F32_MAX_BITS);
    assert_eq!(f32::from_bits(r.bits), f32::MAX);
}

#[test]
fn float_normalization_covers_every_class() {
    assert_eq!(f32::from_bits(FiniteF32::normalize(f32::NEG_INFINITY.to_bits()).bits), f32::MIN);
    assert_eq!(FiniteF32::normalize(f32::NEG_INFINITY.to_bits()).bits, F32_MIN_BITS);
    assert_eq!(f32::from_bits(FiniteF32::normalize(f32::NAN.to_bits()).bits), 0.0);
    assert_eq!(FiniteF32::normalize(0xFFC0_0001).bits, 0);
    for x in [1.5f32, -0.0, f32::MAX, f32::MIN, f32::MIN_POSITIVE, -3.25e-40] {
        assert_eq!(FiniteF32::normalize(x.to_bits()).bits, x.to_bits());
    }
    for bits in (0u32..=u32::MAX).step_by(65521) {
        assert!(f32::from_bits(FiniteF32::normalize(bits).bits).is_finite());
    }
}

#[test]
fn sized_draws_aim_at_both_sides_of_the_boundary() {
    let mut u = Entropy::new(vec![0, 0x1F, 0xFF, 0xFF, 0xFF, 0xFF, 0xFF, 0xFF]);
    assert_eq!(sized_u128(&mut u), Ok(SizedU128::Small(9007199254740991)));
    let mut u = Entropy::new(vec![2, 0x20, 0, 0, 0, 0, 0, 0]);
    assert_eq!(sized_u128(&mut u), Ok(SizedU128::Small(0)));
    let mut data = vec![1u8];
    data.extend([0xFF; 16]);
    assert_eq!(
        sized_u128(&mut Entropy::new(data.clone())),
        Ok(SizedU128::Large(b"340282366920938463463374607431768211455".to_vec()))
    );
    assert_eq!(sized_i128(&mut Entropy::new(data)), Ok(SizedI128::Small(-1)));
    let mut data = vec![3u8, 0x80];
    data.extend([0; 15]);
    assert_eq!(
        sized_i128(&mut Entropy::new(data)),
        Ok(SizedI128::Large(b"-170141183460469231731687303715884105728".to_vec()))
    );
    let mut u = Entropy::new(vec![0, 0, 0, 0, 0, 0, 0, 0]);
    assert_eq!(sized_i128(&mut u), Ok(SizedI128::Small(-9007199254740991)));
    let mut u = Entropy::new(vec![1, 0, 0]);
    assert_eq!(sized_u128(&mut u), Err(GenError::EntropyExhausted));
}

#[test]
fn number_arms_follow_the_tag_byte() {
    let mut u = Entropy::new(vec![10, 0x7F, 0x80, 0, 0]);
    assert_eq!(
        number_input(&mut u),
        Ok(NumberInput::F32(FiniteF32 { bits: F32_MAX_BITS }))
    );
    let mut u = Entropy::new(vec![12, 0x12, 0x34]);
    assert_eq!(number_input(&mut u), Ok(NumberInput::U16(0x1234)));
    let mut u = Entropy::new(vec![6, 0xFF, 0xFE]);
    assert_eq!(number_input(&mut u), Ok(NumberInput::I16(-2)));
    let mut u = Entropy::new(vec![5, 0x80]);
    assert_eq!(number_input(&mut u), Ok(NumberInput::I8(-128)));
    let mut u = Entropy::new(vec![3, 0, 0, 0, 0, 0, 0, 1]);
    assert_eq!(number_input(&mut u), Err(GenError::EntropyExhausted));
}

#[test]
fn value_arms_follow_the_tag_byte() {
    assert_eq!(fuzz_input(&mut Entropy::new(vec![7, 3]), 4, true), Ok(FuzzInput::Bool(true)));
    assert_eq!(
        fuzz_input(&mut Entropy::new(vec![5, 0xFF, 1, 9]), 4, true),
        Ok(FuzzInput::MultiTuple(-1, Some(9)))
    );
    assert_eq!(
        fuzz_input(&mut Entropy::new(vec![5, 0x80, 0]), 4, true),
        Ok(FuzzInput::MultiTuple(-128, None))
    );
    assert_eq!(
        fuzz_input(&mut Entropy::new(vec![6, 1, 2]), 4, true),
        Ok(FuzzInput::SkippedField { skipper: 1, not_skipped: 2 })
    );
    match fuzz_input(&mut Entropy::new(vec![4, 0, 0, 1, 0, 0, 65, 66]), 4, true) {
        Ok(FuzzInput::InlineStruct { field, name }) => {
            assert_eq!(field, 256);
            assert_eq!(text(&name.bytes), "ab");
        }
        other => panic!("unexpected {:?}", other),
    }
    match generate_test_case(vec![1, 1, 65, 66, 67], 4) {
        Ok(FuzzInput::String(s)) => assert_eq!(text(&s.bytes), "abc"),
        other => panic!("unexpected {:?}", other),
    }
    let mut data = vec![2u8, 4, 96];
    data.extend([7u8; 5]);
    assert_eq!(
        fuzz_input(&mut Entropy::new(data), 4, true),
        Ok(FuzzInput::ByteVec(ByteVecInput::Base58(vec![7; 5])))
    );
    assert_eq!(
        fuzz_input(&mut Entropy::new(vec![3, 4, 0]), 4, true),
        Err(GenError::EntropyExhausted)
    );
}

#[test]
fn same_entropy_gives_same_value() {
    let data: Vec<u8> = (0..4096u32).map(|i| (i.wrapping_mul(2654435761u32) >> 13) as u8).collect();
    for start in 0..64 {
        let a = generate_test_case(data[start..].to_vec(), 256);
        let b = generate_test_case(data[start..].to_vec(), 256);
        assert_eq!(a, b);
    }
}

#[test]
fn failed_draws_stop_at_a_stated_place() {
    let mut u = Entropy::new(vec![0, 0, 65, 66]);
    assert_eq!(bounded_string(&mut u, 1024, true), Err(GenError::EntropyExhausted));
    assert_eq!(u.remaining(), 2);
    let mut u = Entropy::new(vec![7]);
    assert_eq!(bounded_string(&mut u, 1024, true), Err(GenError::EntropyExhausted));
    assert_eq!(u.remaining(), 1);
    let mut u = Entropy::new(vec![96, 1, 2, 3, 4]);
    assert_eq!(byte_sequence(&mut u), Err(GenError::EntropyExhausted));
    assert_eq!(u.remaining(), 4);
    let mut u = Entropy::new(vec![1, 0, 0]);
    assert_eq!(sized_u128(&mut u), Err(GenError::EntropyExhausted));
    assert_eq!(u.remaining(), 2);
}

#[test]
fn successful_draws_consume_exactly_their_bytes() {
    let mut data = vec![1u8];
    data.extend([0xFF; 16]);
    data.push(42);
    let mut u = Entropy::new(data);
    assert!(sized_u128(&mut u).is_ok());
    assert_eq!(u.remaining(), 1);
    let mut u = Entropy::new(vec![2, 1, 2, 3, 4, 99]);
    assert_eq!(number_input(&mut u), Ok(NumberInput::U32(0x0102_0304)));
    assert_eq!(u.remaining(), 1);
    let mut u = Entropy::new(vec![6, 1, 2, 9]);
    assert!(fuzz_input(&mut u, 4, true).is_ok());
    assert_eq!(u.remaining(), 1);
}

#[test]
fn full_buffers_always_give_a_value() {
    for seed in 0u32..200 {
        let data: Vec<u8> = (0..4096u32)
            .map(|i| (i.wrapping_add(seed).wrapping_mul(2654435761u32) >> 11) as u8)
            .collect();
        let a = generate_test_case(data.clone(), 128);
        assert!(a.is_ok());
        assert_eq!(a, generate_test_case(data.clone(), 128));
        assert!(generate_input(data, 128).is_ok());
    }
}

use fuzz_input::compare::{
    bytes_eq, compare_f32, compare_i128, compare_input, compare_number, compare_u128, i128_value,
    parse_digits, u128_value, ComparisonOutcome,
};
use fuzz_input::generate::BoundedString;
use fuzz_input::input::{ByteVecInput, FuzzInput, NumberInput};
use fuzz_input::driver::{file_case, gateway_error, DriverError};
use fuzz_input::entropy::GenError;
use fuzz_input::float_bits::FiniteF32;
use fuzz_input::schema::SchemaFailure;
use fuzz_input::numbers::{SizedI128, SizedU128};

fn large_u(s: &str) -> SizedU128 {
    SizedU128::Large(s.as_bytes().to_vec())
}

fn large_i(s: &str) -> SizedI128 {
    SizedI128::Large(s.as_bytes().to_vec())
}

#[test]
fn parse_digits_reads_plain_decimal() {
    assert_eq!(parse_digits(&b"123".to_vec(), 0), Some(123));
    assert_eq!(parse_digits(&b"-12".to_vec(), 1), Some(12));
    assert_eq!(parse_digits(&b"".to_vec(), 0), None);
    assert_eq!(parse_digits(&b"12a".to_vec(), 0), None);
    assert_eq!(
        parse_digits(&b"340282366920938463463374607431768211455".to_vec(), 0),
        Some(u128::MAX)
    );
    assert_eq!(parse_digits(&b"340282366920938463463374607431768211456".to_vec(), 0), None);
    assert_eq!(parse_digits(&b"3402823669209384634633746074317682114550".to_vec(), 0), None);
}

#[test]
fn bytes_eq_compares_content() {
    assert!(bytes_eq(&vec![1, 2, 3], &vec![1, 2, 3]));
    assert!(!bytes_eq(&vec![1, 2, 3], &vec![1, 2, 4]));
    assert!(!bytes_eq(&vec![1, 2], &vec![1, 2, 3]));
    assert!(bytes_eq(&vec![], &vec![]));
}

#[test]
fn unsigned_forms_compare_by_value() {
    assert_eq!(compare_u128(&SizedU128::Small(5), &SizedU128::Small(5)), ComparisonOutcome::Exact);
    assert_eq!(compare_u128(&large_u("77"), &large_u("77")), ComparisonOutcome::Exact);
    assert_eq!(compare_u128(&SizedU128::Small(5), &large_u("5")), ComparisonOutcome::LossyEqual);
    assert_eq!(compare_u128(&large_u("0005"), &SizedU128::Small(5)), ComparisonOutcome::LossyEqual);
    assert_eq!(compare_u128(&large_u("5"), &large_u("05")), ComparisonOutcome::LossyEqual);
    assert_eq!(compare_u128(&SizedU128::Small(5), &SizedU128::Small(6)), ComparisonOutcome::Mismatch);
    assert_eq!(compare_u128(&large_u("abc"), &SizedU128::Small(0)), ComparisonOutcome::Mismatch);
    assert_eq!(compare_u128(&large_u(""), &SizedU128::Small(0)), ComparisonOutcome::Mismatch);
    assert_eq!(
        compare_u128(&large_u("340282366920938463463374607431768211456"), &SizedU128::Small(0)),
        ComparisonOutcome::Mismatch
    );
    assert_eq!(u128_value(&large_u("9007199254740992")), Some(9007199254740992));
}

#[test]
fn signed_forms_compare_by_value() {
    assert_eq!(compare_i128(&SizedI128::Small(-5), &large_i("-5")), ComparisonOutcome::LossyEqual);
    assert_eq!(compare_i128(&large_i("-5"), &large_i("-5")), ComparisonOutcome::Exact);
    assert_eq!(
        compare_i128(&large_i("-170141183460469231731687303715884105728"), &SizedI128::Small(i128::MIN)),
        ComparisonOutcome::LossyEqual
    );
    assert_eq!(i128_value(&large_i("-170141183460469231731687303715884105729")), None);
    assert_eq!(i128_value(&large_i("170141183460469231731687303715884105728")), None);
    assert_eq!(
        i128_value(&large_i("170141183460469231731687303715884105727")),
        Some(i128::MAX)
    );
    assert_eq!(compare_i128(&large_i("-"), &SizedI128::Small(0)), ComparisonOutcome::Mismatch);
    assert_eq!(compare_i128(&SizedI128::Small(1), &SizedI128::Small(-1)), ComparisonOutcome::Mismatch);
}

#[test]
fn floats_compare_by_value() {
    let zero = FiniteF32 { bits: 0.0f32.to_bits() };
    let neg_zero = FiniteF32 { bits: (-0.0f32).to_bits() };
    let one = FiniteF32 { bits: 1.0f32.to_bits() };
    let two = FiniteF32 { bits: 2.0f32.to_bits() };
    assert_eq!(compare_f32(one, one), ComparisonOutcome::Exact);
    assert_eq!(compare_f32(zero, neg_zero), ComparisonOutcome::LossyEqual);
    assert_eq!(compare_f32(one, two), ComparisonOutcome::Mismatch);
}

#[test]
fn numbers_compare_fixed_widths_literally() {
    assert_eq!(compare_number(&NumberInput::U16(7), &NumberInput::U16(7)), ComparisonOutcome::Exact);
    assert_eq!(compare_number(&NumberInput::U16(7), &NumberInput::U32(7)), ComparisonOutcome::Mismatch);
    assert_eq!(compare_number(&NumberInput::I64(-1), &NumberInput::I64(1)), ComparisonOutcome::Mismatch);
    assert_eq!(
        compare_number(&NumberInput::U128(SizedU128::Small(9)), &NumberInput::U128(large_u("9"))),
        ComparisonOutcome::LossyEqual
    );
    assert_eq!(
        compare_number(
            &NumberInput::F32(FiniteF32 { bits: 0x8000_0000 }),
            &NumberInput::F32(FiniteF32 { bits: 0 })
        ),
        ComparisonOutcome::LossyEqual
    );
}

#[test]
fn values_compare_field_by_field() {
    let s = |t: &str| BoundedString { bytes: t.as_bytes().to_vec() };
    assert_eq!(
        compare_input(&FuzzInput::String(s("ab")), &FuzzInput::String(s("ab"))),
        ComparisonOutcome::Exact
    );
    assert_eq!(
        compare_input(&FuzzInput::String(s("ab")), &FuzzInput::String(s("ba"))),
        ComparisonOutcome::Mismatch
    );
    assert_eq!(
        compare_input(
            &FuzzInput::ByteVec(ByteVecInput::Hex(vec![1; 5])),
            &FuzzInput::ByteVec(ByteVecInput::Base58(vec![1; 5]))
        ),
        ComparisonOutcome::Mismatch
    );
    assert_eq!(
        compare_input(
            &FuzzInput::ByteVec(ByteVecInput::Decimal(vec![1; 5])),
            &FuzzInput::ByteVec(ByteVecInput::Decimal(vec![1; 5]))
        ),
        ComparisonOutcome::Exact
    );
    assert_eq!(
        compare_input(
            &FuzzInput::Number(NumberInput::I128(SizedI128::Small(-3))),
            &FuzzInput::Number(NumberInput::I128(large_i("-3")))
        ),
        ComparisonOutcome::LossyEqual
    );
    assert_eq!(
        compare_input(
            &FuzzInput::InlineStruct { field: 1, name: s("x") },
            &FuzzInput::InlineStruct { field: 1, name: s("x") }
        ),
        ComparisonOutcome::Exact
    );
    assert_eq!(
        compare_input(&FuzzInput::MultiTuple(1, None), &FuzzInput::MultiTuple(1, Some(0))),
        ComparisonOutcome::Mismatch
    );
    assert_eq!(
        compare_input(
            &FuzzInput::SkippedField { skipper: 1, not_skipped: 2 },
            &FuzzInput::SkippedField { skipper: 1, not_skipped: 2 }
        ),
        ComparisonOutcome::Exact
    );
    assert_eq!(
        compare_input(&FuzzInput::Bool(true), &FuzzInput::String(s("true"))),
        ComparisonOutcome::Mismatch
    );
}

#[test]
fn cases_are_filed_under_the_first_failing_stage() {
    let v = FuzzInput::Bool(true);
    assert_eq!(
        file_case(Err(GenError::EntropyExhausted), Err("x".to_string()), Err("y".to_string())),
        Err(DriverError::Generation(GenError::EntropyExhausted))
    );
    assert_eq!(
        file_case(Ok(v.clone()), Err("bad text".to_string()), Err("y".to_string())),
        Err(DriverError::LocalSerialization("bad text".to_string()))
    );
    assert_eq!(
        file_case(Ok(v.clone()), Ok(()), Err("rejected".to_string())),
        Err(DriverError::Gateway("rejected".to_string()))
    );
    assert_eq!(
        file_case(Ok(v.clone()), Ok(()), Ok(v.clone())),
        Ok(ComparisonOutcome::Exact)
    );
    assert_eq!(
        file_case(
            Ok(FuzzInput::Number(NumberInput::U128(SizedU128::Small(7)))),
            Ok(()),
            Ok(FuzzInput::Number(NumberInput::U128(large_u("7"))))
        ),
        Ok(ComparisonOutcome::LossyEqual)
    );
    assert_eq!(
        file_case(Ok(v), Ok(()), Ok(FuzzInput::Bool(false))),
        Ok(ComparisonOutcome::Mismatch)
    );
    assert_eq!(
        gateway_error(SchemaFailure::Descriptor("m".to_string())),
        DriverError::Gateway("m".to_string())
    );
}

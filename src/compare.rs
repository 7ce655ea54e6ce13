use vstd::prelude::*;
use crate::float_bits::FiniteF32;
use crate::input::{ByteVecInput, FuzzInput, NumberInput, fuzz_drawn, number_drawn};
use crate::numbers::{
    SizedI128,
    SizedU128,
    digits_of,
    lemma_decimal_round_trip,
    parse_decimal,
    signed_digits_of,
};

verus! {

/// How a value read back from the codec relates to the one that went in.
#[derive(Debug, Clone, Copy, PartialEq, Eq, Structural)]
pub enum ComparisonOutcome {
    /// The same form with the same literal content.
    Exact,
    /// Different literal forms of the same logical value.
    LossyEqual,
    /// Different logical values, or a form that does not read as a number.
    Mismatch,
}

/// Every byte is an ASCII digit.
pub open spec fn is_digits(s: Seq<u8>) -> bool {
    forall|i: int| 0 <= i < s.len() ==> 48 <= #[trigger] s[i] <= 57
}

/// The number that non-empty decimal text `s` spells, if it fits in `max`.
pub open spec fn decimal_within(s: Seq<u8>, max: nat) -> Option<nat> {
    if s.len() > 0 && is_digits(s) && parse_decimal(s) <= max {
        Some(parse_decimal(s))
    } else {
        None
    }
}

/// The logical value of an unsigned 128-bit form: its number, or what its
/// text reads as; `None` when the text is not a 128-bit decimal.
pub open spec fn u128_logical(a: SizedU128) -> Option<int> {
    match a {
        SizedU128::Small(v) => Some(v as int),
        SizedU128::Large(s) => match decimal_within(s@, u128::MAX as nat) {
            Some(n) => Some(n as int),
            None => None,
        },
    }
}

/// The logical value of a signed 128-bit form: its number, or what its text
/// reads as, with an optional leading `-`; `None` when the text is not a
/// signed 128-bit decimal.
pub open spec fn i128_logical(a: SizedI128) -> Option<int> {
    match a {
        SizedI128::Small(v) => Some(v as int),
        SizedI128::Large(s) => if s@.len() > 0 && s@[0] == 45u8 {
            match decimal_within(s@.skip(1), i128::MAX as nat + 1) {
                Some(n) => Some(-n),
                None => None,
            }
        } else {
            match decimal_within(s@, i128::MAX as nat) {
                Some(n) => Some(n as int),
                None => None,
            }
        },
    }
}

/// Two finite single-precision patterns that denote the same number: the
/// same bits, or both zeros of either sign.
pub open spec fn f32_same_value(a: u32, b: u32) -> bool {
    a == b || (a & 0x7FFF_FFFF == 0 && b & 0x7FFF_FFFF == 0)
}

proof fn lemma_parse_prefix_le(s: Seq<u8>, k: nat)
    requires
        is_digits(s),
        k <= s.len(),
    ensures
        parse_decimal(s.take(k as int)) <= parse_decimal(s),
    decreases s.len() - k,
{
    if k < s.len() {
        lemma_parse_prefix_le(s, k + 1);
        assert(s.take((k + 1) as int).drop_last() =~= s.take(k as int));
    } else {
        assert(s.take(k as int) =~= s);
    }
}

/// Reads the decimal text `s[start..]` as a `u128`; `None` when it is empty,
/// holds a non-digit, or exceeds `u128::MAX`.
pub fn parse_digits(s: &Vec<u8>, start: usize) -> (r: Option<u128>)
    requires
        start <= s@.len(),
    ensures
        r == match decimal_within(s@.skip(start as int), u128::MAX as nat) {
            Some(n) => Some(n as u128),
            None => None::<u128>,
        },
{
    let ghost t = s@.skip(start as int);
    if start == s.len() {
        return None;
    }
    let mut acc: u128 = 0;
    let mut i: usize = start;
    while i < s.len()
        invariant
            start <= i <= s@.len(),
            t == s@.skip(start as int),
            is_digits(t.take(i - start)),
            acc == parse_decimal(t.take(i - start)),
        decreases s.len() - i,
    {
        let c = s[i];
        let ghost k = (i - start) as int;
        if c < 48 || c > 57 {
            assert(!(48 <= t[k] <= 57));
            return None;
        }
        assert(t.take(k + 1).drop_last() =~= t.take(k));
        assert(parse_decimal(t.take(k + 1)) == acc * 10 + (c - 48));
        let m = match acc.checked_mul(10) {
            Some(m) => m,
            None => {
                proof {
                    if is_digits(t) {
                        lemma_parse_prefix_le(t, (k + 1) as nat);
                    }
                }
                return None;
            },
        };
        let a = match m.checked_add((c - 48) as u128) {
            Some(a) => a,
            None => {
                proof {
                    if is_digits(t) {
                        lemma_parse_prefix_le(t, (k + 1) as nat);
                    }
                }
                return None;
            },
        };
        acc = a;
        i = i + 1;
        assert(is_digits(t.take(k + 1)));
    }
    assert(t.take(i - start) =~= t);
    Some(acc)
}

/// Whether two byte sequences are the same.
pub fn bytes_eq(a: &Vec<u8>, b: &Vec<u8>) -> (r: bool)
    ensures
        r == (a@ == b@),
{
    if a.len() != b.len() {
        return false;
    }
    let mut i: usize = 0;
    while i < a.len()
        invariant
            i <= a@.len(),
            a@.len() == b@.len(),
            a@.take(i as int) == b@.take(i as int),
        decreases a.len() - i,
    {
        if a[i] != b[i] {
            assert(a@[i as int] != b@[i as int]);
            return false;
        }
        assert(a@.take(i + 1) =~= b@.take(i + 1));
        i = i + 1;
    }
    assert(a@ =~= a@.take(i as int));
    assert(b@ =~= b@.take(i as int));
    true
}

/// Literal equality of two unsigned forms: the same arm with the same content.
pub open spec fn u128_exact(a: SizedU128, b: SizedU128) -> bool {
    match (a, b) {
        (SizedU128::Small(x), SizedU128::Small(y)) => x == y,
        (SizedU128::Large(x), SizedU128::Large(y)) => x@ == y@,
        _ => false,
    }
}

/// Literal equality of two signed forms: the same arm with the same content.
pub open spec fn i128_exact(a: SizedI128, b: SizedI128) -> bool {
    match (a, b) {
        (SizedI128::Small(x), SizedI128::Small(y)) => x == y,
        (SizedI128::Large(x), SizedI128::Large(y)) => x@ == y@,
        _ => false,
    }
}

/// Exact on the same bits, lossy-equal on the same value in other bits.
pub open spec fn f32_outcome(a: u32, b: u32) -> ComparisonOutcome {
    if a == b {
        ComparisonOutcome::Exact
    } else if f32_same_value(a, b) {
        ComparisonOutcome::LossyEqual
    } else {
        ComparisonOutcome::Mismatch
    }
}

/// A field compared literally: exact or a mismatch.
pub open spec fn literal_outcome(same: bool) -> ComparisonOutcome {
    if same {
        ComparisonOutcome::Exact
    } else {
        ComparisonOutcome::Mismatch
    }
}

/// How two numbers compare: fixed-width integers literally, 128-bit values
/// and floats by logical value.
pub open spec fn number_outcome(a: NumberInput, b: NumberInput) -> ComparisonOutcome {
    match (a, b) {
        (NumberInput::U8(x), NumberInput::U8(y)) => literal_outcome(x == y),
        (NumberInput::U16(x), NumberInput::U16(y)) => literal_outcome(x == y),
        (NumberInput::U32(x), NumberInput::U32(y)) => literal_outcome(x == y),
        (NumberInput::U64(x), NumberInput::U64(y)) => literal_outcome(x == y),
        (NumberInput::U128(x), NumberInput::U128(y)) => outcome_of(
            u128_exact(x, y),
            u128_logical(x),
            u128_logical(y),
        ),
        (NumberInput::I8(x), NumberInput::I8(y)) => literal_outcome(x == y),
        (NumberInput::I16(x), NumberInput::I16(y)) => literal_outcome(x == y),
        (NumberInput::I32(x), NumberInput::I32(y)) => literal_outcome(x == y),
        (NumberInput::I64(x), NumberInput::I64(y)) => literal_outcome(x == y),
        (NumberInput::I128(x), NumberInput::I128(y)) => outcome_of(
            i128_exact(x, y),
            i128_logical(x),
            i128_logical(y),
        ),
        (NumberInput::F32(x), NumberInput::F32(y)) => f32_outcome(x.bits, y.bits),
        _ => ComparisonOutcome::Mismatch,
    }
}

/// How two generated values compare: numbers as `number_outcome` says,
/// every other field literally.
pub open spec fn input_outcome(a: FuzzInput, b: FuzzInput) -> ComparisonOutcome {
    match (a, b) {
        (FuzzInput::Bool(x), FuzzInput::Bool(y)) => literal_outcome(x == y),
        (FuzzInput::String(x), FuzzInput::String(y)) => literal_outcome(x.bytes@ == y.bytes@),
        (FuzzInput::ByteVec(x), FuzzInput::ByteVec(y)) => literal_outcome(
            x.arm() == y.arm() && x.bytes() == y.bytes(),
        ),
        (FuzzInput::Number(x), FuzzInput::Number(y)) => number_outcome(x, y),
        (
            FuzzInput::InlineStruct { field: f1, name: n1 },
            FuzzInput::InlineStruct { field: f2, name: n2 },
        ) => literal_outcome(f1 == f2 && n1.bytes@ == n2.bytes@),
        (FuzzInput::MultiTuple(x1, y1), FuzzInput::MultiTuple(x2, y2)) => literal_outcome(
            x1 == x2 && y1 == y2,
        ),
        (
            FuzzInput::SkippedField { skipper: s1, not_skipped: k1 },
            FuzzInput::SkippedField { skipper: s2, not_skipped: k2 },
        ) => literal_outcome(s1 == s2 && k1 == k2),
        _ => ComparisonOutcome::Mismatch,
    }
}

/// Literal equality first; else the same logical value; else a mismatch.
pub open spec fn outcome_of(exact: bool, a: Option<int>, b: Option<int>) -> ComparisonOutcome {
    if exact {
        ComparisonOutcome::Exact
    } else if a is Some && a == b {
        ComparisonOutcome::LossyEqual
    } else {
        ComparisonOutcome::Mismatch
    }
}

/// The logical value of an unsigned form.
pub fn u128_value(a: &SizedU128) -> (r: Option<u128>)
    ensures
        r is Some <==> u128_logical(*a) is Some,
        r is Some ==> r->Some_0 as int == u128_logical(*a)->Some_0,
{
    match a {
        SizedU128::Small(v) => Some(*v),
        SizedU128::Large(s) => {
            assert(s@.skip(0) =~= s@);
            parse_digits(s, 0)
        },
    }
}

/// The logical value of a signed form.
pub fn i128_value(a: &SizedI128) -> (r: Option<i128>)
    ensures
        r is Some <==> i128_logical(*a) is Some,
        r is Some ==> r->Some_0 as int == i128_logical(*a)->Some_0,
{
    match a {
        SizedI128::Small(v) => Some(*v),
        SizedI128::Large(s) => {
            if s.len() > 0 && s[0] == 45u8 {
                match parse_digits(s, 1) {
                    Some(m) => {
                        if m < 0x8000_0000_0000_0000_0000_0000_0000_0000 {
                            Some(-(m as i128))
                        } else if m == 0x8000_0000_0000_0000_0000_0000_0000_0000 {
                            Some(i128::MIN)
                        } else {
                            None
                        }
                    },
                    None => None,
                }
            } else {
                assert(s@.skip(0) =~= s@);
                match parse_digits(s, 0) {
                    Some(m) => {
                        if m <= 0x7FFF_FFFF_FFFF_FFFF_FFFF_FFFF_FFFF_FFFF {
                            Some(m as i128)
                        } else {
                            None
                        }
                    },
                    None => None,
                }
            }
        },
    }
}

/// Compares an unsigned value with its form read back: exact when the
/// literal forms agree, lossy-equal when only the numbers they stand for do.
pub fn compare_u128(a: &SizedU128, b: &SizedU128) -> (r: ComparisonOutcome)
    ensures
        r == outcome_of(u128_exact(*a, *b), u128_logical(*a), u128_logical(*b)),
{
    let exact = match (a, b) {
        (SizedU128::Small(x), SizedU128::Small(y)) => *x == *y,
        (SizedU128::Large(x), SizedU128::Large(y)) => bytes_eq(x, y),
        _ => false,
    };
    if exact {
        return ComparisonOutcome::Exact;
    }
    match (u128_value(a), u128_value(b)) {
        (Some(x), Some(y)) => if x == y {
            ComparisonOutcome::LossyEqual
        } else {
            ComparisonOutcome::Mismatch
        },
        _ => ComparisonOutcome::Mismatch,
    }
}

/// Compares a signed value with its form read back: exact when the literal
/// forms agree, lossy-equal when only the numbers they stand for do.
pub fn compare_i128(a: &SizedI128, b: &SizedI128) -> (r: ComparisonOutcome)
    ensures
        r == outcome_of(i128_exact(*a, *b), i128_logical(*a), i128_logical(*b)),
{
    let exact = match (a, b) {
        (SizedI128::Small(x), SizedI128::Small(y)) => *x == *y,
        (SizedI128::Large(x), SizedI128::Large(y)) => bytes_eq(x, y),
        _ => false,
    };
    if exact {
        return ComparisonOutcome::Exact;
    }
    match (i128_value(a), i128_value(b)) {
        (Some(x), Some(y)) => if x == y {
            ComparisonOutcome::LossyEqual
        } else {
            ComparisonOutcome::Mismatch
        },
        _ => ComparisonOutcome::Mismatch,
    }
}

/// Compares a float with its value read back: exact on the same bits,
/// lossy-equal on zeros of different sign.
pub fn compare_f32(a: FiniteF32, b: FiniteF32) -> (r: ComparisonOutcome)
    ensures
        r == f32_outcome(a.bits, b.bits),
{
    if a.bits == b.bits {
        ComparisonOutcome::Exact
    } else if a.bits & 0x7FFF_FFFF == 0 && b.bits & 0x7FFF_FFFF == 0 {
        ComparisonOutcome::LossyEqual
    } else {
        ComparisonOutcome::Mismatch
    }
}

fn literal(same: bool) -> (r: ComparisonOutcome)
    ensures
        r == literal_outcome(same),
{
    if same {
        ComparisonOutcome::Exact
    } else {
        ComparisonOutcome::Mismatch
    }
}

/// Compares two numbers: fixed-width integers literally, 128-bit values and
/// floats by logical value.
pub fn compare_number(a: &NumberInput, b: &NumberInput) -> (r: ComparisonOutcome)
    ensures
        r == number_outcome(*a, *b),
{
    match (a, b) {
        (NumberInput::U8(x), NumberInput::U8(y)) => literal(*x == *y),
        (NumberInput::U16(x), NumberInput::U16(y)) => literal(*x == *y),
        (NumberInput::U32(x), NumberInput::U32(y)) => literal(*x == *y),
        (NumberInput::U64(x), NumberInput::U64(y)) => literal(*x == *y),
        (NumberInput::U128(x), NumberInput::U128(y)) => compare_u128(x, y),
        (NumberInput::I8(x), NumberInput::I8(y)) => literal(*x == *y),
        (NumberInput::I16(x), NumberInput::I16(y)) => literal(*x == *y),
        (NumberInput::I32(x), NumberInput::I32(y)) => literal(*x == *y),
        (NumberInput::I64(x), NumberInput::I64(y)) => literal(*x == *y),
        (NumberInput::I128(x), NumberInput::I128(y)) => compare_i128(x, y),
        (NumberInput::F32(x), NumberInput::F32(y)) => compare_f32(*x, *y),
        _ => ComparisonOutcome::Mismatch,
    }
}

fn byte_vec_arm(v: &ByteVecInput) -> (r: (u8, &Vec<u8>))
    ensures
        r.0 == v.arm(),
        r.1@ == v.bytes(),
{
    match v {
        ByteVecInput::Hex(b) => (0, b),
        ByteVecInput::Base58(b) => (1, b),
        ByteVecInput::Decimal(b) => (2, b),
    }
}

/// Compares a generated value with the value read back from the codec:
/// exact when every field agrees literally, lossy-equal when only 128-bit
/// values or floats differ in form but not in value, else a mismatch.
pub fn compare_input(a: &FuzzInput, b: &FuzzInput) -> (r: ComparisonOutcome)
    ensures
        r == input_outcome(*a, *b),
{
    match (a, b) {
        (FuzzInput::Bool(x), FuzzInput::Bool(y)) => literal(*x == *y),
        (FuzzInput::String(x), FuzzInput::String(y)) => literal(bytes_eq(&x.bytes, &y.bytes)),
        (FuzzInput::ByteVec(x), FuzzInput::ByteVec(y)) => {
            let (ax, bx) = byte_vec_arm(x);
            let (ay, by) = byte_vec_arm(y);
            literal(ax == ay && bytes_eq(bx, by))
        },
        (FuzzInput::Number(x), FuzzInput::Number(y)) => compare_number(x, y),
        (
            FuzzInput::InlineStruct { field: f1, name: n1 },
            FuzzInput::InlineStruct { field: f2, name: n2 },
        ) => literal(*f1 == *f2 && bytes_eq(&n1.bytes, &n2.bytes)),
        (FuzzInput::MultiTuple(x1, y1), FuzzInput::MultiTuple(x2, y2)) => {
            let same_second = match (y1, y2) {
                (Some(p), Some(q)) => *p == *q,
                (None, None) => true,
                _ => false,
            };
            literal(*x1 == *x2 && same_second)
        },
        (
            FuzzInput::SkippedField { skipper: s1, not_skipped: k1 },
            FuzzInput::SkippedField { skipper: s2, not_skipped: k2 },
        ) => literal(*s1 == *s2 && *k1 == *k2),
        _ => ComparisonOutcome::Mismatch,
    }
}

/// The decimal text of any unsigned 128-bit value reads back as that value,
/// so its text form and its number form compare as the same logical value.
pub proof fn lemma_u128_text_reads_back(v: u128, t: SizedU128)
    requires
        t is Large,
        t->Large_0@ == digits_of(v as nat),
    ensures
        u128_logical(t) == Some(v as int),
        u128_logical(SizedU128::Small(v)) == u128_logical(t),
{
    lemma_decimal_round_trip(v as nat);
}

/// The decimal text of any signed 128-bit value reads back as that value,
/// so its text form and its number form compare as the same logical value.
pub proof fn lemma_i128_text_reads_back(v: i128, t: SizedI128)
    requires
        t is Large,
        t->Large_0@ == signed_digits_of(v as int),
    ensures
        i128_logical(t) == Some(v as int),
        i128_logical(SizedI128::Small(v)) == i128_logical(t),
{
    let s = t->Large_0@;
    if v < 0 {
        let m = (-v) as nat;
        lemma_decimal_round_trip(m);
        assert(s.skip(1) =~= digits_of(m));
        assert(s[0] == 45u8);
    } else {
        lemma_decimal_round_trip(v as nat);
        assert(s[0] != 45u8);
    }
}

proof fn lemma_number_draw_deterministic(
    s: Seq<u8>,
    r1: Result<NumberInput, crate::entropy::GenError>,
    e1: Seq<u8>,
    r2: Result<NumberInput, crate::entropy::GenError>,
    e2: Seq<u8>,
)
    requires
        number_drawn(s, r1, e1),
        number_drawn(s, r2, e2),
    ensures
        r1 is Ok <==> r2 is Ok,
        e1 == e2,
        r1 is Ok ==> number_outcome(r1->Ok_0, r2->Ok_0) == ComparisonOutcome::Exact,
{
    if s.len() >= 1 && r1 is Ok && r2 is Ok {
        match (r1->Ok_0, r2->Ok_0) {
            (NumberInput::U128(a), NumberInput::U128(b)) => {
                if a is Large && b is Large {
                    assert(a->Large_0@ =~= b->Large_0@);
                }
            },
            (NumberInput::I128(a), NumberInput::I128(b)) => {
                if a is Large && b is Large {
                    assert(a->Large_0@ =~= b->Large_0@);
                }
            },
            _ => {},
        }
    }
}

/// Generation is deterministic: two draws of a value from the same bytes,
/// in the same mode, both succeed or both fail, leave the cursor at the same
/// place, and on success give values that compare exactly equal.
pub proof fn lemma_value_draw_deterministic(
    s: Seq<u8>,
    max_len: nat,
    stress: bool,
    r1: Result<FuzzInput, crate::entropy::GenError>,
    e1: Seq<u8>,
    r2: Result<FuzzInput, crate::entropy::GenError>,
    e2: Seq<u8>,
)
    requires
        fuzz_drawn(s, max_len, stress, r1, e1),
        fuzz_drawn(s, max_len, stress, r2, e2),
    ensures
        r1 is Ok <==> r2 is Ok,
        e1 == e2,
        r1 is Ok ==> input_outcome(r1->Ok_0, r2->Ok_0) == ComparisonOutcome::Exact,
{
    if s.len() >= 1 && s[0] % 7 == 3 {
        let t = s.skip(1);
        let n1 = match r1 {
            Ok(FuzzInput::Number(n)) => Ok(n),
            Ok(_) => Err(crate::entropy::GenError::EntropyExhausted),
            Err(e) => Err(e),
        };
        let n2 = match r2 {
            Ok(FuzzInput::Number(n)) => Ok(n),
            Ok(_) => Err(crate::entropy::GenError::EntropyExhausted),
            Err(e) => Err(e),
        };
        lemma_number_draw_deterministic(t, n1, e1, n2, e2);
    }
}

} // verus!

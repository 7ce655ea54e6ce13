use vstd::prelude::*;

verus! {

/// The largest integer the host runtime's native number type holds exactly:
/// `2^53 - 1`.
pub const SAFE_INTEGER_MAX: u128 = 9_007_199_254_740_991;

/// The decimal digits of `n` as ASCII bytes, most significant first, with no
/// leading zero.
pub open spec fn digits_of(n: nat) -> Seq<u8>
    decreases n,
{
    if n < 10 {
        seq![(48 + n) as u8]
    } else {
        digits_of(n / 10).push((48 + n % 10) as u8)
    }
}

/// The text of a signed integer in base 10: a `-` before the digits of its
/// magnitude when it is negative.
pub open spec fn signed_digits_of(v: int) -> Seq<u8> {
    if v < 0 {
        seq![45u8] + digits_of((-v) as nat)
    } else {
        digits_of(v as nat)
    }
}

/// Plain base-10 reading of ASCII digits.
pub open spec fn parse_decimal(s: Seq<u8>) -> nat
    decreases s.len(),
{
    if s.len() == 0 {
        0
    } else {
        parse_decimal(s.drop_last()) * 10 + (s.last() - 48) as nat
    }
}

/// Plain base-10 reading of a signed integer's text.
pub open spec fn parse_signed_decimal(s: Seq<u8>) -> int {
    if s.len() > 0 && s[0] == 45u8 {
        -parse_decimal(s.skip(1))
    } else {
        parse_decimal(s) as int
    }
}

/// Writing a number in base 10 gives at least one digit, only digits, no
/// leading zero unless the number is zero, and text that plain base-10
/// parsing reads back as the same number.
pub proof fn lemma_decimal_round_trip(n: nat)
    ensures
        digits_of(n).len() >= 1,
        forall|i: int| 0 <= i < digits_of(n).len() ==> 48 <= #[trigger] digits_of(n)[i] <= 57,
        digits_of(n)[0] == 48u8 ==> n == 0,
        parse_decimal(digits_of(n)) == n,
    decreases n,
{
    if n >= 10 {
        lemma_decimal_round_trip(n / 10);
        let d = digits_of(n / 10);
        assert(digits_of(n).drop_last() =~= d);
        assert(digits_of(n).last() == (48 + n % 10) as u8);
        assert(parse_decimal(digits_of(n)) == (n / 10) * 10 + n % 10);
    } else {
        assert(digits_of(n).drop_last() =~= Seq::<u8>::empty());
        assert(parse_decimal(Seq::<u8>::empty()) == 0);
        assert(parse_decimal(digits_of(n)) == 0 * 10 + n);
    }
}

/// Signed base-10 text reads back as the same number.
pub proof fn lemma_signed_decimal_round_trip(v: int)
    ensures
        parse_signed_decimal(signed_digits_of(v)) == v,
{
    if v < 0 {
        let m = (-v) as nat;
        lemma_decimal_round_trip(m);
        assert((seq![45u8] + digits_of(m)).skip(1) =~= digits_of(m));
    } else {
        lemma_decimal_round_trip(v as nat);
    }
}

/// Appends the decimal digits of `v` to `out`.
pub fn push_digits(v: u128, out: &mut Vec<u8>)
    ensures
        final(out)@ == old(out)@ + digits_of(v as nat),
    decreases v,
{
    if v < 10 {
        out.push((48 + v) as u8);
        assert(old(out)@.push((48 + v) as u8) =~= old(out)@ + digits_of(v as nat));
    } else {
        push_digits(v / 10, out);
        out.push((48 + v % 10) as u8);
        assert(out@ =~= old(out)@ + digits_of(v as nat));
    }
}

/// The base-10 text of an unsigned value.
pub fn u128_to_decimal(v: u128) -> (r: Vec<u8>)
    ensures
        r@ == digits_of(v as nat),
{
    let mut out: Vec<u8> = Vec::new();
    push_digits(v, &mut out);
    assert(out@ =~= digits_of(v as nat));
    out
}

/// The base-10 text of a signed value.
pub fn i128_to_decimal(v: i128) -> (r: Vec<u8>)
    ensures
        r@ == signed_digits_of(v as int),
{
    let mut out: Vec<u8> = Vec::new();
    if v < 0 {
        out.push(45u8);
        let magnitude: u128 = (-(v + 1)) as u128 + 1;
        push_digits(magnitude, &mut out);
        assert(out@ =~= signed_digits_of(v as int));
    } else {
        push_digits(v as u128, &mut out);
        assert(out@ =~= signed_digits_of(v as int));
    }
    out
}

/// An unsigned 128-bit value in the form the host can take: as a number while
/// it is exactly representable there, else as its decimal text.
#[derive(Debug, Clone, PartialEq, Eq)]
pub enum SizedU128 {
    Small(u128),
    Large(Vec<u8>),
}

/// A signed 128-bit value in the form the host can take: as a number while
/// its magnitude is exactly representable there, else as its decimal text.
#[derive(Debug, Clone, PartialEq, Eq)]
pub enum SizedI128 {
    Small(i128),
    Large(Vec<u8>),
}

impl SizedU128 {
    /// The number this form stands for, as its text reads.
    pub open spec fn value(&self) -> int {
        match self {
            SizedU128::Small(v) => *v as int,
            SizedU128::Large(s) => parse_decimal(s@) as int,
        }
    }

    /// Exactly one arm, chosen by the value alone.
    pub open spec fn wf(&self) -> bool {
        match self {
            SizedU128::Small(v) => *v <= SAFE_INTEGER_MAX,
            SizedU128::Large(s) => {
                &&& SAFE_INTEGER_MAX < parse_decimal(s@) < 0x1_0000_0000_0000_0000_0000_0000_0000_0000
                &&& s@ == digits_of(parse_decimal(s@))
            },
        }
    }

    /// Chooses the arm for `v`: the number itself up to `2^53 - 1`, its
    /// decimal text above.
    pub fn from_value(v: u128) -> (r: SizedU128)
        ensures
            v <= SAFE_INTEGER_MAX ==> r == SizedU128::Small(v),
            v > SAFE_INTEGER_MAX ==> r is Large && r->Large_0@ == digits_of(v as nat),
            r.wf(),
            r.value() == v,
    {
        proof {
            lemma_decimal_round_trip(v as nat);
        }
        if v > SAFE_INTEGER_MAX {
            SizedU128::Large(u128_to_decimal(v))
        } else {
            SizedU128::Small(v)
        }
    }
}

impl SizedI128 {
    /// The number this form stands for, as its text reads.
    pub open spec fn value(&self) -> int {
        match self {
            SizedI128::Small(v) => *v as int,
            SizedI128::Large(s) => parse_signed_decimal(s@),
        }
    }

    /// Exactly one arm, chosen by the value alone.
    pub open spec fn wf(&self) -> bool {
        match self {
            SizedI128::Small(v) => -(SAFE_INTEGER_MAX as int) <= *v <= SAFE_INTEGER_MAX,
            SizedI128::Large(s) => {
                let v = parse_signed_decimal(s@);
                &&& (v < -(SAFE_INTEGER_MAX as int) || v > SAFE_INTEGER_MAX)
                &&& i128::MIN <= v <= i128::MAX
                &&& s@ == signed_digits_of(v)
            },
        }
    }

    /// Chooses the arm for `v`: the number itself within `±(2^53 - 1)`, its
    /// decimal text outside.
    pub fn from_value(v: i128) -> (r: SizedI128)
        ensures
            -(SAFE_INTEGER_MAX as int) <= v <= SAFE_INTEGER_MAX ==> r == SizedI128::Small(v),
            (v < -(SAFE_INTEGER_MAX as int) || v > SAFE_INTEGER_MAX) ==> r is Large
                && r->Large_0@ == signed_digits_of(v as int),
            r.wf(),
            r.value() == v,
    {
        proof {
            lemma_signed_decimal_round_trip(v as int);
        }
        if v < -(SAFE_INTEGER_MAX as i128) || (v > 0 && v as u128 > SAFE_INTEGER_MAX) {
            SizedI128::Large(i128_to_decimal(v))
        } else {
            SizedI128::Small(v)
        }
    }
}

} // verus!

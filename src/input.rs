use vstd::prelude::*;
use crate::entropy::{
    Entropy,
    GenError,
    be_value,
    byte_width,
    lemma_byte_width_bound,
    lemma_pow256_sixteen,
};
use crate::float_bits::{FiniteF32, normalized};
use crate::generate::{
    BoundedString,
    bounded_string,
    byte_sequence,
    byte_sequence_draw,
    string_draw,
    string_draw_len,
    string_fail_rest,
    byte_sequence_fail_rest,
    min_string_len,
};
use crate::numbers::{SAFE_INTEGER_MAX, SizedI128, SizedU128};

verus! {

/// `2^128`.
pub open spec fn two_pow_128() -> int {
    u128::MAX as int + 1
}

/// The two's-complement reading of a 128-bit pattern.
pub open spec fn signed_of_u128(raw: nat) -> int {
    if raw < two_pow_128() / 2 {
        raw as int
    } else {
        raw - two_pow_128()
    }
}

/// What a 128-bit unsigned draw makes of `s`. The first byte picks the side
/// of the host's safe-integer boundary to aim at: an even byte draws from
/// `[0, 2^53 - 1]` (seven bytes), an odd one takes sixteen bytes as the full
/// 128-bit value.
pub open spec fn u128_draw(s: Seq<u8>) -> Option<int> {
    if s.len() < 1 {
        None
    } else if s[0] % 2 == 0 {
        if s.len() < 8 {
            None
        } else {
            Some(be_value(s.subrange(1, 8)) as int % (SAFE_INTEGER_MAX + 1) as int)
        }
    } else {
        if s.len() < 17 {
            None
        } else {
            Some(be_value(s.subrange(1, 17)) as int)
        }
    }
}

/// What a 128-bit signed draw makes of `s`: an even first byte draws from
/// `[-(2^53 - 1), 2^53 - 1]` (seven bytes), an odd one takes sixteen bytes
/// as a two's-complement 128-bit value.
pub open spec fn i128_draw(s: Seq<u8>) -> Option<int> {
    if s.len() < 1 {
        None
    } else if s[0] % 2 == 0 {
        if s.len() < 8 {
            None
        } else {
            Some(be_value(s.subrange(1, 8)) as int % (2 * SAFE_INTEGER_MAX + 1) as int - SAFE_INTEGER_MAX as int)
        }
    } else {
        if s.len() < 17 {
            None
        } else {
            Some(signed_of_u128(be_value(s.subrange(1, 17))))
        }
    }
}

/// How many bytes a successful 128-bit draw from `s` consumes: the
/// selector byte, then seven bytes or sixteen.
pub open spec fn sized_draw_len(s: Seq<u8>) -> int {
    if s[0] % 2 == 0 {
        8
    } else {
        17
    }
}

/// Where a draw that failed after a one-byte tag or selector leaves the
/// cursor: unmoved when even that byte was missing, just past it otherwise.
pub open spec fn after_tag(s: Seq<u8>) -> Seq<u8> {
    if s.len() < 1 {
        s
    } else {
        s.skip(1)
    }
}

proof fn lemma_safe_widths()
    ensures
        byte_width(SAFE_INTEGER_MAX as nat) == 7,
        byte_width(2 * SAFE_INTEGER_MAX as nat) == 7,
{
    reveal_with_fuel(byte_width, 8);
}

/// Draws an unsigned 128-bit value, aiming at either side of the host's
/// safe-integer boundary, and puts it in the form that the boundary asks for.
pub fn sized_u128(u: &mut Entropy) -> (r: Result<SizedU128, GenError>)
    requires
        old(u).wf(),
    ensures
        final(u).wf(),
        r is Ok <==> u128_draw(old(u)@) is Some,
        r is Ok ==> r->Ok_0.wf() && r->Ok_0.value() == u128_draw(old(u)@)->Some_0,
        r is Err ==> r->Err_0 == GenError::EntropyExhausted,
        r is Ok ==> final(u)@ == old(u)@.skip(sized_draw_len(old(u)@)),
        r is Err ==> final(u)@ == after_tag(old(u)@),
{
    let ghost rest = old(u)@;
    let sel = u.take_u8()?;
    let ghost after = u@;
    if sel % 2 == 0 {
        proof {
            lemma_safe_widths();
        }
        let v = match u.int_in_range(0, SAFE_INTEGER_MAX as u64) {
            Ok(v) => v,
            Err(e) => {
                return Err(e);
            },
        };
        assert(after.take(7) =~= rest.subrange(1, 8));
        assert(after.skip(7) =~= rest.skip(8));
        Ok(SizedU128::from_value(v as u128))
    } else {
        let v = match u.take_be(16) {
            Ok(v) => v,
            Err(e) => {
                return Err(e);
            },
        };
        assert(after.take(16) =~= rest.subrange(1, 17));
        assert(after.skip(16) =~= rest.skip(17));
        Ok(SizedU128::from_value(v))
    }
}

/// Draws a signed 128-bit value, aiming at either side of the host's
/// safe-integer boundary, and puts it in the form that the boundary asks for.
pub fn sized_i128(u: &mut Entropy) -> (r: Result<SizedI128, GenError>)
    requires
        old(u).wf(),
    ensures
        final(u).wf(),
        r is Ok <==> i128_draw(old(u)@) is Some,
        r is Ok ==> r->Ok_0.wf() && r->Ok_0.value() == i128_draw(old(u)@)->Some_0,
        r is Err ==> r->Err_0 == GenError::EntropyExhausted,
        r is Ok ==> final(u)@ == old(u)@.skip(sized_draw_len(old(u)@)),
        r is Err ==> final(u)@ == after_tag(old(u)@),
{
    let ghost rest = old(u)@;
    let sel = u.take_u8()?;
    let ghost after = u@;
    if sel % 2 == 0 {
        proof {
            lemma_safe_widths();
        }
        let v = match u.int_in_range(0, 2 * SAFE_INTEGER_MAX as u64) {
            Ok(v) => v,
            Err(e) => {
                return Err(e);
            },
        };
        assert(after.take(7) =~= rest.subrange(1, 8));
        assert(after.skip(7) =~= rest.skip(8));
        Ok(SizedI128::from_value(v as i128 - SAFE_INTEGER_MAX as i128))
    } else {
        let raw = match u.take_be(16) {
            Ok(v) => v,
            Err(e) => {
                return Err(e);
            },
        };
        assert(after.take(16) =~= rest.subrange(1, 17));
        assert(after.skip(16) =~= rest.skip(17));
        let v: i128 = if raw <= 0x7FFF_FFFF_FFFF_FFFF_FFFF_FFFF_FFFF_FFFF {
            raw as i128
        } else {
            -((0xFFFF_FFFF_FFFF_FFFF_FFFF_FFFF_FFFF_FFFFu128 - raw) as i128) - 1
        };
        Ok(SizedI128::from_value(v))
    }
}

/// A byte sequence tagged with how it is to be displayed. The tag never
/// changes how the bytes are generated.
#[derive(Debug, Clone, PartialEq, Eq)]
pub enum ByteVecInput {
    Hex(Vec<u8>),
    Base58(Vec<u8>),
    Decimal(Vec<u8>),
}

impl ByteVecInput {
    /// The position of the arm among the three.
    pub open spec fn arm(&self) -> nat {
        match self {
            ByteVecInput::Hex(_) => 0,
            ByteVecInput::Base58(_) => 1,
            ByteVecInput::Decimal(_) => 2,
        }
    }

    pub open spec fn bytes(&self) -> Seq<u8> {
        match self {
            ByteVecInput::Hex(b) => b@,
            ByteVecInput::Base58(b) => b@,
            ByteVecInput::Decimal(b) => b@,
        }
    }

    pub open spec fn wf(&self) -> bool {
        5 <= self.bytes().len() <= 100
    }
}

/// A number of one of the supported widths.
#[derive(Debug, Clone, PartialEq, Eq)]
pub enum NumberInput {
    U8(u8),
    U16(u16),
    U32(u32),
    U64(u64),
    U128(SizedU128),
    I8(i8),
    I16(i16),
    I32(i32),
    I64(i64),
    I128(SizedI128),
    F32(FiniteF32),
}

impl NumberInput {
    /// The position of the arm among the eleven.
    pub open spec fn arm(&self) -> nat {
        match self {
            NumberInput::U8(_) => 0,
            NumberInput::U16(_) => 1,
            NumberInput::U32(_) => 2,
            NumberInput::U64(_) => 3,
            NumberInput::U128(_) => 4,
            NumberInput::I8(_) => 5,
            NumberInput::I16(_) => 6,
            NumberInput::I32(_) => 7,
            NumberInput::I64(_) => 8,
            NumberInput::I128(_) => 9,
            NumberInput::F32(_) => 10,
        }
    }

    pub open spec fn wf(&self) -> bool {
        match self {
            NumberInput::U128(v) => v.wf(),
            NumberInput::I128(v) => v.wf(),
            NumberInput::F32(v) => v.wf(),
            _ => true,
        }
    }
}

/// One generated value of any of the shapes the codec is exercised on.
#[derive(Debug, Clone, PartialEq, Eq)]
pub enum FuzzInput {
    Bool(bool),
    String(BoundedString),
    ByteVec(ByteVecInput),
    Number(NumberInput),
    InlineStruct { field: u32, name: BoundedString },
    MultiTuple(i8, Option<u8>),
    /// `skipper` is held in memory and in the text form but never encoded.
    SkippedField { skipper: u8, not_skipped: u8 },
}

impl FuzzInput {
    /// The position of the arm among the seven.
    pub open spec fn arm(&self) -> nat {
        match self {
            FuzzInput::Bool(_) => 0,
            FuzzInput::String(_) => 1,
            FuzzInput::ByteVec(_) => 2,
            FuzzInput::Number(_) => 3,
            FuzzInput::InlineStruct { .. } => 4,
            FuzzInput::MultiTuple(..) => 5,
            FuzzInput::SkippedField { .. } => 6,
        }
    }

    /// Every bound of every part holds.
    pub open spec fn wf(&self, max_len: nat, stress: bool) -> bool {
        match self {
            FuzzInput::String(s) => s.wf(max_len, stress),
            FuzzInput::ByteVec(b) => b.wf(),
            FuzzInput::Number(n) => n.wf(),
            FuzzInput::InlineStruct { name, .. } => name.wf(max_len, stress),
            _ => true,
        }
    }
}

/// Draws a display tag from one byte, then the bytes.
pub fn byte_vec_input(u: &mut Entropy) -> (r: Result<ByteVecInput, GenError>)
    requires
        old(u).wf(),
    ensures
        final(u).wf(),
        r is Ok <==> 1 <= old(u)@.len() && byte_sequence_draw(old(u)@.skip(1)) is Some,
        r is Ok ==> {
            &&& r->Ok_0.arm() == old(u)@[0] % 3
            &&& byte_sequence_draw(old(u)@.skip(1)) == Some(r->Ok_0.bytes())
            &&& r->Ok_0.wf()
        },
        r is Ok ==> final(u)@ == old(u)@.skip((2 + r->Ok_0.bytes().len()) as int),
        r is Err ==> final(u)@ == if old(u)@.len() < 1 {
            old(u)@
        } else {
            byte_sequence_fail_rest(old(u)@.skip(1))
        },
        r is Err ==> r->Err_0 == GenError::EntropyExhausted,
{
    let ghost s = old(u)@;
    let tag = u.take_u8()?;
    let bytes = byte_sequence(u)?;
    assert(s.skip(1).skip((1 + bytes@.len()) as int) =~= s.skip((2 + bytes@.len()) as int));
    if tag % 3 == 0 {
        Ok(ByteVecInput::Hex(bytes))
    } else if tag % 3 == 1 {
        Ok(ByteVecInput::Base58(bytes))
    } else {
        Ok(ByteVecInput::Decimal(bytes))
    }
}

/// A fixed-width draw of `n` bytes from `t`: fails, leaving `t`, when they
/// are missing.
pub open spec fn fixed_drawn(t: Seq<u8>, n: int, ok: bool, end: Seq<u8>) -> bool {
    if t.len() < n {
        !ok && end == t
    } else {
        ok && end == t.skip(n)
    }
}

/// What a number draw from `s` gives and where it leaves the cursor: an arm
/// from `s[0] % 11`, then fixed-width integers as big-endian bytes of their
/// width, 128-bit values as `sized_u128` / `sized_i128` draw them, and
/// floats as four bytes normalised.
pub open spec fn number_drawn(s: Seq<u8>, r: Result<NumberInput, GenError>, end: Seq<u8>) -> bool {
    if s.len() < 1 {
        r is Err && end == s
    } else {
        let t = s.skip(1);
        let k = s[0] % 11;
        &&& r is Err ==> r->Err_0 == GenError::EntropyExhausted
        &&& if k == 4 {
            match r {
                Ok(NumberInput::U128(v)) => {
                    &&& u128_draw(t) == Some(v.value())
                    &&& v.wf()
                    &&& end == t.skip(sized_draw_len(t))
                },
                Err(_) => u128_draw(t) is None && end == after_tag(t),
                _ => false,
            }
        } else if k == 9 {
            match r {
                Ok(NumberInput::I128(v)) => {
                    &&& i128_draw(t) == Some(v.value())
                    &&& v.wf()
                    &&& end == t.skip(sized_draw_len(t))
                },
                Err(_) => i128_draw(t) is None && end == after_tag(t),
                _ => false,
            }
        } else {
            let n: int = if k == 0 || k == 5 {
                1
            } else if k == 1 || k == 6 {
                2
            } else if k == 2 || k == 7 || k == 10 {
                4
            } else {
                8
            };
            let raw = be_value(t.take(n));
            &&& fixed_drawn(t, n, r is Ok, end)
            &&& r is Ok ==> r->Ok_0 == if k == 0 {
                NumberInput::U8(t[0])
            } else if k == 1 {
                NumberInput::U16(#[verifier::truncate] (raw as u16))
            } else if k == 2 {
                NumberInput::U32(#[verifier::truncate] (raw as u32))
            } else if k == 3 {
                NumberInput::U64(#[verifier::truncate] (raw as u64))
            } else if k == 5 {
                NumberInput::I8(#[verifier::truncate] (t[0] as i8))
            } else if k == 6 {
                NumberInput::I16(#[verifier::truncate] (raw as i16))
            } else if k == 7 {
                NumberInput::I32(#[verifier::truncate] (raw as i32))
            } else if k == 8 {
                NumberInput::I64(#[verifier::truncate] (raw as i64))
            } else {
                NumberInput::F32(FiniteF32 { bits: normalized(#[verifier::truncate] (raw as u32)) })
            }
        }
    }
}

/// Draws a number: an arm from one byte, then its payload, fixed-width
/// integers as big-endian bytes of their width.
pub fn number_input(u: &mut Entropy) -> (r: Result<NumberInput, GenError>)
    requires
        old(u).wf(),
    ensures
        final(u).wf(),
        number_drawn(old(u)@, r, final(u)@),
        r is Ok ==> {
            &&& r->Ok_0.arm() == old(u)@[0] % 11
            &&& r->Ok_0.wf()
        },
{
    let ghost s = old(u)@;
    let tag = u.take_u8()? % 11;
    let ghost t = u@;
    if tag == 0 {
        Ok(NumberInput::U8(u.take_u8()?))
    } else if tag == 1 {
        Ok(NumberInput::U16(#[verifier::truncate] (u.take_be(2)? as u16)))
    } else if tag == 2 {
        Ok(NumberInput::U32(#[verifier::truncate] (u.take_be(4)? as u32)))
    } else if tag == 3 {
        Ok(NumberInput::U64(#[verifier::truncate] (u.take_be(8)? as u64)))
    } else if tag == 4 {
        Ok(NumberInput::U128(sized_u128(u)?))
    } else if tag == 5 {
        Ok(NumberInput::I8(#[verifier::truncate] (u.take_u8()? as i8)))
    } else if tag == 6 {
        Ok(NumberInput::I16(#[verifier::truncate] (u.take_be(2)? as i16)))
    } else if tag == 7 {
        Ok(NumberInput::I32(#[verifier::truncate] (u.take_be(4)? as i32)))
    } else if tag == 8 {
        Ok(NumberInput::I64(#[verifier::truncate] (u.take_be(8)? as i64)))
    } else if tag == 9 {
        Ok(NumberInput::I128(sized_i128(u)?))
    } else {
        let raw = u.take_be(4)?;
        Ok(NumberInput::F32(FiniteF32::normalize(#[verifier::truncate] (raw as u32))))
    }
}

/// What a value draw from `s` gives and where it leaves the cursor: an arm
/// from `s[0] % 7`, whatever the arm, then that arm's payload drawn in field
/// order, each part as its own generator draws it.
pub open spec fn fuzz_drawn(
    s: Seq<u8>,
    max_len: nat,
    stress: bool,
    r: Result<FuzzInput, GenError>,
    end: Seq<u8>,
) -> bool {
    if s.len() < 1 {
        r is Err && end == s
    } else {
        let t = s.skip(1);
        let k = s[0] % 7;
        &&& r is Err ==> r->Err_0 == GenError::EntropyExhausted
        &&& if k == 0 {
            &&& fixed_drawn(t, 1, r is Ok, end)
            &&& r is Ok ==> r->Ok_0 == FuzzInput::Bool(t[0] % 2 == 1)
        } else if k == 1 {
            match r {
                Ok(FuzzInput::String(x)) => {
                    &&& string_draw(t, max_len, stress) == Some(x.bytes@)
                    &&& end == t.skip(string_draw_len(t, max_len, stress) as int)
                },
                Err(_) => {
                    &&& string_draw(t, max_len, stress) is None
                    &&& end == string_fail_rest(t, max_len, stress)
                },
                _ => false,
            }
        } else if k == 2 {
            match r {
                Ok(FuzzInput::ByteVec(b)) => {
                    &&& t.len() >= 1
                    &&& b.arm() == t[0] % 3
                    &&& byte_sequence_draw(t.skip(1)) == Some(b.bytes())
                    &&& end == t.skip((2 + b.bytes().len()) as int)
                },
                Err(_) => {
                    &&& (t.len() < 1 || byte_sequence_draw(t.skip(1)) is None)
                    &&& end == if t.len() < 1 {
                        t
                    } else {
                        byte_sequence_fail_rest(t.skip(1))
                    }
                },
                _ => false,
            }
        } else if k == 3 {
            match r {
                Ok(FuzzInput::Number(n)) => number_drawn(t, Ok(n), end),
                Err(e) => number_drawn(t, Err(e), end),
                _ => false,
            }
        } else if k == 4 {
            if t.len() < 4 {
                r is Err && end == t
            } else {
                let t2 = t.skip(4);
                match r {
                    Ok(FuzzInput::InlineStruct { field, name }) => {
                        &&& field == #[verifier::truncate] (be_value(t.take(4)) as u32)
                        &&& string_draw(t2, max_len, stress) == Some(name.bytes@)
                        &&& end == t2.skip(string_draw_len(t2, max_len, stress) as int)
                    },
                    Err(_) => {
                        &&& string_draw(t2, max_len, stress) is None
                        &&& end == string_fail_rest(t2, max_len, stress)
                    },
                    _ => false,
                }
            }
        } else if k == 5 {
            if t.len() < 2 {
                r is Err && end == after_tag(t)
            } else if t[1] % 2 == 1 {
                if t.len() < 3 {
                    r is Err && end == t.skip(2)
                } else {
                    &&& r == Ok::<FuzzInput, GenError>(
                        FuzzInput::MultiTuple(#[verifier::truncate] (t[0] as i8), Some(t[2])),
                    )
                    &&& end == t.skip(3)
                }
            } else {
                &&& r == Ok::<FuzzInput, GenError>(
                    FuzzInput::MultiTuple(#[verifier::truncate] (t[0] as i8), None),
                )
                &&& end == t.skip(2)
            }
        } else {
            if t.len() < 2 {
                r is Err && end == after_tag(t)
            } else {
                &&& r == Ok::<FuzzInput, GenError>(
                    FuzzInput::SkippedField { skipper: t[0], not_skipped: t[1] },
                )
                &&& end == t.skip(2)
            }
        }
    }
}

/// Draws a value: an arm from one byte, whatever the arm, then its payload.
pub fn fuzz_input(u: &mut Entropy, max_len: u64, stress: bool) -> (r: Result<FuzzInput, GenError>)
    requires
        old(u).wf(),
    ensures
        final(u).wf(),
        fuzz_drawn(old(u)@, max_len as nat, stress, r, final(u)@),
        r is Ok ==> {
            &&& r->Ok_0.arm() == old(u)@[0] % 7
            &&& r->Ok_0.wf(max_len as nat, stress)
        },
{
    let ghost s = old(u)@;
    let tag = u.take_u8()? % 7;
    let ghost t = u@;
    proof {
        if s.len() >= 2 {
            assert(s.skip(1).skip(1) =~= s.skip(2));
        }
        if t.len() >= 2 {
            assert(t.skip(1).skip(1) =~= t.skip(2));
        }
        if t.len() >= 3 {
            assert(t.skip(2).skip(1) =~= t.skip(3));
        }
    }
    if tag == 0 {
        Ok(FuzzInput::Bool(u.take_u8()? % 2 == 1))
    } else if tag == 1 {
        Ok(FuzzInput::String(bounded_string(u, max_len, stress)?))
    } else if tag == 2 {
        Ok(FuzzInput::ByteVec(byte_vec_input(u)?))
    } else if tag == 3 {
        Ok(FuzzInput::Number(number_input(u)?))
    } else if tag == 4 {
        let field = #[verifier::truncate] (u.take_be(4)? as u32);
        let name = bounded_string(u, max_len, stress)?;
        Ok(FuzzInput::InlineStruct { field, name })
    } else if tag == 5 {
        let first = #[verifier::truncate] (u.take_u8()? as i8);
        let second = if u.take_u8()? % 2 == 1 {
            Some(u.take_u8()?)
        } else {
            None
        };
        Ok(FuzzInput::MultiTuple(first, second))
    } else {
        let skipper = u.take_u8()?;
        let not_skipped = u.take_u8()?;
        Ok(FuzzInput::SkippedField { skipper, not_skipped })
    }
}

/// The bytes after the tag are enough for a string draw whenever they
/// hold the longest string and its length bytes.
proof fn lemma_string_draw_fits(s: Seq<u8>, max_len: u64, stress: bool)
    requires
        s.len() >= max_len + 9,
    ensures
        string_draw(s, max_len as nat, stress) is Some,
{
    let min = min_string_len(max_len as nat, stress);
    let d = (max_len - min) as nat;
    lemma_pow256_sixteen();
    lemma_byte_width_bound(d, 8);
    let w = byte_width(d);
    let x = be_value(s.take(w as int));
    let m = (d + 1) as nat;
    assert(x % m < m) by (nonlinear_arith)
        requires
            m > 0,
    ;
}

/// A hundred and one bytes are always enough for a byte-sequence draw.
proof fn lemma_byte_sequence_fits(s: Seq<u8>)
    requires
        s.len() >= 101,
    ensures
        byte_sequence_draw(s) is Some,
{
    let x = be_value(s.take(1));
    assert(x % 96 < 96);
}

/// A buffer that holds the longest string and a hundred and twenty-eight
/// bytes more is enough for a value of any arm.
proof fn lemma_value_fits(
    data: Seq<u8>,
    max_len: u64,
    stress: bool,
    r: Result<FuzzInput, GenError>,
    end: Seq<u8>,
)
    requires
        data.len() >= max_len + 128,
        fuzz_drawn(data, max_len as nat, stress, r, end),
    ensures
        r is Ok,
{
    let t = data.skip(1);
    lemma_string_draw_fits(t, max_len, stress);
    lemma_string_draw_fits(t.skip(4), max_len, stress);
    lemma_byte_sequence_fits(t.skip(1));
}

/// Generates one value from an entropy buffer, with strings anywhere in
/// `[0, max_len]`. The value is what `fuzz_drawn` says of the buffer, so
/// equal buffers give equal values.
pub fn generate_input(data: Vec<u8>, max_len: u64) -> (r: Result<FuzzInput, GenError>)
    ensures
        exists|end: Seq<u8>| fuzz_drawn(data@, max_len as nat, false, r, end),
        data@.len() >= max_len + 128 ==> r is Ok,
        r is Ok ==> {
            &&& r->Ok_0.arm() == data@[0] % 7
            &&& r->Ok_0.wf(max_len as nat, false)
        },
{
    let ghost d = data@;
    let mut u = Entropy::new(data);
    let r = fuzz_input(&mut u, max_len, false);
    proof {
        if d.len() >= max_len + 128 {
            lemma_value_fits(d, max_len, false, r, u@);
        }
    }
    r
}

/// Generates one value from an entropy buffer in stress mode: strings take
/// lengths from the upper half of `[0, max_len]`. The value is what
/// `fuzz_drawn` says of the buffer, so equal buffers give equal values.
pub fn generate_test_case(data: Vec<u8>, max_len: u64) -> (r: Result<FuzzInput, GenError>)
    ensures
        exists|end: Seq<u8>| fuzz_drawn(data@, max_len as nat, true, r, end),
        data@.len() >= max_len + 128 ==> r is Ok,
        r is Ok ==> {
            &&& r->Ok_0.arm() == data@[0] % 7
            &&& r->Ok_0.wf(max_len as nat, true)
        },
{
    let ghost d = data@;
    let mut u = Entropy::new(data);
    let r = fuzz_input(&mut u, max_len, true);
    proof {
        if d.len() >= max_len + 128 {
            lemma_value_fits(d, max_len, true, r, u@);
        }
    }
    r
}

} // verus!

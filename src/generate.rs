use vstd::prelude::*;
use crate::entropy::{
    Entropy,
    GenError,
    byte_width,
    in_range_value,
    lemma_be_value_one,
};

verus! {

/// The first printable ASCII code.
pub const PRINTABLE_FIRST: u64 = 32;

/// The last printable ASCII code.
pub const PRINTABLE_LAST: u64 = 126;

/// The fewest bytes a generated byte sequence holds.
pub const BYTES_MIN_LEN: u64 = 5;

/// The most bytes a generated byte sequence holds.
pub const BYTES_MAX_LEN: u64 = 100;

/// The printable character that a range draw over `[32, 126]` makes of the
/// byte `b`.
pub open spec fn printable_of(b: u8) -> u8 {
    (32 + b % 95) as u8
}

/// The shortest length a generated string may have: half the maximum in
/// stress mode, nothing otherwise.
pub open spec fn min_string_len(max_len: nat, stress: bool) -> nat {
    if stress {
        max_len / 2
    } else {
        0
    }
}

/// What a string draw makes of the bytes `s`: a length from the first
/// `byte_width(max - min)` bytes, then one byte per character; `None` when
/// the bytes run out first.
pub open spec fn string_draw(s: Seq<u8>, max_len: nat, stress: bool) -> Option<Seq<u8>> {
    let min = min_string_len(max_len, stress);
    let w = byte_width((max_len - min) as nat);
    if s.len() < w {
        None
    } else {
        let len = in_range_value(min, max_len, s.take(w as int));
        if s.len() < w + len {
            None
        } else {
            Some(s.subrange(w as int, (w + len) as int).map_values(|b: u8| printable_of(b)))
        }
    }
}

/// How many bytes a successful string draw from `s` consumes.
pub open spec fn string_draw_len(s: Seq<u8>, max_len: nat, stress: bool) -> nat {
    let min = min_string_len(max_len, stress);
    let w = byte_width((max_len - min) as nat);
    w + in_range_value(min, max_len, s.take(w as int))
}

/// What a byte-sequence draw makes of `s`: a length in `[5, 100]` from one
/// byte, then that many bytes as they are; `None` when they run out first.
pub open spec fn byte_sequence_draw(s: Seq<u8>) -> Option<Seq<u8>> {
    if s.len() < 1 {
        None
    } else {
        let len = in_range_value(5, 100, s.take(1));
        if s.len() < 1 + len {
            None
        } else {
            Some(s.subrange(1, (1 + len) as int))
        }
    }
}

/// Where a failed string draw leaves the cursor: unmoved when the length
/// could not be drawn, just past the length bytes otherwise.
pub open spec fn string_fail_rest(s: Seq<u8>, max_len: nat, stress: bool) -> Seq<u8> {
    let w = byte_width((max_len - min_string_len(max_len, stress)) as nat);
    if s.len() < w {
        s
    } else {
        s.skip(w as int)
    }
}

/// Where a failed byte-sequence draw leaves the cursor: unmoved when the
/// length could not be drawn, just past the length byte otherwise.
pub open spec fn byte_sequence_fail_rest(s: Seq<u8>) -> Seq<u8> {
    if s.len() < 1 {
        s
    } else {
        s.skip(1)
    }
}

/// Printable ASCII text whose length is bounded by a configured maximum.
#[derive(Debug, Clone, PartialEq, Eq)]
pub struct BoundedString {
    pub bytes: Vec<u8>,
}

impl BoundedString {
    pub open spec fn wf(&self, max_len: nat, stress: bool) -> bool {
        &&& self.bytes@.len() <= max_len
        &&& min_string_len(max_len, stress) <= self.bytes@.len()
        &&& forall|i: int|
            0 <= i < self.bytes@.len() ==> 32 <= #[trigger] self.bytes@[i] <= 126
    }
}

proof fn lemma_printable_width()
    ensures
        byte_width(94) == 1,
        byte_width(95) == 1,
{
    reveal_with_fuel(byte_width, 3);
}

/// Draws a string: its length first, from the upper half of `[0, max_len]`
/// in stress mode or from all of it otherwise, then each character from the
/// printable ASCII range. Fails rather than cut the string short.
pub fn bounded_string(u: &mut Entropy, max_len: u64, stress: bool) -> (r: Result<
    BoundedString,
    GenError,
>)
    requires
        old(u).wf(),
    ensures
        final(u).wf(),
        match r {
            Ok(s) => {
                &&& string_draw(old(u)@, max_len as nat, stress) == Some(s.bytes@)
                &&& final(u)@ == old(u)@.skip(string_draw_len(old(u)@, max_len as nat, stress) as int)
                &&& s.wf(max_len as nat, stress)
            },
            Err(e) => {
                &&& string_draw(old(u)@, max_len as nat, stress) is None
                &&& e == GenError::EntropyExhausted
                &&& final(u)@ == string_fail_rest(old(u)@, max_len as nat, stress)
            },
        },
{
    let ghost rest = old(u)@;
    let ghost w = byte_width((max_len - min_string_len(max_len as nat, stress)) as nat);
    let min: u64 = if stress {
        max_len / 2
    } else {
        0
    };
    assert(min == min_string_len(max_len as nat, stress));
    let len = u.int_in_range(min, max_len)?;
    let ghost base = u@;
    if (u.remaining() as u64) < len {
        return Err(GenError::EntropyExhausted);
    }
    proof {
        lemma_printable_width();
    }
    assert(byte_width((PRINTABLE_LAST - PRINTABLE_FIRST) as nat) == 1);
    let mut bytes: Vec<u8> = Vec::new();
    let mut i: u64 = 0;
    while i < len
        invariant
            u.wf(),
            i <= len,
            rest == old(u)@,
            w == byte_width((max_len - min_string_len(max_len as nat, stress)) as nat),
            w <= rest.len(),
            len == in_range_value(min_string_len(max_len as nat, stress), max_len as nat, rest.take(w as int)),
            byte_width((PRINTABLE_LAST - PRINTABLE_FIRST) as nat) == 1,
            base == rest.skip(w as int),
            len <= base.len(),
            i <= base.len(),
            u@ == base.skip(i as int),
            bytes@.len() == i,
            forall|j: int| 0 <= j < i ==> #[trigger] bytes@[j] == printable_of(base[j]),
        decreases len - i,
    {
        let ghost before = u@;
        let c = match u.int_in_range(PRINTABLE_FIRST, PRINTABLE_LAST) {
            Ok(c) => c,
            Err(e) => {
                assert(base.len() == rest.len() - w);
                assert(rest.len() < w + len);
                return Err(e);
            },
        };
        proof {
            lemma_be_value_one(before.take(1));
        }
        bytes.push(c as u8);
        i = i + 1;
        assert(u@ =~= base.skip(i as int));
    }
    let s = BoundedString { bytes };
    assert(s.bytes@ =~= rest.subrange(w as int, (w + len) as int).map_values(|b: u8| printable_of(b)));
    assert(u@ =~= rest.skip((w + len) as int));
    Ok(s)
}

/// Draws a byte sequence of 5 to 100 bytes: its length first, then the bytes
/// as they come. Fails rather than cut the sequence short.
pub fn byte_sequence(u: &mut Entropy) -> (r: Result<Vec<u8>, GenError>)
    requires
        old(u).wf(),
    ensures
        final(u).wf(),
        match r {
            Ok(v) => {
                &&& byte_sequence_draw(old(u)@) == Some(v@)
                &&& final(u)@ == old(u)@.skip((1 + v@.len()) as int)
                &&& BYTES_MIN_LEN <= v@.len() <= BYTES_MAX_LEN
            },
            Err(e) => {
                &&& byte_sequence_draw(old(u)@) is None
                &&& e == GenError::EntropyExhausted
                &&& final(u)@ == byte_sequence_fail_rest(old(u)@)
            },
        },
{
    let ghost rest = old(u)@;
    proof {
        lemma_printable_width();
    }
    assert(byte_width((BYTES_MAX_LEN - BYTES_MIN_LEN) as nat) == 1);
    let len = u.int_in_range(BYTES_MIN_LEN, BYTES_MAX_LEN)?;
    let ghost base = u@;
    if (u.remaining() as u64) < len {
        return Err(GenError::EntropyExhausted);
    }
    let mut bytes: Vec<u8> = Vec::new();
    let mut i: u64 = 0;
    while i < len
        invariant
            u.wf(),
            i <= len,
            rest == old(u)@,
            1 <= rest.len(),
            len == in_range_value(5, 100, rest.take(1)),
            base == rest.skip(1),
            len <= base.len(),
            i <= base.len(),
            u@ == base.skip(i as int),
            bytes@ == base.take(i as int),
        decreases len - i,
    {
        let b = match u.take_u8() {
            Ok(b) => b,
            Err(e) => {
                assert(base.len() == rest.len() - 1);
                assert(rest.len() < 1 + len);
                return Err(e);
            },
        };
        bytes.push(b);
        i = i + 1;
        assert(u@ =~= base.skip(i as int));
        assert(bytes@ =~= base.take(i as int));
    }
    assert(bytes@ =~= rest.subrange(1, (1 + len) as int));
    assert(u@ =~= rest.skip((1 + len) as int));
    Ok(bytes)
}

} // verus!

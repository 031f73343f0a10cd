//! Decimal text for the timestamp field.
//!
//! On the wire the timestamp is a length-prefixed string holding a decimal
//! number.  Parsing follows `u32::from_str`: an optional leading `+`, then
//! one or more ASCII digits, rejecting anything else and values that do not
//! fit in 32 bits.  Rendering produces the canonical form: no sign, no
//! leading zeros.

use vstd::prelude::*;

verus! {

/// The numeric value of a sequence of ASCII digit bytes, most significant
/// first.
pub open spec fn dec_digits_val(b: Seq<u8>) -> int
    decreases b.len(),
{
    if b.len() == 0 {
        0
    } else {
        dec_digits_val(b.drop_last()) * 10 + (b.last() - 48)
    }
}

/// True when every byte is an ASCII digit.
pub open spec fn all_digits(b: Seq<u8>) -> bool {
    forall|i: int| 0 <= i < b.len() ==> 48 <= #[trigger] b[i] <= 57
}

/// The number a byte string parses to as a `u32`, if any: an optional `+`,
/// then at least one digit, and a value within range.
pub open spec fn spec_parse_u32(b: Seq<u8>) -> Option<u32> {
    let d = if b.len() > 0 && b[0] == 43 {
        b.drop_first()
    } else {
        b
    };
    if d.len() > 0 && all_digits(d) && dec_digits_val(d) <= u32::MAX {
        Some(dec_digits_val(d) as u32)
    } else {
        None
    }
}

/// The canonical decimal rendering of a `u32` as ASCII digit bytes.
pub open spec fn u32_dec_digits(v: u32) -> Seq<u8>
    decreases v,
{
    if v < 10 {
        seq![(48 + v) as u8]
    } else {
        u32_dec_digits(v / 10) + seq![(48 + v % 10) as u8]
    }
}

pub proof fn lemma_all_digits_nonneg(b: Seq<u8>)
    requires
        all_digits(b),
    ensures
        dec_digits_val(b) >= 0,
    decreases b.len(),
{
    if b.len() > 0 {
        assert(all_digits(b.drop_last()));
        lemma_all_digits_nonneg(b.drop_last());
    }
}

/// Appending further digits never decreases the value.
pub proof fn lemma_digits_prefix_le(b: Seq<u8>, i: int)
    requires
        all_digits(b),
        0 <= i <= b.len(),
    ensures
        dec_digits_val(b.subrange(0, i)) <= dec_digits_val(b),
    decreases b.len() - i,
{
    if i < b.len() {
        lemma_digits_prefix_le(b, i + 1);
        let p = b.subrange(0, i);
        let q = b.subrange(0, i + 1);
        assert(q.drop_last() =~= p);
        assert(all_digits(p));
        lemma_all_digits_nonneg(p);
        assert(dec_digits_val(q) == dec_digits_val(p) * 10 + (q.last() - 48));
        assert(dec_digits_val(p) <= dec_digits_val(p) * 10);
    } else {
        assert(b.subrange(0, i) =~= b);
    }
}

/// The canonical rendering consists of digits and parses back to the value.
pub proof fn lemma_dec_digits_of_u32(v: u32)
    ensures
        u32_dec_digits(v).len() >= 1,
        all_digits(u32_dec_digits(v)),
        dec_digits_val(u32_dec_digits(v)) == v,
    decreases v,
{
    if v < 10 {
        let d = u32_dec_digits(v);
        assert(d.drop_last() =~= Seq::<u8>::empty());
        assert(d.last() == (48 + v) as u8);
        assert(dec_digits_val(d) == dec_digits_val(Seq::<u8>::empty()) * 10 + ((48 + v) as u8
            - 48));
    } else {
        lemma_dec_digits_of_u32(v / 10);
        let d = u32_dec_digits(v);
        assert(d.drop_last() =~= u32_dec_digits(v / 10));
        assert(d.last() == (48 + v % 10) as u8);
        assert(v == (v / 10) * 10 + v % 10) by (nonlinear_arith);
        assert(dec_digits_val(d) == dec_digits_val(u32_dec_digits(v / 10)) * 10 + ((48 + v
            % 10) as u8 - 48));
    }
}

/// Parsing the canonical rendering gives back the value.
pub proof fn lemma_parse_of_dec(v: u32)
    ensures
        spec_parse_u32(u32_dec_digits(v)) == Some(v),
{
    lemma_dec_digits_of_u32(v);
    let b = u32_dec_digits(v);
    assert(48 <= b[0] <= 57);
}

/// Powers of ten, for bounding the length of a rendering.
pub open spec fn pow10(k: nat) -> int
    decreases k,
{
    if k == 0 {
        1
    } else {
        10 * pow10((k - 1) as nat)
    }
}

proof fn lemma_dec_digits_len_aux(v: u32, k: nat)
    requires
        k >= 1,
        (v as int) < pow10(k),
    ensures
        u32_dec_digits(v).len() <= k,
    decreases v,
{
    if v >= 10 {
        assert(pow10(k) == 10 * pow10((k - 1) as nat));
        assert((v as int) / 10 < pow10((k - 1) as nat)) by (nonlinear_arith)
            requires
                (v as int) < 10 * pow10((k - 1) as nat),
                v >= 10,
        ;
        lemma_dec_digits_len_aux(v / 10, (k - 1) as nat);
    }
}

/// A `u32` renders to at most ten digits.
pub proof fn lemma_dec_digits_len(v: u32)
    ensures
        u32_dec_digits(v).len() <= 10,
{
    assert(pow10(0) == 1);
    assert(pow10(1) == 10);
    assert(pow10(2) == 100);
    assert(pow10(3) == 1000);
    assert(pow10(4) == 10000);
    assert(pow10(5) == 100000);
    assert(pow10(6) == 1000000);
    assert(pow10(7) == 10000000);
    assert(pow10(8) == 100000000);
    assert(pow10(9) == 1000000000);
    assert(pow10(10) == 10000000000);
    lemma_dec_digits_len_aux(v, 10);
}

/// ASCII bytes are valid UTF-8, and decode to themselves character by
/// character.
pub proof fn lemma_ascii_valid_utf8(s: Seq<u8>)
    requires
        forall|i: int| 0 <= i < s.len() ==> #[trigger] s[i] < 0x80,
    ensures
        vstd::utf8::valid_utf8(s),
        vstd::utf8::decode_utf8(s).len() == s.len(),
    decreases s.len(),
{
    if s.len() > 0 {
        assert(vstd::utf8::is_leading_byte_width_1(s[0]));
        let b0 = s[0];
        assert(((b0 & 0x7f) as u32) < 0x80) by (bit_vector)
            requires
                b0 < 0x80,
        ;
        assert(vstd::utf8::codepoint_width_1(b0) < 0x80);
        assert(vstd::utf8::valid_first_scalar(s));
        assert(vstd::utf8::length_of_first_scalar(s) == 1);
        let rest = vstd::utf8::pop_first_scalar(s);
        assert(rest =~= s.subrange(1, s.len() as int));
        assert(forall|i: int| 0 <= i < rest.len() ==> #[trigger] rest[i] < 0x80);
        lemma_ascii_valid_utf8(rest);
        assert(vstd::utf8::valid_utf8(s));
    }
}

/// Parses a decimal `u32` from ASCII bytes, as `u32::from_str` would.
pub fn parse_u32_dec(b: &Vec<u8>) -> (r: Option<u32>)
    ensures
        r == spec_parse_u32(b@),
{
    let n = b.len();
    let mut start: usize = 0;
    if n > 0 && b[0] == 43 {
        start = 1;
    }
    let ghost d = if b@.len() > 0 && b@[0] == 43 {
        b@.drop_first()
    } else {
        b@
    };
    proof {
        assert(d =~= b@.subrange(start as int, n as int));
    }
    if start == n {
        return None;
    }
    let mut i: usize = start;
    let mut val: u64 = 0;
    while i < n
        invariant
            d == b@.subrange(start as int, n as int),
            d == (if b@.len() > 0 && b@[0] == 43 {
                b@.drop_first()
            } else {
                b@
            }),
            start <= i <= n,
            n == b@.len(),
            val == dec_digits_val(b@.subrange(start as int, i as int)),
            val <= u32::MAX,
            all_digits(b@.subrange(start as int, i as int)),
        decreases n - i,
    {
        let c = b[i];
        if c < 48 || c > 57 {
            proof {
                assert(d[i - start] == c);
                assert(!all_digits(d));
            }
            return None;
        }
        val = val * 10 + ((c - 48) as u64);
        proof {
            let p = b@.subrange(start as int, i as int);
            let q = b@.subrange(start as int, i + 1);
            assert(q.drop_last() =~= p);
            assert(q.last() == c);
        }
        if val > 0xffff_ffffu64 {
            proof {
                if all_digits(d) {
                    lemma_digits_prefix_le(d, i + 1 - start);
                    assert(d.subrange(0, i + 1 - start) =~= b@.subrange(start as int, i + 1));
                }
            }
            return None;
        }
        i = i + 1;
    }
    proof {
        assert(b@.subrange(start as int, i as int) =~= d);
    }
    Some(val as u32)
}

/// Renders a `u32` as canonical decimal ASCII bytes.
pub fn u32_to_dec(v: u32) -> (r: Vec<u8>)
    ensures
        r@ == u32_dec_digits(v),
{
    let mut tmp: Vec<u8> = Vec::new();
    let mut x = v;
    tmp.push(48 + (x % 10) as u8);
    x = x / 10;
    proof {
        assert(u32_dec_digits(v) =~= (if x > 0 {
            u32_dec_digits(x)
        } else {
            Seq::<u8>::empty()
        }) + tmp@.reverse());
    }
    while x > 0
        invariant
            u32_dec_digits(v) =~= (if x > 0 {
                u32_dec_digits(x)
            } else {
                Seq::<u8>::empty()
            }) + tmp@.reverse(),
            tmp@.len() >= 1,
        decreases x,
    {
        let ghost x0 = x;
        let ghost tmp0 = tmp@;
        tmp.push(48 + (x % 10) as u8);
        x = x / 10;
        proof {
            assert(tmp@.reverse() =~= seq![(48 + x0 % 10) as u8] + tmp0.reverse());
            if x > 0 {
                assert(u32_dec_digits(x0) =~= u32_dec_digits(x) + seq![(48 + x0 % 10) as u8]);
                assert(u32_dec_digits(v) =~= u32_dec_digits(x) + tmp@.reverse());
            } else {
                assert(u32_dec_digits(x0) =~= seq![(48 + x0 % 10) as u8]);
                assert(u32_dec_digits(v) =~= tmp@.reverse());
            }
        }
    }
    let n = tmp.len();
    let mut r: Vec<u8> = Vec::new();
    let mut i: usize = 0;
    while i < n
        invariant
            n == tmp@.len(),
            i <= n,
            r@ =~= tmp@.reverse().subrange(0, i as int),
        decreases n - i,
    {
        r.push(tmp[n - 1 - i]);
        proof {
            assert(tmp@.reverse()[i as int] == tmp@[n - 1 - i]);
            assert(r@ =~= tmp@.reverse().subrange(0, i + 1));
        }
        i = i + 1;
    }
    proof {
        assert(r@ =~= tmp@.reverse());
    }
    r
}

} // verus!

//! The variable-length integer of the wire protocol: seven data bits per byte,
//! low-order group first, the high bit set on every byte but the last.

use vstd::prelude::*;

verus! {

/// The longest encoding the protocol admits: 5 bytes carry a 32-bit value.
pub const MAX_VARINT_LEN: usize = 5;

/// Outcome of decoding a VarInt from the head of a buffer.
#[derive(Debug, Clone, Copy, PartialEq, Eq, Structural)]
pub enum VarIntDecode {
    /// A terminated encoding: its value and the number of bytes it took.
    Complete { value: u64, len: usize },
    /// The buffer ended before a terminating byte: more bytes are needed.
    Incomplete,
    /// Five bytes, all with the continuation bit set.
    Invalid,
}

/// 128 to the power `n`.
pub open spec fn pow128(n: nat) -> nat
    decreases n,
{
    if n == 0 {
        1
    } else {
        128 * pow128((n - 1) as nat)
    }
}

/// The encoding of `v`: low-order 7-bit group first, continuation bit on all
/// but the last byte.
pub open spec fn varint_bytes(v: nat) -> Seq<u8>
    decreases v,
{
    if v < 128 {
        seq![v as u8]
    } else {
        seq![(v % 128 + 128) as u8] + varint_bytes(v / 128)
    }
}

/// Decoding of the head of `s` with at most `budget` bytes allowed.
pub open spec fn decode_within(s: Seq<u8>, budget: nat) -> VarIntDecode
    decreases budget,
{
    if budget == 0 {
        VarIntDecode::Invalid
    } else if s.len() == 0 {
        VarIntDecode::Incomplete
    } else if s[0] < 128 {
        VarIntDecode::Complete { value: s[0] as u64, len: 1 }
    } else {
        match decode_within(s.drop_first(), (budget - 1) as nat) {
            VarIntDecode::Complete { value, len } => VarIntDecode::Complete {
                value: ((s[0] - 128) + 128 * value) as u64,
                len: (len + 1) as usize,
            },
            other => other,
        }
    }
}

/// What decoding the head of `s` yields.
pub open spec fn varint_decode(s: Seq<u8>) -> VarIntDecode {
    decode_within(s, MAX_VARINT_LEN as nat)
}

proof fn lemma_byte_groups(b: u8)
    ensures
        (b & 0x80 == 0) <==> b < 128,
        b >= 128 ==> (b & 0x7F) == b - 128,
{
    assert((b & 0x80 == 0) <==> b < 128) by (bit_vector);
    assert(b >= 128 ==> (b & 0x7F) == b - 128) by (bit_vector);
}

proof fn lemma_u32_groups(v: u32)
    ensures
        v >= 128 ==> ((v & 0x7F) | 0x80) == v % 128 + 128,
        (v >> 7) == v / 128,
{
    assert(v >= 128 ==> ((v & 0x7F) | 0x80) == v % 128 + 128) by (bit_vector);
    assert((v >> 7) == v / 128) by (bit_vector);
}

/// A completed decoding within `budget <= 5` bytes takes between 1 and
/// `budget` bytes and its value stays under `128^len`.
pub(crate) proof fn lemma_decode_bounds(s: Seq<u8>, budget: nat)
    requires
        budget <= MAX_VARINT_LEN,
    ensures
        decode_within(s, budget) matches VarIntDecode::Complete { value, len } ==> {
            &&& 1 <= len <= budget
            &&& len <= s.len()
            &&& (value as nat) < pow128(len as nat)
        },
    decreases budget,
{
    lemma_pow128_small();
    if budget > 0 && s.len() > 0 && s[0] >= 128 {
        lemma_decode_bounds(s.drop_first(), (budget - 1) as nat);
        if let VarIntDecode::Complete { value, len } = decode_within(s.drop_first(), (budget - 1) as nat) {
            lemma_pow128_monotone(len as nat, 4);
            assert(((s[0] - 128) + 128 * value) < 128 * pow128(len as nat)) by (nonlinear_arith)
                requires
                    s[0] - 128 < 128,
                    value < pow128(len as nat),
            ;
            lemma_pow128_monotone((len + 1) as nat, 5);
            assert(pow128((len + 1) as nat) == 128 * pow128(len as nat));
            let full = (s[0] - 128) + 128 * value;
            assert(full < 34359738368);
            assert(full as u64 == full);
        }
    }
}

pub(crate) proof fn lemma_pow128_small()
    ensures
        pow128(1) == 128,
        pow128(4) == 268435456,
        pow128(5) == 34359738368,
{
    reveal_with_fuel(pow128, 6);
}

proof fn lemma_pow128_monotone(a: nat, b: nat)
    requires
        a <= b,
    ensures
        pow128(a) <= pow128(b),
        pow128(a) >= 1,
    decreases b,
{
    if a < b {
        lemma_pow128_monotone(a, (b - 1) as nat);
    } else if a > 0 {
        lemma_pow128_monotone((a - 1) as nat, (a - 1) as nat);
    }
}

/// Decodes the VarInt at `buf[start..]` allowing at most `budget` bytes.
fn decode_from(buf: &[u8], start: usize, budget: usize) -> (r: VarIntDecode)
    requires
        start <= buf@.len(),
        budget <= MAX_VARINT_LEN,
    ensures
        r == decode_within(buf@.subrange(start as int, buf@.len() as int), budget as nat),
    decreases budget,
{
    let ghost s = buf@.subrange(start as int, buf@.len() as int);
    if budget == 0 {
        VarIntDecode::Invalid
    } else if start == buf.len() {
        VarIntDecode::Incomplete
    } else {
        let byte = buf[start];
        proof {
            lemma_byte_groups(byte);
        }
        if byte & 0x80 == 0 {
            VarIntDecode::Complete { value: byte as u64, len: 1 }
        } else {
            let rest = decode_from(buf, start + 1, budget - 1);
            proof {
                assert(s.drop_first() =~= buf@.subrange(start + 1, buf@.len() as int));
                lemma_decode_bounds(s.drop_first(), (budget - 1) as nat);
                lemma_pow128_small();
            }
            match rest {
                VarIntDecode::Complete { value, len } => {
                    proof {
                        lemma_pow128_monotone(len as nat, 4);
                    }
                    VarIntDecode::Complete {
                        value: (byte & 0x7F) as u64 + 128 * value,
                        len: len + 1,
                    }
                },
                other => other,
            }
        }
    }
}

/// Decodes the VarInt at the head of `buf`. Reads at most five bytes and
/// consumes nothing: the caller advances by `len` on `Complete`.
pub fn decode_varint(buf: &[u8]) -> (r: VarIntDecode)
    ensures
        r == varint_decode(buf@),
        r matches VarIntDecode::Complete { value, len } ==> {
            &&& 1 <= len <= MAX_VARINT_LEN
            &&& len <= buf@.len()
            &&& (value as nat) < pow128(len as nat)
        },
{
    proof {
        assert(buf@.subrange(0, buf@.len() as int) =~= buf@);
        lemma_decode_bounds(buf@, MAX_VARINT_LEN as nat);
    }
    decode_from(buf, 0, MAX_VARINT_LEN)
}

/// Appends the encoding of `value` to `out`.
pub fn write_varint(out: &mut Vec<u8>, value: u32)
    ensures
        final(out)@ == old(out)@ + varint_bytes(value as nat),
{
    let ghost start = out@;
    let mut v: u32 = value;
    while v >= 128
        invariant
            out@ + varint_bytes(v as nat) == start + varint_bytes(value as nat),
        decreases v,
    {
        proof {
            lemma_u32_groups(v);
        }
        let ghost before = out@;
        let ghost old_v = v;
        out.push(((v & 0x7F) | 0x80) as u8);
        v = v >> 7;
        proof {
            assert(varint_bytes(old_v as nat) == seq![(old_v % 128 + 128) as u8] + varint_bytes(v as nat));
            assert(out@ + varint_bytes(v as nat) =~= before + varint_bytes(old_v as nat));
        }
    }
    out.push(v as u8);
    proof {
        assert(out@ =~= start + varint_bytes(value as nat));
    }
}

/// The encoding of `value` as a fresh buffer.
pub fn encode_varint(value: u32) -> (r: Vec<u8>)
    ensures
        r@ == varint_bytes(value as nat),
        1 <= r@.len() <= MAX_VARINT_LEN,
{
    let mut out: Vec<u8> = Vec::new();
    write_varint(&mut out, value);
    proof {
        assert(out@ =~= varint_bytes(value as nat));
        lemma_varint_len(value as nat, MAX_VARINT_LEN as nat);
        lemma_pow128_small();
    }
    out
}

/// An encoding has at least one byte, and at most `n >= 1` bytes when the
/// value is under `128^n`.
pub proof fn lemma_varint_len(v: nat, n: nat)
    ensures
        varint_bytes(v).len() >= 1,
        1 <= n && v < pow128(n) ==> varint_bytes(v).len() <= n,
    decreases v,
{
    if v >= 128 {
        lemma_varint_len(v / 128, (n - 1) as nat);
        if 1 <= n && v < pow128(n) {
            if n == 1 {
                lemma_pow128_small();
            }
            let p = pow128((n - 1) as nat);
            assert(v < 128 * p);
            assert(v / 128 < p) by (nonlinear_arith)
                requires
                    v < 128 * p,
            ;
        }
    }
}

proof fn lemma_decode_encoded(v: nat, rest: Seq<u8>, budget: nat)
    requires
        v < pow128(budget),
        v < 0x1_0000_0000,
        1 <= budget <= 5,
    ensures
        decode_within(varint_bytes(v) + rest, budget) == (VarIntDecode::Complete {
            value: v as u64,
            len: varint_bytes(v).len() as usize,
        }),
    decreases v,
{
    let s = varint_bytes(v) + rest;
    lemma_varint_len(v, budget);
    if v >= 128 {
        if budget == 1 {
            assert(pow128(1) == 128 * pow128(0));
        }
        assert(s.drop_first() =~= varint_bytes(v / 128) + rest);
        assert(v / 128 < pow128((budget - 1) as nat));
        lemma_decode_encoded(v / 128, rest, (budget - 1) as nat);
    }
}

/// Decoding the encoding of any 32-bit value, whatever follows it, gives back
/// the value and the encoding's length, which is at most five bytes.
pub proof fn lemma_varint_round_trip(v: u32, rest: Seq<u8>)
    ensures
        varint_decode(varint_bytes(v as nat) + rest) == (VarIntDecode::Complete {
            value: v as u64,
            len: varint_bytes(v as nat).len() as usize,
        }),
        varint_bytes(v as nat).len() <= MAX_VARINT_LEN,
{
    lemma_pow128_small();
    lemma_varint_len(v as nat, 5);
    lemma_decode_encoded(v as nat, rest, 5);
}

/// An empty buffer is incomplete, and five bytes that all carry the
/// continuation bit are invalid whatever follows them.
pub proof fn lemma_varint_incomplete_and_invalid(s: Seq<u8>)
    ensures
        varint_decode(Seq::<u8>::empty()) == VarIntDecode::Incomplete,
        (s.len() >= 5 && forall|i: int| 0 <= i < 5 ==> s[i] >= 128) ==> varint_decode(s)
            == VarIntDecode::Invalid,
{
    if s.len() >= 5 && forall|i: int| 0 <= i < 5 ==> s[i] >= 128 {
        let s1 = s.drop_first();
        let s2 = s1.drop_first();
        let s3 = s2.drop_first();
        let s4 = s3.drop_first();
        assert(s1[0] == s[1] && s2[0] == s[2] && s3[0] == s[3] && s4[0] == s[4]);
        assert(decode_within(s4.drop_first(), 0) == VarIntDecode::Invalid);
        assert(decode_within(s4, 1) == VarIntDecode::Invalid);
        assert(decode_within(s3, 2) == VarIntDecode::Invalid);
        assert(decode_within(s2, 3) == VarIntDecode::Invalid);
        assert(decode_within(s1, 4) == VarIntDecode::Invalid);
    }
}

/// A proper prefix of the encoding of a value under `128^budget` is
/// incomplete.
pub proof fn lemma_varint_prefix_incomplete(v: nat, k: nat, budget: nat)
    requires
        v < pow128(budget),
        1 <= budget <= MAX_VARINT_LEN,
        k < varint_bytes(v).len(),
    ensures
        decode_within(varint_bytes(v).take(k as int), budget) == VarIntDecode::Incomplete,
    decreases v,
{
    let s = varint_bytes(v).take(k as int);
    if k > 0 {
        assert(v >= 128);
        if budget == 1 {
            lemma_pow128_small();
        }
        let p = pow128((budget - 1) as nat);
        assert(v < 128 * p);
        assert(v / 128 < p) by (nonlinear_arith)
            requires
                v < 128 * p,
        ;
        assert(s.drop_first() =~= varint_bytes(v / 128).take(k - 1));
        lemma_varint_prefix_incomplete(v / 128, (k - 1) as nat, (budget - 1) as nat);
    }
}

} // verus!

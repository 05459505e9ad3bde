//! Variable-length integer encoding (LEB128, unsigned and signed) and
//! length-prefixed strings, the low-level primitives of the binary format.
use vstd::arithmetic::div_mod::{
    lemma_div_decreases, lemma_fundamental_div_mod, lemma_fundamental_div_mod_converse,
};
use vstd::prelude::*;
use vstd::utf8::encode_utf8;

verus! {

/// The unsigned LEB128 encoding of `n`: base-128 little-endian digits,
/// the high bit of every byte but the last set.
pub open spec fn uleb(n: nat) -> Seq<u8>
    decreases n,
{
    if n < 128 {
        seq![n as u8]
    } else {
        seq![(n % 128 + 128) as u8] + uleb((n / 128) as nat)
    }
}

/// The signed LEB128 encoding of `n`: base-128 little-endian digits of the
/// two's-complement value, the high bit of every byte but the last set, the
/// last byte's bit 6 acting as the sign bit.
pub open spec fn sleb(n: int) -> Seq<u8>
    decreases (if n < 0 { -n } else { n }),
{
    if -64 <= n < 64 {
        seq![(n % 128) as u8]
    } else {
        seq![(n % 128 + 128) as u8] + sleb(n / 128)
    }
}

/// A length-prefixed string: the unsigned LEB128 byte length of the UTF-8
/// encoding, then the UTF-8 bytes themselves.
pub open spec fn string_bytes(s: Seq<char>) -> Seq<u8> {
    uleb(encode_utf8(s).len()) + encode_utf8(s)
}

/// Appends the unsigned LEB128 encoding of `n` to `buf`.
pub fn encode_leb128(buf: &mut Vec<u8>, n: u64)
    ensures
        final(buf)@ == old(buf)@ + uleb(n as nat),
{
    let mut x: u64 = n;
    while x >= 128
        invariant
            buf@ + uleb(x as nat) == old(buf)@ + uleb(n as nat),
        decreases x,
    {
        let low: u64 = x % 128;
        buf.push((low + 128) as u8);
        proof {
            lemma_div_decreases(x as int, 128);
        }
        x = x / 128;
        proof {
            assert(buf@ + uleb(x as nat) == old(buf)@ + uleb(n as nat));
        }
    }
    buf.push(x as u8);
}

/// Appends the signed LEB128 encoding of `n` to `buf`.
pub fn encode_s_leb128(buf: &mut Vec<u8>, n: i64)
    ensures
        final(buf)@ == old(buf)@ + sleb(n as int),
{
    let mut x: i64 = n;
    while x < -64 || x >= 64
        invariant
            buf@ + sleb(x as int) == old(buf)@ + sleb(n as int),
        decreases (if x < 0 { -(x as int) } else { x as int }),
    {
        let ghost x0 = x as int;
        let (low, next) = if x >= 0 {
            (x % 128, x / 128)
        } else {
            let y: i64 = -1 - x;
            let r: i64 = y % 128;
            let q: i64 = y / 128;
            proof {
                lemma_fundamental_div_mod(y as int, 128);
                assert(x0 == 128 * (-1 - q) + (127 - r));
                lemma_fundamental_div_mod_converse(x0, 128, -1 - (q as int), 127 - (r as int));
            }
            (127 - r, -1 - q)
        };
        proof {
            if x >= 64 {
                lemma_div_decreases(x0, 128);
            } else {
                assert(x0 <= -65);
                assert(next as int == x0 / 128);
                assert(x0 == 128 * (x0 / 128) + (x0 % 128));
                assert(-(next as int) < -x0);
            }
            assert(sleb(x0) == seq![(low + 128) as u8] + sleb(next as int));
        }
        buf.push((low + 128) as u8);
        x = next;
    }
    let low: i64 = if x >= 0 {
        x
    } else {
        x + 128
    };
    proof {
        if x < 0 {
            lemma_fundamental_div_mod_converse(x as int, 128, -1, (x + 128) as int);
        }
        assert(sleb(x as int) == seq![low as u8]);
    }
    buf.push(low as u8);
}

/// Appends the length-prefixed UTF-8 bytes of `name` to `buf`.
pub fn encode_string(buf: &mut Vec<u8>, name: &str)
    ensures
        final(buf)@ == old(buf)@ + string_bytes(name@),
{
    let bytes: &[u8] = name.as_bytes();
    encode_leb128(buf, bytes.len() as u64);
    buf.extend_from_slice(bytes);
}

/// Decodes an unsigned LEB128 byte sequence back to the value it stands for;
/// `None` where the bytes are not one complete encoding.
pub open spec fn uleb_decode(s: Seq<u8>) -> Option<nat>
    decreases s.len(),
{
    if s.len() == 0 {
        None
    } else if s[0] < 128 {
        if s.len() == 1 {
            Some(s[0] as nat)
        } else {
            None
        }
    } else {
        match uleb_decode(s.drop_first()) {
            Some(v) => Some(((s[0] - 128) + 128 * v) as nat),
            None => None,
        }
    }
}

/// Round trip: decoding the unsigned LEB128 encoding of any value recovers
/// that value.
pub proof fn lemma_uleb_round_trip(n: nat)
    ensures
        uleb_decode(uleb(n)) == Some(n),
    decreases n,
{
    if n < 128 {
        assert(uleb(n) == seq![n as u8]);
    } else {
        lemma_uleb_round_trip((n / 128) as nat);
        assert(uleb(n).drop_first() =~= uleb((n / 128) as nat));
        lemma_fundamental_div_mod(n as int, 128);
    }
}

} // verus!

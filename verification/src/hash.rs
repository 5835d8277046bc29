//! Content hashing for fingerprints.
//!
//! Fingerprints are 128-bit SipHash-1-3 digests with the fixed keys `(0, 0)`,
//! rendered as lowercase hex. The digest itself comes from the `siphasher`
//! crate; everything around it — framing the input bytes and rendering hex —
//! is verified here.

use vstd::bytes::*;
use vstd::prelude::*;

use siphasher::sip128::Hasher128;
use siphasher::sip128::SipHasher13;

verus! {

/// The two 64-bit halves of the 128-bit SipHash-1-3 digest, keys `(0, 0)`,
/// of the given bytes: a pure function of the input alone.
pub uninterp spec fn sip128_of(data: Seq<u8>) -> (u64, u64);

/// Relies on `siphasher::sip128::SipHasher13`: with the keys fixed to
/// `(0, 0)`, `hash` returns a 128-bit digest determined by the input bytes.
#[verifier::external_body]
pub(crate) fn sip13_hash128(data: &[u8]) -> (r: (u64, u64))
    ensures
        r == sip128_of(data@),
{
    let h = SipHasher13::new_with_keys(0, 0).hash(data);
    (h.h1, h.h2)
}

/// The lowercase hex character for a value below 16.
pub open spec fn spec_hex_digit(d: u64) -> char {
    if d == 0 {
        '0'
    } else if d == 1 {
        '1'
    } else if d == 2 {
        '2'
    } else if d == 3 {
        '3'
    } else if d == 4 {
        '4'
    } else if d == 5 {
        '5'
    } else if d == 6 {
        '6'
    } else if d == 7 {
        '7'
    } else if d == 8 {
        '8'
    } else if d == 9 {
        '9'
    } else if d == 10 {
        'a'
    } else if d == 11 {
        'b'
    } else if d == 12 {
        'c'
    } else if d == 13 {
        'd'
    } else if d == 14 {
        'e'
    } else {
        'f'
    }
}

/// The `i`-th hex digit of `x`, most significant first.
pub open spec fn spec_nibble(x: u64, i: int) -> u64
    recommends
        0 <= i < 16,
{
    (x >> (((15 - i) * 4) as u64)) & 0xf
}

/// The 16-character lowercase hex rendering of a 64-bit value.
pub open spec fn spec_hex16(x: u64) -> Seq<char> {
    Seq::new(16, |i: int| spec_hex_digit(spec_nibble(x, i)))
}

/// The 32-character lowercase hex rendering of a 128-bit digest.
pub open spec fn spec_hex32(h: (u64, u64)) -> Seq<char> {
    spec_hex16(h.0) + spec_hex16(h.1)
}

fn hex_digit_str(d: u64) -> (r: &'static str)
    requires
        d < 16,
    ensures
        r@ == seq![spec_hex_digit(d)],
{
    proof {
        reveal_strlit("0");
        reveal_strlit("1");
        reveal_strlit("2");
        reveal_strlit("3");
        reveal_strlit("4");
        reveal_strlit("5");
        reveal_strlit("6");
        reveal_strlit("7");
        reveal_strlit("8");
        reveal_strlit("9");
        reveal_strlit("a");
        reveal_strlit("b");
        reveal_strlit("c");
        reveal_strlit("d");
        reveal_strlit("e");
        reveal_strlit("f");
    }
    let r: &'static str = if d == 0 {
        "0"
    } else if d == 1 {
        "1"
    } else if d == 2 {
        "2"
    } else if d == 3 {
        "3"
    } else if d == 4 {
        "4"
    } else if d == 5 {
        "5"
    } else if d == 6 {
        "6"
    } else if d == 7 {
        "7"
    } else if d == 8 {
        "8"
    } else if d == 9 {
        "9"
    } else if d == 10 {
        "a"
    } else if d == 11 {
        "b"
    } else if d == 12 {
        "c"
    } else if d == 13 {
        "d"
    } else if d == 14 {
        "e"
    } else {
        "f"
    };
    proof {
        assert(r@ =~= seq![spec_hex_digit(d)]);
    }
    r
}

/// Renders a 64-bit value as 16 lowercase hex characters.
pub fn to_hex(x: u64) -> (r: String)
    ensures
        r@ == spec_hex16(x),
{
    let mut s = String::new();
    let mut i: usize = 0;
    while i < 16
        invariant
            0 <= i <= 16,
            s@ =~= spec_hex16(x).subrange(0, i as int),
        decreases 16 - i,
    {
        let sh: u64 = ((15 - i) as u64) * 4;
        let d: u64 = (x >> sh) & 0xf;
        proof {
            assert((x >> sh) & 0xf < 16) by (bit_vector);
            assert(sh == ((15 - i as int) * 4) as u64);
        }
        s.append(hex_digit_str(d));
        proof {
            assert(s@ =~= spec_hex16(x).subrange(0, i + 1));
        }
        i += 1;
    }
    proof {
        assert(spec_hex16(x).subrange(0, 16) =~= spec_hex16(x));
    }
    s
}

/// Renders a 128-bit digest as 32 lowercase hex characters.
pub fn hash_hex(h: (u64, u64)) -> (r: String)
    ensures
        r@ == spec_hex32(h),
{
    let mut s = to_hex(h.0);
    let lo = to_hex(h.1);
    s.append(lo.as_str());
    s
}

/// A field of a hash input: its length, little-endian, then its bytes.
/// The prefix makes the framing injective.
pub open spec fn len_prefixed(v: Seq<u8>) -> Seq<u8> {
    spec_u64_to_le_bytes(v.len() as u64) + v
}

/// Appends the length-prefixed `field` to `out`.
pub fn append_frame(out: &mut Vec<u8>, field: &[u8])
    ensures
        final(out)@ == old(out)@ + len_prefixed(field@),
{
    let mut lenb = u64_to_le_bytes(field.len() as u64);
    out.append(&mut lenb);
    out.extend_from_slice(field);
    proof {
        assert(out@ =~= old(out)@ + len_prefixed(field@));
    }
}

/// Appends a single tag byte to `out`; used for booleans and separators.
pub fn append_byte(out: &mut Vec<u8>, b: u8)
    ensures
        final(out)@ == old(out)@ + seq![b],
{
    out.push(b);
    proof {
        assert(out@ =~= old(out)@ + seq![b]);
    }
}

/// Two length-prefixed fields agree only when the fields and the tails agree:
/// the framing is injective.
pub proof fn lemma_frame_injective(a: Seq<u8>, ta: Seq<u8>, b: Seq<u8>, tb: Seq<u8>)
    requires
        a.len() < 0x1_0000_0000_0000_0000,
        b.len() < 0x1_0000_0000_0000_0000,
        len_prefixed(a) + ta == len_prefixed(b) + tb,
    ensures
        a == b,
        ta == tb,
{
    lemma_auto_spec_u64_to_from_le_bytes();
    let la = spec_u64_to_le_bytes(a.len() as u64);
    let lb = spec_u64_to_le_bytes(b.len() as u64);
    let wa = len_prefixed(a) + ta;
    let wb = len_prefixed(b) + tb;
    assert(la =~= wa.subrange(0, 8));
    assert(lb =~= wb.subrange(0, 8));
    assert(spec_u64_from_le_bytes(la) == a.len() as u64);
    assert(spec_u64_from_le_bytes(lb) == b.len() as u64);
    assert(a.len() == b.len());
    assert(a =~= wa.subrange(8, 8 + a.len() as int));
    assert(b =~= wb.subrange(8, 8 + b.len() as int));
    assert(ta =~= wa.subrange(8 + a.len() as int, wa.len() as int));
    assert(tb =~= wb.subrange(8 + b.len() as int, wb.len() as int));
}

} // verus!

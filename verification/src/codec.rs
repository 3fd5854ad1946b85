//! Verified byte-level helpers: lowercase hex encoding and decoding with a
//! proved round trip, and small vector utilities used by the wire framings.

use vstd::prelude::*;

verus! {

/// The lowercase hex digit for a value below 16.
pub open spec fn hex_digit(n: u8) -> u8 {
    if n < 10 {
        (48 + n) as u8
    } else {
        (87 + n) as u8
    }
}

/// Holds for the byte codes of `0`..`9` and `a`..`f`.
pub open spec fn is_hex_digit(c: u8) -> bool {
    (48 <= c && c <= 57) || (97 <= c && c <= 102)
}

/// The value of a hex digit byte.
pub open spec fn hex_val(c: u8) -> u8 {
    if c <= 57 {
        (c - 48) as u8
    } else {
        (c - 87) as u8
    }
}

/// The lowercase hex encoding of a byte string: two digits per byte.
pub open spec fn spec_hex(b: Seq<u8>) -> Seq<u8> {
    Seq::new(
        b.len() * 2,
        |i: int|
            if i % 2 == 0 {
                hex_digit(b[i / 2] / 16)
            } else {
                hex_digit(b[i / 2] % 16)
            },
    )
}

/// Holds exactly when `s` is a well-formed hex encoding.
pub open spec fn valid_hex(s: Seq<u8>) -> bool {
    s.len() % 2 == 0 && (forall|i: int| 0 <= i < s.len() ==> is_hex_digit(#[trigger] s[i]))
}

/// The byte string a hex encoding stands for.
pub open spec fn spec_unhex(s: Seq<u8>) -> Seq<u8> {
    Seq::new(s.len() / 2, |i: int| (hex_val(s[2 * i]) * 16 + hex_val(s[2 * i + 1])) as u8)
}

/// Hex encoding followed by decoding gives back the input.
pub proof fn lemma_hex_round_trip(b: Seq<u8>)
    ensures
        valid_hex(spec_hex(b)),
        spec_unhex(spec_hex(b)) == b,
{
    let h = spec_hex(b);
    assert forall|i: int| 0 <= i < h.len() implies is_hex_digit(#[trigger] h[i]) by {
        if i % 2 == 0 {
            assert(h[i] == hex_digit(b[i / 2] / 16));
        } else {
            assert(h[i] == hex_digit(b[i / 2] % 16));
        }
    }
    assert forall|i: int| 0 <= i < b.len() implies spec_unhex(h)[i] == b[i] by {
        assert(h[2 * i] == hex_digit(b[i] / 16));
        assert(h[2 * i + 1] == hex_digit(b[i] % 16));
        assert(hex_val(hex_digit(b[i] / 16)) == b[i] / 16);
        assert(hex_val(hex_digit(b[i] % 16)) == b[i] % 16);
    }
    assert(spec_unhex(h) =~= b);
}

/// Encode bytes as lowercase hex.
pub fn hex_encode(b: &Vec<u8>) -> (r: Vec<u8>)
    ensures
        r@ == spec_hex(b@),
{
    let mut out: Vec<u8> = Vec::new();
    let mut i: usize = 0;
    while i < b.len()
        invariant
            i <= b@.len(),
            out@.len() == 2 * i,
            forall|j: int| 0 <= j < 2 * i ==> out@[j] == #[trigger] spec_hex(b@)[j],
        decreases b@.len() - i,
    {
        let hi = b[i] / 16;
        let lo = b[i] % 16;
        let hic: u8 = if hi < 10 {
            48 + hi
        } else {
            87 + hi
        };
        let loc: u8 = if lo < 10 {
            48 + lo
        } else {
            87 + lo
        };
        out.push(hic);
        out.push(loc);
        proof {
            assert(spec_hex(b@)[2 * i as int] == hex_digit(b@[i as int] / 16));
            assert(spec_hex(b@)[2 * i as int + 1] == hex_digit(b@[i as int] % 16));
        }
        i = i + 1;
    }
    proof {
        assert(out@ =~= spec_hex(b@));
    }
    out
}

/// Decode lowercase hex; `None` exactly on malformed input.
pub fn hex_decode(s: &Vec<u8>) -> (r: Option<Vec<u8>>)
    ensures
        r is Some <==> valid_hex(s@),
        r matches Some(v) ==> v@ == spec_unhex(s@),
{
    if s.len() % 2 != 0 {
        return None;
    }
    let mut out: Vec<u8> = Vec::new();
    let mut i: usize = 0;
    while i < s.len()
        invariant
            i <= s@.len(),
            i % 2 == 0,
            s@.len() % 2 == 0,
            out@.len() == i / 2,
            forall|j: int| 0 <= j < i ==> is_hex_digit(#[trigger] s@[j]),
            forall|j: int| 0 <= j < i / 2 ==> out@[j] == #[trigger] spec_unhex(s@)[j],
        decreases s@.len() - i,
    {
        let c0 = s[i];
        let c1 = s[i + 1];
        let v0: u8 = if 48 <= c0 && c0 <= 57 {
            c0 - 48
        } else if 97 <= c0 && c0 <= 102 {
            c0 - 87
        } else {
            return None;
        };
        let v1: u8 = if 48 <= c1 && c1 <= 57 {
            c1 - 48
        } else if 97 <= c1 && c1 <= 102 {
            c1 - 87
        } else {
            return None;
        };
        out.push(v0 * 16 + v1);
        proof {
            assert(spec_unhex(s@)[i as int / 2] == (hex_val(s@[2 * (i as int / 2)]) * 16 + hex_val(
                s@[2 * (i as int / 2) + 1],
            )) as u8);
            assert(2 * (i as int / 2) == i as int);
        }
        i = i + 2;
    }
    proof {
        assert(out@ =~= spec_unhex(s@));
    }
    Some(out)
}

/// The bytes of `v` from `start` (inclusive) to `end` (exclusive).
pub fn take_range(v: &Vec<u8>, start: usize, end: usize) -> (r: Vec<u8>)
    requires
        start <= end <= v@.len(),
    ensures
        r@ == v@.subrange(start as int, end as int),
{
    let mut out: Vec<u8> = Vec::new();
    let mut i: usize = start;
    while i < end
        invariant
            start <= i <= end <= v@.len(),
            out@ =~= v@.subrange(start as int, i as int),
        decreases end - i,
    {
        out.push(v[i]);
        proof {
            assert(out@ =~= v@.subrange(start as int, i as int + 1));
        }
        i = i + 1;
    }
    out
}

/// Append all bytes of `src` to `dst`.
pub fn append_bytes(dst: &mut Vec<u8>, src: &Vec<u8>)
    ensures
        final(dst)@ == old(dst)@ + src@,
{
    let mut i: usize = 0;
    while i < src.len()
        invariant
            i <= src@.len(),
            dst@ =~= old(dst)@ + src@.take(i as int),
        decreases src@.len() - i,
    {
        dst.push(src[i]);
        proof {
            assert(dst@ =~= old(dst)@ + src@.take(i as int + 1));
        }
        i = i + 1;
    }
    proof {
        assert(dst@ =~= old(dst)@ + src@);
    }
}

} // verus!

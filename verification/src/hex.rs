use vstd::prelude::*;
use vstd::string::StringSliceAdditionalSpecFns;

verus! {

/// Value of one hexadecimal digit (either case), as `u8::from_str_radix`
/// with radix 16 reads it.
pub open spec fn hex_digit_value(c: u8) -> Option<u8> {
    if 48 <= c <= 57 {
        Some((c - 48) as u8)
    } else if 97 <= c <= 102 {
        Some((c - 87) as u8)
    } else if 65 <= c <= 70 {
        Some((c - 55) as u8)
    } else {
        None
    }
}

/// The byte that a two-byte string `hi lo` denotes in radix 16: two digits,
/// or a `+` sign followed by one digit (the sign is accepted by
/// `u8::from_str_radix`).
pub open spec fn hex_pair_value(hi: u8, lo: u8) -> Option<u8> {
    if hi == 43 {
        hex_digit_value(lo)
    } else {
        match (hex_digit_value(hi), hex_digit_value(lo)) {
            (Some(a), Some(b)) => Some((16 * a + b) as u8),
            _ => None,
        }
    }
}

/// The first `k` pairs of `b` all denote a byte.
pub open spec fn hex_pairs_ok(b: Seq<u8>, k: int) -> bool {
    forall|j: int| 0 <= j < k ==> (#[trigger] hex_pair_value(b[2 * j], b[2 * j + 1])) is Some
}

/// Decoding of a hex byte string: `None` for an odd length or a pair that
/// denotes no byte, otherwise one byte per pair.
pub open spec fn hex_decode(b: Seq<u8>) -> Option<Seq<u8>> {
    if b.len() % 2 != 0 {
        None
    } else if hex_pairs_ok(b, b.len() as int / 2) {
        Some(Seq::new(b.len() / 2, |k: int| hex_pair_value(b[2 * k], b[2 * k + 1]).unwrap()))
    } else {
        None
    }
}

/// The decoder reads the text two bytes at a time as string slices, so it
/// stops (panics) where such a slice would end inside a multi-byte
/// character; every slice reached ends on a character boundary.
pub open spec fn hex_slices_on_boundaries(b: Seq<u8>) -> bool {
    b.len() % 2 == 0 ==> forall|k: int|
        0 <= k && 2 * k + 2 <= b.len() && #[trigger] hex_pairs_ok(b, k)
            ==> vstd::utf8::is_char_boundary(b, 2 * k + 2)
}

/// Lower-case hex digit for a value below 16.
pub open spec fn hex_char(v: int) -> u8 {
    if v < 10 {
        (48 + v) as u8
    } else {
        (87 + v) as u8
    }
}

/// Lower-case hex encoding, two digits per byte (`{:02x}`).
pub open spec fn hex_encode(v: Seq<u8>) -> Seq<u8> {
    Seq::new(2 * v.len(), |i: int| if i % 2 == 0 { hex_char(v[i / 2] as int / 16) } else { hex_char(v[i / 2] as int % 16) })
}

/// Upper-case hex digit for a value below 16.
pub open spec fn hex_char_upper(v: int) -> u8 {
    if v < 10 {
        (48 + v) as u8
    } else {
        (55 + v) as u8
    }
}

/// Upper-case hex encoding, two digits per byte (`{:02X}`).
pub open spec fn hex_encode_upper(v: Seq<u8>) -> Seq<u8> {
    Seq::new(
        2 * v.len(),
        |i: int| if i % 2 == 0 { hex_char_upper(v[i / 2] as int / 16) } else { hex_char_upper(v[i / 2] as int % 16) },
    )
}

fn digit_value(c: u8) -> (r: Option<u8>)
    ensures
        r == hex_digit_value(c),
{
    if 48 <= c && c <= 57 {
        Some(c - 48)
    } else if 97 <= c && c <= 102 {
        Some(c - 87)
    } else if 65 <= c && c <= 70 {
        Some(c - 55)
    } else {
        None
    }
}

fn pair_value(hi: u8, lo: u8) -> (r: Option<u8>)
    ensures
        r == hex_pair_value(hi, lo),
{
    if hi == 43 {
        digit_value(lo)
    } else {
        match (digit_value(hi), digit_value(lo)) {
            (Some(a), Some(b)) => Some(16 * a + b),
            _ => None,
        }
    }
}

/// Decodes a hex string (as sent in a report signature header) into bytes;
/// `None` for an odd length or any pair that is not a byte in radix 16.
pub fn from_hex(s: &str) -> (res: Option<Vec<u8>>)
    requires
        hex_slices_on_boundaries(s.spec_bytes()),
    ensures
        (match res {
            Some(v) => Some(v@),
            None => None,
        }) == hex_decode(s.spec_bytes()),
{
    let bytes = s.as_bytes();
    let n = bytes.len();
    let ghost b = s.spec_bytes();
    if n % 2 != 0 {
        return None;
    }
    let mut out: Vec<u8> = Vec::new();
    let mut i: usize = 0;
    while i < n
        invariant
            b == bytes@,
            b == s.spec_bytes(),
            n == b.len(),
            n % 2 == 0,
            i % 2 == 0,
            i <= n,
            hex_pairs_ok(b, i as int / 2),
            out@ =~= Seq::new((i / 2) as nat, |k: int| hex_pair_value(b[2 * k], b[2 * k + 1]).unwrap()),
        decreases n - i,
    {
        let v = pair_value(bytes[i], bytes[i + 1]);
        match v {
            None => {
                assert(!hex_pairs_ok(b, b.len() as int / 2)) by {
                    let j = i as int / 2;
                    assert(2 * j == i);
                    assert(hex_pair_value(b[2 * j], b[2 * j + 1]) is None);
                }
                return None;
            },
            Some(x) => {
                out.push(x);
                assert(hex_pairs_ok(b, (i + 2) as int / 2)) by {
                    assert forall|j: int| 0 <= j < (i + 2) / 2 implies (#[trigger] hex_pair_value(b[2 * j], b[2 * j + 1])) is Some by {
                        if j < i / 2 {
                        } else {
                            assert(2 * j == i);
                        }
                    }
                }
                i = i + 2;
            },
        }
    }
    assert(i == n);
    Some(out)
}

/// Whether decoding `s` as hex reads only slices that end on character
/// boundaries, i.e. whether `from_hex` may be called on it (hex text taken
/// from an HTTP header is ASCII and always qualifies).
pub fn hex_input_ok(s: &str) -> (r: bool)
    ensures
        r == hex_slices_on_boundaries(s.spec_bytes()),
{
    let bytes = s.as_bytes();
    let n = bytes.len();
    let ghost b = s.spec_bytes();
    if n % 2 != 0 {
        return true;
    }
    let mut i: usize = 0;
    while i < n
        invariant
            b == bytes@,
            b == s.spec_bytes(),
            n == b.len(),
            n % 2 == 0,
            i % 2 == 0,
            i <= n,
            hex_pairs_ok(b, i as int / 2),
            forall|k: int|
                0 <= k && 2 * k + 2 <= i && #[trigger] hex_pairs_ok(b, k) ==> vstd::utf8::is_char_boundary(
                    b,
                    2 * k + 2,
                ),
        decreases n - i,
    {
        if !s.is_char_boundary(i + 2) {
            assert(!hex_slices_on_boundaries(b)) by {
                let k = i as int / 2;
                assert(2 * k == i);
                assert(hex_pairs_ok(b, k));
            }
            return false;
        }
        if pair_value(bytes[i], bytes[i + 1]).is_none() {
            assert(hex_slices_on_boundaries(b)) by {
                let k0 = i as int / 2;
                assert(2 * k0 == i);
                assert forall|k: int|
                    0 <= k && 2 * k + 2 <= b.len() && #[trigger] hex_pairs_ok(b, k) implies vstd::utf8::is_char_boundary(
                    b,
                    2 * k + 2,
                ) by {
                    if k > k0 {
                        assert(hex_pair_value(b[2 * k0], b[2 * k0 + 1]) is Some);
                    }
                }
            }
            return true;
        }
        assert(hex_pairs_ok(b, (i + 2) as int / 2)) by {
            assert forall|j: int| 0 <= j < (i + 2) as int / 2 implies (#[trigger] hex_pair_value(b[2 * j], b[2 * j + 1])) is Some by {
                if j == i as int / 2 {
                    assert(2 * j == i);
                }
            }
        }
        i = i + 2;
    }
    true
}

/// Hex round trip: decoding the lower-case hex encoding of any bytes gives
/// those bytes back.
pub proof fn lemma_hex_roundtrip(v: Seq<u8>)
    ensures
        hex_decode(hex_encode(v)) == Some(v),
{
    let e = hex_encode(v);
    assert forall|k: int| 0 <= k < v.len() implies hex_pair_value(e[2 * k], e[2 * k + 1]) == Some(v[k]) by {
        assert((2 * k) % 2 == 0);
        assert((2 * k + 1) % 2 == 1);
        assert((2 * k) / 2 == k);
        assert((2 * k + 1) / 2 == k);
        let hi = v[k] as int / 16;
        let lo = v[k] as int % 16;
        assert(16 * hi + lo == v[k]);
    }
    assert(e.len() % 2 == 0);
    assert(e.len() / 2 == v.len());
    assert(hex_pairs_ok(e, e.len() as int / 2));
    assert(Seq::new(e.len() / 2, |k: int| hex_pair_value(e[2 * k], e[2 * k + 1]).unwrap()) =~= v);
}

/// Hex round trip in upper case: decoding the upper-case hex encoding of
/// any bytes gives those bytes back.
pub proof fn lemma_hex_roundtrip_upper(v: Seq<u8>)
    ensures
        hex_decode(hex_encode_upper(v)) == Some(v),
{
    let e = hex_encode_upper(v);
    assert forall|k: int| 0 <= k < v.len() implies hex_pair_value(e[2 * k], e[2 * k + 1]) == Some(v[k]) by {
        assert((2 * k) % 2 == 0);
        assert((2 * k + 1) % 2 == 1);
        assert((2 * k) / 2 == k);
        assert((2 * k + 1) / 2 == k);
        let hi = v[k] as int / 16;
        let lo = v[k] as int % 16;
        assert(16 * hi + lo == v[k]);
    }
    assert(e.len() % 2 == 0);
    assert(e.len() / 2 == v.len());
    assert(hex_pairs_ok(e, e.len() as int / 2));
    assert(Seq::new(e.len() / 2, |k: int| hex_pair_value(e[2 * k], e[2 * k + 1]).unwrap()) =~= v);
}

} // verus!

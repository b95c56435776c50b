//! Lowercase hexadecimal encoding of byte strings, and its lenient decoding.
use vstd::prelude::*;
use crate::primitives::push_char;

verus! {

/// Lowercase hex digit for a nibble.
pub open spec fn nibble_char(v: nat) -> char {
    if v < 10 {
        ((v + 48) as u8) as char
    } else {
        ((v - 10 + 97) as u8) as char
    }
}

/// Value of a hex digit (either case), if it is one.
pub open spec fn hex_value(c: char) -> Option<nat> {
    if '0' <= c && c <= '9' {
        Some((c as nat - 48) as nat)
    } else if 'a' <= c && c <= 'f' {
        Some((c as nat - 97 + 10) as nat)
    } else if 'A' <= c && c <= 'F' {
        Some((c as nat - 65 + 10) as nat)
    } else {
        None
    }
}

/// Two lowercase hex digits per byte, most significant nibble first.
pub open spec fn hex_encode_spec(bytes: Seq<u8>) -> Seq<char>
    decreases bytes.len(),
{
    if bytes.len() == 0 {
        Seq::empty()
    } else {
        let b = bytes.last();
        hex_encode_spec(bytes.drop_last()) + seq![nibble_char((b / 16) as nat), nibble_char((b % 16) as nat)]
    }
}

/// Every character of `s` is a hex digit.
pub open spec fn all_hex(s: Seq<char>) -> bool {
    forall|i: int| 0 <= i < s.len() ==> (#[trigger] hex_value(s[i])) is Some
}

/// The bytes a hex string stands for: `None` when its length is odd or a
/// character is not a hex digit.
pub open spec fn hex_decode_spec(s: Seq<char>) -> Option<Seq<u8>> {
    if s.len() % 2 == 0 && all_hex(s) {
        Some(Seq::new((s.len() / 2) as nat, |i: int|
            (hex_value(s[2 * i]).unwrap() * 16 + hex_value(s[2 * i + 1]).unwrap()) as u8))
    } else {
        None
    }
}

fn nibble(v: u8) -> (c: char)
    requires
        v < 16,
    ensures
        c == nibble_char(v as nat),
{
    if v < 10 {
        ((v + 48) as u8) as char
    } else {
        ((v - 10 + 97) as u8) as char
    }
}

/// Lowercase hex encoding of `bytes`.
pub fn hex_encode(bytes: &[u8]) -> (s: String)
    ensures
        s@ == hex_encode_spec(bytes@),
{
    let mut s = String::new();
    let mut i: usize = 0;
    while i < bytes.len()
        invariant
            i <= bytes@.len(),
            s@ == hex_encode_spec(bytes@.take(i as int)),
        decreases bytes@.len() - i,
    {
        let b = bytes[i];
        push_char(&mut s, nibble(b / 16));
        push_char(&mut s, nibble(b % 16));
        proof {
            let t = bytes@.take(i + 1);
            assert(t.drop_last() =~= bytes@.take(i as int));
            assert(t.last() == b);
            assert(s@ =~= hex_encode_spec(t));
        }
        i = i + 1;
    }
    proof {
        assert(bytes@.take(bytes@.len() as int) =~= bytes@);
    }
    s
}

fn hex_digit_value(c: char) -> (r: Option<u8>)
    ensures
        match hex_value(c) {
            Some(v) => r == Some(v as u8),
            None => r is None,
        },
{
    if '0' <= c && c <= '9' {
        Some(((c as u32) - 48) as u8)
    } else if 'a' <= c && c <= 'f' {
        Some(((c as u32) - 97 + 10) as u8)
    } else if 'A' <= c && c <= 'F' {
        Some(((c as u32) - 65 + 10) as u8)
    } else {
        None
    }
}

/// Decode a hex string (either case) into bytes; an odd length or a non-hex
/// character yields the empty byte string, as `hex::decode(..)
/// .unwrap_or_default()` does.
pub fn hex_decode_or_empty(s: &str) -> (bytes: Vec<u8>)
    ensures
        bytes@ == match hex_decode_spec(s@) {
            Some(b) => b,
            None => Seq::empty(),
        },
{
    let n = s.unicode_len();
    if n % 2 != 0 {
        return Vec::new();
    }
    let mut out: Vec<u8> = Vec::new();
    let mut i: usize = 0;
    while i < n / 2
        invariant
            n == s@.len(),
            n % 2 == 0,
            i <= n / 2,
            forall|j: int| 0 <= j < 2 * i ==> (#[trigger] hex_value(s@[j])) is Some,
            out@.len() == i,
            forall|j: int| 0 <= j < i ==> #[trigger] out@[j] == (hex_value(s@[2 * j]).unwrap() * 16 + hex_value(s@[2 * j + 1]).unwrap()) as u8,
        decreases n / 2 - i,
    {
        let hi = hex_digit_value(s.get_char(2 * i));
        let lo = hex_digit_value(s.get_char(2 * i + 1));
        match (hi, lo) {
            (Some(h), Some(l)) => {
                out.push(h * 16 + l);
            }
            _ => {
                proof {
                    assert(!all_hex(s@)) by {
                        if hi is None {
                            assert(hex_value(s@[2 * i as int]) is None);
                        } else {
                            assert(hex_value(s@[2 * i + 1]) is None);
                        }
                    }
                }
                return Vec::new();
            }
        }
        i = i + 1;
    }
    proof {
        assert(all_hex(s@)) by {
            assert forall|j: int| 0 <= j < s@.len() implies (#[trigger] hex_value(s@[j])) is Some by {
                assert(j < 2 * i);
            }
        }
        let expect = hex_decode_spec(s@).unwrap();
        assert(out@ =~= expect);
    }
    out
}

proof fn lemma_hex_encode_len(bytes: Seq<u8>)
    ensures
        hex_encode_spec(bytes).len() == 2 * bytes.len(),
    decreases bytes.len(),
{
    if bytes.len() > 0 {
        lemma_hex_encode_len(bytes.drop_last());
    }
}

proof fn lemma_hex_encode_index(bytes: Seq<u8>, i: int)
    requires
        0 <= i < bytes.len(),
    ensures
        hex_encode_spec(bytes)[2 * i] == nibble_char((bytes[i] / 16) as nat),
        hex_encode_spec(bytes)[2 * i + 1] == nibble_char((bytes[i] % 16) as nat),
    decreases bytes.len(),
{
    lemma_hex_encode_len(bytes.drop_last());
    if i < bytes.len() - 1 {
        lemma_hex_encode_index(bytes.drop_last(), i);
    }
}

proof fn lemma_nibble_roundtrip(v: nat)
    requires
        v < 16,
    ensures
        hex_value(nibble_char(v)) == Some(v),
{
}

/// Hex decoding undoes hex encoding: any byte string survives the trip.
pub proof fn lemma_hex_roundtrip(bytes: Seq<u8>)
    ensures
        hex_decode_spec(hex_encode_spec(bytes)) == Some(bytes),
{
    let s = hex_encode_spec(bytes);
    lemma_hex_encode_len(bytes);
    assert forall|j: int| 0 <= j < s.len() implies (#[trigger] hex_value(s[j])) is Some by {
        let i = j / 2;
        lemma_hex_encode_index(bytes, i);
        lemma_nibble_roundtrip((bytes[i] / 16) as nat);
        lemma_nibble_roundtrip((bytes[i] % 16) as nat);
        if j % 2 == 0 {
            assert(j == 2 * i);
        } else {
            assert(j == 2 * i + 1);
        }
    }
    let d = hex_decode_spec(s).unwrap();
    assert forall|i: int| 0 <= i < bytes.len() implies d[i] == bytes[i] by {
        lemma_hex_encode_index(bytes, i);
        lemma_nibble_roundtrip((bytes[i] / 16) as nat);
        lemma_nibble_roundtrip((bytes[i] % 16) as nat);
    }
    assert(d =~= bytes);
}

} // verus!

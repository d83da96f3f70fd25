//! Percent-encoding of URIs: every byte outside the unreserved set is
//! written as an escape sequence over the UTF-8 encoding of the text.

use vstd::prelude::*;

verus! {

/// The upper-case hexadecimal digit for a value below sixteen.
pub open spec fn spec_hex_digit(d: nat) -> char {
    if d < 10 {
        ((d + 0x30) as u8) as char
    } else {
        ((d + 55) as u8) as char
    }
}

/// The unreserved bytes, which stand for themselves: ASCII letters,
/// digits, `-`, `_`, `.` and `~`.
pub open spec fn spec_unreserved(b: u8) -> bool {
    ||| (0x61 <= b <= 0x7a)  // a-z
    ||| (0x41 <= b <= 0x5a)  // A-Z
    ||| (0x30 <= b <= 0x39)  // 0-9
    ||| b == 0x2d  // -
    ||| b == 0x5f  // _
    ||| b == 0x2e  // .
    ||| b == 0x7e  // ~

}

/// What one byte encodes to: itself when unreserved, else a `%`-escape
/// with two upper-case hexadecimal digits.
pub open spec fn spec_encode_byte(b: u8) -> Seq<char> {
    if spec_unreserved(b) {
        seq![b as char]
    } else {
        seq!['%', spec_hex_digit(b as nat / 16), spec_hex_digit(b as nat % 16)]
    }
}

/// The percent-encoding of a byte sequence.
pub open spec fn spec_encode_bytes(b: Seq<u8>) -> Seq<char>
    decreases b.len(),
{
    if b.len() == 0 {
        Seq::empty()
    } else {
        spec_encode_byte(b[0]) + spec_encode_bytes(b.skip(1))
    }
}

/// The percent-encoding of a text: its UTF-8 bytes, each encoded.
pub open spec fn spec_encode_rfc3986(s: Seq<char>) -> Seq<char> {
    spec_encode_bytes(vstd::utf8::encode_utf8(s))
}

/// The percent-encoding of one byte sequence, byte by byte.
pub fn encode_bytes_rfc3986(bytes: &Vec<u8>) -> (r: String)
    ensures
        r@ == spec_encode_bytes(bytes@),
{
    let mut out = String::new();
    let mut i: usize = 0;
    proof {
        assert(bytes@.skip(0) =~= bytes@);
    }
    while i < bytes.len()
        invariant
            0 <= i <= bytes@.len(),
            spec_encode_bytes(bytes@) == out@ + spec_encode_bytes(bytes@.skip(i as int)),
        decreases bytes@.len() - i,
    {
        let b = bytes[i];
        let ghost prev = out@;
        proof {
            assert(bytes@.skip(i as int).len() > 0);
            assert(bytes@.skip(i as int)[0] == bytes@[i as int]);
            assert(bytes@.skip(i as int).skip(1) =~= bytes@.skip(i + 1));
        }
        let keep = (0x61 <= b && b <= 0x7a) || (0x41 <= b && b <= 0x5a) || (0x30 <= b && b
            <= 0x39) || b == 0x2d || b == 0x5f || b == 0x2e || b == 0x7e;
        if keep {
            crate::strutil::push_char(&mut out, b as char);
            proof {
                assert(out@ =~= prev + seq![b as char]);
            }
        } else {
            let hi: u8 = b / 16;
            let lo: u8 = b % 16;
            let hic: char = if hi < 10 {
                (hi + 0x30) as char
            } else {
                (hi + 55) as char
            };
            let loc: char = if lo < 10 {
                (lo + 0x30) as char
            } else {
                (lo + 55) as char
            };
            crate::strutil::push_char(&mut out, '%');
            crate::strutil::push_char(&mut out, hic);
            crate::strutil::push_char(&mut out, loc);
            proof {
                assert(hic == spec_hex_digit(b as nat / 16));
                assert(loc == spec_hex_digit(b as nat % 16));
                assert(out@ =~= prev + seq!['%', hic, loc]);
            }
        }
        proof {
            assert(out@ + spec_encode_bytes(bytes@.skip(i + 1)) =~= prev + (spec_encode_byte(
                bytes@[i as int],
            ) + spec_encode_bytes(bytes@.skip(i + 1))));
        }
        i = i + 1;
    }
    proof {
        assert(bytes@.skip(bytes@.len() as int) =~= Seq::<u8>::empty());
        assert(out@ + spec_encode_bytes(Seq::<u8>::empty()) =~= out@);
    }
    out
}

/// Encode a URI component: every byte of the text's UTF-8 form outside
/// the unreserved set becomes a `%`-escape with two upper-case
/// hexadecimal digits.
pub fn encode_rfc3986(s: &str) -> (r: String)
    ensures
        r@ == spec_encode_rfc3986(s@),
{
    let bytes = s.as_bytes_vec();
    encode_bytes_rfc3986(&bytes)
}

} // verus!

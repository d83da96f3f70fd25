//! Small string helpers: verified equality, escaping, prefix tests,
//! remote-URI detection and number formatting, plus a trusted bridge to
//! `String::push`, which vstd leaves unspecified.

use vstd::prelude::*;

verus! {

/// Whether two string slices hold the same characters.
pub fn str_eq(a: &str, b: &str) -> (r: bool)
    ensures
        r == (a@ == b@),
{
    let al = a.unicode_len();
    let bl = b.unicode_len();
    if al != bl {
        proof {
            if a@ == b@ {
                assert(a@.len() == b@.len());
            }
        }
        return false;
    }
    let mut i: usize = 0;
    while i < al
        invariant
            0 <= i <= al,
            al == a@.len(),
            bl == b@.len(),
            al == bl,
            forall|j: int| 0 <= j < i ==> a@[j] == b@[j],
        decreases al - i,
    {
        if a.get_char(i) != b.get_char(i) {
            proof {
                if a@ == b@ {
                    assert(a@[i as int] == b@[i as int]);
                }
            }
            return false;
        }
        i = i + 1;
    }
    proof {
        assert(a@ =~= b@);
    }
    true
}

/// Relies on `String::push`: appends the given character to the end of
/// the string.
#[verifier::external_body]
pub fn push_char(s: &mut String, c: char)
    ensures
        final(s)@ == old(s)@.push(c),
{
    s.push(c);
}

/// Whether `p` is a prefix of `s`.
pub open spec fn spec_has_prefix(s: Seq<char>, p: Seq<char>) -> bool {
    s.len() >= p.len() && s.subrange(0, p.len() as int) == p
}

/// Whether the string starts with the given prefix.
pub fn has_prefix(s: &str, p: &str) -> (r: bool)
    ensures
        r == spec_has_prefix(s@, p@),
{
    let sl = s.unicode_len();
    let pl = p.unicode_len();
    if sl < pl {
        return false;
    }
    let mut i: usize = 0;
    while i < pl
        invariant
            0 <= i <= pl,
            pl == p@.len(),
            sl == s@.len(),
            sl >= pl,
            forall|j: int| 0 <= j < i ==> s@[j] == p@[j],
        decreases pl - i,
    {
        if s.get_char(i) != p.get_char(i) {
            proof {
                assert(s@.subrange(0, p@.len() as int)[i as int] == s@[i as int]);
            }
            return false;
        }
        i = i + 1;
    }
    proof {
        assert(s@.subrange(0, p@.len() as int) =~= p@);
    }
    true
}

/// What the five markup-sensitive characters escape to; every other
/// character stands for itself.
pub open spec fn spec_escape_char(c: char) -> Seq<char> {
    if c == '"' {
        "&quot;"@
    } else if c == '\'' {
        "&apos;"@
    } else if c == '<' {
        "&lt;"@
    } else if c == '>' {
        "&gt;"@
    } else if c == '&' {
        "&amp;"@
    } else {
        seq![c]
    }
}

/// The markup-escaped form of a text.
pub open spec fn spec_escape(s: Seq<char>) -> Seq<char>
    decreases s.len(),
{
    if s.len() == 0 {
        Seq::empty()
    } else {
        spec_escape_char(s[0]) + spec_escape(s.skip(1))
    }
}

proof fn lemma_escape_step(s: Seq<char>, i: int)
    requires
        0 <= i < s.len(),
    ensures
        spec_escape(s.skip(i)) == spec_escape_char(s[i]) + spec_escape(s.skip(i + 1)),
{
    assert(s.skip(i).len() > 0);
    assert(s.skip(i)[0] == s[i]);
    assert(s.skip(i).skip(1) =~= s.skip(i + 1));
}

/// Escape the characters that are sensitive in markup text: `"`, `'`,
/// `<`, `>` and `&`.
pub fn escape_str(s: &str) -> (r: String)
    ensures
        r@ == spec_escape(s@),
{
    let len = s.unicode_len();
    let mut out = String::new();
    let mut i: usize = 0;
    proof {
        assert(s@.skip(0) =~= s@);
    }
    while i < len
        invariant
            0 <= i <= len,
            len == s@.len(),
            spec_escape(s@) == out@ + spec_escape(s@.skip(i as int)),
        decreases len - i,
    {
        let c = s.get_char(i);
        let ghost prev = out@;
        proof {
            lemma_escape_step(s@, i as int);
        }
        if c == '"' {
            out.append("&quot;");
        } else if c == '\'' {
            out.append("&apos;");
        } else if c == '<' {
            out.append("&lt;");
        } else if c == '>' {
            out.append("&gt;");
        } else if c == '&' {
            out.append("&amp;");
        } else {
            push_char(&mut out, c);
            proof {
                assert(out@ =~= prev + seq![c]);
            }
        }
        proof {
            assert(out@ + spec_escape(s@.skip(i + 1)) =~= prev + (spec_escape_char(s@[i as int])
                + spec_escape(s@.skip(i + 1))));
        }
        i = i + 1;
    }
    proof {
        assert(s@.skip(len as int) =~= Seq::<char>::empty());
        assert(out@ + spec_escape(Seq::<char>::empty()) =~= out@);
    }
    out
}

/// Whether a source string denotes a remote resource: it starts with
/// `http://` or `https://`.
pub open spec fn spec_is_remote(s: Seq<char>) -> bool {
    spec_has_prefix(s, "http://"@) || spec_has_prefix(s, "https://"@)
}

/// Whether a source string points at a remote resource rather than a
/// local file.
pub fn is_remote(s: &str) -> (r: bool)
    ensures
        r == spec_is_remote(s@),
{
    has_prefix(s, "http://") || has_prefix(s, "https://")
}

/// The decimal digit character for a value below ten.
pub open spec fn spec_digit(d: nat) -> char {
    ((d + 0x30) as u8) as char
}

/// The decimal digits of a number, most significant first; zero has no
/// digits.
pub open spec fn spec_digits(n: nat) -> Seq<char>
    decreases n,
{
    if n == 0 {
        Seq::empty()
    } else {
        spec_digits(n / 10).push(spec_digit(n % 10))
    }
}

/// The decimal rendering of a number: its digits, or `0` for zero.
pub open spec fn spec_nat_to_string(n: nat) -> Seq<char> {
    if n == 0 {
        seq!['0']
    } else {
        spec_digits(n)
    }
}

/// Render an unsigned number in decimal.
pub fn u64_to_string(n: u64) -> (r: String)
    ensures
        r@ == spec_nat_to_string(n as nat),
{
    if n == 0 {
        let mut out = String::new();
        push_char(&mut out, '0');
        proof {
            assert(Seq::<char>::empty().push('0') =~= seq!['0']);
        }
        return out;
    }
    let mut digits: Vec<char> = Vec::new();
    let mut m: u64 = n;
    while m > 0
        invariant
            spec_digits(n as nat) == spec_digits(m as nat) + digits@,
        decreases m,
    {
        let d: u8 = (m % 10) as u8;
        let c: char = (d + 0x30) as char;
        let ghost old_m = m as nat;
        let ghost old_digits = digits@;
        digits.insert(0, c);
        m = m / 10;
        proof {
            assert(c == spec_digit(old_m % 10));
            assert(spec_digits(old_m) == spec_digits(old_m / 10).push(spec_digit(old_m % 10)));
            assert(spec_digits(old_m / 10).push(spec_digit(old_m % 10)) + old_digits
                =~= spec_digits(old_m / 10) + digits@);
        }
    }
    let mut out = String::new();
    let mut i: usize = 0;
    while i < digits.len()
        invariant
            0 <= i <= digits@.len(),
            out@ == digits@.take(i as int),
        decreases digits@.len() - i,
    {
        let c = digits[i];
        push_char(&mut out, c);
        proof {
            assert(digits@.take(i + 1) =~= digits@.take(i as int).push(digits@[i as int]));
        }
        i = i + 1;
    }
    proof {
        assert(digits@.take(digits@.len() as int) =~= digits@);
        assert(spec_digits(n as nat) =~= spec_digits(0nat) + digits@);
        assert(spec_digits(0nat) + digits@ =~= digits@);
    }
    out
}


/// The decimal rendering of a signed number.
pub open spec fn spec_i64_to_string(n: int) -> Seq<char> {
    if n < 0 {
        seq!['-'] + spec_nat_to_string((-n) as nat)
    } else {
        spec_nat_to_string(n as nat)
    }
}

/// Render a signed number in decimal.
pub fn i64_to_string(n: i64) -> (r: String)
    ensures
        r@ == spec_i64_to_string(n as int),
{
    if n >= 0 {
        u64_to_string(n as u64)
    } else {
        let m: u64 = if n == i64::MIN {
            0x8000000000000000u64
        } else {
            (-n) as u64
        };
        let mut out = String::from_str("-");
        let digits = u64_to_string(m);
        out.append(digits.as_str());
        proof {
            reveal_strlit("-");
            assert("-"@ =~= seq!['-']);
        }
        out
    }
}

} // verus!

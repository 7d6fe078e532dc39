//! Small string helpers of the engine: decimal rendering, the stable URL
//! hash for media file names, case-insensitive subtype comparison, and the
//! file-extension scan of a path segment.

use vstd::prelude::*;
use vstd::string::*;

verus! {

/// The decimal digit character of a value below ten.
pub open spec fn dec_digit(d: nat) -> char {
    if d == 0 {
        '0'
    } else if d == 1 {
        '1'
    } else if d == 2 {
        '2'
    } else if d == 3 {
        '3'
    } else if d == 4 {
        '4'
    } else if d == 5 {
        '5'
    } else if d == 6 {
        '6'
    } else if d == 7 {
        '7'
    } else if d == 8 {
        '8'
    } else {
        '9'
    }
}

/// The decimal rendering of a number, most significant digit first, with
/// no leading zeros (a single zero for zero itself).
pub open spec fn dec_digits(n: nat) -> Seq<char>
    decreases n,
{
    if n < 10 {
        seq![dec_digit(n)]
    } else {
        dec_digits(n / 10).push(dec_digit(n % 10))
    }
}

/// The one-character string of a decimal digit.
fn digit_string(d: u64) -> (r: String)
    requires
        d < 10,
    ensures
        r@ == seq![dec_digit(d as nat)],
{
    let r = if d == 0 {
        String::from_str("0")
    } else if d == 1 {
        String::from_str("1")
    } else if d == 2 {
        String::from_str("2")
    } else if d == 3 {
        String::from_str("3")
    } else if d == 4 {
        String::from_str("4")
    } else if d == 5 {
        String::from_str("5")
    } else if d == 6 {
        String::from_str("6")
    } else if d == 7 {
        String::from_str("7")
    } else if d == 8 {
        String::from_str("8")
    } else {
        String::from_str("9")
    };
    proof {
        reveal_strlit("0");
        reveal_strlit("1");
        reveal_strlit("2");
        reveal_strlit("3");
        reveal_strlit("4");
        reveal_strlit("5");
        reveal_strlit("6");
        reveal_strlit("7");
        reveal_strlit("8");
        reveal_strlit("9");
        assert(r@ =~= seq![dec_digit(d as nat)]);
    }
    r
}

/// Render a value in decimal, most significant digit first, without
/// leading zeros.
pub(crate) fn u64_to_decimal(n: u64) -> (r: String)
    ensures
        r@ == dec_digits(n as nat),
    decreases n,
{
    if n < 10 {
        digit_string(n)
    } else {
        let head = u64_to_decimal(n / 10);
        let tail = digit_string(n % 10);
        let r = head.concat(tail.as_str());
        assert(r@ =~= dec_digits(n as nat));
        r
    }
}

/// One step of the FNV-1a fold: mix a byte in by xor, then multiply by the
/// FNV prime modulo 2^64.
pub open spec fn fnv1a_step(acc: u64, byte: u8) -> u64 {
    vstd::wrapping::u64_specs::wrapping_mul(acc ^ (byte as u64), 0x100000001b3)
}

/// The FNV-1a hash of the first `n` bytes: a stable 64-bit hash, the same
/// for the same bytes on every run and machine.
pub open spec fn fnv1a_prefix(bytes: Seq<u8>, n: int) -> u64
    decreases n,
{
    if n <= 0 {
        0xcbf29ce484222325u64
    } else if n > bytes.len() {
        0
    } else {
        fnv1a_step(fnv1a_prefix(bytes, n - 1), bytes[n - 1])
    }
}

/// The FNV-1a hash of a byte sequence.
pub open spec fn fnv1a(bytes: Seq<u8>) -> u64 {
    fnv1a_prefix(bytes, bytes.len() as int)
}

/// Compute the stable FNV-1a hash of a string's UTF-8 bytes. Determinism
/// across runs is what media file names need; collision resistance is not.
pub fn fnv1a_hash(s: &str) -> (r: u64)
    ensures
        r == fnv1a(vstd::utf8::encode_utf8(s@)),
{
    let bytes = s.as_bytes();
    let mut acc: u64 = 0xcbf29ce484222325;
    let mut i: usize = 0;
    while i < bytes.len()
        invariant
            i <= bytes@.len(),
            bytes@ == vstd::utf8::encode_utf8(s@),
            acc == fnv1a_prefix(bytes@, i as int),
        decreases bytes@.len() - i,
    {
        acc = (acc ^ (bytes[i] as u64)).wrapping_mul(0x100000001b3);
        i += 1;
    }
    acc
}

/// Whether two characters are equal up to ASCII case.
pub open spec fn char_eq_ignore_ascii_case(a: char, b: char) -> bool {
    a == b || (a as u32 >= 65 && a as u32 <= 90 && a as u32 + 32 == b as u32) || (b as u32 >= 65
        && b as u32 <= 90 && b as u32 + 32 == a as u32)
}

/// Whether two strings are equal up to ASCII case, character by character.
pub open spec fn spec_eq_ignore_ascii_case(a: Seq<char>, b: Seq<char>) -> bool {
    a.len() == b.len() && forall|i: int|
        0 <= i < a.len() ==> char_eq_ignore_ascii_case(#[trigger] a[i], b[i])
}

/// Compare two strings for equality up to ASCII case, as the worker does
/// when it matches a video content subtype against the known containers.
pub fn eq_ignore_ascii_case(a: &str, b: &str) -> (r: bool)
    ensures
        r == spec_eq_ignore_ascii_case(a@, b@),
{
    let na = a.unicode_len();
    let nb = b.unicode_len();
    if na != nb {
        return false;
    }
    let mut i: usize = 0;
    while i < na
        invariant
            i <= na,
            na == a@.len(),
            nb == b@.len(),
            na == nb,
            forall|k: int| 0 <= k < i ==> char_eq_ignore_ascii_case(#[trigger] a@[k], b@[k]),
        decreases na - i,
    {
        let ca = a.get_char(i);
        let cb = b.get_char(i);
        let ua = ca as u32;
        let ub = cb as u32;
        let eq_ci = ua == ub || (ua >= 65 && ua <= 90 && ua + 32 == ub) || (ub >= 65 && ub <= 90
            && ub + 32 == ua);
        if !eq_ci {
            assert(!char_eq_ignore_ascii_case(a@[i as int], b@[i as int]));
            return false;
        }
        assert(char_eq_ignore_ascii_case(a@[i as int], b@[i as int]));
        i += 1;
    }
    true
}

/// The position of the last '.' at index 1 or later when scanning down
/// from `from`, or 0 when there is none at or below `from`.
pub open spec fn last_dot_from(s: Seq<char>, from: int) -> int
    decreases from,
{
    if from < 1 {
        0
    } else if s[from] == '.' {
        from
    } else {
        last_dot_from(s, from - 1)
    }
}

/// The extension of a file-name-like path segment: what follows the last
/// '.', provided that dot is neither the first character nor absent. A
/// leading dot alone (a hidden name) yields no extension; a trailing dot
/// yields the empty extension.
pub open spec fn spec_segment_extension(s: Seq<char>) -> Option<Seq<char>> {
    if s.len() == 0 {
        None
    } else {
        let d = last_dot_from(s, s.len() - 1);
        if d >= 1 && s[d] == '.' {
            Some(s.subrange(d + 1, s.len() as int))
        } else {
            None
        }
    }
}

/// Scan a path segment for its file extension.
pub fn segment_extension(s: &str) -> (r: Option<String>)
    ensures
        r is Some <==> spec_segment_extension(s@) is Some,
        r is Some ==> r->Some_0@ == spec_segment_extension(s@)->Some_0,
{
    let n = s.unicode_len();
    if n == 0 {
        return None;
    }
    let mut from: usize = n - 1;
    while from >= 1
        invariant
            0 <= from <= s@.len() - 1,
            n == s@.len(),
            last_dot_from(s@, s@.len() - 1) == last_dot_from(s@, from as int),
        decreases from,
    {
        if s.get_char(from) == '.' {
            let ext = s.substring_char(from + 1, n);
            assert(last_dot_from(s@, from as int) == from as int);
            return Some(ext.to_owned());
        }
        from -= 1;
    }
    assert(last_dot_from(s@, s@.len() - 1) == 0);
    None
}

} // verus!

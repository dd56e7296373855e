//! Character classification and string-building helpers.
//!
//! All address and key logic in this crate works over `Vec<char>` and
//! `Seq<char>`; this module supplies the bridges between `&str` / `String`
//! and those forms, together with the digit and whitespace predicates the
//! address normalizer relies on.

use vstd::prelude::*;
use vstd::string::StrSliceExecFns;

verus! {

/// The Unicode White_Space property, the set `char::is_whitespace` matches.
pub open spec fn is_ws(c: char) -> bool {
    let u: u32 = c as u32;
    u == 0x20 || (0x09 <= u && u <= 0x0D) || u == 0x85 || u == 0xA0 || u == 0x1680 || (0x2000
        <= u && u <= 0x200A) || u == 0x2028 || u == 0x2029 || u == 0x202F || u == 0x205F || u
        == 0x3000
}

pub fn is_whitespace_char(c: char) -> (r: bool)
    ensures
        r == is_ws(c),
{
    let u: u32 = c as u32;
    u == 0x20 || (0x09 <= u && u <= 0x0D) || u == 0x85 || u == 0xA0 || u == 0x1680 || (0x2000
        <= u && u <= 0x200A) || u == 0x2028 || u == 0x2029 || u == 0x202F || u == 0x205F || u
        == 0x3000
}

/// Numeric value of `c` as a digit in the given radix (10 or 16).
pub open spec fn digit_value(c: char, radix: u32) -> Option<u32> {
    let u: u32 = c as u32;
    if 0x30 <= u && u <= 0x39 {
        Some((u - 0x30) as u32)
    } else if radix == 16 && 0x61 <= u && u <= 0x66 {
        Some((u - 0x57) as u32)
    } else if radix == 16 && 0x41 <= u && u <= 0x46 {
        Some((u - 0x37) as u32)
    } else {
        None
    }
}

pub fn digit_value_exec(c: char, radix: u32) -> (r: Option<u32>)
    ensures
        r == digit_value(c, radix),
{
    let u: u32 = c as u32;
    if 0x30 <= u && u <= 0x39 {
        Some(u - 0x30)
    } else if radix == 16 && 0x61 <= u && u <= 0x66 {
        Some(u - 0x57)
    } else if radix == 16 && 0x41 <= u && u <= 0x46 {
        Some(u - 0x37)
    } else {
        None
    }
}

/// A hexadecimal digit that is a letter (a-f or A-F, either case).
pub open spec fn is_hex_letter(c: char) -> bool {
    let u: u32 = c as u32;
    (0x61 <= u && u <= 0x66) || (0x41 <= u && u <= 0x46)
}

pub fn is_hex_letter_char(c: char) -> (r: bool)
    ensures
        r == is_hex_letter(c),
{
    let u: u32 = c as u32;
    (0x61 <= u && u <= 0x66) || (0x41 <= u && u <= 0x46)
}

/// ASCII-case-insensitive equality of two characters.
pub open spec fn ascii_upper_u32(c: char) -> u32 {
    let u: u32 = c as u32;
    if 0x61 <= u && u <= 0x7A {
        (u - 0x20) as u32
    } else {
        u
    }
}

pub open spec fn ci_eq(a: char, b: char) -> bool {
    ascii_upper_u32(a) == ascii_upper_u32(b)
}

pub fn ci_eq_char(a: char, b: char) -> (r: bool)
    ensures
        r == ci_eq(a, b),
{
    let ua: u32 = a as u32;
    let ub: u32 = b as u32;
    let fa: u32 = if 0x61 <= ua && ua <= 0x7A {
        ua - 0x20
    } else {
        ua
    };
    let fb: u32 = if 0x61 <= ub && ub <= 0x7A {
        ub - 0x20
    } else {
        ub
    };
    fa == fb
}

/// ASCII-case-insensitive equality of two character sequences.
pub open spec fn ci_seq_eq(a: Seq<char>, b: Seq<char>) -> bool {
    a.len() == b.len() && (forall|i: int| 0 <= i < a.len() ==> ci_eq(a[i], b[i]))
}

/// ASCII-case-insensitive equality of two string slices.
pub fn ci_eq_str(a: &str, b: &str) -> (r: bool)
    ensures
        r == ci_seq_eq(a@, b@),
{
    let na: usize = a.unicode_len();
    let nb: usize = b.unicode_len();
    if na != nb {
        return false;
    }
    let mut i: usize = 0;
    while i < na
        invariant
            i <= na,
            na == a@.len(),
            na == b@.len(),
            forall|k: int| 0 <= k < i ==> ci_eq(a@[k], b@[k]),
        decreases na - i,
    {
        if !ci_eq_char(a.get_char(i), b.get_char(i)) {
            return false;
        }
        i = i + 1;
    }
    true
}

/// The pattern occurs at position `at` of `s`, compared ASCII-case-
/// insensitively.
pub open spec fn ci_matches_at(s: Seq<char>, pat: Seq<char>, at: int) -> bool {
    forall|k: int| 0 <= k < pat.len() ==> ci_eq(s[at + k], pat[k])
}

/// The pattern occurs somewhere in `s`, compared ASCII-case-insensitively.
pub open spec fn contains_ci(s: Seq<char>, pat: Seq<char>) -> bool {
    exists|at: int| 0 <= at && at + pat.len() <= s.len() && ci_matches_at(s, pat, at)
}

fn ci_matches_at_exec(sv: &Vec<char>, pv: &Vec<char>, at: usize) -> (r: bool)
    requires
        at + pv@.len() <= sv@.len(),
    ensures
        r == ci_matches_at(sv@, pv@, at as int),
{
    let m: usize = pv.len();
    let n: usize = sv.len();
    let mut k: usize = 0;
    while k < m
        invariant
            k <= m,
            m == pv@.len(),
            n == sv@.len(),
            at + m <= n,
            forall|j: int| 0 <= j < k ==> ci_eq(sv@[at + j], pv@[j]),
        decreases m - k,
    {
        if !ci_eq_char(sv[at + k], pv[k]) {
            return false;
        }
        k = k + 1;
    }
    true
}

/// ASCII-case-insensitive substring search.
pub fn contains_ci_str(s: &str, pat: &str) -> (r: bool)
    ensures
        r == contains_ci(s@, pat@),
{
    let sv = chars_of(s);
    let pv = chars_of(pat);
    let n: usize = sv.len();
    let m: usize = pv.len();
    if m > n {
        return false;
    }
    let mut at: usize = 0;
    while at <= n - m
        invariant
            m <= n,
            n == sv@.len(),
            m == pv@.len(),
            sv@ == s@,
            pv@ == pat@,
            at <= n - m + 1,
            forall|a: int| 0 <= a < at ==> !ci_matches_at(s@, pat@, a),
        decreases n - m - at + 1,
    {
        if ci_matches_at_exec(&sv, &pv, at) {
            return true;
        }
        at = at + 1;
    }
    false
}

/// The characters of a string slice, in order.
pub fn chars_of(s: &str) -> (v: Vec<char>)
    ensures
        v@ == s@,
{
    let n: usize = s.unicode_len();
    let mut v: Vec<char> = Vec::new();
    let mut i: usize = 0;
    while i < n
        invariant
            i <= n,
            n == s@.len(),
            v@ == s@.subrange(0, i as int),
        decreases n - i,
    {
        v.push(s.get_char(i));
        i = i + 1;
        proof {
            assert(v@ =~= s@.subrange(0, i as int));
        }
    }
    proof {
        assert(v@ =~= s@);
    }
    v
}

/// Relies on `String::push`: appends the given character to the end of the
/// string.
#[verifier::external_body]
pub(crate) fn push_char(s: &mut String, c: char)
    ensures
        final(s)@ == old(s)@.push(c),
{
    s.push(c);
}

/// A `String` holding exactly the given characters.
pub fn string_of_chars(v: &Vec<char>) -> (s: String)
    ensures
        s@ == v@,
{
    let mut s = String::new();
    let n: usize = v.len();
    let mut i: usize = 0;
    while i < n
        invariant
            i <= n,
            n == v@.len(),
            s@ == v@.subrange(0, i as int),
        decreases n - i,
    {
        push_char(&mut s, v[i]);
        i = i + 1;
        proof {
            assert(s@ =~= v@.subrange(0, i as int));
        }
    }
    proof {
        assert(s@ =~= v@);
    }
    s
}

/// Equality of two string slices, decided character by character.
pub fn str_eq(a: &str, b: &str) -> (r: bool)
    ensures
        r == (a@ == b@),
{
    let na: usize = a.unicode_len();
    let nb: usize = b.unicode_len();
    if na != nb {
        return false;
    }
    let mut i: usize = 0;
    while i < na
        invariant
            i <= na,
            na == a@.len(),
            na == b@.len(),
            forall|k: int| 0 <= k < i ==> a@[k] == b@[k],
        decreases na - i,
    {
        if a.get_char(i) != b.get_char(i) {
            return false;
        }
        i = i + 1;
    }
    proof {
        assert(a@ =~= b@);
    }
    true
}

/// The result of `str::to_lowercase` on the given characters: the Unicode
/// lowercase mapping is a function of the characters alone.
pub uninterp spec fn lower_of(s: Seq<char>) -> Seq<char>;

/// Relies on `str::to_lowercase`: the result depends only on the input
/// characters, and an empty string stays empty.
#[verifier::external_body]
pub(crate) fn lowercase(s: &str) -> (r: String)
    ensures
        r@ == lower_of(s@),
        s@.len() == 0 ==> r@.len() == 0,
{
    s.to_lowercase()
}

/// The digit character for a value below 16, lowercase.
pub open spec fn digit_char(v: nat) -> char {
    if v == 0 {
        '0'
    } else if v == 1 {
        '1'
    } else if v == 2 {
        '2'
    } else if v == 3 {
        '3'
    } else if v == 4 {
        '4'
    } else if v == 5 {
        '5'
    } else if v == 6 {
        '6'
    } else if v == 7 {
        '7'
    } else if v == 8 {
        '8'
    } else if v == 9 {
        '9'
    } else if v == 10 {
        'a'
    } else if v == 11 {
        'b'
    } else if v == 12 {
        'c'
    } else if v == 13 {
        'd'
    } else if v == 14 {
        'e'
    } else {
        'f'
    }
}

/// The base-`radix` rendering of `n`, most significant digit first, with no
/// leading zeros (zero renders as the single digit `0`).
pub open spec fn repr_radix(n: nat, radix: nat) -> Seq<char>
    decreases n,
    via repr_radix_decreases
{
    if radix < 2 {
        Seq::empty()
    } else if n < radix {
        seq![digit_char(n)]
    } else {
        repr_radix(n / radix, radix).push(digit_char(n % radix))
    }
}

#[via_fn]
proof fn repr_radix_decreases(n: nat, radix: nat) {
    if radix >= 2 && n >= radix {
        assert(n / radix < n) by (nonlinear_arith)
            requires
                n >= radix && radix >= 2,
        ;
    }
}

pub proof fn lemma_repr_radix_len(n: nat, radix: nat)
    requires
        radix >= 2,
    ensures
        repr_radix(n, radix).len() >= 1,
    decreases n,
{
    if n >= radix {
        assert(n / radix < n) by (nonlinear_arith)
            requires
                n >= radix && radix >= 2,
        ;
        lemma_repr_radix_len(n / radix, radix);
    }
}

pub(crate) fn digit_char_exec(v: u64) -> (c: char)
    requires
        v < 16,
    ensures
        c == digit_char(v as nat),
{
    if v == 0 {
        '0'
    } else if v == 1 {
        '1'
    } else if v == 2 {
        '2'
    } else if v == 3 {
        '3'
    } else if v == 4 {
        '4'
    } else if v == 5 {
        '5'
    } else if v == 6 {
        '6'
    } else if v == 7 {
        '7'
    } else if v == 8 {
        '8'
    } else if v == 9 {
        '9'
    } else if v == 10 {
        'a'
    } else if v == 11 {
        'b'
    } else if v == 12 {
        'c'
    } else if v == 13 {
        'd'
    } else if v == 14 {
        'e'
    } else {
        'f'
    }
}

/// The digits of `n` in the given radix, as characters.
pub fn repr_radix_u64(n: u64, radix: u64) -> (v: Vec<char>)
    requires
        radix == 10 || radix == 16,
    ensures
        v@ == repr_radix(n as nat, radix as nat),
{
    let mut rev: Vec<char> = Vec::new();
    let mut m: u64 = n;
    if m == 0 {
        let mut out: Vec<char> = Vec::new();
        out.push('0');
        proof {
            assert(out@ =~= repr_radix(n as nat, radix as nat));
        }
        return out;
    }
    while m > 0
        invariant
            radix == 10 || radix == 16,
            m > 0 ==> repr_radix(n as nat, radix as nat) =~= repr_radix(m as nat, radix as nat)
                + rev@.reverse(),
            m == 0 ==> repr_radix(n as nat, radix as nat) =~= rev@.reverse(),
        decreases m,
    {
        let d: u64 = m % radix;
        let ghost prev: u64 = m;
        rev.push(digit_char_exec(d));
        m = m / radix;
        proof {
            assert(rev@.reverse() =~= seq![digit_char(d as nat)] + rev@.drop_last().reverse());
            if m > 0 {
                assert(repr_radix(prev as nat, radix as nat) =~= repr_radix(
                    m as nat,
                    radix as nat,
                ).push(digit_char(d as nat)));
                assert(repr_radix(m as nat, radix as nat) + rev@.reverse() =~= repr_radix(
                    prev as nat,
                    radix as nat,
                ) + rev@.drop_last().reverse());
            } else {
                assert(repr_radix(prev as nat, radix as nat) =~= seq![digit_char(d as nat)]);
                assert(rev@.reverse() =~= repr_radix(prev as nat, radix as nat)
                    + rev@.drop_last().reverse());
            }
        }
    }
    let mut out: Vec<char> = Vec::new();
    let len: usize = rev.len();
    let mut i: usize = 0;
    while i < len
        invariant
            i <= len,
            len == rev@.len(),
            out@ == rev@.reverse().subrange(0, i as int),
        decreases len - i,
    {
        out.push(rev[len - 1 - i]);
        i = i + 1;
        proof {
            assert(out@ =~= rev@.reverse().subrange(0, i as int));
        }
    }
    proof {
        assert(out@ =~= rev@.reverse());
    }
    out
}

/// The decimal rendering of `n` as a string.
pub fn u64_to_dec(n: u64) -> (s: String)
    ensures
        s@ == repr_radix(n as nat, 10),
{
    let v = repr_radix_u64(n, 10);
    string_of_chars(&v)
}

} // verus!

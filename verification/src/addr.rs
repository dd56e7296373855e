//! Address normalization.
//!
//! Address strings arrive in many encodings: `0x`-prefixed hexadecimal,
//! bare hexadecimal, or decimal. `parse_address` reconciles them into one
//! unsigned 64-bit value; `format_address` renders the canonical textual
//! form (`0x` followed by lowercase hex digits with no leading zeros);
//! `normalize_address` is their composition and is idempotent.

use vstd::prelude::*;

use crate::text::chars_of;
use crate::text::digit_char;
use crate::text::digit_value;
use crate::text::digit_value_exec;
use crate::text::is_hex_letter;
use crate::text::is_hex_letter_char;
use crate::text::is_whitespace_char;
use crate::text::is_ws;
use crate::text::repr_radix;
use crate::text::repr_radix_u64;
use crate::text::string_of_chars;

verus! {

/// The characters left after removing leading whitespace.
pub open spec fn trim_front(s: Seq<char>) -> Seq<char>
    decreases s.len(),
{
    if s.len() > 0 && is_ws(s[0]) {
        trim_front(s.drop_first())
    } else {
        s
    }
}

/// The characters left after removing trailing whitespace.
pub open spec fn trim_back(s: Seq<char>) -> Seq<char>
    decreases s.len(),
{
    if s.len() > 0 && is_ws(s.last()) {
        trim_back(s.drop_last())
    } else {
        s
    }
}

/// The characters left after removing leading and trailing whitespace,
/// as `str::trim` leaves them.
pub open spec fn spec_trim(s: Seq<char>) -> Seq<char> {
    trim_back(trim_front(s))
}

/// The value of a digit string in the given radix: `None` when the string
/// is empty or holds a character that is no digit of that radix.
pub open spec fn digits_value(s: Seq<char>, radix: u32) -> Option<nat>
    decreases s.len(),
{
    if s.len() == 0 {
        None
    } else if s.len() == 1 {
        match digit_value(s[0], radix) {
            Some(d) => Some(d as nat),
            None => None,
        }
    } else {
        match (digits_value(s.drop_last(), radix), digit_value(s.last(), radix)) {
            (Some(v), Some(d)) => Some(v * (radix as nat) + d as nat),
            _ => None,
        }
    }
}

/// An unsigned integer parse in the given radix, as `u64::from_str_radix`
/// decides it: an optional leading `+`, then at least one digit, and the
/// value must fit in 64 bits.
pub open spec fn spec_parse_radix(s: Seq<char>, radix: u32) -> Option<u64> {
    let t = if s.len() > 0 && s[0] == '+' {
        s.drop_first()
    } else {
        s
    };
    match digits_value(t, radix) {
        Some(v) => if v <= u64::MAX {
            Some(v as u64)
        } else {
            None
        },
        None => None,
    }
}

/// The address parsing policy, in priority order: a `0x`/`0X` prefix forces
/// hexadecimal; any hex-only letter forces hexadecimal; otherwise decimal is
/// tried, and hexadecimal is the last resort. Empty or whitespace-only
/// input parses to nothing.
pub open spec fn spec_parse_address(s: Seq<char>) -> Option<u64> {
    let t = spec_trim(s);
    if t.len() == 0 {
        None
    } else if t.len() >= 2 && t[0] == '0' && (t[1] == 'x' || t[1] == 'X') {
        spec_parse_radix(t.skip(2), 16)
    } else if exists|i: int| 0 <= i < t.len() && is_hex_letter(t[i]) {
        spec_parse_radix(t, 16)
    } else if spec_parse_radix(t, 10) is Some {
        spec_parse_radix(t, 10)
    } else {
        spec_parse_radix(t, 16)
    }
}

/// The canonical textual form of an address: `0x` followed by lowercase
/// hex digits with no leading zeros.
pub open spec fn spec_format_address(n: u64) -> Seq<char> {
    seq!['0', 'x'] + repr_radix(n as nat, 16)
}

/// The canonical form of an address string, when it parses at all.
pub open spec fn spec_normalize_address(s: Seq<char>) -> Option<Seq<char>> {
    match spec_parse_address(s) {
        Some(n) => Some(spec_format_address(n)),
        None => None,
    }
}

proof fn lemma_trim_front_at(s: Seq<char>, k: int)
    requires
        0 <= k <= s.len(),
        forall|j: int| 0 <= j < k ==> is_ws(s[j]),
        k == s.len() || !is_ws(s[k]),
    ensures
        trim_front(s) == s.subrange(k, s.len() as int),
    decreases k,
{
    if k == 0 {
        assert(s.subrange(0, s.len() as int) =~= s);
    } else {
        let t = s.drop_first();
        assert(forall|j: int| 0 <= j < k - 1 ==> is_ws(t[j]));
        lemma_trim_front_at(t, k - 1);
        assert(t.subrange(k - 1, t.len() as int) =~= s.subrange(k, s.len() as int));
    }
}

proof fn lemma_trim_back_at(s: Seq<char>, k: int)
    requires
        0 <= k <= s.len(),
        forall|j: int| k <= j < s.len() ==> is_ws(s[j]),
        k == 0 || !is_ws(s[k - 1]),
    ensures
        trim_back(s) == s.subrange(0, k),
    decreases s.len(),
{
    if k == s.len() {
        if s.len() == 0 {
            assert(s.subrange(0, 0) =~= s);
        } else {
            assert(!is_ws(s.last()));
            assert(s.subrange(0, k) =~= s);
        }
    } else {
        assert(is_ws(s.last()));
        let t = s.drop_last();
        lemma_trim_back_at(t, k);
        assert(t.subrange(0, k) =~= s.subrange(0, k));
    }
}

/// A string without whitespace is left unchanged by trimming.
proof fn lemma_trim_no_ws(s: Seq<char>)
    requires
        forall|j: int| 0 <= j < s.len() ==> !is_ws(s[j]),
    ensures
        spec_trim(s) == s,
{
    lemma_trim_front_at(s, 0);
    assert(s.subrange(0, s.len() as int) =~= s);
    lemma_trim_back_at(s, s.len() as int);
}

/// One bad digit anywhere makes the whole digit string worthless.
proof fn lemma_digits_value_none(s: Seq<char>, radix: u32, k: int)
    requires
        0 <= k < s.len(),
        digit_value(s[k], radix) is None,
    ensures
        digits_value(s, radix) is None,
    decreases s.len(),
{
    if s.len() > 1 && k < s.len() - 1 {
        lemma_digits_value_none(s.drop_last(), radix, k);
    }
}

/// A proper prefix of a valid digit string is valid and denotes no more.
proof fn lemma_digits_value_prefix(s: Seq<char>, radix: u32, k: int)
    requires
        radix >= 1,
        1 <= k < s.len(),
        digits_value(s, radix) is Some,
    ensures
        digits_value(s.subrange(0, k), radix) is Some,
        digits_value(s.subrange(0, k), radix).unwrap() <= digits_value(s, radix).unwrap(),
    decreases s.len(),
{
    let p = s.drop_last();
    let v = digits_value(p, radix).unwrap();
    let d = digit_value(s.last(), radix).unwrap() as nat;
    assert(v <= v * (radix as nat) + d) by (nonlinear_arith)
        requires
            radix >= 1,
            v >= 0,
            d >= 0,
    ;
    if k == s.len() - 1 {
        assert(s.subrange(0, k) =~= p);
    } else {
        lemma_digits_value_prefix(p, radix, k);
        assert(p.subrange(0, k) =~= s.subrange(0, k));
    }
}

/// Parses the digit run `v[lo..hi]` (after an optional `+`) in the radix.
#[verifier::loop_isolation(false)]
#[verifier::rlimit(60)]
fn parse_radix_range(v: &Vec<char>, lo: usize, hi: usize, radix: u32) -> (r: Option<u64>)
    requires
        lo <= hi <= v@.len(),
        radix == 10 || radix == 16,
    ensures
        r == spec_parse_radix(v@.subrange(lo as int, hi as int), radix),
{
    let ghost t0 = v@.subrange(lo as int, hi as int);
    let mut start: usize = lo;
    if lo < hi && v[lo] == '+' {
        start = lo + 1;
    }
    let ghost t = v@.subrange(start as int, hi as int);
    proof {
        if t0.len() > 0 && t0[0] == '+' {
            assert(t =~= t0.drop_first());
        } else {
            assert(t =~= t0);
        }
    }
    if start == hi {
        return None;
    }
    let mut acc: u64 = 0;
    let mut i: usize = start;
    while i < hi
        invariant
            lo <= start <= i <= hi <= v@.len(),
            radix == 10 || radix == 16,
            t == v@.subrange(start as int, hi as int),
            i > start ==> digits_value(v@.subrange(start as int, i as int), radix) == Some(
                acc as nat,
            ),
            i == start ==> acc == 0,
        decreases hi - i,
    {
        let ghost pre = v@.subrange(start as int, i as int);
        match digit_value_exec(v[i], radix) {
            None => {
                proof {
                    assert(t[i - start] == v@[i as int]);
                    lemma_digits_value_none(t, radix, i - start);
                }
                return None;
            },
            Some(d) => {
                proof {
                    assert(v@.subrange(start as int, i as int + 1) =~= pre.push(v@[i as int]));
                }
                if acc > (u64::MAX - d as u64) / (radix as u64) {
                    proof {
                        let w = (acc as nat) * (radix as nat) + d as nat;
                        assert(w > u64::MAX) by (nonlinear_arith)
                            requires
                                w == (acc as nat) * (radix as nat) + d,
                                acc as int > (u64::MAX as int - d as int) / (radix as int),
                                radix == 10 || radix == 16,
                                d < radix,
                        ;
                        let step = v@.subrange(start as int, i as int + 1);
                        if i == start {
                            assert(digits_value(step, radix) == Some(d as nat));
                            assert(d as nat > u64::MAX);
                        } else {
                            assert(step.drop_last() =~= pre);
                            assert(digits_value(step, radix) == Some(w));
                        }
                        if digits_value(t, radix) is Some {
                            if i + 1 < hi {
                                lemma_digits_value_prefix(t, radix, i + 1 - start);
                                assert(t.subrange(0, i + 1 - start) =~= step);
                            } else {
                                assert(t =~= step);
                            }
                            assert(digits_value(t, radix).unwrap() > u64::MAX);
                        }
                    }
                    return None;
                }
                proof {
                    assert((acc as nat) * (radix as nat) + d <= u64::MAX) by (nonlinear_arith)
                        requires
                            acc as int <= (u64::MAX as int - d as int) / (radix as int),
                            radix == 10 || radix == 16,
                            d < radix,
                    ;
                }
                let ghost old_acc = acc;
                acc = acc * (radix as u64) + d as u64;
                proof {
                    let step = v@.subrange(start as int, i as int + 1);
                    if i == start {
                        assert(digits_value(step, radix) == Some(d as nat));
                    } else {
                        assert(step.drop_last() =~= pre);
                        assert(digits_value(step, radix) == Some(
                            (old_acc as nat) * (radix as nat) + d as nat,
                        ));
                    }
                }
            },
        }
        i = i + 1;
    }
    proof {
        assert(v@.subrange(start as int, hi as int) =~= t);
    }
    Some(acc)
}

/// Parses an address string: `0x`/`0X` prefix means hexadecimal, a bare
/// hex letter means hexadecimal, otherwise decimal is tried first and
/// hexadecimal last. Empty or whitespace-only input is unparseable.
pub fn parse_address(address_str: &str) -> (r: Option<u64>)
    ensures
        r == spec_parse_address(address_str@),
{
    let v = chars_of(address_str);
    let n: usize = v.len();
    let mut lo: usize = 0;
    while lo < n && is_whitespace_char(v[lo])
        invariant
            lo <= n,
            n == v@.len(),
            forall|j: int| 0 <= j < lo ==> is_ws(v@[j]),
        decreases n - lo,
    {
        lo = lo + 1;
    }
    let mut hi: usize = n;
    while hi > lo && is_whitespace_char(v[hi - 1])
        invariant
            lo <= hi <= n,
            n == v@.len(),
            forall|j: int| 0 <= j < lo ==> is_ws(v@[j]),
            forall|j: int| hi <= j < n ==> is_ws(v@[j]),
        decreases hi,
    {
        hi = hi - 1;
    }
    let ghost t = v@.subrange(lo as int, hi as int);
    proof {
        lemma_trim_front_at(v@, lo as int);
        let f = v@.subrange(lo as int, n as int);
        assert(forall|j: int| hi - lo <= j < f.len() ==> is_ws(f[j]));
        if hi > lo {
            assert(f[hi - lo - 1] == v@[hi - 1]);
        }
        lemma_trim_back_at(f, hi - lo);
        assert(f.subrange(0, hi - lo) =~= t);
        assert(spec_trim(v@) == t);
    }
    if lo == hi {
        return None;
    }
    if hi - lo >= 2 && v[lo] == '0' && (v[lo + 1] == 'x' || v[lo + 1] == 'X') {
        let r = parse_radix_range(&v, lo + 2, hi, 16);
        proof {
            assert(v@.subrange(lo as int + 2, hi as int) =~= t.skip(2));
        }
        return r;
    }
    let mut has_hex_letter = false;
    let mut i: usize = lo;
    while i < hi
        invariant
            lo <= i <= hi <= v@.len(),
            !has_hex_letter ==> forall|k: int| lo <= k < i ==> !is_hex_letter(v@[k]),
            has_hex_letter ==> exists|k: int| lo <= k < i && is_hex_letter(v@[k]),
        decreases hi - i,
    {
        if is_hex_letter_char(v[i]) {
            has_hex_letter = true;
        }
        i = i + 1;
    }
    proof {
        if has_hex_letter {
            let k = choose|k: int| lo <= k < hi && is_hex_letter(v@[k]);
            assert(t[k - lo] == v@[k]);
            assert(exists|j: int| 0 <= j < t.len() && is_hex_letter(t[j]));
        } else {
            assert(forall|j: int| 0 <= j < t.len() ==> t[j] == v@[j + lo] && !is_hex_letter(
                t[j],
            ));
        }
    }
    if has_hex_letter {
        return parse_radix_range(&v, lo, hi, 16);
    }
    let dec = parse_radix_range(&v, lo, hi, 10);
    if dec.is_some() {
        return dec;
    }
    parse_radix_range(&v, lo, hi, 16)
}

/// Renders an address in canonical form: `0x` plus lowercase hex digits.
pub fn format_address(address: u64) -> (s: String)
    ensures
        s@ == spec_format_address(address),
{
    let mut v: Vec<char> = Vec::new();
    v.push('0');
    v.push('x');
    let mut digits = repr_radix_u64(address, 16);
    v.append(&mut digits);
    proof {
        assert(v@ =~= spec_format_address(address));
    }
    string_of_chars(&v)
}

/// Parses an address string and renders it back in canonical form.
pub fn normalize_address(address_str: &str) -> (r: Option<String>)
    ensures
        match r {
            Some(s) => spec_normalize_address(address_str@) == Some(s@),
            None => spec_normalize_address(address_str@) is None,
        },
{
    match parse_address(address_str) {
        Some(n) => Some(format_address(n)),
        None => None,
    }
}

/// The digits of the canonical rendering denote the rendered value.
proof fn lemma_digits_value_repr(n: nat)
    ensures
        digits_value(repr_radix(n, 16), 16) == Some(n),
    decreases n,
{
    if n < 16 {
        assert(digit_value(digit_char(n), 16) == Some(n as u32));
    } else {
        assert(n / 16 < n) by (nonlinear_arith)
            requires
                n >= 16,
        ;
        lemma_digits_value_repr(n / 16);
        let r = repr_radix(n, 16);
        let p = repr_radix(n / 16, 16);
        crate::text::lemma_repr_radix_len(n / 16, 16);
        assert(r == p.push(digit_char(n % 16)));
        assert(r.drop_last() =~= p);
        assert(digit_value(digit_char(n % 16), 16) == Some((n % 16) as u32));
        assert((n / 16) * 16 + n % 16 == n);
    }
}

/// Every character of the canonical rendering is a lowercase hex digit;
/// in particular none is whitespace, `+`, or an uppercase hex letter.
proof fn lemma_repr_chars(n: nat, j: int)
    requires
        0 <= j < repr_radix(n, 16).len(),
    ensures
        digit_value(repr_radix(n, 16)[j], 16) is Some,
        !is_ws(repr_radix(n, 16)[j]),
        repr_radix(n, 16)[j] != '+',
        repr_radix(n, 16)[j] != 'X',
    decreases n,
{
    if n < 16 {
        assert(repr_radix(n, 16) =~= seq![digit_char(n)]);
    } else {
        assert(n / 16 < n) by (nonlinear_arith)
            requires
                n >= 16,
        ;
        let p = repr_radix(n / 16, 16);
        assert(repr_radix(n, 16) == p.push(digit_char(n % 16)));
        if j < p.len() {
            lemma_repr_chars(n / 16, j);
            assert(repr_radix(n, 16)[j] == p[j]);
        }
    }
}

/// Round trip: the canonical rendering of an address parses back to that
/// address.
pub proof fn lemma_parse_format_roundtrip(n: u64)
    ensures
        spec_parse_address(spec_format_address(n)) == Some(n),
{
    let s = spec_format_address(n);
    let digits = repr_radix(n as nat, 16);
    crate::text::lemma_repr_radix_len(n as nat, 16);
    assert forall|j: int| 0 <= j < s.len() implies !is_ws(s[j]) by {
        if j >= 2 {
            lemma_repr_chars(n as nat, j - 2);
            assert(s[j] == digits[j - 2]);
        }
    }
    lemma_trim_no_ws(s);
    assert(s[0] == '0' && s[1] == 'x');
    assert(s.skip(2) =~= digits);
    lemma_repr_chars(n as nat, 0);
    assert(digits[0] != '+');
    lemma_digits_value_repr(n as nat);
    assert(spec_parse_radix(digits, 16) == Some(n));
}

/// Normalization is idempotent: normalizing an already-canonical string
/// returns that string unchanged.
pub proof fn lemma_normalize_idempotent(s: Seq<char>)
    ensures
        match spec_normalize_address(s) {
            Some(t) => spec_normalize_address(t) == Some(t),
            None => true,
        },
{
    match spec_parse_address(s) {
        Some(n) => {
            lemma_parse_format_roundtrip(n);
        },
        None => {},
    }
}

} // verus!

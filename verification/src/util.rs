//! Small helpers around the library's surface: file-name pattern matching
//! for directory imports, and key display truncation.

use vstd::prelude::*;

use crate::text::chars_of;
use crate::text::ci_seq_eq;
use crate::text::ci_eq_char;
use crate::text::str_eq;
use crate::text::string_of_chars;

verus! {

/// The characters after the last `.`, or the whole name when it has none.
pub open spec fn spec_ext_of(f: Seq<char>) -> Seq<char>
    decreases f.len(),
{
    if f.len() == 0 {
        f
    } else if f.last() == '.' {
        Seq::empty()
    } else {
        spec_ext_of(f.drop_last()).push(f.last())
    }
}

/// The file-name patterns a directory import accepts: `*` and `*.*` match
/// everything, `*.ext` matches the extension case-insensitively, a leading
/// or trailing `*` matches a suffix or prefix, anything else matches
/// exactly.
pub open spec fn spec_matches_pattern(f: Seq<char>, p: Seq<char>) -> bool {
    if p == "*"@ || p == "*.*"@ {
        true
    } else if p.len() >= 2 && p[0] == '*' && p[1] == '.' {
        ci_seq_eq(spec_ext_of(f), p.skip(2))
    } else if p.len() >= 1 && p.last() == '*' {
        f.len() >= p.len() - 1 && f.take(p.len() - 1) == p.drop_last()
    } else if p.len() >= 1 && p[0] == '*' {
        f.len() >= p.len() - 1 && f.skip(f.len() - (p.len() - 1)) == p.skip(1)
    } else {
        f == p
    }
}

fn ext_of(f: &Vec<char>) -> (r: Vec<char>)
    ensures
        r@ == spec_ext_of(f@),
{
    let n: usize = f.len();
    let mut dot: usize = n;
    let mut i: usize = n;
    while i > 0
        invariant
            i <= n,
            n == f@.len(),
            dot <= n,
            dot < n ==> i <= dot && f@[dot as int] == '.',
            forall|k: int| dot < k < n ==> f@[k] != '.',
            dot == n ==> forall|k: int| i <= k < n ==> f@[k] != '.',
        decreases i,
    {
        i = i - 1;
        if f[i] == '.' && dot == n {
            dot = i;
        }
    }
    let start: usize = if dot == n {
        0
    } else {
        dot + 1
    };
    let mut out: Vec<char> = Vec::new();
    let mut j: usize = start;
    while j < n
        invariant
            start <= j <= n,
            n == f@.len(),
            out@ == f@.subrange(start as int, j as int),
        decreases n - j,
    {
        out.push(f[j]);
        j = j + 1;
        proof {
            assert(out@ =~= f@.subrange(start as int, j as int));
        }
    }
    proof {
        lemma_ext_of_subrange(f@, dot as int);
    }
    out
}

proof fn lemma_ext_of_subrange(f: Seq<char>, dot: int)
    requires
        0 <= dot <= f.len(),
        dot < f.len() ==> f[dot] == '.',
        forall|k: int| dot < k < f.len() ==> f[k] != '.',
        dot == f.len() ==> forall|k: int| 0 <= k < f.len() ==> f[k] != '.',
    ensures
        dot < f.len() ==> spec_ext_of(f) == f.subrange(dot + 1, f.len() as int),
        dot == f.len() ==> spec_ext_of(f) == f,
    decreases f.len(),
{
    if f.len() == 0 {
        assert(f.subrange(0, 0) =~= f);
    } else if f.last() == '.' {
        assert(dot == f.len() - 1);
        assert(f.subrange(dot + 1, f.len() as int) =~= Seq::<char>::empty());
    } else {
        let p = f.drop_last();
        if dot == f.len() {
            lemma_ext_of_subrange(p, p.len() as int);
            assert(spec_ext_of(p).push(f.last()) =~= f);
        } else {
            assert(dot < f.len() - 1);
            lemma_ext_of_subrange(p, dot);
            assert(p.subrange(dot + 1, p.len() as int).push(f.last()) =~= f.subrange(
                dot + 1,
                f.len() as int,
            ));
        }
    }
}

fn ci_eq_chars(a: &Vec<char>, b: &Vec<char>) -> (r: bool)
    ensures
        r == ci_seq_eq(a@, b@),
{
    let n: usize = a.len();
    if n != b.len() {
        return false;
    }
    let mut i: usize = 0;
    while i < n
        invariant
            i <= n,
            n == a@.len(),
            n == b@.len(),
            forall|k: int| 0 <= k < i ==> crate::text::ci_eq(a@[k], b@[k]),
        decreases n - i,
    {
        if !ci_eq_char(a[i], b[i]) {
            return false;
        }
        i = i + 1;
    }
    true
}

/// Decides whether a file name matches a directory-import pattern.
#[verifier::loop_isolation(false)]
pub fn matches_pattern(filename: &str, pattern: &str) -> (r: bool)
    ensures
        r == spec_matches_pattern(filename@, pattern@),
{
    if str_eq(pattern, "*") || str_eq(pattern, "*.*") {
        return true;
    }
    let f = chars_of(filename);
    let p = chars_of(pattern);
    let pn: usize = p.len();
    let fn_len: usize = f.len();
    if pn >= 2 && p[0] == '*' && p[1] == '.' {
        let ext = ext_of(&f);
        let mut tail: Vec<char> = Vec::new();
        let mut i: usize = 2;
        while i < pn
            invariant
                2 <= i <= pn,
                tail@ == p@.subrange(2, i as int),
            decreases pn - i,
        {
            tail.push(p[i]);
            i = i + 1;
            proof {
                assert(tail@ =~= p@.subrange(2, i as int));
            }
        }
        proof {
            assert(tail@ =~= p@.skip(2));
        }
        return ci_eq_chars(&ext, &tail);
    }
    if pn >= 1 && p[pn - 1] == '*' {
        if fn_len < pn - 1 {
            return false;
        }
        let mut i: usize = 0;
        while i < pn - 1
            invariant
                i <= pn - 1,
                forall|k: int| 0 <= k < i ==> f@[k] == p@[k],
            decreases pn - 1 - i,
        {
            if f[i] != p[i] {
                proof {
                    assert(f@.take(pn - 1)[i as int] != p@.drop_last()[i as int]);
                }
                return false;
            }
            i = i + 1;
        }
        proof {
            assert(f@.take(pn - 1) =~= p@.drop_last());
        }
        return true;
    }
    if pn >= 1 && p[0] == '*' {
        if fn_len < pn - 1 {
            return false;
        }
        let off: usize = fn_len - (pn - 1);
        let mut i: usize = 0;
        while i < pn - 1
            invariant
                i <= pn - 1,
                off == fn_len - (pn - 1),
                forall|k: int|
                    0 <= k < i ==> (#[trigger] f@.skip(off as int)[k]) == p@.skip(1)[k],
            decreases pn - 1 - i,
        {
            if f[off + i] != p[1 + i] {
                proof {
                    assert(f@.skip(off as int)[i as int] == f@[off + i]);
                    assert(p@.skip(1)[i as int] == p@[1 + i]);
                }
                return false;
            }
            i = i + 1;
            proof {
                assert(f@.skip(off as int)[i - 1] == f@[off + i - 1]);
                assert(p@.skip(1)[i - 1] == p@[1 + i - 1]);
            }
        }
        proof {
            assert(f@.skip(off as int) =~= p@.skip(1));
        }
        return true;
    }
    str_eq(filename, pattern)
}

/// The index of the first `:`, or the length when there is none.
pub open spec fn spec_colon_cut(u: Seq<char>) -> int
    decreases u.len(),
{
    if u.len() == 0 {
        0
    } else if u[0] == ':' {
        0
    } else {
        1 + spec_colon_cut(u.drop_first())
    }
}

/// The display prefix of a key: everything before the first `:`, capped at
/// 15 characters.
pub open spec fn spec_display_prefix(u: Seq<char>) -> Seq<char> {
    let cut = if spec_colon_cut(u) < 15 {
        spec_colon_cut(u)
    } else {
        15
    };
    u.take(cut)
}

/// Shortens a key for tabular display: the part before the first `:`,
/// capped at 15 characters.
#[verifier::loop_isolation(false)]
pub fn extract_binary_from_uid(uid: &str) -> (r: String)
    ensures
        r@ == spec_display_prefix(uid@),
{
    let u = chars_of(uid);
    let n: usize = u.len();
    let mut i: usize = 0;
    proof {
        assert(u@.skip(0) =~= u@);
    }
    while i < n && u[i] != ':'
        invariant
            i <= n,
            n == u@.len(),
            spec_colon_cut(u@) == i + spec_colon_cut(u@.skip(i as int)),
            forall|k: int| 0 <= k < i ==> u@[k] != ':',
        decreases n - i,
    {
        proof {
            assert(u@.skip(i as int)[0] == u@[i as int]);
            assert(u@.skip(i as int).drop_first() =~= u@.skip(i as int + 1));
        }
        i = i + 1;
    }
    proof {
        if i < n {
            assert(u@.skip(i as int)[0] == u@[i as int]);
        } else {
            assert(u@.skip(i as int) =~= Seq::<char>::empty());
        }
        assert(spec_colon_cut(u@) == i);
    }
    let cut: usize = if i < 15 {
        i
    } else {
        15
    };
    let mut out: Vec<char> = Vec::new();
    let mut j: usize = 0;
    while j < cut
        invariant
            j <= cut,
            cut <= n,
            n == u@.len(),
            out@ == u@.subrange(0, j as int),
        decreases cut - j,
    {
        out.push(u[j]);
        j = j + 1;
        proof {
            assert(out@ =~= u@.subrange(0, j as int));
        }
    }
    proof {
        assert(out@ =~= spec_display_prefix(uid@));
    }
    string_of_chars(&out)
}

} // verus!

//! Glob-style pattern matching over key names: `*` matches any run of
//! characters (possibly empty), `?` matches exactly one character, and any
//! other character matches itself.

use vstd::prelude::*;

verus! {

/// Whether pattern `p` matches the whole string `s`.
pub open spec fn glob_match(p: Seq<char>, s: Seq<char>) -> bool
    decreases p.len() + s.len(),
{
    if p.len() == 0 {
        s.len() == 0
    } else if p[0] == '*' {
        glob_match(p.drop_first(), s) || (s.len() > 0 && glob_match(p, s.drop_first()))
    } else {
        s.len() > 0 && (p[0] == '?' || p[0] == s[0]) && glob_match(
            p.drop_first(),
            s.drop_first(),
        )
    }
}

fn match_from(p: &Vec<char>, s: &Vec<char>, i: usize, j: usize) -> (r: bool)
    requires
        i <= p.len(),
        j <= s.len(),
    ensures
        r == glob_match(
            p@.subrange(i as int, p@.len() as int),
            s@.subrange(j as int, s@.len() as int),
        ),
    decreases p.len() - i + s.len() - j,
{
    let ghost pp = p@.subrange(i as int, p@.len() as int);
    let ghost ss = s@.subrange(j as int, s@.len() as int);
    if i == p.len() {
        proof {
            assert(pp.len() == 0);
        }
        j == s.len()
    } else if p[i] == '*' {
        proof {
            assert(pp[0] == p@[i as int]);
            assert(pp.drop_first() =~= p@.subrange(i + 1, p@.len() as int));
            assert(ss.len() > 0 ==> ss.drop_first() =~= s@.subrange(j + 1, s@.len() as int));
        }
        if match_from(p, s, i + 1, j) {
            true
        } else if j < s.len() {
            match_from(p, s, i, j + 1)
        } else {
            false
        }
    } else {
        proof {
            assert(pp[0] == p@[i as int]);
            assert(pp.drop_first() =~= p@.subrange(i + 1, p@.len() as int));
            assert(ss.len() > 0 ==> ss[0] == s@[j as int]);
            assert(ss.len() > 0 ==> ss.drop_first() =~= s@.subrange(j + 1, s@.len() as int));
        }
        if j == s.len() {
            false
        } else if p[i] == '?' || p[i] == s[j] {
            match_from(p, s, i + 1, j + 1)
        } else {
            false
        }
    }
}

/// Whether the glob `pattern` matches all of `s`.
pub fn matches_pattern(pattern: &str, s: &str) -> (r: bool)
    ensures
        r == glob_match(pattern@, s@),
{
    let p = crate::strutil::chars_of(pattern);
    let t = crate::strutil::chars_of(s);
    let r = match_from(&p, &t, 0, 0);
    proof {
        assert(p@.subrange(0, p@.len() as int) =~= pattern@);
        assert(t@.subrange(0, t@.len() as int) =~= s@);
    }
    r
}

} // verus!

//! Small string helpers shared by the rest of the library: character-level
//! string access, equality, and decimal formatting/parsing with exact
//! specifications.

use vstd::prelude::*;

verus! {

/// Relies on std's String::push: appends one character to the string.
#[verifier::external_body]
pub fn push_char(s: &mut String, c: char)
    ensures
        final(s)@ == old(s)@.push(c),
{
    s.push(c);
}

/// String equality on character sequences.
pub fn str_eq(a: &str, b: &str) -> (r: bool)
    ensures
        r == (a@ == b@),
{
    let x: String = a.to_owned();
    let y: String = b.to_owned();
    x == y
}

/// The characters of `s`, as a vector.
pub fn chars_of(s: &str) -> (r: Vec<char>)
    ensures
        r@ == s@,
{
    let n = s.unicode_len();
    let mut r: Vec<char> = Vec::new();
    let mut i: usize = 0;
    while i < n
        invariant
            n == s@.len(),
            i <= n,
            r@ == s@.subrange(0, i as int),
        decreases n - i,
    {
        r.push(s.get_char(i));
        i = i + 1;
    }
    proof {
        assert(s@.subrange(0, n as int) =~= s@);
    }
    r
}

/// The character for a single decimal digit.
pub open spec fn digit_char(d: int) -> char {
    ((d + 48) as u8) as char
}

/// The decimal representation of `n`, most significant digit first,
/// without sign or leading zeros (`0` is rendered as "0").
pub open spec fn spec_dec(n: nat) -> Seq<char>
    decreases n,
{
    if n < 10 {
        seq![digit_char(n as int)]
    } else {
        spec_dec(n / 10).push(digit_char((n % 10) as int))
    }
}

fn digit_of(d: u8) -> (c: char)
    requires
        d < 10,
    ensures
        c == digit_char(d as int),
{
    (d + 48) as char
}

/// Renders `n` in decimal.
pub fn u64_to_string(n: u64) -> (r: String)
    ensures
        r@ == spec_dec(n as nat),
    decreases n,
{
    if n < 10 {
        let mut s = String::new();
        push_char(&mut s, digit_of(n as u8));
        s
    } else {
        let mut s = u64_to_string(n / 10);
        push_char(&mut s, digit_of((n % 10) as u8));
        s
    }
}

/// Whether every character of `s` is a decimal digit (and `s` is nonempty).
pub open spec fn all_digits(s: Seq<char>) -> bool {
    s.len() > 0 && forall|i: int| 0 <= i < s.len() ==> '0' <= #[trigger] s[i] <= '9'
}

/// The value of a digit string, most significant digit first.
pub open spec fn digits_val(s: Seq<char>) -> int
    decreases s.len(),
{
    if s.len() == 0 {
        0
    } else {
        digits_val(s.drop_last()) * 10 + (s.last() as int - 48)
    }
}

/// What Rust's integer parsing accepts for `i64`: an optional sign
/// followed by one or more decimal digits, denoting a value in range.
pub open spec fn spec_parse_i64(s: Seq<char>) -> Option<int> {
    let negative = s.len() > 0 && s[0] == '-';
    let body = if s.len() > 0 && (s[0] == '-' || s[0] == '+') {
        s.drop_first()
    } else {
        s
    };
    if all_digits(body) {
        let v = if negative {
            -digits_val(body)
        } else {
            digits_val(body)
        };
        if i64::MIN <= v <= i64::MAX {
            Some(v)
        } else {
            None
        }
    } else {
        None
    }
}

proof fn lemma_digits_val_step(s: Seq<char>, i: int)
    requires
        0 <= i < s.len(),
    ensures
        digits_val(s.subrange(0, i + 1)) == digits_val(s.subrange(0, i)) * 10 + (s[i] as int
            - 48),
{
    assert(s.subrange(0, i + 1).drop_last() =~= s.subrange(0, i));
    assert(s.subrange(0, i + 1).last() == s[i]);
}

proof fn lemma_digits_val_nonneg(s: Seq<char>)
    requires
        forall|i: int| 0 <= i < s.len() ==> '0' <= #[trigger] s[i] <= '9',
    ensures
        digits_val(s) >= 0,
    decreases s.len(),
{
    if s.len() > 0 {
        lemma_digits_val_nonneg(s.drop_last());
        assert(digits_val(s.drop_last()) * 10 >= 0) by (nonlinear_arith)
            requires
                digits_val(s.drop_last()) >= 0,
        ;
        assert(s.last() == s[s.len() - 1]);
    }
}

proof fn lemma_digits_val_grows(s: Seq<char>, i: int)
    requires
        0 <= i <= s.len(),
        all_digits(s),
    ensures
        digits_val(s) >= digits_val(s.subrange(0, i)),
    decreases s.len() - i,
{
    if i == s.len() {
        assert(s.subrange(0, i) =~= s);
    } else {
        lemma_digits_val_step(s, i);
        assert(forall|j: int|
            0 <= j < s.subrange(0, i).len() ==> '0' <= #[trigger] s.subrange(0, i)[j] <= '9');
        lemma_digits_val_nonneg(s.subrange(0, i));
        assert(digits_val(s.subrange(0, i + 1)) >= digits_val(s.subrange(0, i))) by {
            assert(digits_val(s.subrange(0, i)) * 10 >= digits_val(s.subrange(0, i))) by (
            nonlinear_arith)
                requires
                    digits_val(s.subrange(0, i)) >= 0,
            ;
        }
        lemma_digits_val_grows(s, i + 1);
    }
}

/// Parses a decimal integer, accepting exactly what Rust's `i64` parsing
/// accepts: an optional `+` or `-` sign followed by decimal digits.
pub fn parse_i64(s: &str) -> (r: Option<i64>)
    ensures
        match r {
            Some(v) => spec_parse_i64(s@) == Some(v as int),
            None => spec_parse_i64(s@) is None,
        },
{
    let cs = chars_of(s);
    let n = cs.len();
    let (negative, start): (bool, usize) = if n > 0 && cs[0] == '-' {
        (true, 1)
    } else if n > 0 && cs[0] == '+' {
        (false, 1)
    } else {
        (false, 0)
    };
    let ghost body = if start == 1 {
        s@.drop_first()
    } else {
        s@
    };
    if n == start {
        // empty digit part
        assert(!all_digits(body));
        return None;
    }
    let mut acc: u64 = 0;
    let mut i: usize = start;
    while i < n
        invariant
            cs@ == s@,
            start <= i <= n,
            n == cs.len(),
            start <= 1,
            (start == 1) == (s@.len() > 0 && (s@[0] == '-' || s@[0] == '+')),
            negative == (s@.len() > 0 && s@[0] == '-'),
            body == (if start == 1 {
                s@.drop_first()
            } else {
                s@
            }),
            forall|j: int| start <= j < i ==> '0' <= #[trigger] cs@[j] <= '9',
            acc == digits_val(body.subrange(0, i - start)),
            digits_val(body.subrange(0, i - start)) >= 0,
        decreases n - i,
    {
        let c = cs[i];
        if !('0' <= c && c <= '9') {
            proof {
                assert(body[i - start] == s@[i as int]);
                assert(!all_digits(body));
            }
            return None;
        }
        let d: u64 = (c as u32 as u64) - 48;
        proof {
            lemma_digits_val_step(body, i - start);
        }
        let next = match acc.checked_mul(10) {
            Some(x) => x.checked_add(d),
            None => None,
        };
        match next {
            Some(x) => {
                acc = x;
            },
            None => {
                // The prefix already exceeds u64::MAX, so the full value is
                // out of range for i64 whatever follows.
                proof {
                    if all_digits(body) {
                        lemma_digits_val_grows(body, i + 1 - start);
                        assert(digits_val(body) > u64::MAX);
                    }
                }
                return None;
            },
        }
        i = i + 1;
    }
    proof {
        assert(body.subrange(0, n - start) =~= body);
        assert(all_digits(body));
    }
    if negative {
        if acc <= 0x7fff_ffff_ffff_ffff {
            Some(-(acc as i64))
        } else if acc == 0x8000_0000_0000_0000 {
            Some(i64::MIN)
        } else {
            None
        }
    } else {
        if acc <= 0x7fff_ffff_ffff_ffff {
            Some(acc as i64)
        } else {
            None
        }
    }
}

} // verus!

//! Small helpers: random string generation and collection checks.

use vstd::prelude::*;
use vstd::std_specs::cmp::PartialEqSpec;

use rand::RngExt;

verus! {

/// Whether `c` is an ASCII letter or digit.
pub open spec fn is_alnum_char(c: char) -> bool {
    ('a' <= c && c <= 'z') || ('A' <= c && c <= 'Z') || ('0' <= c && c <= '9')
}

/// Relies on rand's Alphanumeric distribution with SampleString: `n`
/// characters drawn from A-Z, a-z and 0-9.
#[verifier::external_body]
pub fn rand_string(n: usize) -> (r: String)
    ensures
        r@.len() == n as int,
        forall|i: int| 0 <= i < r@.len() ==> is_alnum_char(#[trigger] r@[i]),
{
    rand::distr::SampleString::sample_string(&rand::distr::Alphanumeric, &mut rand::rng(), n)
}

/// Relies on rand's StandardUniform distribution: `n` random bytes.
#[verifier::external_body]
fn rand_bytes(n: usize) -> (r: Vec<u8>)
    ensures
        r@.len() == n as int,
{
    let mut rng = rand::rng();
    let mut out: Vec<u8> = Vec::with_capacity(n);
    while out.len() < n {
        out.push(rng.random::<u8>());
    }
    out
}

/// Relies on hex::encode: each input byte becomes two lowercase hex digits.
#[verifier::external_body]
fn encode_hex(bytes: &Vec<u8>) -> (r: String)
    ensures
        r@.len() == 2 * bytes@.len(),
        forall|i: int|
            0 <= i < r@.len() ==> ('0' <= #[trigger] r@[i] && r@[i] <= '9') || ('a' <= r@[i]
                && r@[i] <= 'f'),
{
    hex::encode(bytes)
}

/// A random hex string of `n / 2` byte pairs (`n` characters for even `n`).
pub fn rand_string_hex(n: usize) -> (r: String)
    ensures
        r@.len() == 2 * ((n as int) / 2),
        forall|i: int|
            0 <= i < r@.len() ==> ('0' <= #[trigger] r@[i] && r@[i] <= '9') || ('a' <= r@[i]
                && r@[i] <= 'f'),
{
    let bytes = rand_bytes(n / 2);
    encode_hex(&bytes)
}

/// Relies on rand's Uniform character distribution over a half-open range:
/// `n` printable ASCII characters, `!` (33) through `}` (125).
#[verifier::external_body]
pub fn rand_string_all(n: usize) -> (r: String)
    ensures
        r@.len() == n as int,
        forall|i: int| 0 <= i < r@.len() ==> 33 <= (#[trigger] r@[i]) as int <= 125,
{
    let d = rand::distr::Uniform::new(char::from(33u8), char::from(126u8)).unwrap();
    let mut rng = rand::rng();
    let mut out = String::with_capacity(n);
    while out.chars().count() < n {
        out.push(rng.sample(d));
    }
    out
}

/// Whether a slice of strings holds pairwise distinct values.
pub fn is_unique(items: &[String]) -> (r: bool)
    ensures
        r == forall|i: int, j: int| 0 <= i < j < items@.len() ==> items@[i]@ != items@[j]@,
{
    let n = items.len();
    let mut i: usize = 0;
    while i < n
        invariant
            n == items@.len(),
            i <= n,
            forall|a: int, b: int| 0 <= a < b < n && a < i ==> items@[a]@ != items@[b]@,
        decreases n - i,
    {
        let mut j: usize = i + 1;
        while j < n
            invariant
                n == items@.len(),
                i < j <= n || (i + 1 == j && j > n),
                i < n,
                forall|b: int| i < b < j ==> items@[i as int]@ != items@[b]@,
            decreases n - j,
        {
            if crate::strutil::str_eq(items[i].as_str(), items[j].as_str()) {
                return false;
            }
            j = j + 1;
        }
        i = i + 1;
    }
    true
}

/// Whether `t` equals its type's default value. The result is pinned only
/// for types whose `==` obeys its specification.
pub fn is_default<T: Default + PartialEq>(t: &T) -> (r: bool)
    ensures
        exists|d: T|
            #[trigger] call_ensures(T::default, (), d) && (<T as PartialEqSpec<
                T,
            >>::obeys_eq_spec() ==> r == t.eq_spec(&d)),
{
    let d = T::default();
    *t == d
}

} // verus!

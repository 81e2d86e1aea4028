//! Serialization of session state as a JSON object of string-to-string
//! pairs, with a verified round trip: decoding an encoded state yields the
//! original pairs.
//!
//! The encoder escapes the quote and the backslash, names the newline,
//! carriage return and tab escapes, and writes every other control
//! character as a `\u00..` escape; the decoder accepts exactly the
//! encoder's output, and anything else reads as absent (the session layer
//! treats a state that fails to decode as lost, never as an error).

use vstd::prelude::*;

use crate::strutil::{chars_of, push_char};

verus! {

/// The escape tag for a character that needs one.
pub open spec fn esc_tag(c: char) -> Option<char> {
    if c == '"' {
        Some('"')
    } else if c == '\\' {
        Some('\\')
    } else if c == '\n' {
        Some('n')
    } else if c == '\r' {
        Some('r')
    } else if c == '\t' {
        Some('t')
    } else {
        None
    }
}

/// The character denoted by an escape tag.
pub open spec fn unesc_tag(c: char) -> Option<char> {
    if c == '"' {
        Some('"')
    } else if c == '\\' {
        Some('\\')
    } else if c == 'n' {
        Some('\n')
    } else if c == 'r' {
        Some('\r')
    } else if c == 't' {
        Some('\t')
    } else {
        None
    }
}

/// The lowercase hex digit for a value below sixteen.
pub open spec fn hex_digit(d: int) -> char {
    if d < 10 {
        ((d + 48) as u8) as char
    } else {
        ((d + 87) as u8) as char
    }
}

/// The value of a lowercase hex digit, if the character is one.
pub open spec fn hex_val(c: char) -> Option<int> {
    if '0' <= c && c <= '9' {
        Some(c as int - 48)
    } else if 'a' <= c && c <= 'f' {
        Some(c as int - 87)
    } else {
        None
    }
}

/// How one character is written inside a JSON string literal: the named
/// escapes first, a `\u00..` escape for the remaining control characters,
/// and everything else verbatim.
pub open spec fn esc_char(c: char) -> Seq<char> {
    match esc_tag(c) {
        Some(t) => seq!['\\', t],
        None => if (c as int) < 32 {
            seq!['\\', 'u', '0', '0', hex_digit(c as int / 16), hex_digit(c as int % 16)]
        } else {
            seq![c]
        },
    }
}

/// How a whole string is written inside a JSON string literal.
pub open spec fn esc(s: Seq<char>) -> Seq<char>
    decreases s.len(),
{
    if s.len() == 0 {
        Seq::empty()
    } else {
        esc_char(s[0]) + esc(s.drop_first())
    }
}

/// One encoded key/value pair: `"key":"value"`.
pub open spec fn enc_pair(p: (Seq<char>, Seq<char>)) -> Seq<char> {
    seq!['"'] + esc(p.0) + seq!['"', ':', '"'] + esc(p.1) + seq!['"']
}

/// The encoded pair list, comma-separated.
pub open spec fn enc_pairs(ps: Seq<(Seq<char>, Seq<char>)>) -> Seq<char>
    decreases ps.len(),
{
    if ps.len() == 0 {
        Seq::empty()
    } else if ps.len() == 1 {
        enc_pair(ps[0])
    } else {
        enc_pair(ps[0]) + seq![','] + enc_pairs(ps.drop_first())
    }
}

/// The full encoding: a JSON object of the pairs, in order.
pub open spec fn enc_state(ps: Seq<(Seq<char>, Seq<char>)>) -> Seq<char> {
    seq!['{'] + enc_pairs(ps) + seq!['}']
}

/// Decodes a string-literal body starting at `i` (just past the opening
/// quote): the string's characters and the position just past the closing
/// quote.
pub open spec fn dec_string(s: Seq<char>, i: int) -> Option<(Seq<char>, int)>
    decreases s.len() - i,
{
    if i < 0 || i >= s.len() {
        None
    } else if s[i] == '"' {
        Some((Seq::empty(), i + 1))
    } else if s[i] == '\\' {
        if i + 1 < s.len() && s[i + 1] == 'u' {
            if i + 5 < s.len() && s[i + 2] == '0' && s[i + 3] == '0' && hex_val(s[i + 4]) is Some
                && hex_val(s[i + 5]) is Some {
                match dec_string(s, i + 6) {
                    Some((t, j)) => Some(
                        (seq![((hex_val(s[i + 4])->0 * 16 + hex_val(s[i + 5])->0) as u8) as char]
                            + t, j),
                    ),
                    None => None,
                }
            } else {
                None
            }
        } else if i + 1 < s.len() {
            match unesc_tag(s[i + 1]) {
                Some(c) => match dec_string(s, i + 2) {
                    Some((t, j)) => Some((seq![c] + t, j)),
                    None => None,
                },
                None => None,
            }
        } else {
            None
        }
    } else {
        match dec_string(s, i + 1) {
            Some((t, j)) => Some((seq![s[i]] + t, j)),
            None => None,
        }
    }
}

/// Decodes `"key":"value"` starting at `i`: the pair and the position just
/// past it.
pub open spec fn dec_pair(s: Seq<char>, i: int) -> Option<((Seq<char>, Seq<char>), int)> {
    if 0 <= i < s.len() && s[i] == '"' {
        match dec_string(s, i + 1) {
            Some((k, j)) => if j + 1 < s.len() && s[j] == ':' && s[j + 1] == '"' {
                match dec_string(s, j + 2) {
                    Some((v, j2)) => Some(((k, v), j2)),
                    None => None,
                }
            } else {
                None
            },
            None => None,
        }
    } else {
        None
    }
}

/// Decodes a non-empty comma-separated pair list starting at `i`, up to the
/// closing brace at the very end of `s`.
pub open spec fn dec_pairs(s: Seq<char>, i: int) -> Option<Seq<(Seq<char>, Seq<char>)>>
    decreases s.len() - i,
{
    match dec_pair(s, i) {
        Some((p, j)) => if j == s.len() - 1 && s[j] == '}' {
            Some(seq![p])
        } else if j < s.len() && s[j] == ',' && j > i {
            match dec_pairs(s, j + 1) {
                Some(ps) => Some(seq![p] + ps),
                None => None,
            }
        } else {
            None
        },
        None => None,
    }
}

/// Decodes a whole state: `{}` or `{pairs}`, consuming all of `s`.
pub open spec fn dec_state(s: Seq<char>) -> Option<Seq<(Seq<char>, Seq<char>)>> {
    if s.len() >= 2 && s[0] == '{' && s.last() == '}' {
        if s.len() == 2 {
            Some(Seq::empty())
        } else {
            dec_pairs(s, 1)
        }
    } else {
        None
    }
}

/// The character-sequence views of a pair list.
pub open spec fn pair_views(s: Seq<(String, String)>) -> Seq<(Seq<char>, Seq<char>)> {
    s.map_values(|p: (String, String)| (p.0@, p.1@))
}

proof fn lemma_esc_snoc(s: Seq<char>, c: char)
    ensures
        esc(s.push(c)) == esc(s) + esc_char(c),
    decreases s.len(),
{
    if s.len() == 0 {
        assert(s.push(c)[0] == c);
        assert(s.push(c).drop_first() =~= Seq::<char>::empty());
        assert(esc(s.push(c).drop_first()) =~= Seq::<char>::empty());
        assert(esc(s.push(c)) =~= esc_char(c));
        assert(esc(s) + esc_char(c) =~= esc_char(c));
    } else {
        assert(s.push(c)[0] == s[0]);
        assert(s.push(c).drop_first() =~= s.drop_first().push(c));
        lemma_esc_snoc(s.drop_first(), c);
        assert(esc(s.push(c)) =~= esc(s) + esc_char(c));
    }
}

proof fn lemma_char_bounds(c: char)
    ensures
        0 <= c as int,
        ((c as u32) as int) == c as int,
{
}

fn esc_tag_exec(c: char) -> (r: Option<char>)
    ensures
        r == esc_tag(c),
{
    if c == '"' {
        Some('"')
    } else if c == '\\' {
        Some('\\')
    } else if c == '\n' {
        Some('n')
    } else if c == '\r' {
        Some('r')
    } else if c == '\t' {
        Some('t')
    } else {
        None
    }
}

fn hex_digit_of(d: u8) -> (c: char)
    requires
        d < 16,
    ensures
        c == hex_digit(d as int),
{
    if d < 10 {
        (d + 48) as char
    } else {
        (d + 87) as char
    }
}

fn hex_val_of(c: char) -> (r: Option<u8>)
    ensures
        match r {
            Some(v) => hex_val(c) == Some(v as int) && v < 16,
            None => hex_val(c) is None,
        },
{
    proof {
        lemma_char_bounds(c);
    }
    if '0' <= c && c <= '9' {
        Some((c as u8) - 48)
    } else if 'a' <= c && c <= 'f' {
        Some((c as u8) - 87)
    } else {
        None
    }
}

/// Appends the escaped form of `s` to `out`.
fn push_escaped(out: &mut String, s: &str)
    ensures
        final(out)@ == old(out)@ + esc(s@),
{
    let cs = chars_of(s);
    let n = cs.len();
    let mut i: usize = 0;
    proof {
        assert(s@.subrange(0, 0) =~= Seq::<char>::empty());
        assert(out@ =~= old(out)@ + esc(s@.subrange(0, 0)));
    }
    while i < n
        invariant
            cs@ == s@,
            n == s@.len(),
            i <= n,
            out@ == old(out)@ + esc(s@.subrange(0, i as int)),
        decreases n - i,
    {
        let c = cs[i];
        proof {
            lemma_char_bounds(c);
            assert(s@.subrange(0, i + 1) =~= s@.subrange(0, i as int).push(c));
            lemma_esc_snoc(s@.subrange(0, i as int), c);
        }
        match esc_tag_exec(c) {
            Some(t) => {
                push_char(out, '\\');
                push_char(out, t);
            },
            None => {
                if (c as u32) < 32 {
                    proof {
                        lemma_char_bounds(c);
                    }
                    let c32 = c as u32;
                    let code = c32 as u8;
                    push_char(out, '\\');
                    push_char(out, 'u');
                    push_char(out, '0');
                    push_char(out, '0');
                    push_char(out, hex_digit_of(code / 16));
                    push_char(out, hex_digit_of(code % 16));
                    proof {
                        assert(c32 as int == c as int);
                        assert(code as int == c as int);
                        assert(esc_char(c) =~= seq![
                            '\\',
                            'u',
                            '0',
                            '0',
                            hex_digit(c as int / 16),
                            hex_digit(c as int % 16),
                        ]);
                    }
                } else {
                    push_char(out, c);
                }
            },
        }
        proof {
            assert(out@ =~= old(out)@ + esc(s@.subrange(0, i + 1)));
        }
        i = i + 1;
    }
    proof {
        assert(s@.subrange(0, n as int) =~= s@);
    }
}

/// Encodes a pair list as a JSON object of string pairs, in order.
pub fn encode_pairs(entries: &Vec<(String, String)>) -> (r: String)
    ensures
        r@ == enc_state(pair_views(entries@)),
{
    let mut out = String::new();
    push_char(&mut out, '{');
    let n = entries.len();
    let mut i: usize = 0;
    proof {
        assert(out@ =~= seq!['{'] + enc_pairs(pair_views(entries@).subrange(0, 0)));
    }
    while i < n
        invariant
            n == entries@.len(),
            i <= n,
            out@ == seq!['{'] + enc_pairs(pair_views(entries@).subrange(0, i as int)),
        decreases n - i,
    {
        if i > 0 {
            push_char(&mut out, ',');
        }
        push_char(&mut out, '"');
        push_escaped(&mut out, entries[i].0.as_str());
        push_char(&mut out, '"');
        push_char(&mut out, ':');
        push_char(&mut out, '"');
        push_escaped(&mut out, entries[i].1.as_str());
        push_char(&mut out, '"');
        proof {
            let ps = pair_views(entries@);
            lemma_enc_pairs_snoc(ps.subrange(0, i as int), ps[i as int]);
            assert(ps.subrange(0, i + 1) =~= ps.subrange(0, i as int).push(ps[i as int]));
            assert(enc_pair(ps[i as int]) =~= seq!['"'] + esc(entries@[i as int].0@) + seq![
                '"',
                ':',
                '"',
            ] + esc(entries@[i as int].1@) + seq!['"']);
            assert(out@ =~= seq!['{'] + enc_pairs(ps.subrange(0, i + 1)));
        }
        i = i + 1;
    }
    push_char(&mut out, '}');
    proof {
        assert(pair_views(entries@).subrange(0, n as int) =~= pair_views(entries@));
        assert(out@ =~= enc_state(pair_views(entries@)));
    }
    out
}

proof fn lemma_enc_pairs_snoc(ps: Seq<(Seq<char>, Seq<char>)>, p: (Seq<char>, Seq<char>))
    ensures
        enc_pairs(ps.push(p)) == enc_pairs(ps) + (if ps.len() == 0 {
            Seq::<char>::empty()
        } else {
            seq![',']
        }) + enc_pair(p),
    decreases ps.len(),
{
    if ps.len() == 0 {
        assert(ps.push(p)[0] == p);
        assert(ps.push(p).len() == 1);
        assert(enc_pairs(ps.push(p)) =~= enc_pairs(ps) + Seq::<char>::empty() + enc_pair(p));
    } else {
        assert(ps.push(p)[0] == ps[0]);
        assert(ps.push(p).drop_first() =~= ps.drop_first().push(p));
        lemma_enc_pairs_snoc(ps.drop_first(), p);
        if ps.len() == 1 {
            assert(ps.drop_first().len() == 0);
            assert(enc_pairs(ps.push(p)) =~= enc_pairs(ps) + seq![','] + enc_pair(p));
        } else {
            assert(enc_pairs(ps.push(p)) =~= enc_pairs(ps) + seq![','] + enc_pair(p));
        }
    }
}

fn unesc_tag_exec(c: char) -> (r: Option<char>)
    ensures
        r == unesc_tag(c),
{
    if c == '"' {
        Some('"')
    } else if c == '\\' {
        Some('\\')
    } else if c == 'n' {
        Some('\n')
    } else if c == 'r' {
        Some('\r')
    } else if c == 't' {
        Some('\t')
    } else {
        None
    }
}

fn dec_string_exec(cs: &Vec<char>, i: usize) -> (r: Option<(String, usize)>)
    ensures
        match r {
            Some(p) => dec_string(cs@, i as int) == Some((p.0@, p.1 as int)) && i < p.1
                <= cs@.len(),
            None => dec_string(cs@, i as int) is None,
        },
    decreases cs@.len() - i,
{
    if i >= cs.len() {
        None
    } else if cs[i] == '"' {
        Some((String::new(), i + 1))
    } else if cs[i] == '\\' {
        if i + 1 < cs.len() && cs[i + 1] == 'u' {
            if cs.len() > 5 && i < cs.len() - 5 && cs[i + 2] == '0' && cs[i + 3] == '0' {
                let v1 = match hex_val_of(cs[i + 4]) {
                    Some(v) => v,
                    None => {
                        return None;
                    },
                };
                let v2 = match hex_val_of(cs[i + 5]) {
                    Some(v) => v,
                    None => {
                        return None;
                    },
                };
                match dec_string_exec(cs, i + 6) {
                    Some((t, j)) => {
                        let code: u8 = v1 * 16 + v2;
                        let ch = code as char;
                        let mut out = String::new();
                        push_char(&mut out, ch);
                        out.append(t.as_str());
                        proof {
                            assert(out@ =~= seq![ch] + t@);
                        }
                        Some((out, j))
                    },
                    None => None,
                }
            } else {
                None
            }
        } else if i + 1 < cs.len() {
            match unesc_tag_exec(cs[i + 1]) {
                Some(c) => match dec_string_exec(cs, i + 2) {
                    Some((t, j)) => {
                        let mut out = String::new();
                        push_char(&mut out, c);
                        out.append(t.as_str());
                        proof {
                            assert(out@ =~= seq![c] + t@);
                        }
                        Some((out, j))
                    },
                    None => None,
                },
                None => None,
            }
        } else {
            None
        }
    } else {
        match dec_string_exec(cs, i + 1) {
            Some((t, j)) => {
                let mut out = String::new();
                push_char(&mut out, cs[i]);
                out.append(t.as_str());
                proof {
                    assert(out@ =~= seq![cs@[i as int]] + t@);
                }
                Some((out, j))
            },
            None => None,
        }
    }
}

fn dec_pair_exec(cs: &Vec<char>, i: usize) -> (r: Option<((String, String), usize)>)
    ensures
        match r {
            Some(p) => dec_pair(cs@, i as int) == Some((((p.0).0@, (p.0).1@), p.1 as int)) && i
                < p.1 <= cs@.len(),
            None => dec_pair(cs@, i as int) is None,
        },
{
    if i < cs.len() && cs[i] == '"' {
        match dec_string_exec(cs, i + 1) {
            Some((k, j)) => {
                if j < cs.len() && cs[j] == ':' && j + 1 < cs.len() && cs[j + 1] == '"' {
                    match dec_string_exec(cs, j + 2) {
                        Some((v, j2)) => Some(((k, v), j2)),
                        None => None,
                    }
                } else {
                    None
                }
            },
            None => None,
        }
    } else {
        None
    }
}

fn dec_pairs_exec(cs: &Vec<char>, i: usize) -> (r: Option<Vec<(String, String)>>)
    ensures
        match r {
            Some(v) => dec_pairs(cs@, i as int) == Some(pair_views(v@)),
            None => dec_pairs(cs@, i as int) is None,
        },
    decreases cs@.len() - i,
{
    match dec_pair_exec(cs, i) {
        Some((p, j)) => {
            if j == cs.len() - 1 && cs[j] == '}' {
                let mut out: Vec<(String, String)> = Vec::new();
                out.push(p);
                proof {
                    assert(pair_views(out@) =~= seq![(out@[0].0@, out@[0].1@)]);
                }
                Some(out)
            } else if j < cs.len() && cs[j] == ',' {
                match dec_pairs_exec(cs, j + 1) {
                    Some(mut ps) => {
                        let ghost rest = ps@;
                        ps.insert(0, p);
                        proof {
                            assert(pair_views(ps@) =~= seq![(ps@[0].0@, ps@[0].1@)] + pair_views(
                                rest,
                            ));
                        }
                        Some(ps)
                    },
                    None => None,
                }
            } else {
                None
            }
        },
        None => None,
    }
}

/// Decodes a JSON object of string pairs; anything else reads as absent.
pub fn decode_pairs(s: &str) -> (r: Option<Vec<(String, String)>>)
    ensures
        match r {
            Some(v) => dec_state(s@) == Some(pair_views(v@)),
            None => dec_state(s@) is None,
        },
{
    let cs = chars_of(s);
    let n = cs.len();
    if n >= 2 && cs[0] == '{' && cs[n - 1] == '}' {
        if n == 2 {
            proof {
                assert(pair_views(Seq::<(String, String)>::empty()) =~= Seq::<
                    (Seq<char>, Seq<char>),
                >::empty());
            }
            Some(Vec::new())
        } else {
            dec_pairs_exec(&cs, 1)
        }
    } else {
        None
    }
}

proof fn lemma_index_of_subrange(s: Seq<char>, a: int, b: int, o: int)
    requires
        0 <= a <= b <= s.len(),
        0 <= o < b - a,
    ensures
        s[a + o] == s.subrange(a, b)[o],
{
}

proof fn lemma_dec_string_of_esc(s: Seq<char>, x: Seq<char>, i: int)
    requires
        0 <= i,
        i + esc(x).len() + 1 <= s.len(),
        s.subrange(i, i + esc(x).len()) == esc(x),
        s[i + esc(x).len()] == '"',
    ensures
        dec_string(s, i) == Some((x, i + esc(x).len() + 1)),
    decreases x.len(),
{
    let xl = esc(x).len() as int;
    if x.len() == 0 {
        assert(s[i] == '"');
    } else {
        let c = x[0];
        let rest = x.drop_first();
        assert(esc(x) == esc_char(c) + esc(rest));
        let el = esc_char(c).len() as int;
        assert(s.subrange(i + el, i + xl) =~= esc(rest)) by {
            assert forall|t: int| 0 <= t < esc(rest).len() implies s.subrange(i + el, i + xl)[t]
                == esc(rest)[t] by {
                lemma_index_of_subrange(s, i + el, i + xl, t);
                lemma_index_of_subrange(s, i, i + xl, el + t);
                assert(esc(x)[el + t] == esc(rest)[t]);
            }
        }
        lemma_dec_string_of_esc(s, rest, i + el);
        match esc_tag(c) {
            Some(tag) => {
                assert(esc_char(c) == seq!['\\', tag]);
                assert(esc(x)[0] == '\\');
                assert(esc(x)[1] == tag);
                lemma_index_of_subrange(s, i, i + xl, 0);
                lemma_index_of_subrange(s, i, i + xl, 1);
                assert(s[i] == '\\');
                assert(s[i + 1] == tag);
                assert(tag != 'u');
                assert(unesc_tag(tag) == Some(c));
                assert(seq![c] + rest =~= x);
            },
            None => {
                lemma_char_bounds(c);
                if (c as int) < 32 {
                    let hi = c as int / 16;
                    let lo = c as int % 16;
                    assert(esc_char(c) == seq!['\\', 'u', '0', '0', hex_digit(hi), hex_digit(lo)]);
                    assert(esc(x)[0] == '\\');
                    assert(esc(x)[1] == 'u');
                    assert(esc(x)[2] == '0');
                    assert(esc(x)[3] == '0');
                    assert(esc(x)[4] == hex_digit(hi));
                    assert(esc(x)[5] == hex_digit(lo));
                    lemma_index_of_subrange(s, i, i + xl, 0);
                    lemma_index_of_subrange(s, i, i + xl, 1);
                    lemma_index_of_subrange(s, i, i + xl, 2);
                    lemma_index_of_subrange(s, i, i + xl, 3);
                    lemma_index_of_subrange(s, i, i + xl, 4);
                    lemma_index_of_subrange(s, i, i + xl, 5);
                    assert(s[i] == '\\');
                    assert(s[i + 1] == 'u');
                    assert(s[i + 2] == '0');
                    assert(s[i + 3] == '0');
                    assert(s[i + 4] == hex_digit(hi));
                    assert(s[i + 5] == hex_digit(lo));
                    assert(0 <= hi < 2 && 0 <= lo < 16);
                    assert(hex_val(hex_digit(hi)) == Some(hi)) by {
                        assert((hi + 48) as u8 as int == hi + 48);
                        assert(hex_digit(hi) as int == hi + 48);
                    }
                    assert(hex_val(hex_digit(lo)) == Some(lo)) by {
                        if lo < 10 {
                            assert((lo + 48) as u8 as int == lo + 48);
                            assert(hex_digit(lo) as int == lo + 48);
                        } else {
                            assert((lo + 87) as u8 as int == lo + 87);
                            assert(hex_digit(lo) as int == lo + 87);
                        }
                    }
                    assert(hi * 16 + lo == c as int);
                    assert((((hi * 16 + lo) as u8) as char) == c);
                    assert(seq![c] + rest =~= x);
                } else {
                    assert(esc_char(c) == seq![c]);
                    assert(esc(x)[0] == c);
                    lemma_index_of_subrange(s, i, i + xl, 0);
                    assert(s[i] == c);
                    assert(c != '"' && c != '\\');
                    assert(seq![c] + rest =~= x);
                }
            },
        }
    }
}

proof fn lemma_dec_pair_of_enc(s: Seq<char>, p: (Seq<char>, Seq<char>), i: int)
    requires
        0 <= i,
        i + enc_pair(p).len() < s.len(),
        s.subrange(i, i + enc_pair(p).len()) == enc_pair(p),
    ensures
        dec_pair(s, i) == Some((p, i + enc_pair(p).len())),
{
    let e = enc_pair(p);
    let el = e.len() as int;
    let kl = esc(p.0).len() as int;
    let vl = esc(p.1).len() as int;
    assert(el == kl + vl + 5);
    assert(e[0] == '"');
    lemma_index_of_subrange(s, i, i + el, 0);
    assert(s[i] == '"');
    // the key literal, then its closing quote
    assert(s.subrange(i + 1, i + 1 + kl) =~= esc(p.0)) by {
        assert forall|t: int| 0 <= t < kl implies s.subrange(i + 1, i + 1 + kl)[t] == esc(p.0)[t]
            by {
            lemma_index_of_subrange(s, i + 1, i + 1 + kl, t);
            lemma_index_of_subrange(s, i, i + el, 1 + t);
            assert(e[1 + t] == esc(p.0)[t]);
        }
    }
    assert(e[1 + kl] == '"');
    lemma_index_of_subrange(s, i, i + el, 1 + kl);
    assert(s[i + 1 + kl] == '"');
    lemma_dec_string_of_esc(s, p.0, i + 1);
    assert(dec_string(s, i + 1) == Some((p.0, i + kl + 2)));
    assert(e[kl + 2] == ':');
    assert(e[kl + 3] == '"');
    lemma_index_of_subrange(s, i, i + el, kl + 2);
    lemma_index_of_subrange(s, i, i + el, kl + 3);
    assert(s[i + (kl + 2)] == ':');
    assert(s[i + (kl + 3)] == '"');
    // the value literal, then its closing quote
    assert(s.subrange(i + kl + 4, i + kl + 4 + vl) =~= esc(p.1)) by {
        assert forall|t: int| 0 <= t < vl implies s.subrange(i + kl + 4, i + kl + 4 + vl)[t]
            == esc(p.1)[t] by {
            lemma_index_of_subrange(s, i + kl + 4, i + kl + 4 + vl, t);
            lemma_index_of_subrange(s, i, i + el, kl + 4 + t);
            assert(e[kl + 4 + t] == esc(p.1)[t]);
        }
    }
    assert(e[kl + 4 + vl] == '"');
    lemma_index_of_subrange(s, i, i + el, kl + 4 + vl);
    assert(s[i + (kl + 4 + vl)] == '"');
    lemma_dec_string_of_esc(s, p.1, i + kl + 4);
    assert(dec_string(s, i + kl + 4) == Some((p.1, i + kl + vl + 5)));
}

proof fn lemma_dec_pairs_of_enc(s: Seq<char>, ps: Seq<(Seq<char>, Seq<char>)>, i: int)
    requires
        0 < ps.len(),
        0 <= i <= s.len(),
        s.subrange(i, s.len() as int) == enc_pairs(ps) + seq!['}'],
    ensures
        dec_pairs(s, i) == Some(ps),
    decreases ps.len(),
{
    let sl = s.len() as int;
    let tail = s.subrange(i, sl);
    assert(tail.len() == enc_pairs(ps).len() + 1);
    let p0 = ps[0];
    let e0 = enc_pair(p0);
    let e0l = e0.len() as int;
    assert(e0l >= 5);
    if ps.len() == 1 {
        assert(enc_pairs(ps) == e0);
        assert(sl == i + e0l + 1);
        assert(s.subrange(i, i + e0l) =~= e0) by {
            assert forall|t: int| 0 <= t < e0l implies s.subrange(i, i + e0l)[t] == e0[t] by {
                lemma_index_of_subrange(s, i, i + e0l, t);
                lemma_index_of_subrange(s, i, sl, t);
                assert(tail[t] == (enc_pairs(ps) + seq!['}'])[t]);
            }
        }
        lemma_dec_pair_of_enc(s, p0, i);
        lemma_index_of_subrange(s, i, sl, e0l);
        assert(tail[e0l] == (enc_pairs(ps) + seq!['}'])[e0l]);
        assert(s[i + e0l] == '}');
        assert(i + e0l == sl - 1);
        assert(seq![p0] =~= ps);
    } else {
        let rest = ps.drop_first();
        assert(enc_pairs(ps) == e0 + seq![','] + enc_pairs(rest));
        assert(s.subrange(i, i + e0l) =~= e0) by {
            assert forall|t: int| 0 <= t < e0l implies s.subrange(i, i + e0l)[t] == e0[t] by {
                lemma_index_of_subrange(s, i, i + e0l, t);
                lemma_index_of_subrange(s, i, sl, t);
                assert(tail[t] == (enc_pairs(ps) + seq!['}'])[t]);
                assert((enc_pairs(ps) + seq!['}'])[t] == enc_pairs(ps)[t]);
                assert(enc_pairs(ps)[t] == e0[t]);
            }
        }
        lemma_dec_pair_of_enc(s, p0, i);
        let j = i + e0l;
        lemma_index_of_subrange(s, i, sl, e0l);
        assert(tail[e0l] == (enc_pairs(ps) + seq!['}'])[e0l]);
        assert((enc_pairs(ps) + seq!['}'])[e0l] == enc_pairs(ps)[e0l]);
        assert(enc_pairs(ps)[e0l] == (e0 + seq![','] + enc_pairs(rest))[e0l]);
        assert(s[j] == ',');
        assert(s.subrange(j + 1, sl) =~= enc_pairs(rest) + seq!['}']) by {
            assert forall|t: int| 0 <= t < sl - j - 1 implies s.subrange(j + 1, sl)[t] == (
            enc_pairs(rest) + seq!['}'])[t] by {
                lemma_index_of_subrange(s, j + 1, sl, t);
                lemma_index_of_subrange(s, i, sl, e0l + 1 + t);
                assert(tail[e0l + 1 + t] == (enc_pairs(ps) + seq!['}'])[e0l + 1 + t]);
                if t < enc_pairs(rest).len() {
                    assert((enc_pairs(ps) + seq!['}'])[e0l + 1 + t] == enc_pairs(ps)[e0l + 1 + t]);
                    assert(enc_pairs(ps)[e0l + 1 + t] == (e0 + seq![','] + enc_pairs(rest))[e0l + 1
                        + t]);
                    assert((e0 + seq![','] + enc_pairs(rest))[e0l + 1 + t] == enc_pairs(rest)[t]);
                } else {
                    assert(e0l + 1 + t == enc_pairs(ps).len());
                }
            }
        }
        lemma_dec_pairs_of_enc(s, rest, j + 1);
        assert(j != sl - 1 || s[j] != '}');
        assert(seq![p0] + rest =~= ps);
    }
}

/// Decoding an encoded state recovers exactly the original pairs: the
/// serialization of session state loses no information.
pub proof fn lemma_state_roundtrip(ps: Seq<(Seq<char>, Seq<char>)>)
    ensures
        dec_state(enc_state(ps)) == Some(ps),
{
    let s = enc_state(ps);
    assert(s[0] == '{');
    assert(s.last() == '}');
    if ps.len() == 0 {
        assert(enc_pairs(ps) =~= Seq::<char>::empty());
        assert(s.len() == 2);
        assert(Seq::<(Seq<char>, Seq<char>)>::empty() =~= ps);
    } else {
        assert(enc_pair(ps[0]).len() >= 5);
        assert(enc_pairs(ps).len() >= 1) by {
            if ps.len() == 1 {
            } else {
            }
        }
        assert(s.len() > 2);
        assert(s.subrange(1, s.len() as int) =~= enc_pairs(ps) + seq!['}']);
        lemma_dec_pairs_of_enc(s, ps, 1);
    }
}

} // verus!

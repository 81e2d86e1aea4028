//! The locale/translation table: maps `locale.key` lookup strings to
//! translated text, falling back to the default locale and finally to the
//! key itself, so a missed lookup surfaces the key instead of failing.

use vstd::prelude::*;

use crate::session::state::{
    lemma_pairs_map_contains, lemma_pairs_map_index, lemma_pairs_map_push, lemma_pairs_map_update,
    pair_keys_unique, pairs_map,
};
use crate::strutil::{push_char, str_eq};

verus! {

/// What `translate` returns: the entry under `locale.key`; on a miss the
/// default locale's entry; and the key itself when even that is missing.
pub open spec fn spec_translate(
    m: Map<Seq<char>, Seq<char>>,
    dflt: Seq<char>,
    locale: Seq<char>,
    key: Seq<char>,
) -> Seq<char>
    decreases (if locale == dflt {
        0int
    } else {
        1int
    }),
{
    let lookup = locale + seq!['.'] + key;
    if m.contains_key(lookup) {
        m[lookup]
    } else if locale == dflt {
        key
    } else {
        spec_translate(m, dflt, dflt, key)
    }
}

/// The translation table and the default locale name.
#[derive(Debug)]
pub struct Locale {
    table: Vec<(String, String)>,
    /// The default locale, the last fallback for every lookup.
    pub default: String,
}

impl View for Locale {
    type V = Map<Seq<char>, Seq<char>>;

    closed spec fn view(&self) -> Map<Seq<char>, Seq<char>> {
        pairs_map(self.table@)
    }
}

impl Locale {
    /// Lookup keys are pairwise distinct.
    pub closed spec fn wf(&self) -> bool {
        pair_keys_unique(self.table@)
    }

    /// The default locale name.
    pub closed spec fn default_locale(&self) -> Seq<char> {
        self.default@
    }

    /// An empty table with the given default locale.
    pub fn new(default: String) -> (r: Locale)
        ensures
            r.wf(),
            r@ == Map::<Seq<char>, Seq<char>>::empty(),
            r.default_locale() == default@,
    {
        Locale { table: Vec::new(), default }
    }

    fn find_index(&self, key: &str) -> (r: Option<usize>)
        ensures
            match r {
                Some(i) => i < self.table@.len() && self.table@[i as int].0@ == key@,
                None => forall|i: int|
                    0 <= i < self.table@.len() ==> (#[trigger] self.table@[i]).0@ != key@,
            },
    {
        let n = self.table.len();
        let mut i: usize = 0;
        while i < n
            invariant
                n == self.table@.len(),
                i <= n,
                forall|j: int| 0 <= j < i ==> (#[trigger] self.table@[j]).0@ != key@,
            decreases n - i,
        {
            if str_eq(self.table[i].0.as_str(), key) {
                return Some(i);
            }
            i = i + 1;
        }
        None
    }

    fn insert_entry(&mut self, key: String, value: String)
        requires
            old(self).wf(),
        ensures
            final(self).wf(),
            final(self)@ == old(self)@.insert(key@, value@),
            final(self).default_locale() == old(self).default_locale(),
    {
        proof {
            lemma_pairs_map_contains(self.table@, key@);
        }
        match self.find_index(key.as_str()) {
            Some(i) => {
                proof {
                    lemma_pairs_map_update(self.table@, i as int, (key, value));
                }
                self.table[i] = (key, value);
            },
            None => {
                proof {
                    lemma_pairs_map_push(self.table@, (key, value));
                }
                self.table.push((key, value));
            },
        }
    }

    /// Adds translation entries, later entries replacing earlier ones with
    /// the same lookup key.
    pub fn add_locale(self, l: Vec<(String, String)>) -> (r: Locale)
        requires
            self.wf(),
        ensures
            r.wf(),
            r@ == insert_all(self@, l@),
            r.default_locale() == self.default_locale(),
    {
        let mut out = self;
        let n = l.len();
        let ghost items = l@;
        let mut l = l;
        let mut i: usize = 0;
        proof {
            assert(items.skip(0) =~= items);
        }
        while i < n
            invariant
                out.wf(),
                n == items.len(),
                i <= n,
                l@ == items,
                out.default_locale() == self.default_locale(),
                insert_all(out@, items.skip(i as int)) == insert_all(self@, items),
            decreases n - i,
        {
            let pk = l[i].0.clone();
            let pv = l[i].1.clone();
            proof {
                assert(items.skip(i as int)[0] == items[i as int]);
                assert(items.skip(i as int).drop_first() =~= items.skip(i + 1));
                assert(pk@ == items[i as int].0@ && pv@ == items[i as int].1@);
            }
            out.insert_entry(pk, pv);
            i = i + 1;
        }
        proof {
            assert(items.skip(n as int) =~= Seq::<(String, String)>::empty());
        }
        out
    }

    /// Translates `key` for `locale`: the entry under `locale.key`, the
    /// default locale's entry on a miss, and `key` verbatim when both are
    /// missing.
    pub fn translate(&self, locale: &str, key: &str) -> (r: String)
        requires
            self.wf(),
        ensures
            r@ == spec_translate(self@, self.default_locale(), locale@, key@),
        decreases (if locale@ == self.default_locale() {
            0int
        } else {
            1int
        }),
    {
        let mut lookup = locale.to_owned();
        push_char(&mut lookup, '.');
        lookup.append(key);
        proof {
            assert(lookup@ =~= locale@ + seq!['.'] + key@);
            lemma_pairs_map_contains(self.table@, lookup@);
        }
        match self.find_index(lookup.as_str()) {
            Some(i) => {
                proof {
                    lemma_pairs_map_index(self.table@, i as int);
                }
                self.table[i].1.clone()
            },
            None => {
                if str_eq(locale, self.default.as_str()) {
                    key.to_owned()
                } else {
                    self.translate(self.default.as_str(), key)
                }
            },
        }
    }
}

/// The map after inserting every pair in `s`, in order (later wins).
pub open spec fn insert_all(m: Map<Seq<char>, Seq<char>>, s: Seq<(String, String)>) -> Map<
    Seq<char>,
    Seq<char>,
>
    decreases s.len(),
{
    if s.len() == 0 {
        m
    } else {
        insert_all(m.insert(s[0].0@, s[0].1@), s.drop_first())
    }
}

} // verus!

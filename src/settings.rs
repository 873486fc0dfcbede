//! Read-only configuration: setting names mapped to string values.

use vstd::prelude::*;
use crate::text::{same_text, split_commas};

verus! {

/// The value of the first entry named `key`, if any.
pub open spec fn lookup(entries: Seq<(Seq<char>, Seq<char>)>, key: Seq<char>) -> Option<Seq<char>>
    decreases entries.len(),
{
    if entries.len() == 0 {
        None
    } else if entries[0].0 == key {
        Some(entries[0].1)
    } else {
        lookup(entries.drop_first(), key)
    }
}

/// `/token/` for a configured token.
pub open spec fn wrap_prefix(t: Seq<char>) -> Seq<char> {
    seq!['/'] + t + seq!['/']
}

/// The path prefixes that a comma-separated value enables: none for an absent or empty value.
pub open spec fn prefixes_of(csv: Option<Seq<char>>) -> Seq<Seq<char>> {
    match csv {
        None => Seq::empty(),
        Some(s) => if s.len() == 0 {
            Seq::empty()
        } else {
            split_commas(s).map_values(|t: Seq<char>| wrap_prefix(t))
        },
    }
}

/// A view of a list of string pairs.
pub open spec fn pairs_view(v: Seq<(String, String)>) -> Seq<(Seq<char>, Seq<char>)> {
    v.map_values(|p: (String, String)| (p.0@, p.1@))
}

/// A view of a list of strings.
pub open spec fn strings_view(v: Seq<String>) -> Seq<Seq<char>> {
    v.map_values(|s: String| s@)
}

/// Name of the setting that lists the YouTube path prefixes.
pub open spec fn prefixes_key() -> Seq<char> {
    seq!['Y', 'O', 'U', 'T', 'U', 'B', 'E', '_', 'P', 'R', 'E', 'F', 'I', 'X', 'E', 'S']
}

/// The configuration, fixed once it is built.
pub struct Settings {
    entries: Vec<(String, String)>,
}

impl View for Settings {
    type V = Seq<(Seq<char>, Seq<char>)>;

    closed spec fn view(&self) -> Seq<(Seq<char>, Seq<char>)> {
        pairs_view(self.entries@)
    }
}

impl Settings {
    /// A configuration with no settings.
    pub fn new() -> (r: Settings)
        ensures
            r@ == Seq::<(Seq<char>, Seq<char>)>::empty(),
    {
        let r = Settings { entries: Vec::new() };
        assert(r@ =~= Seq::<(Seq<char>, Seq<char>)>::empty());
        r
    }

    /// Sets `key` to `value`, replacing an earlier value of it.
    pub fn insert(&mut self, key: String, value: String)
        ensures
            lookup(final(self)@, key@) == Some(value@),
            forall|k: Seq<char>| k != key@ ==> lookup(final(self)@, k) == lookup(old(self)@, k),
    {
        let ghost old_view = self@;
        self.entries.insert(0, (key, value));
        proof {
            assert(self@.drop_first() =~= old_view);
        }
    }

    /// The value of `key`, if it is set.
    pub fn get(&self, key: &str) -> (r: Option<String>)
        ensures
            r matches Some(v) ==> lookup(self@, key@) == Some(v@),
            r is None ==> lookup(self@, key@) is None,
    {
        find_value(&self.entries, key)
    }
}

/// The value of the first pair named `key`, if any.
pub fn find_value(entries: &Vec<(String, String)>, key: &str) -> (r: Option<String>)
    ensures
        r matches Some(v) ==> lookup(pairs_view(entries@), key@) == Some(v@),
        r is None ==> lookup(pairs_view(entries@), key@) is None,
{
    let ghost all = pairs_view(entries@);
    let mut i: usize = 0;
    assert(all.skip(0) =~= all);
    while i < entries.len()
        invariant
            all == pairs_view(entries@),
            i <= entries@.len(),
            lookup(all, key@) == lookup(all.skip(i as int), key@),
        decreases entries@.len() - i,
    {
        let e = &entries[i];
        proof {
            assert(all.skip(i as int)[0] == (e.0@, e.1@));
            assert(all.skip(i as int).drop_first() =~= all.skip(i + 1));
        }
        if same_text(e.0.as_str(), key) {
            return Some(e.1.clone());
        }
        i += 1;
    }
    None
}

/// The YouTube path prefixes that `settings` enables, in configured order.
pub fn enabled_prefixes(settings: &Settings) -> (r: Vec<String>)
    ensures
        strings_view(r@) == prefixes_of(lookup(settings@, prefixes_key())),
{
    let mut prefixes: Vec<String> = Vec::new();
    let key = String::from_str("YOUTUBE_PREFIXES");
    proof {
        reveal_strlit("YOUTUBE_PREFIXES");
        assert(key@ =~= prefixes_key());
    }
    let csv = match settings.get(key.as_str()) {
        None => {
            assert(strings_view(prefixes@) =~= Seq::<Seq<char>>::empty());
            return prefixes;
        },
        Some(v) => v,
    };
    let s = csv.as_str();
    let n = s.unicode_len();
    if n == 0 {
        assert(strings_view(prefixes@) =~= Seq::<Seq<char>>::empty());
        return prefixes;
    }
    let ghost done: Seq<Seq<char>> = Seq::empty();
    let mut start: usize = 0;
    let mut i: usize = 0;
    assert(s@.take(0) =~= Seq::<char>::empty());
    assert(s@.subrange(0, 0) =~= Seq::<char>::empty());
    assert(done.push(Seq::<char>::empty()) =~= seq![Seq::<char>::empty()]);
    assert(done.map_values(|t: Seq<char>| wrap_prefix(t)) =~= Seq::<Seq<char>>::empty());
    assert(strings_view(prefixes@) =~= Seq::<Seq<char>>::empty());
    while i < n
        invariant
            n == s@.len(),
            start <= i <= n,
            split_commas(s@.take(i as int)) == done.push(s@.subrange(start as int, i as int)),
            strings_view(prefixes@) == done.map_values(|t: Seq<char>| wrap_prefix(t)),
        decreases n - i,
    {
        let c = s.get_char(i);
        proof {
            assert(s@.take(i + 1).drop_last() =~= s@.take(i as int));
            assert(s@.take(i + 1).last() == c);
        }
        if c == ',' {
            let p = wrap(s.substring_char(start, i));
            proof {
                let t = s@.subrange(start as int, i as int);
                assert(strings_view(prefixes@.push(p)) =~= strings_view(prefixes@).push(p@));
                assert(done.push(t).map_values(|t: Seq<char>| wrap_prefix(t))
                    =~= done.map_values(|t: Seq<char>| wrap_prefix(t)).push(wrap_prefix(t)));
                done = done.push(t);
                assert(s@.subrange(i + 1, i + 1) =~= Seq::<char>::empty());
            }
            prefixes.push(p);
            start = i + 1;
        } else {
            proof {
                assert(s@.subrange(start as int, i + 1) =~= s@.subrange(start as int, i as int).push(c));
                assert(done.push(s@.subrange(start as int, i as int)).update(done.len() as int, s@.subrange(start as int, i + 1))
                    =~= done.push(s@.subrange(start as int, i + 1)));
            }
        }
        i += 1;
    }
    let p = wrap(s.substring_char(start, n));
    proof {
        assert(s@.take(n as int) =~= s@);
        let t = s@.subrange(start as int, n as int);
        assert(strings_view(prefixes@.push(p)) =~= strings_view(prefixes@).push(p@));
        assert(done.push(t).map_values(|t: Seq<char>| wrap_prefix(t))
            =~= done.map_values(|t: Seq<char>| wrap_prefix(t)).push(wrap_prefix(t)));
    }
    prefixes.push(p);
    prefixes
}

/// `/t/`.
fn wrap(t: &str) -> (r: String)
    ensures
        r@ == wrap_prefix(t@),
{
    let mut r = String::from_str("/");
    r.append(t);
    r.append("/");
    proof {
        reveal_strlit("/");
    }
    assert(r@ =~= wrap_prefix(t@));
    r
}

} // verus!

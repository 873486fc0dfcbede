//! Properties that hold across the site rules.

use vstd::prelude::*;
use crate::link::{LinkView, render, query_text};
use crate::settings::lookup;
use crate::rules::{
    strip_spec, strip_link, rewrite_spec, watch_rule, moved, short_form,
    match_prefix, is_full_youtube, youtube_tracking, common_tracking, lemma_short_host_not_full,
};

verus! {

broadcast use Seq::lemma_filter_contains_rev;

/// Stripping again with a subset of the names removes nothing more.
pub proof fn lemma_strip_subset(q: Seq<(Seq<char>, Seq<char>)>, a: Seq<Seq<char>>, b: Seq<Seq<char>>)
    requires
        forall|k: Seq<char>| b.contains(k) ==> a.contains(k),
    ensures
        strip_spec(strip_spec(q, a), b) == strip_spec(q, a),
    decreases q.len(),
{
    reveal(Seq::filter);
    if q.len() > 0 {
        lemma_strip_subset(q.drop_last(), a, b);
        let inner = strip_spec(q.drop_last(), a);
        if !a.contains(q.last().0) {
            let s = inner.push(q.last());
            assert(s.drop_last() =~= inner);
            assert(strip_spec(s, b) == strip_spec(inner, b).push(q.last()));
        }
    }
}

/// `lookup` finds nothing exactly when no pair has the key.
pub proof fn lemma_lookup_none(q: Seq<(Seq<char>, Seq<char>)>, k: Seq<char>)
    ensures
        lookup(q, k) is None <==> (forall|i: int| 0 <= i < q.len() ==> q[i].0 != k),
    decreases q.len(),
{
    if q.len() > 0 {
        lemma_lookup_none(q.drop_first(), k);
        assert forall|i: int| 0 < i < q.len() implies q[i] == q.drop_first()[i - 1] by {}
    }
}

/// Removing pairs keeps a key absent.
pub proof fn lemma_strip_keeps_absent(q: Seq<(Seq<char>, Seq<char>)>, s: Seq<Seq<char>>, k: Seq<char>)
    requires
        lookup(q, k) is None,
    ensures
        lookup(strip_spec(q, s), k) is None,
{
    let f = strip_spec(q, s);
    lemma_lookup_none(q, k);
    lemma_lookup_none(f, k);
    assert forall|i: int| 0 <= i < f.len() implies f[i].0 != k by {
        assert(f.contains(f[i]));
        assert(q.contains(f[i]));
    }
}

/// Applying the site rules twice gives what applying them once gives.
pub proof fn lemma_rewrite_idempotent(l: LinkView, ps: Seq<Seq<char>>)
    ensures
        rewrite_spec(rewrite_spec(l, ps), ps) == rewrite_spec(l, ps),
{
    lemma_short_host_not_full();
    let yt = youtube_tracking();
    assert forall|k: Seq<char>| yt.contains(k) implies yt.contains(k) by {}
    if is_full_youtube(l.host) {
        match match_prefix(l.path, ps) {
            Some(p) => {
                let m = moved(l, p);
                lemma_strip_subset(m.query, yt, yt);
                assert(strip_link(strip_link(m, yt), yt) =~= strip_link(m, yt));
            },
            None => {
                match lookup(l.query, "v"@) {
                    Some(id) => {
                        let m = short_form(l, id);
                        let a = yt.push("v"@);
                        assert forall|k: Seq<char>| yt.contains(k) implies a.contains(k) by {
                            assert(yt[0] == a[0]);
                        }
                        lemma_strip_subset(m.query, a, yt);
                        assert(strip_link(strip_link(m, a), yt) =~= strip_link(m, a));
                    },
                    None => {
                        let r = strip_link(l, yt);
                        lemma_strip_keeps_absent(l.query, yt, "v"@);
                        lemma_strip_subset(l.query, yt, yt);
                        assert(watch_rule(r) =~= strip_link(r, yt));
                        assert(strip_link(r, yt) =~= r);
                    },
                }
            },
        }
    } else {
        if l.host == "youtu.be"@ || l.host == "music.youtube.com"@ {
            lemma_strip_subset(l.query, yt, yt);
            assert(strip_link(strip_link(l, yt), yt) =~= strip_link(l, yt));
        } else {
            let c = common_tracking();
            assert forall|k: Seq<char>| c.contains(k) implies c.contains(k) by {}
            lemma_strip_subset(l.query, c, c);
            assert(strip_link(strip_link(l, c), c) =~= strip_link(l, c));
        }
    }
}

/// A link left with no query pairs is written with no query component at all.
pub proof fn lemma_no_pairs_no_query(l: LinkView, strip: Seq<Seq<char>>)
    requires
        strip_spec(l.query, strip).len() == 0,
    ensures
        query_text(strip_link(l, strip).query) == Seq::<char>::empty(),
        render(strip_link(l, strip)) == l.before_host + l.host + l.port_part + l.path + l.after_query,
{
    assert(render(strip_link(l, strip)) =~= l.before_host + l.host + l.port_part + l.path + l.after_query);
}

/// On a domain that no explicit rule names, the scheme and everything before the host,
/// the host, port, path and fragment are kept, and the query loses exactly the common
/// tracking parameters.
pub proof fn lemma_other_domains_preserved(l: LinkView, ps: Seq<Seq<char>>)
    requires
        l.host != "www.youtube.com"@,
        l.host != "youtube.com"@,
        l.host != "youtu.be"@,
        l.host != "music.youtube.com"@,
    ensures
        rewrite_spec(l, ps).before_host == l.before_host,
        rewrite_spec(l, ps).host == l.host,
        rewrite_spec(l, ps).port_part == l.port_part,
        rewrite_spec(l, ps).path == l.path,
        rewrite_spec(l, ps).after_query == l.after_query,
        rewrite_spec(l, ps).query == l.query.filter(
            |p: (Seq<char>, Seq<char>)| !common_tracking().contains(p.0),
        ),
{
}

} // verus!

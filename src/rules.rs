//! The site rules: which query parameters each domain loses, and how YouTube links
//! are rewritten to their short form.

use vstd::prelude::*;
use crate::link::{Link, LinkView, new_path, encode_path, parse_with_text, parsed_of, link_of, render};
use crate::settings::{Settings, lookup, pairs_view, prefixes_of, prefixes_key, enabled_prefixes, find_value, strings_view};
use crate::text::{same_text, starts_with, first_segment, segment};

verus! {

/// The views of a list of names.
pub open spec fn keys_view(v: Seq<&str>) -> Seq<Seq<char>> {
    v.map_values(|s: &str| s@)
}

/// The pairs whose key is not in `strip`, in their order.
pub open spec fn strip_spec(q: Seq<(Seq<char>, Seq<char>)>, strip: Seq<Seq<char>>) -> Seq<(Seq<char>, Seq<char>)> {
    q.filter(|p: (Seq<char>, Seq<char>)| !strip.contains(p.0))
}

/// The link with the pairs named in `strip` removed.
pub open spec fn strip_link(l: LinkView, strip: Seq<Seq<char>>) -> LinkView {
    LinkView { query: strip_spec(l.query, strip), ..l }
}

/// The parameters that YouTube adds for tracking.
pub open spec fn youtube_tracking() -> Seq<Seq<char>> {
    seq!["si"@]
}

/// The tracking parameters removed on every other domain.
pub open spec fn common_tracking() -> Seq<Seq<char>> {
    seq!["utm_source"@, "utm_medium"@, "utm_campaign"@, "utm_term"@, "utm_content"@]
}

/// Whether `s` begins with `p`.
pub open spec fn has_prefix(s: Seq<char>, p: Seq<char>) -> bool {
    p.len() <= s.len() && s.take(p.len() as int) == p
}

/// The first prefix in `ps` that `path` begins with.
pub open spec fn match_prefix(path: Seq<char>, ps: Seq<Seq<char>>) -> Option<Seq<char>>
    decreases ps.len(),
{
    if ps.len() == 0 {
        None
    } else if has_prefix(path, ps[0]) {
        Some(ps[0])
    } else {
        match_prefix(path, ps.drop_first())
    }
}

/// Whether the host serves full YouTube pages.
pub open spec fn is_full_youtube(host: Seq<char>) -> bool {
    host == "www.youtube.com"@ || host == "youtube.com"@
}

/// The short-link form of a link: host `youtu.be`, path `/id`.
pub open spec fn short_form(l: LinkView, id: Seq<char>) -> LinkView {
    LinkView {
        host: "youtu.be"@,
        path: new_path(l.before_host + "youtu.be"@, seq!['/'] + id),
        ..l
    }
}

/// A link whose path begins with `prefix`, moved to the short host, with the
/// path segment after the prefix as its video.
pub open spec fn moved(l: LinkView, prefix: Seq<char>) -> LinkView {
    short_form(l, segment(l.path.skip(prefix.len() as int)))
}

/// The rule of every host but the full YouTube ones.
pub open spec fn site_rule(l: LinkView) -> LinkView {
    if l.host == "youtu.be"@ || l.host == "music.youtube.com"@ {
        strip_link(l, youtube_tracking())
    } else {
        strip_link(l, common_tracking())
    }
}

/// A full YouTube link with no enabled prefix: the `v` parameter, if any, becomes the
/// short link's path.
pub open spec fn watch_rule(l: LinkView) -> LinkView {
    match lookup(l.query, "v"@) {
        Some(id) => strip_link(short_form(l, id), youtube_tracking().push("v"@)),
        None => strip_link(l, youtube_tracking()),
    }
}

/// A full YouTube link: the first enabled prefix that its path begins with moves it
/// to the short host, and the rules are applied again to the moved link.
pub open spec fn full_youtube_rule(l: LinkView, ps: Seq<Seq<char>>) -> LinkView {
    match match_prefix(l.path, ps) {
        Some(p) => rewrite_spec(moved(l, p), ps),
        None => watch_rule(l),
    }
}

/// The link that the site rules make of `l`, with `ps` the enabled YouTube prefixes.
/// A moved link is on the short host, so the second pass goes to `site_rule`.
pub open spec fn rewrite_spec(l: LinkView, ps: Seq<Seq<char>>) -> LinkView {
    if is_full_youtube(l.host) {
        match match_prefix(l.path, ps) {
            Some(p) => site_rule(moved(l, p)),
            None => watch_rule(l),
        }
    } else {
        site_rule(l)
    }
}

/// The enabled prefixes of a configuration.
pub open spec fn settings_prefixes(settings: Seq<(Seq<char>, Seq<char>)>) -> Seq<Seq<char>> {
    prefixes_of(lookup(settings, prefixes_key()))
}

/// The short host is not a full YouTube host.
pub proof fn lemma_short_host_not_full()
    ensures
        !is_full_youtube("youtu.be"@),
{
    reveal_strlit("youtu.be");
    reveal_strlit("www.youtube.com");
    reveal_strlit("youtube.com");
    assert("youtu.be"@.len() != "youtube.com"@.len());
    assert("youtu.be"@.len() != "www.youtube.com"@.len());
}

/// Whether `k` is one of `keys`.
fn listed(keys: &Vec<&str>, k: &str) -> (r: bool)
    ensures
        r == keys_view(keys@).contains(k@),
{
    let mut i: usize = 0;
    while i < keys.len()
        invariant
            i <= keys@.len(),
            forall|j: int| 0 <= j < i ==> keys@[j]@ != k@,
        decreases keys@.len() - i,
    {
        if same_text(keys[i], k) {
            assert(keys_view(keys@)[i as int] == k@);
            return true;
        }
        i += 1;
    }
    assert(!keys_view(keys@).contains(k@)) by {
        if keys_view(keys@).contains(k@) {
            let j = choose|j: int| 0 <= j < keys_view(keys@).len() && keys_view(keys@)[j] == k@;
            assert(keys@[j]@ == k@);
        }
    }
    false
}

/// `url` without the query pairs whose key is in `strip`; the others keep their order.
pub fn strip_params(url: &Link, strip: Vec<&str>) -> (r: Link)
    ensures
        r@ == strip_link(url@, keys_view(strip@)),
{
    let ghost ks = keys_view(strip@);
    let ghost q = url@.query;
    let mut kept: Vec<(String, String)> = Vec::new();
    let mut i: usize = 0;
    proof {
        reveal(Seq::filter);
        assert(q.take(0) =~= Seq::<(Seq<char>, Seq<char>)>::empty());
        assert(pairs_view(kept@) =~= strip_spec(q.take(0), ks));
    }
    while i < url.query.len()
        invariant
            ks == keys_view(strip@),
            q == url@.query,
            q == pairs_view(url.query@),
            i <= url.query@.len(),
            pairs_view(kept@) == strip_spec(q.take(i as int), ks),
        decreases url.query@.len() - i,
    {
        let e = &url.query[i];
        proof {
            reveal(Seq::filter);
            assert(q.take(i + 1).drop_last() =~= q.take(i as int));
            assert(q.take(i + 1).last() == (e.0@, e.1@));
        }
        if !listed(&strip, e.0.as_str()) {
            let ghost k0 = kept@;
            kept.push((e.0.clone(), e.1.clone()));
            assert(pairs_view(kept@) =~= pairs_view(k0).push((e.0@, e.1@)));
        }
        i += 1;
    }
    assert(q.take(q.len() as int) =~= q);
    Link {
        before_host: url.before_host.clone(),
        host: url.host.clone(),
        port_part: url.port_part.clone(),
        path: url.path.clone(),
        query: kept,
        after_query: url.after_query.clone(),
    }
}

/// The value of the first query pair named `var`.
pub fn get_query_value(url: &Link, var: &str) -> (r: Option<String>)
    ensures
        r matches Some(v) ==> lookup(url@.query, var@) == Some(v@),
        r is None ==> lookup(url@.query, var@) is None,
{
    find_value(&url.query, var)
}

/// The short link `youtu.be/id` with the rest of `url` kept.
fn to_short_form(url: &Link, id: &str) -> (r: Link)
    ensures
        r@ == short_form(url@, id@),
{
    let short = "youtu.be";
    let mut base = url.before_host.clone();
    base.append(short);
    let mut p = String::from_str("/");
    p.append(id);
    proof {
        reveal_strlit("/");
        assert(p@ =~= seq!['/'] + id@);
    }
    let path = encode_path(base.as_str(), p.as_str());
    url.with_host_path(String::from_str(short), path)
}

/// Where the path of `url` begins with `prefix`, the short link to the video named by
/// the path segment after the prefix.
pub fn map_youtube_prefix(url: &Link, prefix: &str) -> (r: Option<Link>)
    ensures
        match r {
            Some(m) => has_prefix(url@.path, prefix@) && m@ == moved(url@, prefix@),
            None => !has_prefix(url@.path, prefix@),
        },
{
    let path = url.path.as_str();
    if !starts_with(path, prefix) {
        return None;
    }
    let rest = path.substring_char(prefix.unicode_len(), path.unicode_len());
    let id = first_segment(rest);
    Some(to_short_form(url, id.as_str()))
}

/// The rule of the full YouTube hosts, with the prefixes that `settings` enables.
pub fn strip_full_youtube(url: &Link, settings: &Settings) -> (r: Link)
    requires
        is_full_youtube(url@.host),
    ensures
        r@ == full_youtube_rule(url@, settings_prefixes(settings@)),
    decreases 1nat, 0nat,
{
    let prefixes = enabled_prefixes(settings);
    let ghost ps = settings_prefixes(settings@);
    let mut i: usize = 0;
    assert(ps.skip(0) =~= ps);
    while i < prefixes.len()
        invariant
            ps == settings_prefixes(settings@),
            strings_view(prefixes@) == ps,
            i <= prefixes@.len(),
            match_prefix(url@.path, ps) == match_prefix(url@.path, ps.skip(i as int)),
        decreases prefixes@.len() - i,
    {
        let prefix = &prefixes[i];
        proof {
            assert(ps.skip(i as int)[0] == prefix@);
            assert(ps.skip(i as int).drop_first() =~= ps.skip(i + 1));
        }
        match map_youtube_prefix(url, prefix.as_str()) {
            Some(new_url) => {
                proof {
                    lemma_short_host_not_full();
                    assert(match_prefix(url@.path, ps.skip(i as int)) == Some(prefix@));
                    assert(new_url@.host == "youtu.be"@);
                }
                let r = strip_tracking(&new_url, settings);
                assert(rewrite_spec(new_url@, ps) == site_rule(new_url@));
                return r;
            },
            None => {},
        }
        i += 1;
    }
    proof {
        reveal_strlit("si");
        reveal_strlit("v");
    }
    match get_query_value(url, "v") {
        Some(video_id) => {
            let new_url = to_short_form(url, video_id.as_str());
            let params = vec!["si", "v"];
            assert(keys_view(params@) =~= youtube_tracking().push("v"@));
            strip_params(&new_url, params)
        },
        None => {
            let params = vec!["si"];
            assert(keys_view(params@) =~= youtube_tracking());
            strip_params(url, params)
        },
    }
}

/// The site rules applied to `url`, with the YouTube prefixes that `settings` enables.
pub fn strip_tracking(url: &Link, settings: &Settings) -> (r: Link)
    ensures
        r@ == rewrite_spec(url@, settings_prefixes(settings@)),
    decreases (if is_full_youtube(url@.host) { 1nat } else { 0nat }), 1nat,
{
    let host = url.host.as_str();
    if same_text(host, "www.youtube.com") || same_text(host, "youtube.com") {
        let r = strip_full_youtube(url, settings);
        proof {
            lemma_short_host_not_full();
        }
        r
    } else if same_text(host, "youtu.be") || same_text(host, "music.youtube.com") {
        let params = vec!["si"];
        assert(keys_view(params@) =~= youtube_tracking());
        strip_params(url, params)
    } else {
        let params = vec!["utm_source", "utm_medium", "utm_campaign", "utm_term", "utm_content"];
        assert(keys_view(params@) =~= common_tracking());
        strip_params(url, params)
    }
}

/// What a clipboard text should be replaced with: the cleaned URL, where the text is a
/// URL with a domain and the site rules change how it is written; nothing otherwise.
pub open spec fn sanitize_spec(text: Seq<char>, ps: Seq<Seq<char>>) -> Option<Seq<char>> {
    match parsed_of(text) {
        None => None,
        Some(p) => match link_of(p) {
            None => None,
            Some(l) => {
                let out = render(rewrite_spec(l, ps));
                if out == p.serialization {
                    None
                } else {
                    Some(out)
                }
            },
        },
    }
}

/// The replacement for a clipboard text, if there is one.
pub fn sanitize(text: &str, settings: &Settings) -> (r: Option<String>)
    ensures
        match r {
            Some(s) => sanitize_spec(text@, settings_prefixes(settings@)) == Some(s@),
            None => sanitize_spec(text@, settings_prefixes(settings@)) is None,
        },
{
    match parse_with_text(text) {
        None => None,
        Some(x) => {
            let cleaned = strip_tracking(&x.0, settings).to_url_string();
            if same_text(cleaned.as_str(), x.1.as_str()) {
                None
            } else {
                Some(cleaned)
            }
        },
    }
}

} // verus!

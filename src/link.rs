//! A URL with a confirmed domain, held as the plain parts that the rules read and write.

use vstd::prelude::*;
use crate::settings::pairs_view;

verus! {

/// A parsed URL as the url crate takes it apart, before its host is checked.
pub struct UrlParts {
    /// Everything before the host: scheme, `://` and user information.
    pub before_host: String,
    /// The host, where it is a domain name.
    pub domain: Option<String>,
    /// `:port`, or nothing.
    pub port_part: String,
    pub path: String,
    /// The decoded query pairs, in order.
    pub query: Vec<(String, String)>,
    /// `#fragment`, or nothing.
    pub after_query: String,
    /// The whole URL as the url crate writes it.
    pub serialization: String,
}

pub struct UrlPartsView {
    pub before_host: Seq<char>,
    pub domain: Option<Seq<char>>,
    pub port_part: Seq<char>,
    pub path: Seq<char>,
    pub query: Seq<(Seq<char>, Seq<char>)>,
    pub after_query: Seq<char>,
    pub serialization: Seq<char>,
}

impl View for UrlParts {
    type V = UrlPartsView;

    open spec fn view(&self) -> UrlPartsView {
        UrlPartsView {
            before_host: self.before_host@,
            domain: match self.domain {
                Some(d) => Some(d@),
                None => None,
            },
            port_part: self.port_part@,
            path: self.path@,
            query: pairs_view(self.query@),
            after_query: self.after_query@,
            serialization: self.serialization@,
        }
    }
}

/// What the url crate parses a text into, if it is a URL.
pub uninterp spec fn parsed_of(text: Seq<char>) -> Option<UrlPartsView>;

/// The query string that the url crate writes for these pairs.
pub uninterp spec fn form_of(pairs: Seq<(Seq<char>, Seq<char>)>) -> Seq<char>;

/// The path that the url crate writes for `p` set on the URL `base`, if `base` parses.
pub uninterp spec fn path_form_of(base: Seq<char>, p: Seq<char>) -> Option<Seq<char>>;

/// Relies on url::Url::parse, and on the url crate's accessors and position slicing,
/// which only take the parsed URL apart.
#[verifier::external_body]
fn parse_parts(text: &str) -> (r: Option<UrlParts>)
    ensures
        match r {
            Some(p) => parsed_of(text@) == Some(p@),
            None => parsed_of(text@) is None,
        },
{
    match url::Url::parse(text) {
        Ok(u) => Some(UrlParts {
            before_host: u[..url::Position::BeforeHost].to_string(),
            domain: u.domain().map(str::to_string),
            port_part: u[url::Position::AfterHost..url::Position::BeforePath].to_string(),
            path: u.path().to_string(),
            query: u.query_pairs().map(|(k, v)| (k.into_owned(), v.into_owned())).collect(),
            after_query: u[url::Position::AfterQuery..].to_string(),
            serialization: u.as_str().to_string(),
        }),
        Err(_) => None,
    }
}

/// Relies on form_urlencoded::Serializer, as the url crate re-exports it: the
/// application/x-www-form-urlencoded text of the pairs, which `query_pairs_mut` appends.
#[verifier::external_body]
fn form_encode(pairs: &Vec<(String, String)>) -> (r: String)
    ensures
        r@ == form_of(pairs_view(pairs@)),
{
    url::form_urlencoded::Serializer::new(String::new()).extend_pairs(pairs.iter()).finish()
}

/// Relies on url::Url::parse and url::Url::set_path: the path, percent-encoded as the
/// url crate does it, that `p` becomes on the URL `base`.
#[verifier::external_body]
fn path_form(base: &str, p: &str) -> (r: Option<String>)
    ensures
        match r {
            Some(s) => path_form_of(base@, p@) == Some(s@),
            None => path_form_of(base@, p@) is None,
        },
{
    match url::Url::parse(base) {
        Ok(mut u) => {
            u.set_path(p);
            Some(u.path().to_string())
        },
        Err(_) => None,
    }
}

/// A URL taken apart into the parts that the site rules read and write. `parse_url`
/// makes one only where the host is a non-empty domain name.
pub struct Link {
    /// Everything before the host: scheme, `://` and user information.
    pub before_host: String,
    pub host: String,
    /// `:port`, or nothing.
    pub port_part: String,
    pub path: String,
    /// The decoded query pairs, in order; keys may repeat.
    pub query: Vec<(String, String)>,
    /// `#fragment`, or nothing.
    pub after_query: String,
}

pub struct LinkView {
    pub before_host: Seq<char>,
    pub host: Seq<char>,
    pub port_part: Seq<char>,
    pub path: Seq<char>,
    pub query: Seq<(Seq<char>, Seq<char>)>,
    pub after_query: Seq<char>,
}

impl View for Link {
    type V = LinkView;

    open spec fn view(&self) -> LinkView {
        LinkView {
            before_host: self.before_host@,
            host: self.host@,
            port_part: self.port_part@,
            path: self.path@,
            query: pairs_view(self.query@),
            after_query: self.after_query@,
        }
    }
}

/// The link that parsed parts make, where the host is a non-empty domain.
pub open spec fn link_of(p: UrlPartsView) -> Option<LinkView> {
    match p.domain {
        Some(d) => if d.len() > 0 {
            Some(
                LinkView {
                    before_host: p.before_host,
                    host: d,
                    port_part: p.port_part,
                    path: p.path,
                    query: p.query,
                    after_query: p.after_query,
                },
            )
        } else {
            None
        },
        None => None,
    }
}

/// The link that a text holds, if it is a URL with a domain.
pub open spec fn parse_spec(text: Seq<char>) -> Option<LinkView> {
    match parsed_of(text) {
        Some(p) => link_of(p),
        None => None,
    }
}

/// The query component with its `?`: nothing when there are no pairs.
pub open spec fn query_text(q: Seq<(Seq<char>, Seq<char>)>) -> Seq<char> {
    if q.len() == 0 {
        Seq::empty()
    } else {
        seq!['?'] + form_of(q)
    }
}

/// The text of a link.
pub open spec fn render(l: LinkView) -> Seq<char> {
    l.before_host + l.host + l.port_part + l.path + query_text(l.query) + l.after_query
}

/// The link in a text, if the text is a URL whose host is a domain name.
pub fn parse_url(text: &str) -> (r: Option<Link>)
    ensures
        match r {
            Some(l) => parse_spec(text@) == Some(l@),
            None => parse_spec(text@) is None,
        },
{
    match parse_with_text(text) {
        Some(x) => Some(x.0),
        None => None,
    }
}

/// The text that the url crate parsed, with the link it holds.
pub fn parse_with_text(text: &str) -> (r: Option<(Link, String)>)
    ensures
        match r {
            Some(x) => parse_spec(text@) == Some(x.0@) && (parsed_of(text@) matches Some(p)
                && x.1@ == p.serialization),
            None => parse_spec(text@) is None,
        },
{
    match parse_parts(text) {
        None => None,
        Some(p) => match p.domain {
            None => None,
            Some(d) => {
                if d.unicode_len() == 0 {
                    None
                } else {
                    Some(
                        (
                            Link {
                                before_host: p.before_host,
                                host: d,
                                port_part: p.port_part,
                                path: p.path,
                                query: p.query,
                                after_query: p.after_query,
                            },
                            p.serialization,
                        ),
                    )
                }
            },
        },
    }
}

impl Link {
    /// The link written out: query pairs form-encoded, and no `?` when there are none.
    pub fn to_url_string(&self) -> (r: String)
        ensures
            r@ == render(self@),
    {
        let mut r = self.before_host.clone();
        r.append(self.host.as_str());
        r.append(self.port_part.as_str());
        r.append(self.path.as_str());
        if self.query.len() > 0 {
            r.append("?");
            let q = form_encode(&self.query);
            r.append(q.as_str());
            proof {
                reveal_strlit("?");
            }
        }
        r.append(self.after_query.as_str());
        assert(r@ =~= render(self@));
        r
    }

    /// The link with host `host` and path `path`, everything else kept.
    pub fn with_host_path(&self, host: String, path: String) -> (r: Link)
        ensures
            r@ == (LinkView { host: host@, path: path@, ..self@ }),
    {
        Link {
            before_host: self.before_host.clone(),
            host,
            port_part: self.port_part.clone(),
            path,
            query: copy_pairs(&self.query),
            after_query: self.after_query.clone(),
        }
    }
}

/// A copy of a list of string pairs.
fn copy_pairs(v: &Vec<(String, String)>) -> (r: Vec<(String, String)>)
    ensures
        pairs_view(r@) == pairs_view(v@),
{
    let mut r: Vec<(String, String)> = Vec::new();
    let mut i: usize = 0;
    while i < v.len()
        invariant
            i <= v@.len(),
            pairs_view(r@) == pairs_view(v@.take(i as int)),
        decreases v@.len() - i,
    {
        let e = &v[i];
        proof {
            assert(v@.take(i + 1) =~= v@.take(i as int).push(*e));
        }
        let ghost r0 = r@;
        r.push((e.0.clone(), e.1.clone()));
        assert(pairs_view(r@) =~= pairs_view(r0).push((e.0@, e.1@)));
        assert(pairs_view(v@.take(i + 1)) =~= pairs_view(v@.take(i as int)).push((e.0@, e.1@)));
        i += 1;
    }
    assert(v@.take(v@.len() as int) =~= v@);
    r
}

/// The path that `p` becomes on a link with this text before its path.
pub open spec fn new_path(base: Seq<char>, p: Seq<char>) -> Seq<char> {
    match path_form_of(base, p) {
        Some(s) => s,
        None => p,
    }
}

/// The path that `p` becomes on a link with this text before its path: encoded as
/// the url crate does it, or `p` itself where `base` does not parse.
pub fn encode_path(base: &str, p: &str) -> (r: String)
    ensures
        r@ == new_path(base@, p@),
{
    match path_form(base, p) {
        Some(s) => s,
        None => String::from_str(p),
    }
}

} // verus!

//! Web addresses, taken apart into plain values.
use vstd::prelude::*;

verus! {

/// A web address in its normal form, and its parts.
#[derive(Debug, PartialEq, Eq)]
pub struct WebUrl {
    /// The whole address.
    pub text: String,
    pub scheme: String,
    pub host: Option<String>,
    /// The host if it is a name and no number.
    pub domain: Option<String>,
    /// The port that the address names, or the one that goes with its scheme.
    pub port: Option<u16>,
    pub path: String,
    /// The parts of the path between slashes; none if the address has no hierarchy.
    pub segments: Option<Vec<String>>,
    /// The names and values of the query, decoded.
    pub query: Vec<(String, String)>,
}

/// What a [`WebUrl`] says: its texts as sequences of characters.
#[verifier::ext_equal]
pub struct WebUrlModel {
    pub text: Seq<char>,
    pub scheme: Seq<char>,
    pub host: Option<Seq<char>>,
    pub domain: Option<Seq<char>>,
    pub port: Option<u16>,
    pub path: Seq<char>,
    pub segments: Option<Seq<Seq<char>>>,
    pub query: Seq<(Seq<char>, Seq<char>)>,
}

impl DeepView for WebUrl {
    type V = WebUrlModel;

    open spec fn deep_view(&self) -> WebUrlModel {
        WebUrlModel {
            text: self.text@,
            scheme: self.scheme@,
            host: self.host.deep_view(),
            domain: self.domain.deep_view(),
            port: self.port,
            path: self.path@,
            segments: self.segments.deep_view(),
            query: self.query.deep_view(),
        }
    }
}

impl Clone for WebUrl {
    fn clone(&self) -> (copy: Self)
        ensures
            copy.deep_view() == self.deep_view(),
    {
        let copy = WebUrl {
            text: self.text.clone(),
            scheme: self.scheme.clone(),
            host: self.host.clone(),
            domain: self.domain.clone(),
            port: self.port,
            path: self.path.clone(),
            segments: self.segments.clone(),
            query: copy_pairs(&self.query),
        };
        assert(copy.host.deep_view() =~= self.host.deep_view());
        assert(copy.domain.deep_view() =~= self.domain.deep_view());
        assert(copy.segments.deep_view() =~= self.segments.deep_view());
        copy
    }
}

/// A copy of a list of pairs of texts.
pub fn copy_pairs(pairs: &Vec<(String, String)>) -> (copy: Vec<(String, String)>)
    ensures
        copy.deep_view() == pairs.deep_view(),
{
    let mut copy: Vec<(String, String)> = Vec::new();
    let mut i: usize = 0;
    while i < pairs.len()
        invariant
            i <= pairs.len(),
            copy.deep_view() == pairs.deep_view().take(i as int),
        decreases pairs.len() - i,
    {
        let ghost before = copy.deep_view();
        let pair = (pairs[i].0.clone(), pairs[i].1.clone());
        assert(pair.deep_view() == pairs@[i as int].deep_view());
        copy.push(pair);
        assert(copy.deep_view() =~= before.push(pair.deep_view()));
        i += 1;
        assert(pairs.deep_view().take(i as int) =~= before.push(pair.deep_view()));
    }
    assert(pairs.deep_view().take(i as int) =~= pairs.deep_view());
    copy
}

/// What the `url` crate reads an absolute address as: its normal form, scheme, host, domain,
/// port, path, path segments and query pairs; or what it says is wrong with it.
pub uninterp spec fn url_parts(text: Seq<char>) -> Result<
    (
        Seq<char>,
        Seq<char>,
        Option<Seq<char>>,
        Option<Seq<char>>,
        Option<u16>,
        Seq<char>,
        Option<Seq<Seq<char>>>,
        Seq<(Seq<char>, Seq<char>)>,
    ),
    Seq<char>,
>;

/// What the `url` crate reads a reference as that stands in an absolute address, in the same parts.
pub uninterp spec fn joined_url_parts(base: Seq<char>, reference: Seq<char>) -> Result<
    (
        Seq<char>,
        Seq<char>,
        Option<Seq<char>>,
        Option<Seq<char>>,
        Option<u16>,
        Seq<char>,
        Option<Seq<Seq<char>>>,
        Seq<(Seq<char>, Seq<char>)>,
    ),
    Seq<char>,
>;

/// The normal form of an address with pairs added to its query, or what is wrong with the address.
pub uninterp spec fn url_with_query(
    base: Seq<char>,
    pairs: Seq<(Seq<char>, Seq<char>)>,
) -> Result<Seq<char>, Seq<char>>;

/// The parts of an address under their names.
pub open spec fn named_parts(
    parts: Result<
        (
            Seq<char>,
            Seq<char>,
            Option<Seq<char>>,
            Option<Seq<char>>,
            Option<u16>,
            Seq<char>,
            Option<Seq<Seq<char>>>,
            Seq<(Seq<char>, Seq<char>)>,
        ),
        Seq<char>,
    >,
) -> Result<WebUrlModel, Seq<char>> {
    match parts {
        Ok((text, scheme, host, domain, port, path, segments, query)) => Ok(
            WebUrlModel { text, scheme, host, domain, port, path, segments, query },
        ),
        Err(reason) => Err(reason),
    }
}

/// The address that a text writes.
pub open spec fn parsed_url(text: Seq<char>) -> Result<WebUrlModel, Seq<char>> {
    named_parts(url_parts(text))
}

/// The address that a reference in another address names.
pub open spec fn joined_url(base: Seq<char>, reference: Seq<char>) -> Result<
    WebUrlModel,
    Seq<char>,
> {
    named_parts(joined_url_parts(base, reference))
}

/// What the result of reading an address says.
pub open spec fn outcome(r: Result<WebUrl, String>) -> Result<WebUrlModel, Seq<char>> {
    match r {
        Ok(address) => Ok(address.deep_view()),
        Err(reason) => Err(reason@),
    }
}

/// `url::Url::parse`: reads an absolute address. What it gives is a function of the text alone.
#[verifier::external_body]
pub(crate) fn parse_url(text: &str) -> (r: Result<WebUrl, String>)
    ensures
        outcome(r) == named_parts(url_parts(text@)),
{
    match url::Url::parse(text) {
        Ok(address) => Ok(WebUrl {
            text: address.as_str().to_string(),
            scheme: address.scheme().to_string(),
            host: address.host_str().map(str::to_string),
            domain: address.domain().map(str::to_string),
            port: address.port_or_known_default(),
            path: address.path().to_string(),
            segments: address.path_segments().map(|parts| parts.map(str::to_string).collect()),
            query: address.query_pairs().into_owned().collect(),
        }),
        Err(error) => Err(error.to_string()),
    }
}

/// `url::Url::join`, on the address that `url::Url::parse` reads `base` as. What it gives is a
/// function of the two texts alone.
#[verifier::external_body]
pub(crate) fn join_url(base: &str, reference: &str) -> (r: Result<WebUrl, String>)
    ensures
        outcome(r) == named_parts(joined_url_parts(base@, reference@)),
{
    match url::Url::parse(base).and_then(|base| base.join(reference)) {
        Ok(address) => Ok(WebUrl {
            text: address.as_str().to_string(),
            scheme: address.scheme().to_string(),
            host: address.host_str().map(str::to_string),
            domain: address.domain().map(str::to_string),
            port: address.port_or_known_default(),
            path: address.path().to_string(),
            segments: address.path_segments().map(|parts| parts.map(str::to_string).collect()),
            query: address.query_pairs().into_owned().collect(),
        }),
        Err(error) => Err(error.to_string()),
    }
}

/// `url::Url::parse_with_params`: reads an absolute address and adds pairs to its query. What it
/// gives is a function of the address and the pairs alone.
#[verifier::external_body]
pub(crate) fn add_query(base: &str, pairs: &Vec<(String, String)>) -> (r: Result<String, String>)
    ensures
        match r {
            Ok(text) => url_with_query(base@, pairs.deep_view()) == Ok::<Seq<char>, Seq<char>>(text@),
            Err(reason) => url_with_query(base@, pairs.deep_view()) == Err::<Seq<char>, Seq<char>>(
                reason@,
            ),
        },
{
    match url::Url::parse_with_params(base, pairs) {
        Ok(address) => Ok(address.to_string()),
        Err(error) => Err(error.to_string()),
    }
}

} // verus!

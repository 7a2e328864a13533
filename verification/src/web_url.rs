//! The parts of a URL the client reasons about, parsed by the `url` crate.

use vstd::prelude::*;

verus! {

/// What `url::Url::parse` yields for `raw`, read back as (scheme, host, path,
/// serialisation); when `raw` is not an absolute URL, the text of the
/// `url::ParseError` it reports.
pub uninterp spec fn url_components(raw: Seq<char>) -> Result<
    (Seq<char>, Option<Seq<char>>, Seq<char>, Seq<char>),
    Seq<char>,
>;

/// What `url::Url::join` yields for `reference` on the URL whose serialisation
/// is `base`, serialised with `to_string`; when the join fails, the text of
/// the `url::ParseError` it reports. A `Url` is determined by its
/// serialisation (its equality compares exactly that), so the join is a
/// function of the two texts.
pub uninterp spec fn url_joined(base: Seq<char>, reference: Seq<char>) -> Result<
    Seq<char>,
    Seq<char>,
>;

/// Resolving `reference` against `base`: `base` parsed as `url_components`
/// names it, then `reference` joined onto it; a failure of either step gives
/// that step's error text.
pub open spec fn url_resolved(base: Seq<char>, reference: Seq<char>) -> Result<
    Seq<char>,
    Seq<char>,
> {
    match url_components(base) {
        Ok(parts) => url_joined(parts.3, reference),
        Err(e) => Err(e),
    }
}

/// The scheme, host and path of a URL, as plain text.
pub struct RequestUrl {
    /// Lower-cased scheme, without the `:`.
    pub scheme: String,
    /// Host, when the URL has one.
    pub host: Option<String>,
    /// Path, starting with `/` for hierarchical URLs.
    pub path: String,
    /// The whole URL as the parser serialises it.
    pub serialized: String,
}

/// An optional string, seen as its characters.
pub open spec fn opt_text(o: Option<String>) -> Option<Seq<char>> {
    match o {
        Some(s) => Some(s@),
        None => None,
    }
}

impl RequestUrl {
    /// The URL as the parts `url_components` speaks of.
    pub open spec fn parts(&self) -> (Seq<char>, Option<Seq<char>>, Seq<char>, Seq<char>) {
        (self.scheme@, opt_text(self.host), self.path@, self.serialized@)
    }

    /// Parse an absolute URL into its scheme, host, path and serialisation;
    /// on failure, the parser's description of the problem.
    pub fn parse(raw: &str) -> (r: Result<RequestUrl, String>)
        ensures
            match r {
                Ok(u) => url_components(raw@) == Ok::<
                    (Seq<char>, Option<Seq<char>>, Seq<char>, Seq<char>),
                    Seq<char>,
                >(u.parts()),
                Err(e) => url_components(raw@) == Err::<
                    (Seq<char>, Option<Seq<char>>, Seq<char>, Seq<char>),
                    Seq<char>,
                >(e@),
            },
    {
        parse_components(raw)
    }
}

/// `url::Url::parse`, read back through `scheme`, `host_str`, `path` and
/// `as_str`; a failure is rendered with the error's `Display`.
///
/// Claims only that the result is the one `url_components` names for the
/// input; what the parser accepts is not restated here.
#[verifier::external_body]
fn parse_components(raw: &str) -> (r: Result<RequestUrl, String>)
    ensures
        match r {
            Ok(u) => url_components(raw@) == Ok::<
                (Seq<char>, Option<Seq<char>>, Seq<char>, Seq<char>),
                Seq<char>,
            >(u.parts()),
            Err(e) => url_components(raw@) == Err::<
                (Seq<char>, Option<Seq<char>>, Seq<char>, Seq<char>),
                Seq<char>,
            >(e@),
        },
{
    match url::Url::parse(raw) {
        Ok(u) => Ok(RequestUrl {
            scheme: u.scheme().to_owned(),
            host: u.host_str().map(str::to_owned),
            path: u.path().to_owned(),
            serialized: u.as_str().to_owned(),
        }),
        Err(error) => Err(error.to_string()),
    }
}

/// `url::Url::parse(base)`, then `Url::join(reference)`, serialised with
/// `to_string`; a failure of either step is rendered with its `Display`.
///
/// Claims only that a failed parse gives the error `url_components` names for
/// `base`, and that otherwise the result is the join `url_joined` names for
/// the parsed URL's serialisation and `reference`; the parsing and resolution
/// rules of the `url` crate are not restated here.
#[verifier::external_body]
pub(crate) fn resolve_against(base: &str, reference: &str) -> (r: Result<String, String>)
    ensures
        match url_components(base@) {
            Err(e) => r matches Err(x) && x@ == e,
            Ok(parts) => match r {
                Ok(s) => url_joined(parts.3, reference@) == Ok::<Seq<char>, Seq<char>>(s@),
                Err(e) => url_joined(parts.3, reference@) == Err::<Seq<char>, Seq<char>>(e@),
            },
        },
{
    match url::Url::parse(base) {
        Ok(b) => match b.join(reference) {
            Ok(u) => Ok(u.to_string()),
            Err(error) => Err(error.to_string()),
        },
        Err(error) => Err(error.to_string()),
    }
}

} // verus!

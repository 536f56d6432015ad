//! Resource identifiers: absolute addresses of fetchable documents.
//!
//! Parsing and reference resolution are done by the `url` crate. A
//! [`Resource`] keeps, as plain text, the parts of a parsed address that the
//! crawler reads: its normalized form, which is its identity, and its scheme,
//! domain and path.

use url::Url;
use vstd::prelude::*;
use vstd::std_specs::cmp::PartialEqSpecImpl;

verus! {

/// Why a text is not accepted as a resource identifier.
#[derive(Clone, Copy, Debug, PartialEq, Eq, Structural)]
pub enum UrlError {
    /// The text is a relative reference, and there is no base to resolve it
    /// against.
    RelativeWithoutBase,
    /// The text is malformed in any other way.
    Invalid,
}

/// An absolute resource identifier.
///
/// Two resources are the same resource exactly when their normalized texts
/// are equal.
#[derive(Debug)]
pub struct Resource {
    text: String,
    scheme: String,
    domain: Option<String>,
    path: String,
}

/// The mathematical content of a [`Resource`].
pub ghost struct ResourceView {
    /// The normalized absolute form.
    pub text: Seq<char>,
    /// The scheme, without the colon.
    pub scheme: Seq<char>,
    /// The host, where it is a domain name.
    pub domain: Option<Seq<char>>,
    /// The path.
    pub path: Seq<char>,
}

impl View for Resource {
    type V = ResourceView;

    closed spec fn view(&self) -> ResourceView {
        ResourceView {
            text: self.text@,
            scheme: self.scheme@,
            domain: match self.domain {
                Some(d) => Some(d@),
                None => None,
            },
            path: self.path@,
        }
    }
}

/// What `url::Url::parse` makes of `input`: the parts of the parsed address,
/// or the reason for which it is refused.
pub uninterp spec fn parsed_url(input: Seq<char>) -> Result<ResourceView, UrlError>;

/// What `url::Url::join` makes of `input` on the address that
/// `url::Url::parse` reads from `base`.
pub uninterp spec fn joined_url(base: Seq<char>, input: Seq<char>) -> Result<
    ResourceView,
    UrlError,
>;

/// The content of the outcome of a parse.
pub open spec fn outcome_view(r: Result<Resource, UrlError>) -> Result<ResourceView, UrlError> {
    match r {
        Ok(resource) => Ok(resource@),
        Err(e) => Err(e),
    }
}

/// The content of an optional resource.
pub open spec fn option_view(r: Option<Resource>) -> Option<ResourceView> {
    match r {
        Some(resource) => Some(resource@),
        None => None,
    }
}

/// The resource that a link target denotes in a document fetched from
/// `base`: the target itself where it is absolute, the target resolved
/// against `base` where it is relative, and none where it is malformed.
pub open spec fn resolved(base: Seq<char>, target: Seq<char>) -> Option<ResourceView> {
    resolved_from(parsed_url(target), joined_url(base, target))
}

/// [`resolved`], given the outcome of parsing the target alone and the
/// outcome of joining it to the base.
pub open spec fn resolved_from(
    alone: Result<ResourceView, UrlError>,
    joined: Result<ResourceView, UrlError>,
) -> Option<ResourceView> {
    match alone {
        Ok(resource) => Some(resource),
        Err(UrlError::RelativeWithoutBase) => match joined {
            Ok(resource) => Some(resource),
            Err(_) => None,
        },
        Err(UrlError::Invalid) => None,
    }
}

/// The scheme of the protocol that the crawler speaks.
pub open spec fn gemini_scheme() -> Seq<char> {
    seq!['g', 'e', 'm', 'i', 'n', 'i']
}

/// Calls `url::Url::parse` on `input` and copies out the normalized text, the
/// scheme, the domain and the path of the address it returns. Of its errors
/// only `RelativeUrlWithoutBase` is told apart. The contract claims that the
/// outcome is a function of `input` alone.
#[verifier::external_body]
fn url_parse(input: &str) -> (r: Result<Resource, UrlError>)
    ensures
        outcome_view(r) == parsed_url(input@),
{
    match Url::parse(input) {
        Ok(u) => Ok(
            Resource {
                text: u.as_str().to_string(),
                scheme: u.scheme().to_string(),
                domain: u.domain().map(|d| d.to_string()),
                path: u.path().to_string(),
            },
        ),
        Err(url::ParseError::RelativeUrlWithoutBase) => Err(UrlError::RelativeWithoutBase),
        Err(_) => Err(UrlError::Invalid),
    }
}

/// Calls `url::Url::parse` on `base`, then `url::Url::join` with `input` on
/// the address it returns, and copies out the parts as `url_parse` does. The
/// contract claims that the outcome is a function of the two texts alone.
#[verifier::external_body]
fn url_join(base: &str, input: &str) -> (r: Result<Resource, UrlError>)
    ensures
        outcome_view(r) == joined_url(base@, input@),
{
    match Url::parse(base).and_then(|b| b.join(input)) {
        Ok(u) => Ok(
            Resource {
                text: u.as_str().to_string(),
                scheme: u.scheme().to_string(),
                domain: u.domain().map(|d| d.to_string()),
                path: u.path().to_string(),
            },
        ),
        Err(url::ParseError::RelativeUrlWithoutBase) => Err(UrlError::RelativeWithoutBase),
        Err(_) => Err(UrlError::Invalid),
    }
}

impl PartialEq for Resource {
    fn eq(&self, other: &Self) -> (r: bool) {
        self.text == other.text
    }
}

impl Eq for Resource {

}

impl PartialEqSpecImpl for Resource {
    open spec fn obeys_eq_spec() -> bool {
        true
    }

    open spec fn eq_spec(&self, other: &Self) -> bool {
        self@.text == other@.text
    }
}

impl Clone for Resource {
    fn clone(&self) -> (r: Self)
        ensures
            r@ == self@,
    {
        Resource {
            text: self.text.clone(),
            scheme: self.scheme.clone(),
            domain: match &self.domain {
                Some(d) => Some(d.clone()),
                None => None,
            },
            path: self.path.clone(),
        }
    }
}

impl Resource {
    /// Parses an absolute resource identifier.
    pub fn parse(input: &str) -> (r: Result<Resource, UrlError>)
        ensures
            outcome_view(r) == parsed_url(input@),
    {
        url_parse(input)
    }

    /// Resolves `input`, which may be relative, against this resource.
    pub fn join(&self, input: &str) -> (r: Result<Resource, UrlError>)
        ensures
            outcome_view(r) == joined_url(self@.text, input@),
    {
        url_join(self.text.as_str(), input)
    }

    /// The resource that the link target `target` denotes in a document
    /// fetched from this resource.
    pub fn resolve(&self, target: &str) -> (r: Option<Resource>)
        ensures
            option_view(r) == resolved(self@.text, target@),
    {
        self.resolve_parsed(Resource::parse(target), target)
    }

    /// [`Resource::resolve`] for a target that has been parsed already:
    /// `alone` is the outcome of parsing `target` without a base. An absolute
    /// target stands for itself, a relative one is joined to this resource,
    /// and a malformed one denotes nothing.
    pub fn resolve_parsed(&self, alone: Result<Resource, UrlError>, target: &str) -> (r: Option<
        Resource,
    >)
        ensures
            option_view(r) == resolved_from(outcome_view(alone), joined_url(self@.text, target@)),
    {
        match alone {
            Ok(resource) => Some(resource),
            Err(UrlError::RelativeWithoutBase) => match self.join(target) {
                Ok(resource) => Some(resource),
                Err(_) => None,
            },
            Err(UrlError::Invalid) => None,
        }
    }

    /// The normalized absolute form: the identity of the resource.
    pub fn as_str(&self) -> (s: &str)
        ensures
            s@ == self@.text,
    {
        self.text.as_str()
    }

    /// A copy of the normalized absolute form.
    pub fn to_text(&self) -> (s: String)
        ensures
            s@ == self@.text,
    {
        self.text.clone()
    }

    /// The scheme, without the colon.
    pub fn scheme(&self) -> (s: &str)
        ensures
            s@ == self@.scheme,
    {
        self.scheme.as_str()
    }

    /// The host, where it is a domain name.
    pub fn domain(&self) -> (d: Option<&str>)
        ensures
            match d {
                Some(s) => self@.domain == Some(s@),
                None => self@.domain is None,
            },
    {
        match &self.domain {
            Some(d) => Some(d.as_str()),
            None => None,
        }
    }

    /// The path.
    pub fn path(&self) -> (s: &str)
        ensures
            s@ == self@.path,
    {
        self.path.as_str()
    }

    /// Whether this is the same resource as `other`.
    pub fn same_as(&self, other: &Resource) -> (b: bool)
        ensures
            b == (self@.text == other@.text),
    {
        self.text == other.text
    }

    /// Whether the resource is addressed by the crawler's own protocol.
    pub fn is_gemini(&self) -> (b: bool)
        ensures
            b == (self@.scheme == gemini_scheme()),
    {
        let chars = crate::text::to_chars(self.scheme.as_str());
        let b = chars.len() == 6 && chars[0] == 'g' && chars[1] == 'e' && chars[2] == 'm'
            && chars[3] == 'i' && chars[4] == 'n' && chars[5] == 'i';
        assert(b ==> chars@ =~= gemini_scheme());
        b
    }
}

} // verus!

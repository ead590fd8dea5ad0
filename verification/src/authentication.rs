//! Which hosts may receive credentials, and the decisions of bearer-token
//! authentication.

use vstd::prelude::*;
use crate::api_error::ApiError;
use crate::case_insensitive_map::entries_append;
use crate::request_information::{resolve_uri, RequestInformation};
use crate::text::{lowercase, to_lowercase};

verus! {

/// The set of hosts that may receive credentials, lower-cased; an empty set
/// allows every host.
#[derive(Debug, Clone)]
pub struct AllowedHostsValidator {
    allowed_hosts: Vec<String>,
}

impl AllowedHostsValidator {
    /// The allowed hosts.
    pub closed spec fn spec_hosts(&self) -> Set<Seq<char>> {
        Set::new(|h: Seq<char>| exists|i: int| 0 <= i < self.allowed_hosts@.len() && #[trigger] self.allowed_hosts@[i]@ == h)
    }

    /// Whether a request to `host` may carry credentials: always when no
    /// host is listed, else exactly when the lower-cased host is listed.
    pub open spec fn spec_allows(&self, host: Option<Seq<char>>) -> bool {
        if self.spec_hosts() == Set::<Seq<char>>::empty() {
            true
        } else {
            match host {
                Some(h) => self.spec_hosts().contains(lowercase(h)),
                None => false,
            }
        }
    }

    /// A validator for `hosts`, each lower-cased.
    pub fn new(hosts: Vec<String>) -> (r: Self)
        ensures
            r.spec_hosts() == Set::new(|h: Seq<char>| exists|i: int| 0 <= i < hosts@.len() && h == lowercase(#[trigger] hosts@[i]@)),
    {
        let mut allowed: Vec<String> = Vec::new();
        let mut i: usize = 0;
        while i < hosts.len()
            invariant
                i <= hosts@.len(),
                allowed@.len() == i,
                forall|j: int| 0 <= j < i ==> #[trigger] allowed@[j]@ == lowercase(hosts@[j]@),
            decreases hosts.len() - i,
        {
            allowed.push(to_lowercase(hosts[i].as_str()));
            i = i + 1;
        }
        let r = AllowedHostsValidator { allowed_hosts: allowed };
        assert(r.spec_hosts() =~= Set::new(|h: Seq<char>| exists|i: int| 0 <= i < hosts@.len() && h == lowercase(#[trigger] hosts@[i]@))) by {
            assert forall|h: Seq<char>| r.spec_hosts().contains(h) implies
                (exists|i: int| 0 <= i < hosts@.len() && h == lowercase(#[trigger] hosts@[i]@)) by {
                let i = choose|i: int| 0 <= i < allowed@.len() && #[trigger] allowed@[i]@ == h;
                assert(h == lowercase(hosts@[i]@));
            }
            assert forall|h: Seq<char>| (exists|i: int| 0 <= i < hosts@.len() && h == lowercase(#[trigger] hosts@[i]@))
                implies r.spec_hosts().contains(h) by {
                let i = choose|i: int| 0 <= i < hosts@.len() && h == lowercase(#[trigger] hosts@[i]@);
                assert(allowed@[i]@ == h);
            }
        }
        r
    }

    /// Whether a request to `host` may carry credentials (see `spec_allows`).
    pub fn is_host_allowed(&self, host: Option<&str>) -> (r: bool)
        ensures
            r == self.spec_allows(match host { Some(h) => Some(h@), None => None }),
    {
        if self.allowed_hosts.len() == 0 {
            assert(self.spec_hosts() =~= Set::<Seq<char>>::empty());
            return true;
        }
        assert(self.spec_hosts().contains(self.allowed_hosts@[0]@));
        match host {
            None => false,
            Some(h) => {
                let lh = to_lowercase(h);
                let mut i: usize = 0;
                while i < self.allowed_hosts.len()
                    invariant
                        i <= self.allowed_hosts@.len(),
                        lh@ == lowercase(h@),
                        host == Some(h),
                        self.allowed_hosts@.len() > 0,
                        self.spec_hosts().contains(self.allowed_hosts@[0]@),
                        forall|j: int| 0 <= j < i ==> self.allowed_hosts@[j]@ != lh@,
                    decreases self.allowed_hosts.len() - i,
                {
                    if self.allowed_hosts[i] == lh {
                        assert(self.spec_hosts().contains(self.allowed_hosts@[i as int]@));
                        assert(self.spec_hosts() != Set::<Seq<char>>::empty());
                        return true;
                    }
                    i = i + 1;
                }
                assert(self.spec_hosts() != Set::<Seq<char>>::empty());
                false
            },
        }
    }

    /// Whether a request to `url` may carry credentials: the URL's host is
    /// judged as `is_host_allowed` judges it.
    pub fn is_url_host_valid(&self, url: &url::Url) -> (r: bool)
        ensures
            r == self.spec_allows(url_host_name(*url)),
            self.spec_hosts() == Set::<Seq<char>>::empty() ==> r,
    {
        let host = url_host(url);
        let r = match &host {
            Some(h) => self.is_host_allowed(Some(h.as_str())),
            None => self.is_host_allowed(None),
        };
        proof {
            let h = match host { Some(s) => Some(s@), None => None::<Seq<char>> };
            assert(r == self.spec_allows(h));
        }
        r
    }
}

#[verifier::external_type_specification]
#[verifier::external_body]
pub struct ExUrl(url::Url);

#[verifier::external_type_specification]
#[verifier::external_body]
pub struct ExUrlParseError(url::ParseError);

/// The host that `url::Url::host_str` gives for `url`.
pub uninterp spec fn url_host_name(url: url::Url) -> Option<Seq<char>>;

/// `url::Url::host_str`, the host taken as a `String`. What it gives is
/// named `url_host_name`.
#[verifier::external_body]
fn url_host(url: &url::Url) -> (r: Option<String>)
    ensures
        (match r { Some(h) => Some(h@), None => None::<Seq<char>> }) == url_host_name(*url),
{
    url.host_str().map(|h| h.to_string())
}

/// The URL that `url::Url::parse` reads from `s`, or nothing where it
/// reports an error.
pub uninterp spec fn url_parsed(s: Seq<char>) -> Option<url::Url>;

/// `url::Url::parse`. The URL it reads is named `url_parsed`.
#[verifier::external_body]
fn url_parse(s: &str) -> (r: Result<url::Url, url::ParseError>)
    ensures
        r is Ok <==> url_parsed(s@) is Some,
        r matches Ok(u) ==> url_parsed(s@) == Some(u),
{
    url::Url::parse(s)
}

/// The text a `url::ParseError` displays; nothing is stated of it.
#[verifier::external_body]
fn url_parse_error_text(e: &url::ParseError) -> String {
    e.to_string()
}

/// Authenticates nothing: requests go out as they are.
#[derive(Debug, Clone, Copy, Default)]
pub struct AnonymousAuthenticationProvider;

impl AnonymousAuthenticationProvider {
    /// Leaves the request as it is.
    pub fn authenticate_request(&self, request: &mut RequestInformation) -> (r: Result<(), ApiError>)
        ensures
            r is Ok,
            *final(request) == *old(request),
    {
        Ok(())
    }
}

/// The first step of bearer authentication: the request's URI (the error
/// `get_uri` gives if it has none), parsed as a URL (an error `Invalid URL:
/// ...` with status code 0, no headers and no body if it does not parse);
/// then that URL, to ask a token for, or nothing when the validator does not
/// allow the URL's host.
pub fn bearer_token_target(request: &RequestInformation, validator: &AllowedHostsValidator) -> (r: Result<Option<url::Url>, ApiError>)
    ensures
        match resolve_uri(request.url_template@, request.path_parameters.entries(), request.query_parameters.entries()) {
            Err(m) => r matches Err(e) && e.status_code == 0 && e.message@ == m
                && e.headers@ == Map::<String, Vec<String>>::empty() && e.response_body is None,
            Ok(u) => match url_parsed(u) {
                None => r matches Err(e) && e.status_code == 0 && e.message@.take(13) == "Invalid URL: "@
                    && e.headers@ == Map::<String, Vec<String>>::empty() && e.response_body is None,
                Some(url) => r matches Ok(t) && (if validator.spec_allows(url_host_name(url)) {
                    t == Some(url)
                } else {
                    t is None
                }),
            },
        },
{
    let uri = match request.get_uri() {
        Ok(u) => u,
        Err(e) => { return Err(e); },
    };
    let url = match url_parse(uri.as_str()) {
        Ok(u) => u,
        Err(e) => {
            let t = url_parse_error_text(&e);
            let mut m = String::from_str("Invalid URL: ");
            m.append(t.as_str());
            proof { reveal_strlit("Invalid URL: "); }
            assert(m@.take(13) =~= "Invalid URL: "@);
            return Err(ApiError::new(0, m.as_str()));
        },
    };
    if !validator.is_url_host_valid(&url) {
        return Ok(None);
    }
    Ok(Some(url))
}

/// The header value for a bearer token.
pub open spec fn bearer_value(token: Seq<char>) -> Seq<char> {
    "Bearer "@ + token
}

/// The last step of bearer authentication: a non-empty token goes into the
/// `Authorization` header as `Bearer <token>`; an empty one changes nothing.
pub fn apply_bearer_token(request: &mut RequestInformation, token: &str)
    ensures
        token@.len() == 0 ==> *final(request) == *old(request),
        token@.len() > 0 ==> final(request).headers.entries()
            == entries_append(old(request).headers.entries(), lowercase("Authorization"@), bearer_value(token@)),
        final(request).http_method == old(request).http_method,
        final(request).url_template == old(request).url_template,
        final(request).path_parameters == old(request).path_parameters,
        final(request).query_parameters == old(request).query_parameters,
        final(request).content == old(request).content,
        final(request).request_options == old(request).request_options,
{
    if token.is_empty() {
        return;
    }
    let mut v = String::from_str("Bearer ");
    v.append(token);
    request.headers.insert("Authorization", v.as_str());
}

} // verus!

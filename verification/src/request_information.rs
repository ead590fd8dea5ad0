//! The description of an HTTP request: method, URI template and parameters,
//! headers, body and options.

use vstd::prelude::*;
use crate::api_error::ApiError;
use crate::case_insensitive_map::CaseInsensitiveMap;
use crate::string_map::StringMap;
use crate::text::{
    chars_of, contains_char, lemma_replace_absent, lemma_replace_whole, occurs_in, push_chars,
    replace_all, replace_chars, string_of,
};

verus! {

/// An option attached to a request for the middleware or handlers to read.
pub trait RequestOption: Send + Sync {
    /// A key that identifies the kind of option.
    fn get_key(&self) -> &str;
}

/// The HTTP methods a request can use.
#[derive(Clone, Copy, Debug, PartialEq, Eq, Hash, Structural)]
pub enum HttpMethod {
    Get,
    Post,
    Put,
    Patch,
    Delete,
    Options,
    Head,
    Trace,
}

/// The name of a method as it goes on the wire.
pub open spec fn method_name(m: HttpMethod) -> Seq<char> {
    match m {
        HttpMethod::Get => "GET"@,
        HttpMethod::Post => "POST"@,
        HttpMethod::Put => "PUT"@,
        HttpMethod::Patch => "PATCH"@,
        HttpMethod::Delete => "DELETE"@,
        HttpMethod::Options => "OPTIONS"@,
        HttpMethod::Head => "HEAD"@,
        HttpMethod::Trace => "TRACE"@,
    }
}

impl HttpMethod {
    /// The method's name, upper case.
    pub fn as_str(&self) -> (r: &'static str)
        ensures
            r@ == method_name(*self),
    {
        match self {
            HttpMethod::Get => "GET",
            HttpMethod::Post => "POST",
            HttpMethod::Put => "PUT",
            HttpMethod::Patch => "PATCH",
            HttpMethod::Delete => "DELETE",
            HttpMethod::Options => "OPTIONS",
            HttpMethod::Head => "HEAD",
            HttpMethod::Trace => "TRACE",
        }
    }

    /// The method's name, upper case, as the method displays.
    pub fn to_string(&self) -> (r: String)
        ensures
            r@ == method_name(*self),
    {
        String::from_str(self.as_str())
    }
}

/// The placeholder `{+name}` of a template.
pub open spec fn reserved_placeholder(name: Seq<char>) -> Seq<char> {
    "{+"@ + name + "}"@
}

/// The placeholder `{name}` of a template.
pub open spec fn simple_placeholder(name: Seq<char>) -> Seq<char> {
    "{"@ + name + "}"@
}

/// The template with each parameter substituted in turn: first every
/// `{+name}`, then every `{name}`, by the parameter's value.
pub open spec fn substitute(t: Seq<char>, params: Seq<(Seq<char>, Seq<char>)>) -> Seq<char>
    decreases params.len(),
{
    if params.len() == 0 {
        t
    } else {
        let k = params[0].0;
        let v = params[0].1;
        substitute(
            replace_all(replace_all(t, reserved_placeholder(k), v), simple_placeholder(k), v),
            params.drop_first(),
        )
    }
}

/// `name=value`.
pub open spec fn query_pair(p: (Seq<char>, Seq<char>)) -> Seq<char> {
    p.0 + seq!['='] + p.1
}

/// The pairs `name=value`, joined by `&`.
pub open spec fn query_string(q: Seq<(Seq<char>, Seq<char>)>) -> Seq<char>
    decreases q.len(),
{
    if q.len() == 0 {
        Seq::empty()
    } else if q.len() == 1 {
        query_pair(q[0])
    } else {
        query_string(q.drop_last()) + seq!['&'] + query_pair(q.last())
    }
}

/// The message of the error for an empty template.
pub open spec fn empty_template_message() -> Seq<char> {
    "URL template is empty — cannot build request URI"@
}

/// The URI a template resolves to: an error for an empty template; else the
/// template with the path parameters substituted, followed, when there are
/// query parameters, by `?` (or `&` if a `?` is there already) and the
/// query string.
pub open spec fn resolve_uri(
    template: Seq<char>,
    path: Seq<(Seq<char>, Seq<char>)>,
    query: Seq<(Seq<char>, Seq<char>)>,
) -> Result<Seq<char>, Seq<char>> {
    if template.len() == 0 {
        Err(empty_template_message())
    } else {
        let u = substitute(template, path);
        if query.len() == 0 {
            Ok(u)
        } else {
            Ok(u + (if u.contains('?') { seq!['&'] } else { seq!['?'] }) + query_string(query))
        }
    }
}

/// A request to be sent: the method, the URI template with its path and
/// query parameters, the headers, an optional body and the options.
pub struct RequestInformation {
    pub http_method: HttpMethod,
    pub url_template: String,
    pub path_parameters: StringMap<String>,
    pub query_parameters: StringMap<String>,
    pub headers: CaseInsensitiveMap,
    pub content: Option<Vec<u8>>,
    pub request_options: Vec<Box<dyn RequestOption>>,
}

/// The characters `{`, then those of `name`, then `}`, with `+` after the
/// brace when `reserved`.
fn placeholder(name: &[char], reserved: bool) -> (r: Vec<char>)
    ensures
        r@ == (if reserved { reserved_placeholder(name@) } else { simple_placeholder(name@) }),
        r@.len() > 0,
{
    let mut r: Vec<char> = Vec::new();
    r.push('{');
    if reserved {
        r.push('+');
    }
    push_chars(&mut r, name);
    r.push('}');
    proof {
        reveal_strlit("{+");
        reveal_strlit("{");
        reveal_strlit("}");
    }
    assert(r@ =~= (if reserved { reserved_placeholder(name@) } else { simple_placeholder(name@) }));
    r
}

impl RequestInformation {
    /// A GET request with an empty template, no parameters, headers, body or
    /// options.
    pub fn new() -> (r: Self)
        ensures
            r.http_method == HttpMethod::Get,
            r.url_template@ == Seq::<char>::empty(),
            r.path_parameters.entries() == Seq::<(Seq<char>, Seq<char>)>::empty(),
            r.query_parameters.entries() == Seq::<(Seq<char>, Seq<char>)>::empty(),
            r.headers.entries() == Seq::<(Seq<char>, Seq<Seq<char>>)>::empty(),
            r.content is None,
            r.request_options@.len() == 0,
    {
        RequestInformation {
            http_method: HttpMethod::Get,
            url_template: String::new(),
            path_parameters: StringMap::new(),
            query_parameters: StringMap::new(),
            headers: CaseInsensitiveMap::new(),
            content: None,
            request_options: Vec::new(),
        }
    }

    /// Makes the request go to `uri` as it is: the template becomes
    /// `{+baseurl}`, the only path parameter `baseurl` = `uri`, and the query
    /// parameters are dropped.
    pub fn set_uri(&mut self, uri: &str)
        ensures
            final(self).url_template@ == "{+baseurl}"@,
            final(self).path_parameters.entries() == seq![("baseurl"@, uri@)],
            final(self).query_parameters.entries() == Seq::<(Seq<char>, Seq<char>)>::empty(),
            final(self).http_method == old(self).http_method,
            final(self).headers == old(self).headers,
            final(self).content == old(self).content,
            final(self).request_options == old(self).request_options,
    {
        self.url_template = String::from_str("{+baseurl}");
        self.path_parameters.clear();
        self.query_parameters.clear();
        self.path_parameters.insert(String::from_str("baseurl"), String::from_str(uri));
        assert(self.path_parameters.entries() =~= seq![("baseurl"@, uri@)]);
    }

    /// The URI the request goes to: see `resolve_uri`.
    pub fn get_uri(&self) -> (r: Result<String, ApiError>)
        ensures
            match r {
                Ok(u) => resolve_uri(self.url_template@, self.path_parameters.entries(), self.query_parameters.entries())
                    == Ok::<Seq<char>, Seq<char>>(u@),
                Err(e) => e.status_code == 0 && resolve_uri(self.url_template@, self.path_parameters.entries(),
                    self.query_parameters.entries()) == Err::<Seq<char>, Seq<char>>(e.message@)
                    && e.headers@ == Map::<String, Vec<String>>::empty() && e.response_body is None,
            },
    {
        if self.url_template.as_str().is_empty() {
            return Err(ApiError::new(0, "URL template is empty — cannot build request URI"));
        }
        let ghost path = self.path_parameters.entries();
        let mut url = chars_of(self.url_template.as_str());
        let n = self.path_parameters.len();
        let mut i: usize = 0;
        assert(path.skip(0) =~= path);
        while i < n
            invariant
                i <= n,
                n == path.len(),
                path == self.path_parameters.entries(),
                substitute(self.url_template@, path) == substitute(url@, path.skip(i as int)),
            decreases n - i,
        {
            let key = chars_of(self.path_parameters.key_at(i).as_str());
            let value = chars_of(self.path_parameters.value_at(i).as_str());
            let reserved = placeholder(key.as_slice(), true);
            let simple = placeholder(key.as_slice(), false);
            let step = replace_chars(url.as_slice(), reserved.as_slice(), value.as_slice());
            url = replace_chars(step.as_slice(), simple.as_slice(), value.as_slice());
            assert(path.skip(i as int).drop_first() =~= path.skip(i as int + 1));
            i = i + 1;
        }
        assert(path.skip(i as int) =~= Seq::<(Seq<char>, Seq<char>)>::empty());
        assert(url@ == substitute(self.url_template@, path));
        let ghost u = url@;
        let ghost query = self.query_parameters.entries();
        let m = self.query_parameters.len();
        if m > 0 {
            let sep = if contains_char(url.as_slice(), '?') { '&' } else { '?' };
            url.push(sep);
            let mut j: usize = 0;
            let ghost base = url@;
            assert(query.take(0) =~= Seq::<(Seq<char>, Seq<char>)>::empty());
            while j < m
                invariant
                    j <= m,
                    m == query.len(),
                    query == self.query_parameters.entries(),
                    url@ == base + query_string(query.take(j as int)),
                decreases m - j,
            {
                let ghost before = url@;
                if j > 0 {
                    url.push('&');
                }
                let key = chars_of(self.query_parameters.key_at(j).as_str());
                let value = chars_of(self.query_parameters.value_at(j).as_str());
                push_chars(&mut url, key.as_slice());
                url.push('=');
                push_chars(&mut url, value.as_slice());
                proof {
                    let t = query.take(j as int + 1);
                    assert(t.drop_last() =~= query.take(j as int));
                    assert(t.last() == query[j as int]);
                    if j == 0 {
                        assert(url@ =~= before + query_pair(query[0]));
                    } else {
                        assert(url@ =~= before + seq!['&'] + query_pair(query[j as int]));
                    }
                }
                j = j + 1;
            }
            assert(query.take(m as int) =~= query);
            assert(url@ == u + (if u.contains('?') { seq!['&'] } else { seq!['?'] }) + query_string(query));
        }
        assert(resolve_uri(self.url_template@, path, query) == Ok::<Seq<char>, Seq<char>>(url@));
        Ok(string_of(url.as_slice()))
    }
}

/// After `set_uri(u)`, `get_uri` gives `u` back, unless `u` itself holds the
/// placeholder `{baseurl}`, which the second substitution would replace.
pub proof fn lemma_set_uri_then_get_uri(u: Seq<char>)
    requires
        !occurs_in(u, simple_placeholder("baseurl"@)),
    ensures
        resolve_uri("{+baseurl}"@, seq![("baseurl"@, u)], Seq::empty()) == Ok::<Seq<char>, Seq<char>>(u),
{
    reveal_strlit("{+baseurl}");
    reveal_strlit("baseurl");
    reveal_strlit("{+");
    reveal_strlit("}");
    let t = "{+baseurl}"@;
    let params = seq![("baseurl"@, u)];
    assert(reserved_placeholder("baseurl"@) =~= t);
    lemma_replace_whole(t, u);
    lemma_replace_absent(u, simple_placeholder("baseurl"@), u);
    assert(params.drop_first() =~= Seq::<(Seq<char>, Seq<char>)>::empty());
    assert(substitute(t, params) == substitute(u, params.drop_first()));
}

/// Query parameters go after the URL the template resolves to: the result
/// starts with that URL, then `&` when that URL already holds a `?` (it has
/// a query of its own) and `?` when it does not, then the query string; so
/// the result always holds a `?`.
pub proof fn lemma_query_separator(
    template: Seq<char>,
    path: Seq<(Seq<char>, Seq<char>)>,
    query: Seq<(Seq<char>, Seq<char>)>,
)
    requires
        template.len() > 0,
        query.len() > 0,
    ensures
        resolve_uri(template, path, query) matches Ok(r) && {
            let u = substitute(template, path);
            &&& r.len() == u.len() + 1 + query_string(query).len()
            &&& r.subrange(0, u.len() as int) == u
            &&& r[u.len() as int] == (if u.contains('?') { '&' } else { '?' })
            &&& r.subrange(u.len() as int + 1, r.len() as int) == query_string(query)
            &&& r.contains('?')
        },
{
    let u = substitute(template, path);
    let sep = if u.contains('?') { seq!['&'] } else { seq!['?'] };
    let r = u + sep + query_string(query);
    assert(r.subrange(0, u.len() as int) =~= u);
    assert(r.subrange(u.len() as int + 1, r.len() as int) =~= query_string(query));
    if u.contains('?') {
        let i = choose|i: int| 0 <= i < u.len() && u[i] == '?';
        assert(r[i] == '?');
    } else {
        assert(r[u.len() as int] == '?');
    }
}

/// After `set_uri(u)` and query parameters, `get_uri` gives `u`, then `&` if
/// `u` already has a `?` and `?` if not, then the query string (unless `u`
/// itself holds the placeholder `{baseurl}`).
pub proof fn lemma_set_uri_then_query(u: Seq<char>, query: Seq<(Seq<char>, Seq<char>)>)
    requires
        !occurs_in(u, simple_placeholder("baseurl"@)),
        query.len() > 0,
    ensures
        resolve_uri("{+baseurl}"@, seq![("baseurl"@, u)], query)
            == Ok::<Seq<char>, Seq<char>>(u + (if u.contains('?') { seq!['&'] } else { seq!['?'] }) + query_string(query)),
{
    lemma_set_uri_then_get_uri(u);
    reveal_strlit("{+baseurl}");
    assert(substitute("{+baseurl}"@, seq![("baseurl"@, u)]) == u);
}

impl Default for RequestInformation {
    /// The same request as `new` makes.
    fn default() -> (r: Self)
        ensures
            r.http_method == HttpMethod::Get,
            r.url_template@ == Seq::<char>::empty(),
            r.path_parameters.entries() == Seq::<(Seq<char>, Seq<char>)>::empty(),
            r.query_parameters.entries() == Seq::<(Seq<char>, Seq<char>)>::empty(),
            r.headers.entries() == Seq::<(Seq<char>, Seq<Seq<char>>)>::empty(),
            r.content is None,
            r.request_options@.len() == 0,
    {
        RequestInformation::new()
    }
}

} // verus!

//! The decisions of the HTTP request adapter: what goes out with a request,
//! how the response's content type is read, and which statuses are errors.

use std::collections::HashMap;
use vstd::prelude::*;
use crate::api_error::ApiError;
use crate::case_insensitive_map::CaseInsensitiveMap;
use crate::request_information::RequestInformation;
use crate::text::{chars_of, format_int, push_padded_i64, split_chars, split_on, string_of, trim, trim_chars};

verus! {

/// The content type of a response: the `content-type` header (or
/// `application/json` when there is none, or it is not visible ASCII) up to
/// its first `;`, without surrounding white space.
pub open spec fn response_content_type(header: Option<Seq<char>>) -> Seq<char> {
    let h = match header {
        Some(h) => h,
        None => "application/json"@,
    };
    trim(split_on(h, ';')[0])
}

/// Reads the content type of a response from its `content-type` header.
pub fn content_type_of(header: Option<&str>) -> (r: String)
    ensures
        r@ == response_content_type(match header { Some(h) => Some(h@), None => None }),
{
    let h = match header {
        Some(h) => h,
        None => "application/json",
    };
    let cs = chars_of(h);
    let parts = split_chars(cs.as_slice(), ';');
    proof { crate::text::lemma_split_on_nonempty(h@, ';'); }
    let first = trim_chars(parts[0].as_slice());
    string_of(first.as_slice())
}

/// The message of the error for a failed status: `HTTP <status>`.
pub open spec fn status_message(status: u16) -> Seq<char> {
    "HTTP "@ + format_int(status as int, 0)
}

/// The error for a response: statuses of 400 and above are errors carrying
/// the status, `HTTP <status>`, no headers and the response body; others are
/// not.
pub fn status_error(status: u16, body: String) -> (r: Option<ApiError>)
    ensures
        status < 400 ==> r is None,
        status >= 400 ==> (r matches Some(e) && e.status_code == status as i32
            && e.message@ == status_message(status)
            && e.headers@ == Map::<String, Vec<String>>::empty()
            && e.response_body == Some(body)),
{
    if status < 400 {
        return None;
    }
    let mut m = String::from_str("HTTP ");
    push_padded_i64(&mut m, status as i64, 0);
    Some(ApiError { status_code: status as i32, message: m, headers: HashMap::new(), response_body: Some(body) })
}

/// The headers as they go on the wire: each stored key with each of its
/// values, keys in order and values in order.
pub open spec fn header_lines(es: Seq<(Seq<char>, Seq<Seq<char>>)>) -> Seq<(Seq<char>, Seq<char>)>
    decreases es.len(),
{
    if es.len() == 0 {
        Seq::empty()
    } else {
        header_lines(es.drop_last()) + es.last().1.map_values(|v: Seq<char>| (es.last().0, v))
    }
}

/// The header lines of a request, `header_lines` of its headers.
pub fn header_pairs(headers: &CaseInsensitiveMap) -> (r: Vec<(String, String)>)
    ensures
        r@.map_values(|p: (String, String)| (p.0@, p.1@)) == header_lines(headers.entries()),
{
    let keys = headers.keys();
    let mut out: Vec<(String, String)> = Vec::new();
    let mut i: usize = 0;
    let ghost es = headers.entries();
    assert(es.take(0) =~= Seq::<(Seq<char>, Seq<Seq<char>>)>::empty());
    while i < keys.len()
        invariant
            i <= keys@.len(),
            keys@.len() == es.len(),
            es == headers.entries(),
            forall|j: int| 0 <= j < keys@.len() ==> #[trigger] keys@[j]@ == es[j].0,
            out@.map_values(|p: (String, String)| (p.0@, p.1@)) == header_lines(es.take(i as int)),
        decreases keys.len() - i,
    {
        headers.keys_are_distinct();
        let values = headers.get_stored(i);
        let ghost before = out@.map_values(|p: (String, String)| (p.0@, p.1@));
        let mut j: usize = 0;
        while j < values.len()
            invariant
                j <= values@.len(),
                values.deep_view() == es[i as int].1,
                i < keys@.len(),
                keys@[i as int]@ == es[i as int].0,
                out@.map_values(|p: (String, String)| (p.0@, p.1@))
                    == before + es[i as int].1.take(j as int).map_values(|v: Seq<char>| (es[i as int].0, v)),
            decreases values.len() - j,
        {
            let ghost prev = out@;
            out.push((keys[i].clone(), values[j].clone()));
            assert(out@.map_values(|p: (String, String)| (p.0@, p.1@)) =~= prev.map_values(|p: (String, String)| (p.0@, p.1@)).push((es[i as int].0, es[i as int].1[j as int])));
            assert(es[i as int].1.take(j as int + 1).map_values(|v: Seq<char>| (es[i as int].0, v))
                =~= es[i as int].1.take(j as int).map_values(|v: Seq<char>| (es[i as int].0, v)).push((es[i as int].0, es[i as int].1[j as int])));
            j = j + 1;
        }
        assert(es[i as int].1.take(j as int) =~= es[i as int].1);
        assert(es.take(i as int + 1).drop_last() =~= es.take(i as int));
        i = i + 1;
    }
    assert(es.take(i as int) =~= es);
    out
}

/// The bytes of an optional body.
pub open spec fn content_view(c: Option<Vec<u8>>) -> Option<Seq<u8>> {
    match c {
        Some(b) => Some(b@),
        None => None,
    }
}

/// A copy of the request for authentication to work on: method, template,
/// parameters, headers and body, without the options.
pub fn request_for_authentication(info: &RequestInformation) -> (r: RequestInformation)
    ensures
        r.http_method == info.http_method,
        r.url_template@ == info.url_template@,
        r.path_parameters.entries() == info.path_parameters.entries(),
        r.query_parameters.entries() == info.query_parameters.entries(),
        r.headers.entries() == info.headers.entries(),
        content_view(r.content) == content_view(info.content),
        r.request_options@.len() == 0,
{
    let mut copy = RequestInformation::new();
    copy.http_method = info.http_method;
    copy.url_template = info.url_template.clone();
    copy.path_parameters = info.path_parameters.copy();
    copy.query_parameters = info.query_parameters.copy();
    copy.headers = info.headers.copy();
    copy.content = match &info.content {
        Some(c) => {
            let b = c.clone();
            assert(b@ =~= c@);
            Some(b)
        },
        None => None,
    };
    copy
}

} // verus!

//! Responses shared by the request routers: method refusal, not found, and
//! the redirect of a download to the artifact store.
use vstd::prelude::*;
use vstd::utf8::encode_utf8;
use crate::text::{
    append, chars_of, chars_range, file_name, file_name_of, push_char, str_eq, string_of,
    trim_end,
};
use crate::types::{headers_view, HttpResponse, Metadata, MetadataView};

verus! {

/// The content of an `HttpResponse`.
pub struct ResponseView {
    pub status: u16,
    pub headers: Seq<(Seq<char>, Seq<char>)>,
    pub body: Seq<u8>,
}

impl View for HttpResponse {
    type V = ResponseView;

    open spec fn view(&self) -> ResponseView {
        ResponseView { status: self.status, headers: headers_view(self.headers@), body: self.body@ }
    }
}

/// The records of a list of artifacts.
pub open spec fn artifacts_view(arts: Seq<Metadata>) -> Seq<MetadataView> {
    arts.map_values(|a: Metadata| a@)
}

/// A response with one header and a UTF-8 text body.
pub open spec fn text_response(
    status: u16,
    name: Seq<char>,
    value: Seq<char>,
    text: Seq<char>,
) -> ResponseView {
    ResponseView { status, headers: seq![(name, value)], body: encode_utf8(text) }
}

/// Whether a request method is one the routers serve.
pub open spec fn is_read_method(method: Seq<char>) -> bool {
    method == "GET"@ || method == "HEAD"@
}

/// The answer to any method but GET and HEAD.
pub open spec fn method_not_allowed() -> ResponseView {
    text_response(405, "allow"@, "GET, HEAD"@, "Method Not Allowed"@)
}

/// The answer to a path no route knows.
pub open spec fn not_found() -> ResponseView {
    text_response(404, "content-type"@, "text/plain"@, "Not Found"@)
}

/// The position of the first artifact whose path ends in `filename`, or -1.
pub open spec fn first_with_file_name(arts: Seq<MetadataView>, filename: Seq<char>) -> int
    decreases arts.len(),
{
    if arts.len() == 0 {
        -1
    } else if first_with_file_name(arts.drop_last(), filename) >= 0 {
        first_with_file_name(arts.drop_last(), filename)
    } else if file_name(arts.last().path) == filename {
        arts.len() - 1
    } else {
        -1
    }
}

/// The answer to a download of `filename`: a redirect to
/// `{download_base}/{path}` of the first artifact whose path ends in it, else
/// 404 naming it.
pub open spec fn download_response(
    filename: Seq<char>,
    download_base: Seq<char>,
    arts: Seq<MetadataView>,
) -> ResponseView {
    let i = first_with_file_name(arts, filename);
    if 0 <= i < arts.len() {
        ResponseView {
            status: 302,
            headers: seq![("location"@, download_base + "/"@ + arts[i].path)],
            body: seq![],
        }
    } else {
        text_response(404, "content-type"@, "text/plain"@, "Package '"@ + filename + "' not found"@)
    }
}

/// What follows `prefix` in `trimmed`, when that is one non-empty segment.
pub open spec fn routed_segment(trimmed: Seq<char>, prefix: Seq<char>) -> Option<Seq<char>> {
    if prefix.len() <= trimmed.len() && trimmed.subrange(0, prefix.len() as int) == prefix {
        let rest = trimmed.subrange(prefix.len() as int, trimmed.len() as int);
        if rest.len() > 0 && !rest.contains('/') {
            Some(rest)
        } else {
            None
        }
    } else {
        None
    }
}

/// A response with one header and a UTF-8 text body.
pub(crate) fn respond_text(status: u16, name: &str, value: String, text: String) -> (r:
    HttpResponse)
    ensures
        r@ == text_response(status, name@, value@, text@),
{
    let mut headers: Vec<(String, String)> = Vec::new();
    headers.push((string_of(name), value));
    let body = text.as_str().as_bytes_vec();
    let r = HttpResponse { status, headers, body };
    assert(r@.headers =~= seq![(name@, value@)]);
    r
}

/// The answer to any method but GET and HEAD.
pub(crate) fn respond_method_not_allowed() -> (r: HttpResponse)
    ensures
        r@ == method_not_allowed(),
{
    respond_text(405, "allow", string_of("GET, HEAD"), string_of("Method Not Allowed"))
}

/// The answer to a path no route knows.
pub(crate) fn respond_not_found() -> (r: HttpResponse)
    ensures
        r@ == not_found(),
{
    respond_text(404, "content-type", string_of("text/plain"), string_of("Not Found"))
}

/// Whether a request method is one the routers serve.
pub(crate) fn read_method(method: &str) -> (r: bool)
    ensures
        r == is_read_method(method@),
{
    str_eq(method, "GET") || str_eq(method, "HEAD")
}

/// Appends the characters of `v`.
pub(crate) fn append_chars(out: &mut String, v: &Vec<char>)
    ensures
        final(out)@ == old(out)@ + v@,
{
    let ghost start = out@;
    let mut i: usize = 0;
    while i < v.len()
        invariant
            i <= v.len(),
            out@ == start + v@.subrange(0, i as int),
        decreases v.len() - i,
    {
        push_char(out, v[i]);
        assert(v@.subrange(0, i + 1) =~= v@.subrange(0, i as int).push(v@[i as int]));
        i = i + 1;
    }
    assert(v@.subrange(0, v@.len() as int) =~= v@);
}

/// What follows `prefix` in `trimmed`, as `routed_segment` says.
pub(crate) fn route_segment(trimmed: &Vec<char>, prefix: &str) -> (r: Option<Vec<char>>)
    ensures
        match r {
            Some(v) => routed_segment(trimmed@, prefix@) == Some(v@),
            None => routed_segment(trimmed@, prefix@) is None,
        },
{
    let p = chars_of(prefix);
    if p.len() > trimmed.len() {
        return None;
    }
    let mut i: usize = 0;
    while i < p.len()
        invariant
            p@ == prefix@,
            p.len() <= trimmed.len(),
            i <= p.len(),
            forall|j: int| 0 <= j < i ==> trimmed@[j] == p@[j],
        decreases p.len() - i,
    {
        if trimmed[i] != p[i] {
            assert(trimmed@.subrange(0, p.len() as int)[i as int] != p@[i as int]);
            return None;
        }
        i = i + 1;
    }
    assert(trimmed@.subrange(0, p.len() as int) =~= p@);
    let mut rest: Vec<char> = Vec::new();
    let mut k: usize = p.len();
    while k < trimmed.len()
        invariant
            p.len() <= k <= trimmed.len(),
            p@ == prefix@,
            trimmed@.subrange(0, p.len() as int) == p@,
            rest@ == trimmed@.subrange(p.len() as int, k as int),
            !rest@.contains('/'),
        decreases trimmed.len() - k,
    {
        if trimmed[k] == '/' {
            let ghost full = trimmed@.subrange(p.len() as int, trimmed.len() as int);
            assert(full[(k - p.len()) as int] == '/');
            assert(full.contains('/'));
            return None;
        }
        rest.push(trimmed[k]);
        assert(trimmed@.subrange(p.len() as int, k + 1) =~= trimmed@.subrange(
            p.len() as int,
            k as int,
        ).push(trimmed@[k as int]));
        k = k + 1;
    }
    if rest.len() == 0 {
        return None;
    }
    Some(rest)
}

/// The answer to a download request for `filename`, as `download_response`
/// says.
pub(crate) fn handle_package_download(
    filename: &Vec<char>,
    download_base: &String,
    artifacts: &Vec<Metadata>,
) -> (r: HttpResponse)
    ensures
        r@ == download_response(filename@, download_base@, artifacts_view(artifacts@)),
{
    let ghost arts = artifacts_view(artifacts@);
    let mut i: usize = 0;
    while i < artifacts.len()
        invariant
            i <= artifacts.len(),
            arts == artifacts_view(artifacts@),
            first_with_file_name(arts.subrange(0, i as int), filename@) == -1,
        decreases artifacts.len() - i,
    {
        assert(arts.subrange(0, i + 1).drop_last() =~= arts.subrange(0, i as int));
        let name = file_name_of(&chars_of(artifacts[i].path.as_str()));
        if vec_eq(&name, filename) {
            proof {
                lemma_first_with_file_name_prefix(arts, filename@, i as int);
            }
            let mut location = download_base.clone();
            append(&mut location, "/");
            append(&mut location, artifacts[i].path.as_str());
            let mut headers: Vec<(String, String)> = Vec::new();
            headers.push((string_of("location"), location));
            let r = HttpResponse { status: 302, headers, body: Vec::new() };
            assert(r@.headers =~= seq![("location"@, download_base@ + "/"@ + arts[i as int].path)]);
            assert(r@.body =~= Seq::<u8>::empty());
            return r;
        }
        assert(file_name(arts.subrange(0, i + 1).last().path) != filename@);
        i = i + 1;
    }
    assert(arts.subrange(0, arts.len() as int) =~= arts);
    let mut text = string_of("Package '");
    append_chars(&mut text, filename);
    append(&mut text, "' not found");
    respond_text(404, "content-type", string_of("text/plain"), text)
}

proof fn lemma_first_with_file_name_prefix(arts: Seq<MetadataView>, filename: Seq<char>, i: int)
    requires
        0 <= i < arts.len(),
        first_with_file_name(arts.subrange(0, i), filename) == -1,
        file_name(arts[i].path) == filename,
    ensures
        first_with_file_name(arts, filename) == i,
    decreases arts.len(),
{
    if i < arts.len() - 1 {
        assert(arts.drop_last().subrange(0, i) =~= arts.subrange(0, i));
        assert(arts.drop_last()[i] == arts[i]);
        lemma_first_with_file_name_prefix(arts.drop_last(), filename, i);
    } else {
        assert(arts.drop_last() =~= arts.subrange(0, i));
    }
}

/// `v` without its trailing run of `c`.
pub(crate) fn trim_trailing(v: &Vec<char>, c: char) -> (r: Vec<char>)
    ensures
        r@ == trim_end(v@, c),
{
    let mut hi: usize = v.len();
    assert(v@.subrange(0, v@.len() as int) =~= v@);
    while hi > 0 && v[hi - 1] == c
        invariant
            hi <= v.len(),
            trim_end(v@, c) == trim_end(v@.subrange(0, hi as int), c),
        decreases hi,
    {
        assert(v@.subrange(0, hi as int).drop_last() =~= v@.subrange(0, hi - 1));
        hi = hi - 1;
    }
    chars_range(v, 0, hi)
}

/// Whether two character vectors are equal.
pub(crate) fn vec_eq(a: &Vec<char>, b: &Vec<char>) -> (r: bool)
    ensures
        r == (a@ == b@),
{
    if a.len() != b.len() {
        return false;
    }
    let mut i: usize = 0;
    while i < a.len()
        invariant
            a.len() == b.len(),
            i <= a.len(),
            forall|j: int| 0 <= j < i ==> a@[j] == b@[j],
        decreases a.len() - i,
    {
        if a[i] != b[i] {
            return false;
        }
        i = i + 1;
    }
    assert(a@ =~= b@);
    true
}

} // verus!

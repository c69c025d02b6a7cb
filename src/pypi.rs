//! Python packages: wheel and source-distribution filename grammars, name
//! normalization, and the Simple Repository protocol.
use vstd::prelude::*;
use vstd::utf8::encode_utf8;
use crate::json::{
    catalog_json, documents_view, entries_view, fields_view, optional_field, push_number_field,
    push_optional_field, push_text_field, render_catalog, sum_sizes,
    text_field, total_size, Field, JsonScalar,
};
use crate::text::{
    all_ascii, append, ascii_lower, before_first, chars_of, chars_range, count_char, decimal,
    drop_end, ends_with, file_name, file_name_of, find, first_index_of, has_suffix, is_alnum,
    is_ascii_alnum, is_ascii_upper, lemma_first_index_of, lower_of, opt_chars, push_decimal,
    rfind, split_last, str_eq, string_of, string_of_chars, string_of_range, to_lowercase, trim_end,
};
use crate::types::{
    empty_file_message, empty_path_message, message_result, metadata_result, HttpRequest,
    HttpResponse, Metadata, MetadataView, RepoContext,
};
use crate::http::{
    append_chars, artifacts_view, download_response, is_read_method, method_not_allowed,
    not_found, read_method, handle_package_download, respond_method_not_allowed, respond_not_found,
    respond_text, route_segment, routed_segment, text_response, trim_trailing, vec_eq,
    ResponseView,
};
use crate::order::{entries, insert_sorted, is_listing_of, lemma_listing_unique};

verus! {

/// Every maximal run of characters other than ASCII letters and digits
/// replaced by one `-`.
pub open spec fn collapse_separators(s: Seq<char>) -> Seq<char>
    decreases s.len(),
{
    if s.len() == 0 {
        seq![]
    } else if is_ascii_alnum(s.last()) {
        collapse_separators(s.drop_last()).push(s.last())
    } else if s.len() >= 2 && !is_ascii_alnum(s[s.len() - 2]) {
        collapse_separators(s.drop_last())
    } else {
        collapse_separators(s.drop_last()).push('-')
    }
}

/// `s` without its leading `-` characters.
pub open spec fn trim_leading_hyphens(s: Seq<char>) -> Seq<char>
    decreases s.len(),
{
    if s.len() > 0 && s[0] == '-' {
        trim_leading_hyphens(s.drop_first())
    } else {
        s
    }
}

/// `s` without its trailing `-` characters.
pub open spec fn trim_trailing_hyphens(s: Seq<char>) -> Seq<char>
    decreases s.len(),
{
    if s.len() > 0 && s.last() == '-' {
        trim_trailing_hyphens(s.drop_last())
    } else {
        s
    }
}

/// The normalized form of a package name: lowercased, each run of other
/// characters than ASCII letters and digits made one `-`, then trimmed of `-`.
pub open spec fn normalized(name: Seq<char>) -> Seq<char> {
    trim_trailing_hyphens(trim_leading_hyphens(collapse_separators(lower_of(name))))
}

/// Whether `s` holds only lowercase ASCII letters, digits and `-`, never two
/// `-` in a row.
pub open spec fn hyphen_separated(s: Seq<char>) -> bool {
    &&& forall|i: int|
        0 <= i < s.len() ==> (is_ascii_alnum(#[trigger] s[i]) && !is_ascii_upper(s[i])) || s[i]
            == '-'
    &&& forall|i: int| #![trigger s[i]] 1 <= i < s.len() && s[i] == '-' ==> s[i - 1] != '-'
}

/// Whether `s` is a normalized name: lowercase ASCII letters and digits,
/// separated by single `-`, with none at either end.
pub open spec fn is_normal_form(s: Seq<char>) -> bool {
    &&& hyphen_separated(s)
    &&& s.len() > 0 ==> s[0] != '-' && s.last() != '-'
}

proof fn lemma_collapse_shape(x: Seq<char>)
    requires
        forall|i: int| 0 <= i < x.len() ==> !is_ascii_upper(#[trigger] x[i]),
    ensures
        hyphen_separated(collapse_separators(x)),
    decreases x.len(),
{
    if x.len() > 0 {
        let p = x.drop_last();
        assert forall|i: int| 0 <= i < p.len() implies !is_ascii_upper(#[trigger] p[i]) by {
            assert(p[i] == x[i]);
        }
        lemma_collapse_shape(p);
        let c = collapse_separators(p);
        let r = collapse_separators(x);
        if !is_ascii_alnum(x.last()) && !(x.len() >= 2 && !is_ascii_alnum(x[x.len() - 2])) {
            if x.len() >= 2 {
                assert(p.last() == x[x.len() - 2]);
                assert(c.len() > 0 && c.last() == p.last());
            }
            assert(r == c.push('-'));
            assert forall|i: int| #![trigger r[i]] 1 <= i < r.len() && r[i] == '-' implies r[i
                - 1] != '-' by {
                if i < r.len() - 1 {
                    assert(r[i] == c[i] && r[i - 1] == c[i - 1]);
                }
            }
        } else if is_ascii_alnum(x.last()) {
            assert(r == c.push(x.last()));
            assert(!is_ascii_upper(x[x.len() - 1]));
            assert forall|i: int| #![trigger r[i]] 1 <= i < r.len() && r[i] == '-' implies r[i
                - 1] != '-' by {
                assert(r[i] == c[i] && r[i - 1] == c[i - 1]);
            }
        }
    }
}

proof fn lemma_trim_leading(s: Seq<char>) -> (k: int)
    ensures
        0 <= k <= s.len(),
        trim_leading_hyphens(s) == s.subrange(k, s.len() as int),
        trim_leading_hyphens(s).len() > 0 ==> trim_leading_hyphens(s)[0] != '-',
    decreases s.len(),
{
    if s.len() > 0 && s[0] == '-' {
        let k = lemma_trim_leading(s.drop_first());
        assert(s.drop_first().subrange(k, s.len() - 1) =~= s.subrange(k + 1, s.len() as int));
        k + 1
    } else {
        assert(s.subrange(0, s.len() as int) =~= s);
        0
    }
}

proof fn lemma_trim_trailing(s: Seq<char>) -> (k: int)
    ensures
        0 <= k <= s.len(),
        trim_trailing_hyphens(s) == s.subrange(0, k),
        trim_trailing_hyphens(s).len() > 0 ==> trim_trailing_hyphens(s).last() != '-',
    decreases s.len(),
{
    if s.len() > 0 && s.last() == '-' {
        let k = lemma_trim_trailing(s.drop_last());
        assert(s.drop_last().subrange(0, k) =~= s.subrange(0, k));
        k
    } else {
        assert(s.subrange(0, s.len() as int) =~= s);
        s.len() as int
    }
}

proof fn lemma_hyphen_separated_subrange(s: Seq<char>, lo: int, hi: int)
    requires
        hyphen_separated(s),
        0 <= lo <= hi <= s.len(),
    ensures
        hyphen_separated(s.subrange(lo, hi)),
{
    let t = s.subrange(lo, hi);
    assert forall|i: int| 0 <= i < t.len() implies (is_ascii_alnum(#[trigger] t[i])
        && !is_ascii_upper(t[i])) || t[i] == '-' by {
        assert(t[i] == s[lo + i]);
    }
    assert forall|i: int| #![trigger t[i]] 1 <= i < t.len() && t[i] == '-' implies t[i - 1]
        != '-' by {
        assert(t[i] == s[lo + i] && t[i - 1] == s[lo + i - 1]);
    }
}

/// Trimming the collapsed form yields a normal form.
proof fn lemma_trim_normal(c: Seq<char>)
    requires
        hyphen_separated(c),
    ensures
        is_normal_form(trim_trailing_hyphens(trim_leading_hyphens(c))),
{
    let k = lemma_trim_leading(c);
    let t = trim_leading_hyphens(c);
    lemma_hyphen_separated_subrange(c, k, c.len() as int);
    let j = lemma_trim_trailing(t);
    lemma_hyphen_separated_subrange(t, 0, j);
    let u = trim_trailing_hyphens(t);
    if u.len() > 0 {
        assert(u[0] == t[0]);
    }
}

/// A name already in normal form is left as it is by each step.
proof fn lemma_normal_fixed(s: Seq<char>)
    requires
        is_normal_form(s),
    ensures
        s.map_values(|c: char| ascii_lower(c)) == s,
        all_ascii(s),
        collapse_separators(s) == s,
        trim_trailing_hyphens(trim_leading_hyphens(s)) == s,
{
    assert(s.map_values(|c: char| ascii_lower(c)) =~= s);
    lemma_collapse_prefix_fixed(s, s.len() as int);
    assert(s.subrange(0, s.len() as int) =~= s);
}

proof fn lemma_collapse_prefix_fixed(s: Seq<char>, n: int)
    requires
        is_normal_form(s),
        0 <= n <= s.len(),
    ensures
        collapse_separators(s.subrange(0, n)) == s.subrange(0, n),
    decreases n,
{
    if n > 0 {
        let p = s.subrange(0, n);
        lemma_collapse_prefix_fixed(s, n - 1);
        assert(p.drop_last() =~= s.subrange(0, n - 1));
        if !is_ascii_alnum(p.last()) {
            assert(s[n - 1] == '-');
            assert(n >= 2);
            assert(s[n - 2] != '-');
            assert(p[n - 2] == s[n - 2]);
        }
        assert(p.drop_last().push(p.last()) =~= p);
    }
}

/// The stem of a filename with one of the Python extensions, the extension
/// itself decided by the caller.
pub open spec fn stem_without(filename: Seq<char>, ext: Seq<char>) -> Seq<char> {
    drop_end(filename, ext.len())
}

/// The raw package name a Python filename carries: the first `-`-separated
/// field of a wheel, what precedes the last `-` of a source distribution.
pub open spec fn package_name_of(filename: Seq<char>) -> Option<Seq<char>> {
    if has_suffix(filename, ".whl"@) {
        Some(before_first(stem_without(filename, ".whl"@), '-'))
    } else if has_suffix(filename, ".tar.gz"@) {
        let (n, v) = split_last(stem_without(filename, ".tar.gz"@), '-');
        if v is Some { Some(n) } else { None }
    } else if has_suffix(filename, ".zip"@) {
        let (n, v) = split_last(stem_without(filename, ".zip"@), '-');
        if v is Some { Some(n) } else { None }
    } else {
        None
    }
}

/// The second `-`-separated field of `stem`, when it has one.
pub open spec fn second_field(stem: Seq<char>) -> Option<Seq<char>> {
    let k = first_index_of(stem, '-');
    if k >= 0 {
        Some(before_first(stem.subrange(k + 1, stem.len() as int), '-'))
    } else {
        None
    }
}

/// The version a Python filename carries: the second field of a wheel, what
/// follows the last `-` of a source distribution.
pub open spec fn package_version_of(filename: Seq<char>) -> Option<Seq<char>> {
    if has_suffix(filename, ".whl"@) {
        second_field(stem_without(filename, ".whl"@))
    } else if has_suffix(filename, ".tar.gz"@) {
        split_last(stem_without(filename, ".tar.gz"@), '-').1
    } else if has_suffix(filename, ".zip"@) {
        split_last(stem_without(filename, ".zip"@), '-').1
    } else {
        None
    }
}

/// The lowercased stem of a source distribution, when the lowercased
/// filename has one of those extensions.
pub open spec fn sdist_lower_stem(lower: Seq<char>) -> Option<Seq<char>> {
    if has_suffix(lower, ".tar.gz"@) {
        Some(stem_without(lower, ".tar.gz"@))
    } else if has_suffix(lower, ".zip"@) {
        Some(stem_without(lower, ".zip"@))
    } else {
        None
    }
}

/// The checks on a Python filename, given it and its lowercase, in this
/// order: extension (`.whl`, `.tar.gz` or `.zip`), then the structure: a
/// wheel needs at least five `-`-separated fields, a source distribution a
/// `-` in its stem.
pub open spec fn filename_check(filename: Seq<char>, lower: Seq<char>) -> Result<(), Seq<char>> {
    if !(has_suffix(lower, ".whl"@) || has_suffix(lower, ".tar.gz"@) || has_suffix(
        lower,
        ".zip"@,
    )) {
        Err("Expected .whl, .tar.gz, or .zip extension, got: "@ + filename)
    } else if has_suffix(lower, ".whl"@) && count_char(stem_without(lower, ".whl"@), '-') + 1 < 5 {
        Err(
            "Invalid wheel filename: expected at least 5 dash-separated parts (name-version-python-abi-platform), got "@
                + decimal(count_char(stem_without(lower, ".whl"@), '-') + 1) + " in '"@ + filename
                + "'"@,
        )
    } else if sdist_lower_stem(lower) is Some && !sdist_lower_stem(lower)->0.contains('-') {
        Err("Invalid source distribution filename: expected 'name-version' format, got '"@
            + sdist_lower_stem(lower)->0 + "'"@)
    } else {
        Ok(())
    }
}

/// The outcome of validating a Python upload, the checks in this order:
/// empty data, empty path, then `filename_check` on the filename and its
/// lowercase.
pub open spec fn pypi_validation(path: Seq<char>, data: Seq<u8>) -> Result<(), Seq<char>> {
    if data.len() == 0 {
        Err("Python package cannot be empty"@)
    } else if path.len() == 0 {
        Err(empty_path_message())
    } else {
        filename_check(file_name(path), lower_of(file_name(path)))
    }
}

/// Whether `data` opens with the zip local-file magic `50 4b 03 04`.
pub open spec fn has_zip_magic(data: Seq<u8>) -> bool {
    data.len() >= 4 && data[0] == 0x50 && data[1] == 0x4b && data[2] == 0x03 && data[3] == 0x04
}

/// The content type the leading bytes of a Python package show: zip (a
/// wheel or zip source distribution), gzip (a tarball), else a plain octet
/// stream.
pub open spec fn pypi_content_type(data: Seq<u8>) -> Seq<char> {
    if has_zip_magic(data) {
        "application/zip"@
    } else if data.len() >= 2 && data[0] == 0x1f && data[1] == 0x8b {
        "application/gzip"@
    } else {
        "application/octet-stream"@
    }
}

/// The record `parse_metadata` makes of a Python upload.
pub open spec fn pypi_metadata(path: Seq<char>, data: Seq<u8>) -> Result<MetadataView, Seq<char>> {
    if data.len() == 0 {
        Err(empty_file_message())
    } else {
        Ok(
            MetadataView {
                path,
                version: package_version_of(file_name(path)),
                content_type: pypi_content_type(data),
                size_bytes: data.len() as u64,
                checksum_sha256: None,
            },
        )
    }
}

fn count_hyphens(s: &Vec<char>) -> (r: usize)
    ensures
        r == count_char(s@, '-'),
{
    let mut n: usize = 0;
    let mut i: usize = 0;
    while i < s.len()
        invariant
            i <= s.len(),
            n == count_char(s@.subrange(0, i as int), '-'),
            n <= i,
        decreases s.len() - i,
    {
        assert(s@.subrange(0, i + 1).drop_last() =~= s@.subrange(0, i as int));
        if s[i] == '-' {
            n = n + 1;
        }
        i = i + 1;
    }
    assert(s@.subrange(0, s@.len() as int) =~= s@);
    n
}

fn contains_char(s: &Vec<char>, c: char) -> (r: bool)
    ensures
        r == s@.contains(c),
{
    proof {
        lemma_first_index_of(s@, c);
    }
    match find(s, c) {
        Some(_) => true,
        None => false,
    }
}

fn collapse_chars(s: &Vec<char>) -> (r: Vec<char>)
    ensures
        r@ == collapse_separators(s@),
{
    let mut out: Vec<char> = Vec::new();
    let mut prev_was_separator = false;
    let mut i: usize = 0;
    while i < s.len()
        invariant
            i <= s.len(),
            out@ == collapse_separators(s@.subrange(0, i as int)),
            prev_was_separator == (i > 0 && !is_ascii_alnum(s@[i - 1])),
        decreases s.len() - i,
    {
        let ghost pre = s@.subrange(0, i + 1);
        assert(pre.drop_last() =~= s@.subrange(0, i as int));
        let c = s[i];
        if is_alnum(c) {
            prev_was_separator = false;
            out.push(c);
        } else if !prev_was_separator {
            prev_was_separator = true;
            out.push('-');
        }
        i = i + 1;
    }
    assert(s@.subrange(0, s@.len() as int) =~= s@);
    out
}

fn trim_hyphens(s: &Vec<char>) -> (r: Vec<char>)
    ensures
        r@ == trim_trailing_hyphens(trim_leading_hyphens(s@)),
{
    let mut lo: usize = 0;
    assert(s@.subrange(0, s@.len() as int) =~= s@);
    while lo < s.len() && s[lo] == '-'
        invariant
            lo <= s.len(),
            trim_leading_hyphens(s@) == trim_leading_hyphens(s@.subrange(lo as int, s@.len() as int)),
        decreases s.len() - lo,
    {
        assert(s@.subrange(lo as int, s@.len() as int).drop_first() =~= s@.subrange(
            lo + 1,
            s@.len() as int,
        ));
        lo = lo + 1;
    }
    let t = chars_range(s, lo, s.len());
    let mut hi: usize = t.len();
    assert(t@.subrange(0, t@.len() as int) =~= t@);
    while hi > 0 && t[hi - 1] == '-'
        invariant
            hi <= t.len(),
            trim_leading_hyphens(s@) == t@,
            trim_trailing_hyphens(t@) == trim_trailing_hyphens(t@.subrange(0, hi as int)),
        decreases hi,
    {
        assert(t@.subrange(0, hi as int).drop_last() =~= t@.subrange(0, hi - 1));
        hi = hi - 1;
    }
    chars_range(&t, 0, hi)
}

/// Normalizes a Python package name: lowercase, every run of characters
/// other than ASCII letters and digits made one `-`, no `-` at either end.
///
/// The result is in normal form, and a name in normal form is returned
/// unchanged, so normalizing twice is normalizing once.
pub fn normalize_package_name(name: &str) -> (r: String)
    ensures
        r@ == normalized(name@),
        is_normal_form(r@),
        is_normal_form(name@) ==> r@ == name@,
{
    let lower = to_lowercase(name);
    let r = normalize_lowered(lower.as_str());
    proof {
        if is_normal_form(name@) {
            lemma_normal_fixed(name@);
        }
    }
    r
}

/// The normal form of a name already lowercased: every run of characters
/// other than ASCII letters and digits made one `-`, no `-` at either end.
/// Without ASCII uppercase letters in the input, the result is in normal
/// form.
pub fn normalize_lowered(lower: &str) -> (r: String)
    ensures
        r@ == trim_trailing_hyphens(trim_leading_hyphens(collapse_separators(lower@))),
        (forall|i: int| 0 <= i < lower@.len() ==> !is_ascii_upper(#[trigger] lower@[i]))
            ==> is_normal_form(r@),
{
    let chars = chars_of(lower);
    let collapsed = collapse_chars(&chars);
    let trimmed = trim_hyphens(&collapsed);
    proof {
        if forall|i: int| 0 <= i < lower@.len() ==> !is_ascii_upper(#[trigger] lower@[i]) {
            lemma_collapse_shape(lower@);
            lemma_trim_normal(collapsed@);
        }
    }
    string_of_chars(&trimmed)
}

/// The stem of `f` when it ends with `ext`.
fn stem_of(f: &Vec<char>, ext: &str) -> (r: Option<Vec<char>>)
    ensures
        has_suffix(f@, ext@) ==> (r matches Some(v) && v@ == stem_without(f@, ext@)),
        !has_suffix(f@, ext@) ==> r is None,
{
    if ends_with(f, ext) {
        let e = chars_of(ext);
        Some(chars_range(f, 0, f.len() - e.len()))
    } else {
        None
    }
}

/// `s` up to its first `c`, as `before_first` says.
fn chars_before_first(s: &Vec<char>, c: char) -> (r: Vec<char>)
    ensures
        r@ == before_first(s@, c),
{
    proof {
        lemma_first_index_of(s@, c);
    }
    match find(s, c) {
        Some(k) => chars_range(s, 0, k),
        None => {
            assert(s@.subrange(0, s@.len() as int) =~= s@);
            chars_range(s, 0, s.len())
        },
    }
}

/// The name and version halves of a source-distribution stem.
fn split_sdist(stem: &Vec<char>) -> (r: Option<(String, String)>)
    ensures
        match r {
            Some((n, v)) => split_last(stem@, '-') == (n@, Some(v@)),
            None => split_last(stem@, '-').1 is None,
        },
{
    match rfind(stem, '-') {
        Some(k) => {
            assert(k < stem.len());
            Some((string_of_range(stem, 0, k), string_of_range(stem, k + 1, stem.len())))
        },
        None => None,
    }
}

fn sdist_stem(f: &Vec<char>) -> (r: Option<Vec<char>>)
    ensures
        !has_suffix(f@, ".whl"@) && has_suffix(f@, ".tar.gz"@) ==> (r matches Some(v) && v@
            == stem_without(f@, ".tar.gz"@)),
        !has_suffix(f@, ".whl"@) && !has_suffix(f@, ".tar.gz"@) && has_suffix(f@, ".zip"@)
            ==> (r matches Some(v) && v@ == stem_without(f@, ".zip"@)),
        !has_suffix(f@, ".tar.gz"@) && !has_suffix(f@, ".zip"@) ==> r is None,
{
    match stem_of(f, ".tar.gz") {
        Some(s) => Some(s),
        None => stem_of(f, ".zip"),
    }
}

/// The raw package name a Python filename carries, as `package_name_of`
/// says: the first field of a wheel, the part before the last `-` of a
/// source distribution.
pub fn extract_package_name(filename: &str) -> (r: Option<String>)
    ensures
        opt_chars(r) == package_name_of(filename@),
{
    let f = chars_of(filename);
    if let Some(stem) = stem_of(&f, ".whl") {
        return Some(string_of_chars(&chars_before_first(&stem, '-')));
    }
    match sdist_stem(&f) {
        Some(stem) => match split_sdist(&stem) {
            Some((n, _)) => Some(n),
            None => None,
        },
        None => None,
    }
}

/// The version a Python filename carries, as `package_version_of` says: the
/// second field of a wheel, the part after the last `-` of a source
/// distribution.
pub fn extract_version(filename: &str) -> (r: Option<String>)
    ensures
        opt_chars(r) == package_version_of(filename@),
{
    let f = chars_of(filename);
    if let Some(stem) = stem_of(&f, ".whl") {
        proof {
            lemma_first_index_of(stem@, '-');
        }
        return match find(&stem, '-') {
            Some(k) => {
                assert(k < stem.len());
                let rest = chars_range(&stem, k + 1, stem.len());
                Some(string_of_chars(&chars_before_first(&rest, '-')))
            },
            None => None,
        };
    }
    match sdist_stem(&f) {
        Some(stem) => match split_sdist(&stem) {
            Some((_, v)) => Some(v),
            None => None,
        },
        None => None,
    }
}

proof fn lemma_first_hyphen(a: Seq<char>, b: Seq<char>)
    requires
        !a.contains('-'),
    ensures
        first_index_of(a + seq!['-'] + b, '-') == a.len(),
        before_first(a + seq!['-'] + b, '-') == a,
        (a + seq!['-'] + b).subrange(a.len() as int + 1, (a + seq!['-'] + b).len() as int) == b,
{
    let s = a + seq!['-'] + b;
    lemma_first_index_of(s, '-');
    let k = first_index_of(s, '-');
    assert(s[a.len() as int] == '-');
    if 0 <= k < a.len() {
        assert(s[k] == a[k]);
    }
    assert(s.subrange(0, a.len() as int) =~= a);
    assert(s.subrange(a.len() as int + 1, s.len() as int) =~= b);
}

/// For a wheel filename `name-version-py3-none-any.whl` whose name and
/// version hold no `-`, the name and the version read back are exactly
/// `name` and `version`.
pub proof fn lemma_wheel_round_trip(name: Seq<char>, version: Seq<char>)
    requires
        !name.contains('-'),
        !version.contains('-'),
    ensures
        package_name_of(name + "-"@ + version + "-py3-none-any.whl"@) == Some(name),
        package_version_of(name + "-"@ + version + "-py3-none-any.whl"@) == Some(version),
{
    reveal_strlit("-");
    reveal_strlit("-py3-none-any.whl");
    reveal_strlit(".whl");
    let tags = seq!['p', 'y', '3', '-', 'n', 'o', 'n', 'e', '-', 'a', 'n', 'y'];
    let f = name + "-"@ + version + "-py3-none-any.whl"@;
    assert("-py3-none-any.whl"@ =~= seq!['-'] + tags + ".whl"@);
    assert(f.subrange(f.len() - 4, f.len() as int) =~= ".whl"@);
    let stem = stem_without(f, ".whl"@);
    let rest = version + seq!['-'] + tags;
    assert(stem =~= name + seq!['-'] + rest);
    lemma_first_hyphen(name, rest);
    lemma_first_hyphen(version, tags);
}

/// The normalized package name an artifact belongs to, read from its filename.
pub open spec fn package_key(a: MetadataView) -> Option<Seq<char>> {
    match package_name_of(file_name(a.path)) {
        Some(n) => Some(normalized(n)),
        None => None,
    }
}

/// The package names of the artifacts, in their order, repeats kept.
pub open spec fn package_keys(arts: Seq<MetadataView>) -> Seq<Seq<char>>
    decreases arts.len(),
{
    if arts.len() == 0 {
        seq![]
    } else {
        match package_key(arts.last()) {
            Some(k) => package_keys(arts.drop_last()).push(k),
            None => package_keys(arts.drop_last()),
        }
    }
}

/// The distinct package names of the artifacts, sorted.
pub open spec fn package_listing(arts: Seq<MetadataView>) -> Seq<Seq<char>> {
    choose|s: Seq<Seq<char>>| is_listing_of(s, package_keys(arts).to_set())
}

proof fn lemma_package_keys_set(arts: Seq<MetadataView>, x: Seq<char>)
    ensures
        package_keys(arts).to_set().contains(x) <==> exists|i: int|
            0 <= i < arts.len() && package_key(#[trigger] arts[i]) == Some(x),
    decreases arts.len(),
{
    if arts.len() > 0 {
        let p = arts.drop_last();
        lemma_package_keys_set(p, x);
        match package_key(arts.last()) {
            Some(k) => {
                package_keys(p).lemma_push_to_set_commute(k);
            },
            None => {},
        }
        if exists|i: int| 0 <= i < p.len() && package_key(#[trigger] p[i]) == Some(x) {
            let i = choose|i: int| 0 <= i < p.len() && package_key(#[trigger] p[i]) == Some(x);
            assert(arts[i] == p[i]);
        }
        if exists|i: int| 0 <= i < arts.len() && package_key(#[trigger] arts[i]) == Some(x) {
            let i = choose|i: int| 0 <= i < arts.len() && package_key(#[trigger] arts[i]) == Some(x);
            if i < arts.len() - 1 {
                assert(p[i] == arts[i]);
            }
        }
    }
}

/// The listing of package names, and so the root index page, depends only on
/// which artifacts there are: not on their order, nor on repeats.
pub proof fn lemma_listing_order_free(a: Seq<MetadataView>, b: Seq<MetadataView>)
    requires
        a.to_set() == b.to_set(),
    ensures
        package_listing(a) == package_listing(b),
{
    assert forall|x: Seq<char>| package_keys(a).to_set().contains(x) implies package_keys(
        b,
    ).to_set().contains(x) by {
        lemma_package_keys_set(a, x);
        lemma_package_keys_set(b, x);
        let i = choose|i: int| 0 <= i < a.len() && package_key(#[trigger] a[i]) == Some(x);
        assert(a.to_set().contains(a[i]));
        let j = choose|j: int| 0 <= j < b.len() && b[j] == a[i];
        assert(package_key(b[j]) == Some(x));
    }
    assert forall|x: Seq<char>| package_keys(b).to_set().contains(x) implies package_keys(
        a,
    ).to_set().contains(x) by {
        lemma_package_keys_set(a, x);
        lemma_package_keys_set(b, x);
        let i = choose|i: int| 0 <= i < b.len() && package_key(#[trigger] b[i]) == Some(x);
        assert(b.to_set().contains(b[i]));
        let j = choose|j: int| 0 <= j < a.len() && a[j] == b[i];
        assert(package_key(a[j]) == Some(x));
    }
    assert(package_keys(a).to_set() =~= package_keys(b).to_set());
}

/// One link per package name, each to `{base}/simple/{name}/`.
pub open spec fn index_links(base: Seq<char>, names: Seq<Seq<char>>) -> Seq<char>
    decreases names.len(),
{
    if names.len() == 0 {
        seq![]
    } else {
        index_links(base, names.drop_last()) + "  <a href=\""@ + base + "/simple/"@
            + names.last() + "/\">"@ + names.last() + "</a>\n"@
    }
}

/// The Simple Repository root page listing `names`.
pub open spec fn simple_index_html(base: Seq<char>, names: Seq<Seq<char>>) -> Seq<char> {
    "<!DOCTYPE html>\n<html>\n<head><title>Simple Index</title></head>\n<body>\n"@ + index_links(
        base,
        names,
    ) + "</body>\n</html>\n"@
}

/// The artifacts of the package whose normalized name is `name`, in order.
pub open spec fn project_artifacts(arts: Seq<MetadataView>, name: Seq<char>) -> Seq<MetadataView>
    decreases arts.len(),
{
    if arts.len() == 0 {
        seq![]
    } else if package_key(arts.last()) == Some(name) {
        project_artifacts(arts.drop_last(), name).push(arts.last())
    } else {
        project_artifacts(arts.drop_last(), name)
    }
}

/// `#sha256={checksum}` when the checksum is known and not empty.
pub open spec fn sha_fragment(checksum: Option<Seq<char>>) -> Seq<char> {
    match checksum {
        Some(c) => if c.len() > 0 {
            "#sha256="@ + c
        } else {
            seq![]
        },
        None => seq![],
    }
}

/// One link per artifact, to `{base}/packages/{filename}` with its checksum
/// fragment.
pub open spec fn file_links(base: Seq<char>, arts: Seq<MetadataView>) -> Seq<char>
    decreases arts.len(),
{
    if arts.len() == 0 {
        seq![]
    } else {
        let a = arts.last();
        file_links(base, arts.drop_last()) + "  <a href=\""@ + base + "/packages/"@ + file_name(
            a.path,
        ) + sha_fragment(a.checksum_sha256) + "\">"@ + file_name(a.path) + "</a>\n"@
    }
}

/// The answer for the project page of `project`: its files with checksum
/// fragments, or 404 when no artifact belongs to it.
pub open spec fn project_page(project: Seq<char>, base: Seq<char>, arts: Seq<MetadataView>) -> ResponseView {
    let name = normalized(project);
    let files = project_artifacts(arts, name);
    if files.len() == 0 {
        text_response(404, "content-type"@, "text/plain"@, "Project '"@ + project + "' not found"@)
    } else {
        text_response(
            200,
            "content-type"@,
            "text/html"@,
            "<!DOCTYPE html>\n<html>\n<head><title>Links for "@ + name
                + "</title></head>\n<body>\n<h1>Links for "@ + name + "</h1>\n"@ + file_links(
                base,
                files,
            ) + "</body>\n</html>\n"@,
        )
    }
}

/// The Simple Repository protocol: the root index at `/`, `/simple` and
/// `/simple/`, a project page at `/simple/{project}/`, a download redirect at
/// `/packages/{filename}`; 405 for methods other than GET and HEAD, 404
/// elsewhere.
pub open spec fn pypi_response(
    method: Seq<char>,
    path: Seq<char>,
    base: Seq<char>,
    download_base: Seq<char>,
    arts: Seq<MetadataView>,
) -> ResponseView {
    if !is_read_method(method) {
        method_not_allowed()
    } else if path == "/simple/"@ || path == "/simple"@ || path == "/"@ {
        text_response(200, "content-type"@, "text/html"@, simple_index_html(base, package_listing(arts)))
    } else {
        let trimmed = trim_end(path, '/');
        match routed_segment(trimmed, "/simple/"@) {
            Some(project) => project_page(project, base, arts),
            None => match routed_segment(trimmed, "/packages/"@) {
                Some(filename) => download_response(filename, download_base, arts),
                None => not_found(),
            },
        }
    }
}

fn package_key_of(a: &Metadata) -> (r: Option<Vec<char>>)
    ensures
        match r {
            Some(k) => package_key(a@) == Some(k@),
            None => package_key(a@) is None,
        },
{
    let f = string_of_chars(&file_name_of(&chars_of(a.path.as_str())));
    match extract_package_name(f.as_str()) {
        Some(n) => Some(chars_of(normalize_package_name(n.as_str()).as_str())),
        None => None,
    }
}

/// The sorted, duplicate-free package names of the artifacts.
fn list_packages(artifacts: &Vec<Metadata>) -> (r: Vec<Vec<char>>)
    ensures
        is_listing_of(entries(r@), package_keys(artifacts_view(artifacts@)).to_set()),
        entries(r@) == package_listing(artifacts_view(artifacts@)),
{
    let ghost arts = artifacts_view(artifacts@);
    let mut out: Vec<Vec<char>> = Vec::new();
    let mut i: usize = 0;
    assert(entries(out@).to_set() =~= package_keys(arts.subrange(0, 0)).to_set());
    while i < artifacts.len()
        invariant
            i <= artifacts.len(),
            arts == artifacts_view(artifacts@),
            is_listing_of(entries(out@), package_keys(arts.subrange(0, i as int)).to_set()),
        decreases artifacts.len() - i,
    {
        assert(arts.subrange(0, i + 1).drop_last() =~= arts.subrange(0, i as int));
        assert(arts.subrange(0, i + 1).last() == artifacts@[i as int]@);
        match package_key_of(&artifacts[i]) {
            Some(k) => {
                insert_sorted(&mut out, k);
                let ghost prev = package_keys(arts.subrange(0, i as int));
                assert(package_keys(arts.subrange(0, i + 1)) == prev.push(k@));
                proof {
                    prev.lemma_push_to_set_commute(k@);
                }
            },
            None => {},
        }
        i = i + 1;
    }
    assert(arts.subrange(0, arts.len() as int) =~= arts);
    proof {
        let s = entries(out@);
        lemma_listing_unique(s, package_listing(arts));
    }
    out
}

/// The Simple Repository root page listing `names`, linked under `base`.
fn render_simple_index(base: &str, names: &Vec<Vec<char>>) -> (r: String)
    ensures
        r@ == simple_index_html(base@, entries(names@)),
{
    let mut html = string_of("<!DOCTYPE html>\n<html>\n<head><title>Simple Index</title></head>\n<body>\n");
    let ghost head = html@;
    let mut i: usize = 0;
    while i < names.len()
        invariant
            i <= names.len(),
            html@ == head + index_links(base@, entries(names@).subrange(0, i as int)),
        decreases names.len() - i,
    {
        let ghost n = entries(names@).subrange(0, i + 1);
        assert(n.drop_last() =~= entries(names@).subrange(0, i as int));
        assert(n.last() == names@[i as int]@);
        append(&mut html, "  <a href=\"");
        append(&mut html, base);
        append(&mut html, "/simple/");
        append_chars(&mut html, &names[i]);
        append(&mut html, "/\">");
        append_chars(&mut html, &names[i]);
        append(&mut html, "</a>\n");
        assert(html@ =~= head + index_links(base@, n));
        i = i + 1;
    }
    assert(entries(names@).subrange(0, names@.len() as int) =~= entries(names@));
    append(&mut html, "</body>\n</html>\n");
    html
}

/// The Simple Repository root index.
fn handle_simple_root(context: &RepoContext, artifacts: &Vec<Metadata>) -> (r: HttpResponse)
    ensures
        r@ == text_response(
            200,
            "content-type"@,
            "text/html"@,
            simple_index_html(context.base_url@, package_listing(artifacts_view(artifacts@))),
        ),
{
    let names = list_packages(artifacts);
    let html = render_simple_index(context.base_url.as_str(), &names);
    respond_text(200, "content-type", string_of("text/html"), html)
}

/// The project page of `project`, as `project_page` says.
fn handle_simple_project(project: &Vec<char>, context: &RepoContext, artifacts: &Vec<Metadata>) -> (r:
    HttpResponse)
    ensures
        r@ == project_page(project@, context.base_url@, artifacts_view(artifacts@)),
{
    let ghost arts = artifacts_view(artifacts@);
    let project_str = string_of_chars(project);
    let name = chars_of(normalize_package_name(project_str.as_str()).as_str());
    let base = context.base_url.as_str();
    let mut links = String::new();
    let mut found: usize = 0;
    let mut i: usize = 0;
    while i < artifacts.len()
        invariant
            i <= artifacts.len(),
            arts == artifacts_view(artifacts@),
            base@ == context.base_url@,
            name@ == normalized(project@),
            found == project_artifacts(arts.subrange(0, i as int), name@).len(),
            found <= i,
            links@ == file_links(base@, project_artifacts(arts.subrange(0, i as int), name@)),
        decreases artifacts.len() - i,
    {
        let ghost pre = arts.subrange(0, i + 1);
        assert(pre.drop_last() =~= arts.subrange(0, i as int));
        assert(pre.last() == artifacts@[i as int]@);
        let a = &artifacts[i];
        let matches = match package_key_of(a) {
            Some(k) => vec_eq(&k, &name),
            None => false,
        };
        if matches {
            let f = file_name_of(&chars_of(a.path.as_str()));
            append(&mut links, "  <a href=\"");
            append(&mut links, base);
            append(&mut links, "/packages/");
            append_chars(&mut links, &f);
            match &a.checksum_sha256 {
                Some(sha) => {
                    if !sha.as_str().is_empty() {
                        append(&mut links, "#sha256=");
                        append(&mut links, sha.as_str());
                    }
                },
                None => {},
            }
            append(&mut links, "\">");
            append_chars(&mut links, &f);
            append(&mut links, "</a>\n");
            found = found + 1;
            proof {
                let m = project_artifacts(arts.subrange(0, i as int), name@);
                assert(project_artifacts(pre, name@) == m.push(a@));
                assert(project_artifacts(pre, name@).drop_last() =~= m);
                assert(links@ =~= file_links(base@, project_artifacts(pre, name@)));
            }
        }
        i = i + 1;
    }
    assert(arts.subrange(0, arts.len() as int) =~= arts);
    if found == 0 {
        let mut text = string_of("Project '");
        append_chars(&mut text, project);
        append(&mut text, "' not found");
        return respond_text(404, "content-type", string_of("text/plain"), text);
    }
    let mut html = string_of("<!DOCTYPE html>\n<html>\n<head><title>Links for ");
    append_chars(&mut html, &name);
    append(&mut html, "</title></head>\n<body>\n<h1>Links for ");
    append_chars(&mut html, &name);
    append(&mut html, "</h1>\n");
    append(&mut html, links.as_str());
    append(&mut html, "</body>\n</html>\n");
    respond_text(200, "content-type", string_of("text/html"), html)
}

/// The catalog entry of one Python artifact: its normalized package name
/// (empty when the filename gives none), path, size, content type and
/// recorded version.
pub open spec fn pypi_entry(a: MetadataView) -> Seq<(Seq<char>, JsonScalar)> {
    seq![
        text_field("content_type"@, a.content_type),
        text_field(
            "name"@,
            match package_key(a) {
                Some(k) => k,
                None => seq![],
            },
        ),
        text_field("path"@, a.path),
        ("size_bytes"@, JsonScalar::Number(a.size_bytes as nat)),
    ] + optional_field("version"@, a.version)
}

/// The documents of a Python index over one or more artifacts: the Simple
/// Repository root page and the JSON catalog.
pub open spec fn pypi_index(arts: Seq<MetadataView>) -> Seq<(Seq<char>, Seq<u8>)> {
    seq![
        ("simple/index.html"@, encode_utf8(simple_index_html(seq![], package_listing(arts)))),
        (
            "pypi-index.json"@,
            encode_utf8(
                catalog_json(
                    "pypi-custom"@,
                    arts.map_values(|a: MetadataView| pypi_entry(a)),
                    arts.len(),
                    total_size(arts),
                ),
            ),
        ),
    ]
}

fn pypi_entry_of(a: &Metadata) -> (r: Vec<Field>)
    ensures
        fields_view(r@) == pypi_entry(a@),
{
    let name = match package_key_of(a) {
        Some(k) => string_of_chars(&k),
        None => String::new(),
    };
    let mut fields: Vec<Field> = Vec::new();
    push_text_field(&mut fields, "content_type", a.content_type.clone());
    push_text_field(&mut fields, "name", name);
    push_text_field(&mut fields, "path", a.path.clone());
    push_number_field(&mut fields, "size_bytes", a.size_bytes);
    let version = match &a.version {
        Some(v) => Some(v.clone()),
        None => None,
    };
    push_optional_field(&mut fields, "version", version);
    assert(fields_view(fields@) =~= pypi_entry(a@));
    fields
}

/// The extension and structure checks of `filename_check` on a filename and
/// its lowercase.
pub fn check_filename(filename: &str, lower: &str) -> (r: Result<(), String>)
    ensures
        message_result(r) == filename_check(filename@, lower@),
{
    let lower = chars_of(lower);
    if !(ends_with(&lower, ".whl") || ends_with(&lower, ".tar.gz") || ends_with(
        &lower,
        ".zip",
    )) {
        let mut msg = string_of("Expected .whl, .tar.gz, or .zip extension, got: ");
        append(&mut msg, filename);
        return Err(msg);
    }
    if let Some(stem) = stem_of(&lower, ".whl") {
        let hyphens = count_hyphens(&stem);
        if hyphens < 4 {
            let mut msg = string_of(
                "Invalid wheel filename: expected at least 5 dash-separated parts (name-version-python-abi-platform), got ",
            );
            push_decimal(&mut msg, hyphens as u128 + 1);
            append(&mut msg, " in '");
            append(&mut msg, filename);
            append(&mut msg, "'");
            return Err(msg);
        }
    }
    let sdist = match stem_of(&lower, ".tar.gz") {
        Some(s) => Some(s),
        None => stem_of(&lower, ".zip"),
    };
    if let Some(stem) = sdist {
        if !contains_char(&stem, '-') {
            let mut msg = string_of(
                "Invalid source distribution filename: expected 'name-version' format, got '",
            );
            append(&mut msg, string_of_chars(&stem).as_str());
            append(&mut msg, "'");
            return Err(msg);
        }
    }
    Ok(())
}

/// The handler for Python wheels and source distributions.
pub struct PypiFormatHandler;

impl PypiFormatHandler {
    /// The key the host routes Python uploads by.
    pub fn format_key() -> (r: String)
        ensures
            r@ == "pypi-custom"@,
    {
        string_of("pypi-custom")
    }

    /// Reads the content type from the leading bytes and the version from
    /// the filename; fails only on empty data.
    pub fn parse_metadata(path: String, data: Vec<u8>) -> (r: Result<Metadata, String>)
        ensures
            metadata_result(r) == pypi_metadata(path@, data@),
    {
        if data.len() == 0 {
            return Err(string_of("Empty file"));
        }
        let f = file_name_of(&chars_of(path.as_str()));
        let filename = string_of_chars(&f);
        let version = extract_version(filename.as_str());
        let content_type = if data.len() >= 4 && data[0] == 0x50 && data[1] == 0x4b && data[2]
            == 0x03 && data[3] == 0x04 {
            string_of("application/zip")
        } else if data.len() >= 2 && data[0] == 0x1f && data[1] == 0x8b {
            string_of("application/gzip")
        } else {
            string_of("application/octet-stream")
        };
        let size = data.len() as u64;
        Ok(Metadata { path, version, content_type, size_bytes: size, checksum_sha256: None })
    }

    /// The strict upload gate for Python packages; see `pypi_validation`.
    pub fn validate(path: String, data: Vec<u8>) -> (r: Result<(), String>)
        ensures
            message_result(r) == pypi_validation(path@, data@),
    {
        if data.len() == 0 {
            return Err(string_of("Python package cannot be empty"));
        }
        if path.as_str().is_empty() {
            return Err(string_of("Artifact path cannot be empty"));
        }
        let filename = string_of_chars(&file_name_of(&chars_of(path.as_str())));
        let lower = to_lowercase(filename.as_str());
        check_filename(filename.as_str(), lower.as_str())
    }

    /// The Simple Repository root page and the JSON catalog of the
    /// artifacts, or no index for none.
    pub fn generate_index(artifacts: Vec<Metadata>) -> (r: Result<Option<Vec<(String, Vec<u8>)>>, String>)
        ensures
            artifacts@.len() == 0 ==> r matches Ok(None),
            artifacts@.len() > 0 ==> (r matches Ok(Some(docs)) && documents_view(docs@) == pypi_index(
                artifacts_view(artifacts@),
            )),
    {
        if artifacts.len() == 0 {
            return Ok(None);
        }
        let ghost arts = artifacts_view(artifacts@);
        let names = list_packages(&artifacts);
        let html = render_simple_index("", &names);
        proof {
            reveal_strlit("");
            assert(""@ =~= Seq::<char>::empty());
        }
        let mut entries: Vec<Vec<Field>> = Vec::new();
        let mut i: usize = 0;
        while i < artifacts.len()
            invariant
                i <= artifacts.len(),
                arts == artifacts_view(artifacts@),
                entries_view(entries@) == arts.subrange(0, i as int).map_values(
                    |a: MetadataView| pypi_entry(a),
                ),
            decreases artifacts.len() - i,
        {
            let e = pypi_entry_of(&artifacts[i]);
            let ghost before = entries@;
            let ghost fe = fields_view(e@);
            entries.push(e);
            assert(entries_view(entries@) =~= entries_view(before).push(fe));
            assert(arts[i as int] == artifacts@[i as int]@);
            assert(arts.subrange(0, i + 1).map_values(|a: MetadataView| pypi_entry(a))
                =~= arts.subrange(0, i as int).map_values(|a: MetadataView| pypi_entry(a)).push(
                pypi_entry(arts[i as int]),
            ));
            i = i + 1;
        }
        assert(arts.subrange(0, arts.len() as int) =~= arts);
        let total = sum_sizes(&artifacts);
        let json = render_catalog("pypi-custom", &entries, artifacts.len(), total);
        let mut docs: Vec<(String, Vec<u8>)> = Vec::new();
        docs.push((string_of("simple/index.html"), html.as_str().as_bytes_vec()));
        docs.push((string_of("pypi-index.json"), json.as_str().as_bytes_vec()));
        assert(documents_view(docs@) =~= pypi_index(arts));
        Ok(Some(docs))
    }

    /// Answers a request of the Simple Repository protocol; see
    /// `pypi_response`. It always succeeds.
    pub fn handle_request(request: HttpRequest, context: RepoContext, artifacts: Vec<Metadata>) -> (r:
        Result<HttpResponse, String>)
        ensures
            r matches Ok(resp) && resp@ == pypi_response(
                request.method@,
                request.path@,
                context.base_url@,
                context.download_base_url@,
                artifacts_view(artifacts@),
            ),
            !is_read_method(request.method@) ==> (r matches Ok(resp) && resp@
                == method_not_allowed()),
    {
        if !read_method(request.method.as_str()) {
            return Ok(respond_method_not_allowed());
        }
        let path = request.path.as_str();
        if str_eq(path, "/simple/") || str_eq(path, "/simple") || str_eq(path, "/") {
            return Ok(handle_simple_root(&context, &artifacts));
        }
        let trimmed = trim_trailing(&chars_of(path), '/');
        if let Some(project) = route_segment(&trimmed, "/simple/") {
            return Ok(handle_simple_project(&project, &context, &artifacts));
        }
        if let Some(filename) = route_segment(&trimmed, "/packages/") {
            return Ok(handle_package_download(&filename, &context.download_base_url, &artifacts));
        }
        Ok(respond_not_found())
    }
}

} // verus!

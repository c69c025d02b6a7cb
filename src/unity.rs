//! Unity asset packages: gzip signature check, the version heuristics over
//! the path, and the JSON catalog.
use vstd::prelude::*;
use vstd::utf8::encode_utf8;
use crate::http::artifacts_view;
use crate::json::{
    catalog_json, documents_view, entries_view, fields_view, optional_field, push_number_field,
    push_optional_field, push_text_field, render_catalog, sum_sizes,
    text_field, total_size, Field, JsonScalar,
};
use crate::text::{
    append, chars_of, chars_range, drop_end, ends_with, file_name, file_name_of, has_suffix,
    hex2, is_ascii_alnum, last_index_of, lemma_last_index_of, lower_of, opt_chars, push_hex2,
    rfind, split_last, string_of, string_of_chars, to_lowercase,
};
use crate::types::{
    empty_file_message, empty_path_message, message_result, metadata_result, Metadata,
    MetadataView,
};

verus! {

/// Whether `c` is an ASCII digit.
pub open spec fn is_ascii_digit(c: char) -> bool {
    '0' <= c && c <= '9'
}

/// `s` without one leading `v`.
pub open spec fn without_v(s: Seq<char>) -> Seq<char> {
    if s.len() > 0 && s[0] == 'v' {
        s.drop_first()
    } else {
        s
    }
}

/// Whether `s` looks like a version: after an optional leading `v`, it starts
/// with a digit, holds a `.`, and has only ASCII letters, digits, `.` and `-`.
pub open spec fn semver_like(s: Seq<char>) -> bool {
    let t = without_v(s);
    &&& t.len() > 0
    &&& is_ascii_digit(t[0])
    &&& t.contains('.')
    &&& forall|i: int| 0 <= i < t.len() ==> is_ascii_alnum(#[trigger] t[i]) || t[i] == '.' || t[i] == '-'
}

/// The right-most `/`-separated segment of `p` that looks like a version.
pub open spec fn segment_version(p: Seq<char>) -> Option<Seq<char>>
    decreases p.len(),
{
    let k = last_index_of(p, '/');
    let seg = p.subrange(k + 1, p.len() as int);
    if semver_like(seg) {
        Some(seg)
    } else if 0 <= k < p.len() {
        segment_version(p.subrange(0, k))
    } else {
        None
    }
}

/// The filename without its extension: `.unitypackage`, else whatever follows
/// the last `.`; nothing when there is no `.`.
pub open spec fn asset_stem(filename: Seq<char>) -> Option<Seq<char>> {
    if has_suffix(filename, ".unitypackage"@) {
        Some(drop_end(filename, ".unitypackage"@.len()))
    } else {
        let (s, ext) = split_last(filename, '.');
        if ext is Some { Some(s) } else { None }
    }
}

/// What follows the first `-` at or after `from` in `stem` that is directly
/// followed by a digit and by a version-like remainder.
pub open spec fn dash_version(stem: Seq<char>, from: int) -> Option<Seq<char>>
    decreases stem.len() - from,
{
    if from < 0 || from >= stem.len() {
        None
    } else {
        let rest = stem.subrange(from + 1, stem.len() as int);
        if stem[from] == '-' && rest.len() > 0 && is_ascii_digit(rest[0]) && semver_like(rest) {
            Some(rest)
        } else {
            dash_version(stem, from + 1)
        }
    }
}

/// The version of a Unity asset path: a version-like path segment, the
/// right-most first; else the version after a `-` in the filename stem.
pub open spec fn asset_version(path: Seq<char>) -> Option<Seq<char>> {
    match segment_version(path) {
        Some(v) => Some(v),
        None => match asset_stem(file_name(path)) {
            Some(stem) => dash_version(stem, 0),
            None => None,
        },
    }
}

/// Whether `data` opens with the gzip magic.
pub open spec fn has_gzip_magic(data: Seq<u8>) -> bool {
    data.len() >= 2 && data[0] == 0x1f && data[1] == 0x8b
}

/// The outcome of validating a Unity upload, the checks in this order:
/// empty data, empty path, `.unitypackage` extension (any case), at least two
/// bytes, gzip magic, deflate method byte when a third byte is present.
pub open spec fn unity_validation(path: Seq<char>, data: Seq<u8>) -> Result<(), Seq<char>> {
    if data.len() == 0 {
        Err("Unity package cannot be empty"@)
    } else if path.len() == 0 {
        Err(empty_path_message())
    } else if !has_suffix(lower_of(path), ".unitypackage"@) {
        Err("Expected .unitypackage extension, got: "@ + file_name(path))
    } else if data.len() < 2 {
        Err("File too small to be a valid gzip archive"@)
    } else if data[0] != 0x1f || data[1] != 0x8b {
        Err("Invalid gzip header: expected [1f, 8b], got ["@ + hex2(data[0]) + ", "@ + hex2(data[1])
            + "]"@)
    } else if data.len() >= 3 && data[2] != 0x08 {
        Err("Unsupported gzip compression method: "@ + hex2(data[2]) + " (expected 08/deflate)"@)
    } else {
        Ok(())
    }
}

/// The record `parse_metadata` makes of a Unity upload.
pub open spec fn unity_metadata(path: Seq<char>, data: Seq<u8>) -> Result<MetadataView, Seq<char>> {
    if data.len() == 0 {
        Err(empty_file_message())
    } else {
        Ok(
            MetadataView {
                path,
                version: asset_version(path),
                content_type: if has_gzip_magic(data) {
                    "application/gzip"@
                } else {
                    "application/octet-stream"@
                },
                size_bytes: data.len() as u64,
                checksum_sha256: None,
            },
        )
    }
}

fn is_digit(c: char) -> (r: bool)
    ensures
        r == is_ascii_digit(c),
{
    '0' <= c && c <= '9'
}

fn semver_chars(s: &Vec<char>) -> (r: bool)
    ensures
        r == semver_like(s@),
{
    let start: usize = if s.len() > 0 && s[0] == 'v' {
        1
    } else {
        0
    };
    let ghost t = without_v(s@);
    assert(t =~= s@.subrange(start as int, s@.len() as int));
    if start >= s.len() || !is_digit(s[start]) {
        return false;
    }
    let mut has_dot = false;
    let mut i: usize = start;
    while i < s.len()
        invariant
            start <= i <= s.len(),
            t =~= s@.subrange(start as int, s@.len() as int),
            t == without_v(s@),
            has_dot == exists|j: int| start <= j < i && s@[j] == '.',
            forall|j: int|
                start <= j < i ==> is_ascii_alnum(#[trigger] s@[j]) || s@[j] == '.' || s@[j] == '-',
        decreases s.len() - i,
    {
        let c = s[i];
        if !(('a' <= c && c <= 'z') || ('A' <= c && c <= 'Z') || is_digit(c) || c == '.' || c
            == '-') {
            assert(t[(i - start) as int] == c);
            assert(!(is_ascii_alnum(t[(i - start) as int]) || t[(i - start) as int] == '.'
                || t[(i - start) as int] == '-'));
            return false;
        }
        if c == '.' {
            has_dot = true;
        }
        i = i + 1;
    }
    assert(has_dot == t.contains('.')) by {
        if has_dot {
            let j = choose|j: int| start <= j < s.len() && s@[j] == '.';
            assert(t[j - start] == '.');
        }
        if t.contains('.') {
            let j = choose|j: int| 0 <= j < t.len() && t[j] == '.';
            assert(s@[start + j] == '.');
        }
    }
    assert forall|j: int| 0 <= j < t.len() implies is_ascii_alnum(#[trigger] t[j]) || t[j] == '.'
        || t[j] == '-' by {
        assert(t[j] == s@[start + j]);
    }
    has_dot
}

/// Whether `s` looks like a version, as `semver_like` says.
pub fn is_semver_like(s: &str) -> (r: bool)
    ensures
        r == semver_like(s@),
{
    semver_chars(&chars_of(s))
}

fn segment_version_chars(p: &Vec<char>) -> (r: Option<String>)
    ensures
        opt_chars(r) == segment_version(p@),
{
    let mut cur = chars_range(p, 0, p.len());
    assert(p@.subrange(0, p@.len() as int) =~= p@);
    loop
        invariant
            segment_version(p@) == segment_version(cur@),
        decreases cur.len(),
    {
        proof {
            lemma_last_index_of(cur@, '/');
        }
        let found = rfind(&cur, '/');
        let start: usize = match found {
            Some(k) => k + 1,
            None => 0,
        };
        let seg = chars_range(&cur, start, cur.len());
        if semver_chars(&seg) {
            return Some(string_of_chars(&seg));
        }
        match found {
            Some(k) => {
                cur = chars_range(&cur, 0, k);
            },
            None => {
                return None;
            },
        }
    }
}

fn asset_stem_chars(f: &Vec<char>) -> (r: Option<Vec<char>>)
    ensures
        match r {
            Some(v) => asset_stem(f@) == Some(v@),
            None => asset_stem(f@) is None,
        },
{
    if ends_with(f, ".unitypackage") {
        let e = chars_of(".unitypackage");
        return Some(chars_range(f, 0, f.len() - e.len()));
    }
    match rfind(f, '.') {
        Some(k) => Some(chars_range(f, 0, k)),
        None => None,
    }
}

fn dash_version_chars(stem: &Vec<char>) -> (r: Option<String>)
    ensures
        opt_chars(r) == dash_version(stem@, 0),
{
    let mut i: usize = 0;
    while i < stem.len()
        invariant
            i <= stem.len(),
            dash_version(stem@, 0) == dash_version(stem@, i as int),
        decreases stem.len() - i,
    {
        if stem[i] == '-' {
            let rest = chars_range(stem, i + 1, stem.len());
            if rest.len() > 0 && is_digit(rest[0]) && semver_chars(&rest) {
                return Some(string_of_chars(&rest));
            }
        }
        i = i + 1;
    }
    None
}

/// The version of a Unity asset path, as `asset_version` says: first a
/// version-like path segment from the right, then the part of the filename
/// stem after the first `-` that starts a version.
pub fn extract_version_from_path(path: &str) -> (r: Option<String>)
    ensures
        opt_chars(r) == asset_version(path@),
{
    let p = chars_of(path);
    if let Some(v) = segment_version_chars(&p) {
        return Some(v);
    }
    let f = file_name_of(&p);
    match asset_stem_chars(&f) {
        Some(stem) => dash_version_chars(&stem),
        None => None,
    }
}

/// The catalog entry of one Unity artifact.
pub open spec fn unity_entry(a: MetadataView) -> Seq<(Seq<char>, JsonScalar)> {
    seq![
        text_field("content_type"@, a.content_type),
        text_field("path"@, a.path),
        ("size_bytes"@, JsonScalar::Number(a.size_bytes as nat)),
    ] + optional_field("version"@, a.version)
}

/// The documents of a Unity catalog over one or more artifacts.
pub open spec fn unity_index(arts: Seq<MetadataView>) -> Seq<(Seq<char>, Seq<u8>)> {
    seq![
        (
            "unity-index.json"@,
            encode_utf8(
                catalog_json(
                    "unity"@,
                    arts.map_values(|a: MetadataView| unity_entry(a)),
                    arts.len(),
                    total_size(arts),
                ),
            ),
        ),
    ]
}

fn unity_entry_of(a: &Metadata) -> (r: Vec<Field>)
    ensures
        fields_view(r@) == unity_entry(a@),
{
    let mut fields: Vec<Field> = Vec::new();
    push_text_field(&mut fields, "content_type", a.content_type.clone());
    push_text_field(&mut fields, "path", a.path.clone());
    push_number_field(&mut fields, "size_bytes", a.size_bytes);
    let version = match &a.version {
        Some(v) => Some(v.clone()),
        None => None,
    };
    push_optional_field(&mut fields, "version", version);
    assert(fields_view(fields@) =~= unity_entry(a@));
    fields
}

/// The handler for Unity asset packages.
pub struct UnityFormatHandler;

impl UnityFormatHandler {
    /// The key the host routes Unity uploads by.
    pub fn format_key() -> (r: String)
        ensures
            r@ == "unity"@,
    {
        string_of("unity")
    }

    /// Reads the content type from the gzip magic and the version from the
    /// path; fails only on empty data.
    pub fn parse_metadata(path: String, data: Vec<u8>) -> (r: Result<Metadata, String>)
        ensures
            metadata_result(r) == unity_metadata(path@, data@),
    {
        if data.len() == 0 {
            return Err(string_of("Empty file"));
        }
        let version = extract_version_from_path(path.as_str());
        let content_type = if data.len() >= 2 && data[0] == 0x1f && data[1] == 0x8b {
            string_of("application/gzip")
        } else {
            string_of("application/octet-stream")
        };
        let size = data.len() as u64;
        Ok(Metadata { path, version, content_type, size_bytes: size, checksum_sha256: None })
    }

    /// The strict upload gate for Unity packages; see `unity_validation`.
    pub fn validate(path: String, data: Vec<u8>) -> (r: Result<(), String>)
        ensures
            message_result(r) == unity_validation(path@, data@),
    {
        if data.len() == 0 {
            return Err(string_of("Unity package cannot be empty"));
        }
        if path.as_str().is_empty() {
            return Err(string_of("Artifact path cannot be empty"));
        }
        let lower = chars_of(to_lowercase(path.as_str()).as_str());
        if !ends_with(&lower, ".unitypackage") {
            let mut msg = string_of("Expected .unitypackage extension, got: ");
            let name = file_name_of(&chars_of(path.as_str()));
            append(&mut msg, string_of_chars(&name).as_str());
            return Err(msg);
        }
        if data.len() < 2 {
            return Err(string_of("File too small to be a valid gzip archive"));
        }
        if data[0] != 0x1f || data[1] != 0x8b {
            let mut msg = string_of("Invalid gzip header: expected [1f, 8b], got [");
            push_hex2(&mut msg, data[0]);
            append(&mut msg, ", ");
            push_hex2(&mut msg, data[1]);
            append(&mut msg, "]");
            return Err(msg);
        }
        if data.len() >= 3 && data[2] != 0x08 {
            let mut msg = string_of("Unsupported gzip compression method: ");
            push_hex2(&mut msg, data[2]);
            append(&mut msg, " (expected 08/deflate)");
            return Err(msg);
        }
        Ok(())
    }

    /// The JSON catalog of the artifacts, or no index for none.
    pub fn generate_index(artifacts: Vec<Metadata>) -> (r: Result<Option<Vec<(String, Vec<u8>)>>, String>)
        ensures
            artifacts@.len() == 0 ==> r matches Ok(None),
            artifacts@.len() > 0 ==> (r matches Ok(Some(docs)) && documents_view(docs@) == unity_index(
                artifacts_view(artifacts@),
            )),
    {
        if artifacts.len() == 0 {
            return Ok(None);
        }
        let ghost arts = artifacts_view(artifacts@);
        let mut entries: Vec<Vec<Field>> = Vec::new();
        let mut i: usize = 0;
        while i < artifacts.len()
            invariant
                i <= artifacts.len(),
                arts == artifacts_view(artifacts@),
                entries_view(entries@) == arts.subrange(0, i as int).map_values(
                    |a: MetadataView| unity_entry(a),
                ),
            decreases artifacts.len() - i,
        {
            let e = unity_entry_of(&artifacts[i]);
            let ghost before = entries@;
            let ghost fe = fields_view(e@);
            entries.push(e);
            assert(entries_view(entries@) =~= entries_view(before).push(fe));
            assert(arts[i as int] == artifacts@[i as int]@);
            assert(arts.subrange(0, i + 1).map_values(|a: MetadataView| unity_entry(a))
                =~= arts.subrange(0, i as int).map_values(|a: MetadataView| unity_entry(a)).push(
                unity_entry(arts[i as int]),
            ));
            i = i + 1;
        }
        assert(arts.subrange(0, arts.len() as int) =~= arts);
        let total = sum_sizes(&artifacts);
        let json = render_catalog("unity", &entries, artifacts.len(), total);
        let mut docs: Vec<(String, Vec<u8>)> = Vec::new();
        docs.push((string_of("unity-index.json"), json.as_str().as_bytes_vec()));
        assert(documents_view(docs@) =~= unity_index(arts));
        Ok(Some(docs))
    }
}

} // verus!

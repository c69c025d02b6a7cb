//! RPM packages: the right-to-left NVRA filename grammar, the lead check,
//! the JSON catalog and the YUM/DNF repodata feed.
use vstd::prelude::*;
use vstd::utf8::encode_utf8;
use crate::codec::{gzip_compress, gzip_of};
use crate::json::{
    catalog_json, documents_view, entries_view, fields_view, optional_field, push_number_field,
    push_optional_field, push_text_field, render_catalog, sum_sizes,
    text_field, total_size, Field, JsonScalar,
};
use crate::http::{
    artifacts_view, download_response, is_read_method, method_not_allowed, not_found,
    read_method, handle_package_download, respond_method_not_allowed, respond_not_found, respond_text,
    text_response, trim_trailing, ResponseView,
};
use crate::text::{
    append, chars_of, chars_range, decimal, drop_end, ends_with, file_name, file_name_of,
    has_prefix, has_suffix, hex2, lower_of, opt_chars, push_char, push_decimal, push_hex2,
    split_at_last, split_last, starts_with, str_eq, string_of, string_of_chars, to_lowercase,
    trim_end,
};
use crate::types::{
    empty_file_message, empty_path_message, message_result, metadata_result, HttpRequest,
    HttpResponse, Metadata, MetadataView, RepoContext,
};

verus! {

/// The fields of an RPM filename, each absent when its separator is missing.
pub struct RpmFields {
    pub name: Option<Seq<char>>,
    pub version: Option<Seq<char>>,
    pub release: Option<Seq<char>>,
    pub arch: Option<Seq<char>>,
}

/// The fields of `name-version-release.arch.rpm`, read from the right: the
/// architecture after the last `.`, then the release and the version after the
/// last `-` of what remains, the name before them. Without the `.rpm`
/// extension nothing is read.
pub open spec fn rpm_fields(filename: Seq<char>) -> RpmFields {
    if !has_suffix(filename, ".rpm"@) {
        RpmFields { name: None, version: None, release: None, arch: None }
    } else {
        let stem = drop_end(filename, ".rpm"@.len());
        let (before_arch, arch) = split_last(stem, '.');
        let (before_release, release) = split_last(before_arch, '-');
        let (name, version) = split_last(before_release, '-');
        RpmFields { name: Some(name), version, release, arch }
    }
}

/// The version an RPM path reports: `version-release`, or the version alone.
pub open spec fn rpm_version(path: Seq<char>) -> Option<Seq<char>> {
    let f = rpm_fields(file_name(path));
    match (f.version, f.release) {
        (Some(v), Some(r)) => Some(v + "-"@ + r),
        (Some(v), None) => Some(v),
        _ => None,
    }
}

/// The four bytes that open an RPM lead.
pub open spec fn rpm_magic() -> Seq<u8> {
    seq![0xedu8, 0xabu8, 0xeeu8, 0xdbu8]
}

/// Whether `data` opens with the RPM lead magic.
pub open spec fn has_rpm_magic(data: Seq<u8>) -> bool {
    data.len() >= 4 && data.subrange(0, 4) == rpm_magic()
}

/// The four bytes that open an RPM lead, as an array.
pub const RPM_MAGIC: [u8; 4] = [0xed, 0xab, 0xee, 0xdb];

/// The size of an RPM lead.
pub const RPM_LEAD_SIZE: usize = 96;

/// The outcome of validating an RPM upload, the checks in this order: empty
/// data, empty path, `.rpm` extension (any case), lead size, lead magic.
pub open spec fn rpm_validation(path: Seq<char>, data: Seq<u8>) -> Result<(), Seq<char>> {
    if data.len() == 0 {
        Err("RPM package cannot be empty"@)
    } else if path.len() == 0 {
        Err(empty_path_message())
    } else if !has_suffix(lower_of(path), ".rpm"@) {
        Err("Expected .rpm extension, got: "@ + file_name(path))
    } else if data.len() < RPM_LEAD_SIZE {
        Err("File too small for RPM lead: "@ + decimal(data.len()) + " bytes (minimum 96)"@)
    } else if data.subrange(0, 4) != rpm_magic() {
        Err("Invalid RPM magic: expected [ed, ab, ee, db], got ["@ + hex2(data[0]) + ", "@ + hex2(
            data[1],
        ) + ", "@ + hex2(data[2]) + ", "@ + hex2(data[3]) + "]"@)
    } else {
        Ok(())
    }
}

/// The record `parse_metadata` makes of an RPM upload.
pub open spec fn rpm_metadata(path: Seq<char>, data: Seq<u8>) -> Result<MetadataView, Seq<char>> {
    if data.len() == 0 {
        Err(empty_file_message())
    } else {
        Ok(
            MetadataView {
                path,
                version: rpm_version(path),
                content_type: if has_rpm_magic(data) {
                    "application/x-rpm"@
                } else {
                    "application/octet-stream"@
                },
                size_bytes: data.len() as u64,
                checksum_sha256: None,
            },
        )
    }
}

/// The tokenized fields of an RPM filename.
#[derive(Debug)]
pub struct RpmFileInfo {
    pub name: Option<String>,
    pub version: Option<String>,
    pub release: Option<String>,
    pub arch: Option<String>,
}

impl View for RpmFileInfo {
    type V = RpmFields;

    open spec fn view(&self) -> RpmFields {
        RpmFields {
            name: opt_chars(self.name),
            version: opt_chars(self.version),
            release: opt_chars(self.release),
            arch: opt_chars(self.arch),
        }
    }
}

fn opt_string(o: Option<Vec<char>>) -> (r: Option<String>)
    ensures
        match o {
            Some(v) => opt_chars(r) == Some(v@),
            None => r is None,
        },
{
    match o {
        Some(v) => Some(string_of_chars(&v)),
        None => None,
    }
}

fn parse_rpm_chars(filename: &Vec<char>) -> (r: RpmFileInfo)
    ensures
        r@ == rpm_fields(filename@),
{
    if !ends_with(filename, ".rpm") {
        return RpmFileInfo { name: None, version: None, release: None, arch: None };
    }
    let ext = chars_of(".rpm");
    let stem = chars_range(filename, 0, filename.len() - ext.len());
    let (before_arch, arch) = split_at_last(&stem, '.');
    let (before_release, release) = split_at_last(&before_arch, '-');
    let (name, version) = split_at_last(&before_release, '-');
    RpmFileInfo {
        name: Some(string_of_chars(&name)),
        version: opt_string(version),
        release: opt_string(release),
        arch: opt_string(arch),
    }
}

/// Splits an RPM filename into name, version, release and architecture.
pub fn parse_rpm_filename(filename: &str) -> (r: RpmFileInfo)
    ensures
        r@ == rpm_fields(filename@),
{
    parse_rpm_chars(&chars_of(filename))
}

/// The version of the RPM file that `path` names, as `version-release`.
pub fn extract_version_from_rpm_filename(path: &str) -> (r: Option<String>)
    ensures
        opt_chars(r) == rpm_version(path@),
{
    let name = file_name_of(&chars_of(path));
    let info = parse_rpm_chars(&name);
    match (info.version, info.release) {
        (Some(v), Some(rel)) => {
            let mut out = v;
            append(&mut out, "-");
            append(&mut out, rel.as_str());
            Some(out)
        },
        (Some(v), None) => Some(v),
        _ => None,
    }
}

/// One character escaped for XML text and attributes.
pub open spec fn xml_escape_char(c: char) -> Seq<char> {
    if c == '&' {
        "&amp;"@
    } else if c == '<' {
        "&lt;"@
    } else if c == '>' {
        "&gt;"@
    } else if c == '"' {
        "&quot;"@
    } else if c == '\'' {
        "&apos;"@
    } else {
        seq![c]
    }
}

/// `s` with `&`, `<`, `>`, `"` and `'` replaced by their XML entities.
pub open spec fn xml_escaped(s: Seq<char>) -> Seq<char>
    decreases s.len(),
{
    if s.len() == 0 {
        seq![]
    } else {
        xml_escaped(s.drop_last()) + xml_escape_char(s.last())
    }
}

/// Escapes XML special characters: `&`, `<`, `>`, `"` and `'`.
pub fn xml_escape(s: &str) -> (r: String)
    ensures
        r@ == xml_escaped(s@),
{
    let v = chars_of(s);
    let mut out = String::new();
    let mut i: usize = 0;
    while i < v.len()
        invariant
            i <= v.len(),
            v@ == s@,
            out@ == xml_escaped(v@.subrange(0, i as int)),
        decreases v.len() - i,
    {
        assert(v@.subrange(0, i + 1).drop_last() =~= v@.subrange(0, i as int));
        let c = v[i];
        if c == '&' {
            append(&mut out, "&amp;");
        } else if c == '<' {
            append(&mut out, "&lt;");
        } else if c == '>' {
            append(&mut out, "&gt;");
        } else if c == '"' {
            append(&mut out, "&quot;");
        } else if c == '\'' {
            append(&mut out, "&apos;");
        } else {
            push_char(&mut out, c);
            assert(out@ =~= xml_escaped(v@.subrange(0, i as int)) + seq![c]);
        }
        i = i + 1;
    }
    assert(v@.subrange(0, v@.len() as int) =~= v@);
    out
}

/// The repository index document: where the three metadata files are.
pub const REPOMD_XML: &'static str = "<?xml version=\"1.0\" encoding=\"UTF-8\"?>
<repomd xmlns=\"http://linux.duke.edu/metadata/repo\" xmlns:rpm=\"http://linux.duke.edu/metadata/rpm\">
  <revision>1</revision>
  <data type=\"primary\">
    <location href=\"repodata/primary.xml.gz\"/>
  </data>
  <data type=\"filelists\">
    <location href=\"repodata/filelists.xml.gz\"/>
  </data>
  <data type=\"other\">
    <location href=\"repodata/other.xml.gz\"/>
  </data>
</repomd>
";

/// The file-lists document, with no packages.
pub const FILELISTS_XML: &'static str = "<?xml version=\"1.0\" encoding=\"UTF-8\"?>\n<filelists xmlns=\"http://linux.duke.edu/metadata/filelists\" packages=\"0\">\n</filelists>\n";

/// The other-data document, with no packages.
pub const OTHER_XML: &'static str = "<?xml version=\"1.0\" encoding=\"UTF-8\"?>\n<otherdata xmlns=\"http://linux.duke.edu/metadata/other\" packages=\"0\">\n</otherdata>\n";

/// `o`, or `d` when absent.
pub open spec fn or_default(o: Option<Seq<char>>, d: Seq<char>) -> Seq<char> {
    match o {
        Some(v) => v,
        None => d,
    }
}

/// The `<package>` element of one artifact in the primary document; fields
/// the filename lacks read as `unknown`, `0`, `0` and `x86_64`.
pub open spec fn primary_entry(a: MetadataView) -> Seq<char> {
    let filename = file_name(a.path);
    let f = rpm_fields(filename);
    let name = xml_escaped(or_default(f.name, "unknown"@));
    let ver = xml_escaped(or_default(f.version, "0"@));
    let rel = xml_escaped(or_default(f.release, "0"@));
    let arch = xml_escaped(or_default(f.arch, "x86_64"@));
    "  <package type=\"rpm\">\n    <name>"@ + name + "</name>\n    <arch>"@ + arch
        + "</arch>\n    <version epoch=\"0\" ver=\""@ + ver + "\" rel=\""@ + rel
        + "\"/>\n    <checksum type=\"sha256\" pkgid=\"YES\">"@ + or_default(
        a.checksum_sha256,
        ""@,
    )
        + "</checksum>\n    <summary/>\n    <description/>\n    <packager/>\n    <url/>\n    <size package=\""@
        + decimal(a.size_bytes as nat) + "\" installed=\"0\" archive=\"0\"/>\n    <location href=\"packages/"@
        + xml_escaped(filename)
        + "\"/>\n    <format>\n      <rpm:provides>\n        <rpm:entry name=\""@ + name
        + "\" flags=\"EQ\" epoch=\"0\" ver=\""@ + ver + "\" rel=\""@ + rel
        + "\"/>\n      </rpm:provides>\n    </format>\n  </package>\n"@
}

/// The `<package>` elements of the artifacts, in order.
pub open spec fn primary_entries(arts: Seq<MetadataView>) -> Seq<char>
    decreases arts.len(),
{
    if arts.len() == 0 {
        seq![]
    } else {
        primary_entries(arts.drop_last()) + primary_entry(arts.last())
    }
}

/// The primary metadata document listing every artifact.
pub open spec fn primary_xml(arts: Seq<MetadataView>) -> Seq<char> {
    "<?xml version=\"1.0\" encoding=\"UTF-8\"?>\n<metadata xmlns=\"http://linux.duke.edu/metadata/common\" xmlns:rpm=\"http://linux.duke.edu/metadata/rpm\" packages=\""@
        + decimal(arts.len()) + "\">\n"@ + primary_entries(arts) + "</metadata>\n"@
}

/// A 200 answer carrying `xml` gzip-compressed.
pub open spec fn gzip_response(xml: Seq<char>) -> ResponseView {
    ResponseView {
        status: 200,
        headers: seq![("content-type"@, "application/gzip"@)],
        body: gzip_of(encode_utf8(xml)),
    }
}

/// What follows `/packages/`, else `/Packages/`, when that is one non-empty
/// segment.
pub open spec fn package_segment(trimmed: Seq<char>) -> Option<Seq<char>> {
    let rest = if has_prefix(trimmed, "/packages/"@) {
        Some(trimmed.subrange("/packages/"@.len() as int, trimmed.len() as int))
    } else if has_prefix(trimmed, "/Packages/"@) {
        Some(trimmed.subrange("/Packages/"@.len() as int, trimmed.len() as int))
    } else {
        None
    };
    match rest {
        Some(f) => if f.len() > 0 && !f.contains('/') {
            Some(f)
        } else {
            None
        },
        None => None,
    }
}

/// The YUM/DNF repodata feed: `repomd.xml`, the three compressed metadata
/// documents, and download redirects at `/packages/{filename}` or
/// `/Packages/{filename}`; 405 for methods other than GET and HEAD, 404
/// elsewhere. Trailing `/` of the path are ignored.
pub open spec fn rpm_response(
    method: Seq<char>,
    path: Seq<char>,
    download_base: Seq<char>,
    arts: Seq<MetadataView>,
) -> ResponseView {
    let t = trim_end(path, '/');
    if !is_read_method(method) {
        method_not_allowed()
    } else if t == "/repodata/repomd.xml"@ {
        text_response(200, "content-type"@, "application/xml"@, REPOMD_XML@)
    } else if t == "/repodata/primary.xml.gz"@ {
        gzip_response(primary_xml(arts))
    } else if t == "/repodata/filelists.xml.gz"@ {
        gzip_response(FILELISTS_XML@)
    } else if t == "/repodata/other.xml.gz"@ {
        gzip_response(OTHER_XML@)
    } else {
        match package_segment(t) {
            Some(f) => download_response(f, download_base, arts),
            None => not_found(),
        }
    }
}

fn or_default_string(o: Option<String>, d: &str) -> (r: String)
    ensures
        r@ == or_default(opt_chars(o), d@),
{
    match o {
        Some(v) => v,
        None => string_of(d),
    }
}

/// Appends the `<package>` element of one artifact.
fn push_primary_entry(xml: &mut String, a: &Metadata)
    ensures
        final(xml)@ == old(xml)@ + primary_entry(a@),
{
    let f = file_name_of(&chars_of(a.path.as_str()));
    let filename = string_of_chars(&f);
    let info = parse_rpm_chars(&f);
    let name = xml_escape(or_default_string(info.name, "unknown").as_str());
    let ver = xml_escape(or_default_string(info.version, "0").as_str());
    let rel = xml_escape(or_default_string(info.release, "0").as_str());
    let arch = xml_escape(or_default_string(info.arch, "x86_64").as_str());
    let checksum = match &a.checksum_sha256 {
        Some(c) => c.clone(),
        None => string_of(""),
    };
    let mut e = string_of("  <package type=\"rpm\">\n    <name>");
    append(&mut e, name.as_str());
    append(&mut e, "</name>\n    <arch>");
    append(&mut e, arch.as_str());
    append(&mut e, "</arch>\n    <version epoch=\"0\" ver=\"");
    append(&mut e, ver.as_str());
    append(&mut e, "\" rel=\"");
    append(&mut e, rel.as_str());
    append(&mut e, "\"/>\n    <checksum type=\"sha256\" pkgid=\"YES\">");
    append(&mut e, checksum.as_str());
    append(
        &mut e,
        "</checksum>\n    <summary/>\n    <description/>\n    <packager/>\n    <url/>\n    <size package=\"",
    );
    push_decimal(&mut e, a.size_bytes as u128);
    append(&mut e, "\" installed=\"0\" archive=\"0\"/>\n    <location href=\"packages/");
    append(&mut e, xml_escape(filename.as_str()).as_str());
    append(&mut e, "\"/>\n    <format>\n      <rpm:provides>\n        <rpm:entry name=\"");
    append(&mut e, name.as_str());
    append(&mut e, "\" flags=\"EQ\" epoch=\"0\" ver=\"");
    append(&mut e, ver.as_str());
    append(&mut e, "\" rel=\"");
    append(&mut e, rel.as_str());
    append(&mut e, "\"/>\n      </rpm:provides>\n    </format>\n  </package>\n");
    append(xml, e.as_str());
}

/// The primary metadata document, as `primary_xml` says.
fn render_primary(artifacts: &Vec<Metadata>) -> (r: String)
    ensures
        r@ == primary_xml(artifacts_view(artifacts@)),
{
    let ghost arts = artifacts_view(artifacts@);
    let mut xml = string_of(
        "<?xml version=\"1.0\" encoding=\"UTF-8\"?>\n<metadata xmlns=\"http://linux.duke.edu/metadata/common\" xmlns:rpm=\"http://linux.duke.edu/metadata/rpm\" packages=\"",
    );
    push_decimal(&mut xml, artifacts.len() as u128);
    append(&mut xml, "\">\n");
    let ghost head = xml@;
    let mut i: usize = 0;
    while i < artifacts.len()
        invariant
            i <= artifacts.len(),
            arts == artifacts_view(artifacts@),
            xml@ == head + primary_entries(arts.subrange(0, i as int)),
        decreases artifacts.len() - i,
    {
        assert(arts.subrange(0, i + 1).drop_last() =~= arts.subrange(0, i as int));
        assert(arts.subrange(0, i + 1).last() == artifacts@[i as int]@);
        push_primary_entry(&mut xml, &artifacts[i]);
        assert(xml@ =~= head + primary_entries(arts.subrange(0, i + 1)));
        i = i + 1;
    }
    assert(arts.subrange(0, arts.len() as int) =~= arts);
    append(&mut xml, "</metadata>\n");
    xml
}

/// A 200 answer carrying `xml` gzip-compressed.
fn respond_gzip(xml: &str) -> (r: Result<HttpResponse, String>)
    ensures
        r matches Ok(resp) && resp@ == gzip_response(xml@),
{
    let bytes = xml.as_bytes_vec();
    let body = match gzip_compress(bytes.as_slice()) {
        Ok(b) => b,
        Err(e) => return Err(e),
    };
    let mut headers: Vec<(String, String)> = Vec::new();
    headers.push((string_of("content-type"), string_of("application/gzip")));
    let r = HttpResponse { status: 200, headers, body };
    assert(r@.headers =~= seq![("content-type"@, "application/gzip"@)]);
    Ok(r)
}

/// The repository index document.
fn handle_repomd_xml() -> (r: HttpResponse)
    ensures
        r@ == text_response(200, "content-type"@, "application/xml"@, REPOMD_XML@),
{
    respond_text(200, "content-type", string_of("application/xml"), string_of(REPOMD_XML))
}

/// The primary metadata document, compressed.
fn handle_primary_xml_gz(artifacts: &Vec<Metadata>) -> (r: Result<HttpResponse, String>)
    ensures
        r matches Ok(resp) && resp@ == gzip_response(primary_xml(artifacts_view(artifacts@))),
{
    let xml = render_primary(artifacts);
    respond_gzip(xml.as_str())
}

/// What follows `/packages/` or `/Packages/`, as `package_segment` says.
fn package_segment_of(trimmed: &Vec<char>) -> (r: Option<Vec<char>>)
    ensures
        match r {
            Some(v) => package_segment(trimmed@) == Some(v@),
            None => package_segment(trimmed@) is None,
        },
{
    let rest = if starts_with(trimmed, "/packages/") {
        let p = chars_of("/packages/");
        chars_range(trimmed, p.len(), trimmed.len())
    } else if starts_with(trimmed, "/Packages/") {
        let p = chars_of("/Packages/");
        chars_range(trimmed, p.len(), trimmed.len())
    } else {
        return None;
    };
    if rest.len() == 0 {
        return None;
    }
    let ghost outcome = if !rest@.contains('/') {
        Some(rest@)
    } else {
        None
    };
    assert(package_segment(trimmed@) == outcome);
    let mut i: usize = 0;
    while i < rest.len()
        invariant
            i <= rest.len(),
            package_segment(trimmed@) == outcome,
            outcome == if !rest@.contains('/') {
                Some(rest@)
            } else {
                None
            },
            forall|j: int| 0 <= j < i ==> rest@[j] != '/',
        decreases rest.len() - i,
    {
        if rest[i] == '/' {
            assert(rest@.contains('/'));
            return None;
        }
        i = i + 1;
    }
    Some(rest)
}

/// The catalog entry of one RPM artifact: the filename's fields, the path,
/// the size and the recorded version.
pub open spec fn rpm_entry(a: MetadataView) -> Seq<(Seq<char>, JsonScalar)> {
    let f = rpm_fields(file_name(a.path));
    optional_field("arch"@, f.arch) + optional_field("name"@, f.name) + seq![
        text_field("path"@, a.path),
    ] + optional_field("release"@, f.release) + seq![
        ("size_bytes"@, JsonScalar::Number(a.size_bytes as nat)),
    ] + optional_field("version"@, a.version)
}

/// The documents of an RPM catalog over one or more artifacts.
pub open spec fn rpm_index(arts: Seq<MetadataView>) -> Seq<(Seq<char>, Seq<u8>)> {
    seq![
        (
            "rpm-index.json"@,
            encode_utf8(
                catalog_json(
                    "rpm-custom"@,
                    arts.map_values(|a: MetadataView| rpm_entry(a)),
                    arts.len(),
                    total_size(arts),
                ),
            ),
        ),
    ]
}

fn rpm_entry_of(a: &Metadata) -> (r: Vec<Field>)
    ensures
        fields_view(r@) == rpm_entry(a@),
{
    let info = parse_rpm_chars(&file_name_of(&chars_of(a.path.as_str())));
    let mut fields: Vec<Field> = Vec::new();
    push_optional_field(&mut fields, "arch", info.arch);
    push_optional_field(&mut fields, "name", info.name);
    push_text_field(&mut fields, "path", a.path.clone());
    push_optional_field(&mut fields, "release", info.release);
    push_number_field(&mut fields, "size_bytes", a.size_bytes);
    let version = match &a.version {
        Some(v) => Some(v.clone()),
        None => None,
    };
    push_optional_field(&mut fields, "version", version);
    assert(fields_view(fields@) =~= rpm_entry(a@));
    fields
}

/// The handler for RPM packages.
pub struct RpmFormatHandler;

impl RpmFormatHandler {
    /// The key the host routes RPM uploads by.
    pub fn format_key() -> (r: String)
        ensures
            r@ == "rpm-custom"@,
    {
        string_of("rpm-custom")
    }

    /// Reads the content type from the lead magic and the version from the
    /// filename; fails only on empty data.
    pub fn parse_metadata(path: String, data: Vec<u8>) -> (r: Result<Metadata, String>)
        ensures
            metadata_result(r) == rpm_metadata(path@, data@),
    {
        if data.len() == 0 {
            return Err(string_of("Empty file"));
        }
        let magic = data.len() >= 4 && data[0] == 0xed && data[1] == 0xab && data[2] == 0xee
            && data[3] == 0xdb;
        proof {
            if data@.len() >= 4 {
                if magic {
                    assert(data@.subrange(0, 4) =~= rpm_magic());
                } else {
                    assert(data@.subrange(0, 4) != rpm_magic()) by {
                        let m = rpm_magic();
                        if data@.subrange(0, 4) == m {
                            assert(data@[0] == data@.subrange(0, 4)[0]);
                            assert(data@[1] == data@.subrange(0, 4)[1]);
                            assert(data@[2] == data@.subrange(0, 4)[2]);
                            assert(data@[3] == data@.subrange(0, 4)[3]);
                        }
                    }
                }
            }
        }
        let content_type = if magic {
            string_of("application/x-rpm")
        } else {
            string_of("application/octet-stream")
        };
        let version = extract_version_from_rpm_filename(path.as_str());
        let size = data.len() as u64;
        Ok(Metadata { path, version, content_type, size_bytes: size, checksum_sha256: None })
    }

    /// The strict upload gate for RPM packages; see `rpm_validation`.
    pub fn validate(path: String, data: Vec<u8>) -> (r: Result<(), String>)
        ensures
            message_result(r) == rpm_validation(path@, data@),
    {
        if data.len() == 0 {
            return Err(string_of("RPM package cannot be empty"));
        }
        if path.as_str().is_empty() {
            return Err(string_of("Artifact path cannot be empty"));
        }
        let lower = chars_of(to_lowercase(path.as_str()).as_str());
        if !ends_with(&lower, ".rpm") {
            let mut msg = string_of("Expected .rpm extension, got: ");
            let name = file_name_of(&chars_of(path.as_str()));
            append(&mut msg, string_of_chars(&name).as_str());
            return Err(msg);
        }
        if data.len() < RPM_LEAD_SIZE {
            let mut msg = string_of("File too small for RPM lead: ");
            push_decimal(&mut msg, data.len() as u128);
            append(&mut msg, " bytes (minimum 96)");
            return Err(msg);
        }
        if !(data[0] == 0xed && data[1] == 0xab && data[2] == 0xee && data[3] == 0xdb) {
            let mut msg = string_of("Invalid RPM magic: expected [ed, ab, ee, db], got [");
            push_hex2(&mut msg, data[0]);
            append(&mut msg, ", ");
            push_hex2(&mut msg, data[1]);
            append(&mut msg, ", ");
            push_hex2(&mut msg, data[2]);
            append(&mut msg, ", ");
            push_hex2(&mut msg, data[3]);
            append(&mut msg, "]");
            assert(data@.subrange(0, 4) != rpm_magic()) by {
                if data@.subrange(0, 4) == rpm_magic() {
                    assert(data@[0] == data@.subrange(0, 4)[0]);
                    assert(data@[1] == data@.subrange(0, 4)[1]);
                    assert(data@[2] == data@.subrange(0, 4)[2]);
                    assert(data@[3] == data@.subrange(0, 4)[3]);
                }
            }
            return Err(msg);
        }
        assert(data@.subrange(0, 4) =~= rpm_magic());
        Ok(())
    }

    /// The JSON catalog of the artifacts, or no index for none.
    pub fn generate_index(artifacts: Vec<Metadata>) -> (r: Result<Option<Vec<(String, Vec<u8>)>>, String>)
        ensures
            artifacts@.len() == 0 ==> r matches Ok(None),
            artifacts@.len() > 0 ==> (r matches Ok(Some(docs)) && documents_view(docs@) == rpm_index(
                artifacts_view(artifacts@),
            )),
    {
        if artifacts.len() == 0 {
            return Ok(None);
        }
        let ghost arts = artifacts_view(artifacts@);
        let mut entries: Vec<Vec<Field>> = Vec::new();
        let mut i: usize = 0;
        while i < artifacts.len()
            invariant
                i <= artifacts.len(),
                arts == artifacts_view(artifacts@),
                entries_view(entries@) == arts.subrange(0, i as int).map_values(
                    |a: MetadataView| rpm_entry(a),
                ),
            decreases artifacts.len() - i,
        {
            let e = rpm_entry_of(&artifacts[i]);
            let ghost before = entries@;
            let ghost fe = fields_view(e@);
            entries.push(e);
            assert(entries_view(entries@) =~= entries_view(before).push(fe));
            assert(arts[i as int] == artifacts@[i as int]@);
            assert(arts.subrange(0, i + 1).map_values(|a: MetadataView| rpm_entry(a))
                =~= arts.subrange(0, i as int).map_values(|a: MetadataView| rpm_entry(a)).push(
                rpm_entry(arts[i as int]),
            ));
            i = i + 1;
        }
        assert(arts.subrange(0, arts.len() as int) =~= arts);
        let total = sum_sizes(&artifacts);
        let json = render_catalog("rpm-custom", &entries, artifacts.len(), total);
        let mut docs: Vec<(String, Vec<u8>)> = Vec::new();
        docs.push((string_of("rpm-index.json"), json.as_str().as_bytes_vec()));
        assert(documents_view(docs@) =~= rpm_index(arts));
        Ok(Some(docs))
    }

    /// Answers a request of the repodata feed; see `rpm_response`. It always
    /// succeeds.
    pub fn handle_request(request: HttpRequest, context: RepoContext, artifacts: Vec<Metadata>) -> (r:
        Result<HttpResponse, String>)
        ensures
            r matches Ok(resp) && resp@ == rpm_response(
                request.method@,
                request.path@,
                context.download_base_url@,
                artifacts_view(artifacts@),
            ),
            !is_read_method(request.method@) ==> (r matches Ok(resp) && resp@
                == method_not_allowed()),
    {
        if !read_method(request.method.as_str()) {
            return Ok(respond_method_not_allowed());
        }
        let trimmed = trim_trailing(&chars_of(request.path.as_str()), '/');
        let t = string_of_chars(&trimmed);
        if str_eq(t.as_str(), "/repodata/repomd.xml") {
            return Ok(handle_repomd_xml());
        }
        if str_eq(t.as_str(), "/repodata/primary.xml.gz") {
            return handle_primary_xml_gz(&artifacts);
        }
        if str_eq(t.as_str(), "/repodata/filelists.xml.gz") {
            return respond_gzip(FILELISTS_XML);
        }
        if str_eq(t.as_str(), "/repodata/other.xml.gz") {
            return respond_gzip(OTHER_XML);
        }
        if let Some(filename) = package_segment_of(&trimmed) {
            return Ok(handle_package_download(&filename, &context.download_base_url, &artifacts));
        }
        Ok(respond_not_found())
    }
}

} // verus!
